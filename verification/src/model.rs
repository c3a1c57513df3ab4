//! The data model extracted from the switch: device identity, configured
//! VLANs, and per-VLAN port participation.

use vstd::prelude::*;

verus! {

/// Largest legal VLAN id plus one: VLAN tags are 12-bit values.
pub const VLAN_ID_LIMIT: u16 = 4096;

/// Immutable snapshot of the switch's identity and uptime, decoded from
/// the nine consecutive `<input>` elements of the description page.
/// All fields are free-form text and may be empty.
#[derive(Clone, Debug)]
pub struct Description {
    pub description: String,
    pub name: String,
    pub location: String,
    pub contact: String,
    pub version: String,
    pub object_id: String,
    pub uptime: String,
    pub current_time: String,
    pub current_date: String,
}

/// One configured VLAN, as listed by the switch.  The id lies in the
/// 12-bit VLAN tag space; the name is free-form text.
#[derive(Clone, Debug)]
pub struct Vlan {
    pub id: u16,
    pub name: String,
}

impl Vlan {
    /// The construction-time invariant: the id fits the 12-bit tag space.
    pub open spec fn wf(&self) -> bool {
        self.id < VLAN_ID_LIMIT
    }

    pub fn new(id: u16, name: &str) -> (r: Vlan)
        requires
            id < VLAN_ID_LIMIT,
        ensures
            r.id == id,
            r.name@ == name@,
            r.wf(),
    {
        Vlan { id, name: name.to_owned() }
    }
}

/// A port's participation mode in one VLAN.
#[derive(Clone, Copy, Debug, PartialEq, Eq, Structural)]
pub enum VlanMode {
    Excluded,
    Tagged,
    Untagged,
}

/// The single-character display form of a mode.
pub open spec fn spec_mode_code(m: VlanMode) -> Seq<char> {
    match m {
        VlanMode::Excluded => "E"@,
        VlanMode::Tagged => "T"@,
        VlanMode::Untagged => "U"@,
    }
}

impl VlanMode {
    /// The single-character display form: `T`, `U` or `E`.
    pub fn code(&self) -> (r: &'static str)
        ensures
            r@ == spec_mode_code(*self),
    {
        match *self {
            VlanMode::Excluded => "E",
            VlanMode::Tagged => "T",
            VlanMode::Untagged => "U",
        }
    }
}

/// The participation mode of a single port; wraps one [`VlanMode`].
#[derive(Clone, Copy, Debug, PartialEq, Eq, Structural)]
pub struct VlanPortConfig {
    pub mode: VlanMode,
}

impl VlanPortConfig {
    pub fn new(mode: VlanMode) -> (r: VlanPortConfig)
        ensures
            r.mode == mode,
    {
        VlanPortConfig { mode }
    }
}

/// The per-port participation of every switch port in one VLAN.  Entry
/// `ports[i]` describes port number `i + 1`.
#[derive(Clone, Debug)]
pub struct VlanPortParticipation {
    pub vlan_id: u16,
    pub ports: Vec<VlanPortConfig>,
}

impl VlanPortParticipation {
    /// The construction-time invariant: the id fits the 12-bit tag space.
    pub open spec fn wf(&self) -> bool {
        self.vlan_id < VLAN_ID_LIMIT
    }

    /// The modes of the ports, in port order.
    pub open spec fn modes(&self) -> Seq<VlanMode> {
        self.ports@.map_values(|c: VlanPortConfig| c.mode)
    }

    pub fn new(vlan_id: u16, ports: Vec<VlanPortConfig>) -> (r: VlanPortParticipation)
        requires
            vlan_id < VLAN_ID_LIMIT,
        ensures
            r.vlan_id == vlan_id,
            r.ports == ports,
            r.wf(),
    {
        VlanPortParticipation { vlan_id, ports }
    }
}

} // verus!
