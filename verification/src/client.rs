//! The client surface: where each page lives under the switch's base
//! URL, the forms the wire protocol requires, the login and transport
//! decisions, and the orchestration that assembles the complete
//! per-VLAN, per-port mapping.
//!
//! The HTTP transport itself — opening the connection, carrying the
//! session cookie, sending the requests these functions describe — is
//! the caller's: every function here goes from plain values to plain
//! values.

use vstd::prelude::*;
use vstd::string::StringExecFns;
use crate::decode;
use crate::digits;
use crate::errors::ProCurveError;
use crate::html;
use crate::model::Description;
use crate::model::Vlan;
use crate::model::VlanPortParticipation;
use crate::text;

verus! {

/// Client of one switch's web management interface.  Holds the base
/// URL (scheme and host, no trailing slash); the session that carries
/// the `SID` cookie across requests is the caller's, threaded past
/// these functions rather than kept as ambient state.
pub struct ProCurveClient {
    pub url: String,
}

/// `e` is the authentication failure for the response `(status, body)`.
pub open spec fn is_authentication_error(e: &ProCurveError, status: u16, body: Seq<char>) -> bool {
    &&& e matches ProCurveError::Authentication { status: s, body: b }
    &&& s == status
    &&& b@ == body
}

/// `e` is the transport failure for `status` during `operation`.
pub open spec fn is_transport_error(e: &ProCurveError, status: u16, operation: Seq<char>) -> bool {
    &&& e matches ProCurveError::Transport { status: s, operation: o }
    &&& s == status
    &&& o@ == operation
}

/// The participation page `body` fetched for `vlan` decodes, and `pp`
/// is its decoding: see [`decode::spec_ports`].
pub open spec fn participation_decodes(
    pp: VlanPortParticipation,
    vlan: Vlan,
    body: Seq<char>,
) -> bool {
    let vals = html::input_values_of(body);
    &&& decode::participation_ok(vals)
    &&& pp.vlan_id == vlan.id
    &&& pp.ports@ == decode::spec_ports(vals, decode::part_block_count(vals.len() as int))
}

/// `e` is the failure of VLAN `vlan`'s participation decode on `body`:
/// the originating decode error, with the offending vlan id attached.
pub open spec fn for_vlan_err_matches(e: &ProCurveError, vlan: Vlan, body: Seq<char>) -> bool {
    let vals = html::input_values_of(body);
    &&& !decode::participation_ok(vals)
    &&& e matches ProCurveError::ForVlan { vlan_id, cause }
    &&& vlan_id == vlan.id
    &&& decode::participation_err_matches(vals, &*cause)
}

impl ProCurveClient {
    pub fn new(url: String) -> (r: ProCurveClient)
        ensures
            r.url@ == url@,
    {
        ProCurveClient { url }
    }

    /// Where the login form is posted.
    pub fn login_url(&self) -> (r: String)
        ensures
            r@ == self.url@ + "/hp_login.html"@,
    {
        let mut r = self.url.clone();
        r.append("/hp_login.html");
        r
    }

    /// Where the device description page is fetched.
    pub fn description_url(&self) -> (r: String)
        ensures
            r@ == self.url@ + "/SysDescription.html"@,
    {
        let mut r = self.url.clone();
        r.append("/SysDescription.html");
        r
    }

    /// Where a VLAN's port-participation page is posted for.
    pub fn vlan_port_participation_url(&self) -> (r: String)
        ensures
            r@ == self.url@ + "/VLANPortParticipation.html"@,
    {
        let mut r = self.url.clone();
        r.append("/VLANPortParticipation.html");
        r
    }

    /// Where the VLAN list page is fetched.
    pub fn vlan_create_config_url(&self) -> (r: String)
        ensures
            r@ == self.url@ + "/VlanCreateConfig.html"@,
    {
        let mut r = self.url.clone();
        r.append("/VlanCreateConfig.html");
        r
    }

    /// Decides the login outcome.  This device class solicits no
    /// password: success is exactly the presence of an `SID` session
    /// cookie in the response.  Without it the whole invocation fails —
    /// the caller must make no further request — and the raw response
    /// status and body are kept for diagnostics.
    pub fn check_login(&self, sid_cookie_present: bool, status: u16, body: String) -> (r: Result<
        (),
        ProCurveError,
    >)
        ensures
            r is Ok <==> sid_cookie_present,
            !sid_cookie_present ==> ({
                &&& r matches Err(e)
                &&& is_authentication_error(&e, status, body@)
            }),
    {
        if sid_cookie_present {
            Ok(())
        } else {
            Err(ProCurveError::Authentication { status, body })
        }
    }

    /// Decodes the device description page fetched from
    /// [`Self::description_url`].
    pub fn describe_switch(&self, body: &str) -> (r: Result<Description, ProCurveError>)
        ensures
            ({
                let vals = html::input_values_of(body@);
                match r {
                    Ok(d) => vals.len() >= decode::DESCRIPTION_FIELDS && decode::description_matches(
                        d,
                        vals,
                    ),
                    Err(e) => vals.len() < decode::DESCRIPTION_FIELDS && crate::errors::is_field_not_found(
                        &e,
                        decode::description_field_name(vals.len() as int),
                    ),
                }
            }),
    {
        decode::html_to_description(body)
    }

    /// Assembles the per-VLAN, per-port mapping from the listed VLANs
    /// and their fetched participation pages, one page per VLAN in list
    /// order.  All-or-nothing: the first page that fails to decode
    /// aborts the whole operation with that VLAN's id attached, and no
    /// participation data at all is returned.
    pub fn describe_vlans(&self, vlans: &Vec<Vlan>, participation_bodies: &Vec<String>) -> (r:
        Result<Vec<VlanPortParticipation>, ProCurveError>)
        requires
            vlans@.len() == participation_bodies@.len(),
            forall|i: int| 0 <= i < vlans@.len() ==> (#[trigger] vlans@[i]).wf(),
        ensures
            match r {
                Ok(parts) => {
                    &&& parts@.len() == vlans@.len()
                    &&& forall|i: int|
                        0 <= i < vlans@.len() ==> participation_decodes(
                            #[trigger] parts@[i],
                            vlans@[i],
                            participation_bodies@[i]@,
                        )
                },
                Err(e) => exists|i: int|
                    {
                        &&& 0 <= i < vlans@.len()
                        &&& #[trigger] for_vlan_err_matches(&e, vlans@[i], participation_bodies@[i]@)
                        &&& forall|j: int|
                            0 <= j < i ==> decode::participation_ok(
                                html::input_values_of(#[trigger] participation_bodies@[j]@),
                            )
                    },
            },
    {
        let mut parts: Vec<VlanPortParticipation> = Vec::new();
        let mut i: usize = 0;
        while i < vlans.len()
            invariant
                vlans@.len() == participation_bodies@.len(),
                forall|k: int| 0 <= k < vlans@.len() ==> (#[trigger] vlans@[k]).wf(),
                i <= vlans@.len(),
                parts@.len() == i,
                forall|j: int|
                    0 <= j < i ==> participation_decodes(
                        #[trigger] parts@[j],
                        vlans@[j],
                        participation_bodies@[j]@,
                    ),
            decreases vlans@.len() - i,
        {
            let vlan = &vlans[i];
            let body = &participation_bodies[i];
            match decode::html_to_vlan_participation(body.as_str(), vlan.id) {
                Ok(pp) => {
                    parts.push(pp);
                },
                Err(cause) => {
                    let err = ProCurveError::ForVlan { vlan_id: vlan.id, cause: Box::new(cause) };
                    proof {
                        let ii = i as int;
                        assert(for_vlan_err_matches(&err, vlans@[ii], participation_bodies@[ii]@));
                        assert forall|j: int| 0 <= j < ii implies decode::participation_ok(
                            html::input_values_of(#[trigger] participation_bodies@[j]@),
                        ) by {
                            assert(participation_decodes(
                                parts@[j],
                                vlans@[j],
                                participation_bodies@[j]@,
                            ));
                        }
                    }
                    return Err(err);
                },
            }
            i = i + 1;
        }
        Ok(parts)
    }
}

/// The form the login handshake posts: the one field `pwd`, empty —
/// this device class requires no credential.
pub fn login_form() -> (r: Vec<(String, String)>)
    ensures
        r@.len() == 1,
        r@[0].0@ == "pwd"@,
        r@[0].1@ == ""@,
{
    let mut r: Vec<(String, String)> = Vec::new();
    r.push((String::from_str("pwd"), String::from_str("")));
    r
}

/// The form that selects one VLAN for the port-participation page:
/// `v_1_1_1` carries the VLAN id as a decimal numeral, beside the two
/// fixed submit fields the firmware expects.
pub fn vlan_select_form(vlan_id: u16) -> (r: Vec<(String, String)>)
    ensures
        r@.len() == 3,
        r@[0].0@ == "v_1_1_1"@,
        r@[0].1@ == digits::spec_decimal(vlan_id as int),
        r@[1].0@ == "submit_flag"@,
        r@[1].1@ == "1"@,
        r@[2].0@ == "submit_target"@,
        r@[2].1@ == "VLANPortParticipation.html"@,
{
    let mut r: Vec<(String, String)> = Vec::new();
    r.push((String::from_str("v_1_1_1"), digits::u16_to_decimal(vlan_id)));
    r.push((String::from_str("submit_flag"), String::from_str("1")));
    r.push((String::from_str("submit_target"), String::from_str("VLANPortParticipation.html")));
    r
}

/// Decides whether a response lets the operation go on: any non-2xx
/// status is a transport failure naming the operation attempted.
pub fn check_status(status: u16, operation: &str) -> (r: Result<(), ProCurveError>)
    ensures
        r is Ok <==> 200 <= status < 300,
        !(200 <= status < 300) ==> ({
            &&& r matches Err(e)
            &&& is_transport_error(&e, status, operation@)
        }),
{
    if 200 <= status && status < 300 {
        Ok(())
    } else {
        Err(ProCurveError::Transport { status, operation: String::from_str(operation) })
    }
}

/// Round trip of the VLAN-selection encoding: the `v_1_1_1` field of
/// [`vlan_select_form`] for id `v`, decoded as the list decoder decodes
/// an id field — trimmed, then parsed — recovers exactly `v`.
pub proof fn lemma_vlan_select_round_trip(v: u16)
    ensures
        digits::spec_parse_u16(text::spec_trim(digits::spec_decimal(v as int))) == Some(v),
{
    digits::lemma_trim_of_decimal(v as int);
    digits::lemma_parse_of_decimal(v);
}

} // verus!
