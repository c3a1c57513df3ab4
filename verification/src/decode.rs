//! Positional decoding of the switch's HTML pages.  Each page is read as
//! the ordered sequence of its `<input>` elements' `value` attributes;
//! fixed offset and stride constants slice that sequence into typed
//! records.  The constants are named in one place so that a firmware
//! layout change is a one-place edit.

use vstd::prelude::*;
use vstd::string::StringExecFns;
use crate::digits;
use crate::errors::ProCurveError;
use crate::errors::is_field_not_found;
use crate::errors::is_parse_error;
use crate::errors::is_unexpected_mode;
use crate::html;
use crate::model::Description;
use crate::model::VLAN_ID_LIMIT;
use crate::model::Vlan;
use crate::model::VlanMode;
use crate::model::VlanPortConfig;
use crate::model::VlanPortParticipation;
use crate::text;

verus! {

/// Number of input elements on the description page, one per field.
pub const DESCRIPTION_FIELDS: usize = 9;

/// Inputs to skip at the head of the VLAN list page.
pub const VLAN_LIST_SKIP: usize = 4;

/// Inputs per VLAN row on the VLAN list page.
pub const VLAN_LIST_STRIDE: usize = 4;

/// Unrelated trailing inputs on the VLAN list page.
pub const VLAN_LIST_TRAILER: usize = 6;

/// Inputs to skip at the head of the port-participation page.
pub const PARTICIPATION_SKIP: usize = 6;

/// Inputs per port block on the port-participation page.
pub const PARTICIPATION_STRIDE: usize = 8;

/// Unrelated trailing inputs on the port-participation page.
pub const PARTICIPATION_TRAILER: usize = 6;

/// Largest port number a participation block may carry.
pub const PORT_LIMIT: u16 = 255;

/// The text of one extracted input value: the attribute's text, or the
/// empty string where the element carries no `value` attribute.
pub open spec fn raw_value(v: Option<Seq<char>>) -> Seq<char> {
    match v {
        Some(s) => s,
        None => Seq::empty(),
    }
}

/// The decoded field value at position `i`: the raw value, trimmed.
pub open spec fn field_at(vals: Seq<Option<Seq<char>>>, i: int) -> Seq<char> {
    text::spec_trim(raw_value(vals[i]))
}

/// The decoded field value of one input element, as [`field_at`] states
/// it: the `value` attribute's text trimmed, or empty where absent.
fn field_value(inputs: &Vec<Option<String>>, i: usize) -> (r: String)
    requires
        i < inputs@.len(),
    ensures
        r@ == field_at(inputs.deep_view(), i as int),
{
    match &inputs[i] {
        Some(s) => text::trim(s.as_str()),
        None => {
            proof {
                assert(text::spec_trim(Seq::<char>::empty()) =~= Seq::<char>::empty());
            }
            String::new()
        },
    }
}

/// The field names of the description page, in page order.
pub open spec fn description_field_name(i: int) -> Seq<char> {
    if i == 0 {
        "description"@
    } else if i == 1 {
        "name"@
    } else if i == 2 {
        "location"@
    } else if i == 3 {
        "contact"@
    } else if i == 4 {
        "version"@
    } else if i == 5 {
        "object_id"@
    } else if i == 6 {
        "uptime"@
    } else if i == 7 {
        "current_time"@
    } else {
        "current_date"@
    }
}

/// `d` is the decoding of the description page whose input values are
/// `vals`: the nine fields hold the first nine values in page order.
pub open spec fn description_matches(d: Description, vals: Seq<Option<Seq<char>>>) -> bool {
    &&& d.description@ == field_at(vals, 0)
    &&& d.name@ == field_at(vals, 1)
    &&& d.location@ == field_at(vals, 2)
    &&& d.contact@ == field_at(vals, 3)
    &&& d.version@ == field_at(vals, 4)
    &&& d.object_id@ == field_at(vals, 5)
    &&& d.uptime@ == field_at(vals, 6)
    &&& d.current_time@ == field_at(vals, 7)
    &&& d.current_date@ == field_at(vals, 8)
}

fn description_field_name_exec(i: usize) -> (r: String)
    ensures
        r@ == description_field_name(i as int),
{
    let name: &'static str = match i {
        0 => "description",
        1 => "name",
        2 => "location",
        3 => "contact",
        4 => "version",
        5 => "object_id",
        6 => "uptime",
        7 => "current_time",
        _ => "current_date",
    };
    String::from_str(name)
}

/// Decodes the description page from its input values: the nine fields
/// are the first nine values in order, each trimmed.  With fewer than
/// nine values the page is malformed, and the error names the first
/// field for which no input element was left.
pub fn decode_description(inputs: &Vec<Option<String>>) -> (r: Result<
    Description,
    ProCurveError,
>)
    ensures
        ({
            let vals = inputs.deep_view();
            match r {
                Ok(d) => vals.len() >= DESCRIPTION_FIELDS && description_matches(d, vals),
                Err(e) => vals.len() < DESCRIPTION_FIELDS && is_field_not_found(
                    &e,
                    description_field_name(vals.len() as int),
                ),
            }
        }),
{
    if inputs.len() < DESCRIPTION_FIELDS {
        return Err(ProCurveError::FieldNotFound { field: description_field_name_exec(inputs.len()) });
    }
    Ok(
        Description {
            description: field_value(inputs, 0),
            name: field_value(inputs, 1),
            location: field_value(inputs, 2),
            contact: field_value(inputs, 3),
            version: field_value(inputs, 4),
            object_id: field_value(inputs, 5),
            uptime: field_value(inputs, 6),
            current_time: field_value(inputs, 7),
            current_date: field_value(inputs, 8),
        },
    )
}

/// Decodes the device description page.  The result is determined by
/// the page's input values alone, as [`description_matches`] states.
pub fn html_to_description(body: &str) -> (r: Result<Description, ProCurveError>)
    ensures
        ({
            let vals = html::input_values_of(body@);
            match r {
                Ok(d) => vals.len() >= DESCRIPTION_FIELDS && description_matches(d, vals),
                Err(e) => vals.len() < DESCRIPTION_FIELDS && is_field_not_found(
                    &e,
                    description_field_name(vals.len() as int),
                ),
            }
        }),
{
    let inputs = html::extract_input_values(body);
    decode_description(&inputs)
}

/// Decoding the description page is injective: pages that decode to the
/// same record agree on all nine decoded field values, so distinct
/// well-formed pages decode to distinct records.
pub proof fn lemma_description_injective(
    d: Description,
    v1: Seq<Option<Seq<char>>>,
    v2: Seq<Option<Seq<char>>>,
)
    requires
        description_matches(d, v1),
        description_matches(d, v2),
    ensures
        forall|i: int| 0 <= i < DESCRIPTION_FIELDS ==> field_at(v1, i) == field_at(v2, i),
{
    assert forall|i: int| 0 <= i < DESCRIPTION_FIELDS implies field_at(v1, i) == field_at(
        v2,
        i,
    ) by {
        if i == 0 {
        } else if i == 1 {
        } else if i == 2 {
        } else if i == 3 {
        } else if i == 4 {
        } else if i == 5 {
        } else if i == 6 {
        } else if i == 7 {
        } else {
            assert(field_at(v1, 8) == d.current_date@);
        }
    }
}

/// How many VLAN rows a list page with `n` input values holds: the rows
/// start after the preamble and walk in strides up to the trailer.
pub open spec fn vlan_row_count(n: int) -> int {
    if n < VLAN_LIST_SKIP + VLAN_LIST_TRAILER {
        0
    } else {
        (n - VLAN_LIST_SKIP - VLAN_LIST_TRAILER + (VLAN_LIST_STRIDE - 1)) / (
        VLAN_LIST_STRIDE as int)
    }
}

/// The id field of VLAN row `k`, parsed as a decimal number.
pub open spec fn vlan_id_at(vals: Seq<Option<Seq<char>>>, k: int) -> Option<u16> {
    digits::spec_parse_u16(field_at(vals, VLAN_LIST_SKIP + VLAN_LIST_STRIDE * k))
}

/// Row `k` decodes: its id is numeric and lies in the 12-bit id space.
pub open spec fn vlan_row_ok(vals: Seq<Option<Seq<char>>>, k: int) -> bool {
    match vlan_id_at(vals, k) {
        Some(id) => id < VLAN_ID_LIMIT,
        None => false,
    }
}

/// `v` is the decoding of VLAN row `k`: the row's id, and its name
/// field trimmed.
pub open spec fn vlan_matches(v: Vlan, vals: Seq<Option<Seq<char>>>, k: int) -> bool {
    &&& vlan_id_at(vals, k) == Some(v.id)
    &&& v.name@ == field_at(vals, VLAN_LIST_SKIP + VLAN_LIST_STRIDE * k + 1)
}

/// The whole list page decodes: it is long enough for its layout, and
/// every row's id is a legal VLAN id.
pub open spec fn vlan_list_ok(vals: Seq<Option<Seq<char>>>) -> bool {
    &&& vals.len() >= VLAN_LIST_SKIP + VLAN_LIST_TRAILER
    &&& forall|k: int| 0 <= k < vlan_row_count(vals.len() as int) ==> vlan_row_ok(vals, k)
}

/// What error decoding the list page yields when it fails: a missing
/// field where the page is shorter than its fixed layout, else the
/// parse error of the first row whose id is not a legal number.
pub open spec fn vlan_list_err_matches(vals: Seq<Option<Seq<char>>>, e: &ProCurveError) -> bool {
    if vals.len() < VLAN_LIST_SKIP + VLAN_LIST_TRAILER {
        is_field_not_found(e, "vlan_id"@)
    } else {
        exists|k: int|
            {
                &&& 0 <= k < vlan_row_count(vals.len() as int)
                &&& !(#[trigger] vlan_row_ok(vals, k))
                &&& forall|j: int| 0 <= j < k ==> vlan_row_ok(vals, j)
                &&& is_parse_error(e, field_at(vals, VLAN_LIST_SKIP + VLAN_LIST_STRIDE * k))
            }
    }
}

/// Decodes the VLAN list page from its input values.  Output order is
/// page order; an id that is non-numeric or at least 4096 fails the
/// whole decode at the first such row, and is never clamped.
pub fn decode_vlan_list(inputs: &Vec<Option<String>>) -> (r: Result<Vec<Vlan>, ProCurveError>)
    ensures
        ({
            let vals = inputs.deep_view();
            match r {
                Ok(vlans) => {
                    &&& vlan_list_ok(vals)
                    &&& vlans@.len() == vlan_row_count(vals.len() as int)
                    &&& forall|k: int|
                        0 <= k < vlans@.len() ==> vlan_matches(#[trigger] vlans@[k], vals, k)
                    &&& forall|k: int| 0 <= k < vlans@.len() ==> (#[trigger] vlans@[k]).wf()
                },
                Err(e) => {
                    &&& !vlan_list_ok(vals)
                    &&& vlan_list_err_matches(vals, &e)
                },
            }
        }),
{
    let ghost vals = inputs.deep_view();
    let n = inputs.len();
    if n < VLAN_LIST_SKIP + VLAN_LIST_TRAILER {
        return Err(ProCurveError::FieldNotFound { field: String::from_str("vlan_id") });
    }
    let limit = n - VLAN_LIST_TRAILER;
    let mut vlans: Vec<Vlan> = Vec::new();
    let mut k: usize = 0;
    while VLAN_LIST_SKIP + VLAN_LIST_STRIDE * k < limit
        invariant
            n == vals.len(),
            n >= VLAN_LIST_SKIP + VLAN_LIST_TRAILER,
            limit == n - VLAN_LIST_TRAILER,
            vals == inputs.deep_view(),
            inputs@.len() == n,
            vlans@.len() == k,
            k <= vlan_row_count(n as int),
            forall|j: int| 0 <= j < k ==> vlan_row_ok(vals, j),
            forall|j: int| 0 <= j < k ==> vlan_matches(#[trigger] vlans@[j], vals, j),
            forall|j: int| 0 <= j < k ==> (#[trigger] vlans@[j]).wf(),
        decreases n - k,
    {
        let idx = VLAN_LIST_SKIP + VLAN_LIST_STRIDE * k;
        proof {
            assert(k < vlan_row_count(n as int)) by {
                assert(VLAN_LIST_STRIDE * k < n - VLAN_LIST_SKIP - VLAN_LIST_TRAILER);
            };
        }
        let id_text = field_value(inputs, idx);
        let parsed = digits::parse_u16(id_text.as_str());
        let bad = match parsed {
            None => true,
            Some(id) => id >= VLAN_ID_LIMIT,
        };
        if bad {
            let err = ProCurveError::Parse { text: id_text };
            proof {
                let kk = k as int;
                assert(!vlan_row_ok(vals, kk));
                assert(is_parse_error(&err, field_at(vals, VLAN_LIST_SKIP + VLAN_LIST_STRIDE * kk)));
                assert(vlan_list_err_matches(vals, &err));
            }
            return Err(err);
        }
        let id = parsed.unwrap();
        let name = field_value(inputs, idx + 1);
        vlans.push(Vlan::new(id, name.as_str()));
        k = k + 1;
    }
    proof {
        assert(k >= vlan_row_count(n as int)) by {
            assert(VLAN_LIST_STRIDE * k >= n - VLAN_LIST_SKIP - VLAN_LIST_TRAILER);
        };
    }
    Ok(vlans)
}

/// Decodes the VLAN configuration page.  The result is determined by
/// the page's input values alone, row by row in page order.
pub fn html_to_vlan_configuration(body: &str) -> (r: Result<Vec<Vlan>, ProCurveError>)
    ensures
        ({
            let vals = html::input_values_of(body@);
            match r {
                Ok(vlans) => {
                    &&& vlan_list_ok(vals)
                    &&& vlans@.len() == vlan_row_count(vals.len() as int)
                    &&& forall|k: int|
                        0 <= k < vlans@.len() ==> vlan_matches(#[trigger] vlans@[k], vals, k)
                    &&& forall|k: int| 0 <= k < vlans@.len() ==> (#[trigger] vlans@[k]).wf()
                },
                Err(e) => {
                    &&& !vlan_list_ok(vals)
                    &&& vlan_list_err_matches(vals, &e)
                },
            }
        }),
{
    let inputs = html::extract_input_values(body);
    decode_vlan_list(&inputs)
}

/// On a well-formed list page the stride divides the rows exactly, and
/// the decoded list's length is the input count less the preamble and
/// trailer, divided by the stride.
pub proof fn lemma_vlan_list_length(n: int)
    requires
        n >= VLAN_LIST_SKIP + VLAN_LIST_TRAILER,
        (n - VLAN_LIST_SKIP - VLAN_LIST_TRAILER) % (VLAN_LIST_STRIDE as int) == 0,
    ensures
        vlan_row_count(n) == (n - VLAN_LIST_SKIP - VLAN_LIST_TRAILER) / (VLAN_LIST_STRIDE as int),
{
}

/// How the two marker texts of a participation block combine into a
/// port's mode.  Exactly three pairs are legal; everything else —
/// `Exclude` + `Tagged` included — is a decode failure.
pub open spec fn spec_mode_pair(ie: Seq<char>, tm: Seq<char>) -> Option<VlanMode> {
    if ie == "Include"@ && tm == "Tagged"@ {
        Some(VlanMode::Tagged)
    } else if ie == "Include"@ && tm == "UnTagged"@ {
        Some(VlanMode::Untagged)
    } else if ie == "Exclude"@ && tm == "UnTagged"@ {
        Some(VlanMode::Excluded)
    } else {
        None
    }
}

/// Maps an include/exclude marker and a tag-mode marker to the port's
/// mode, or reports the illegal pair.
pub fn mode_of_markers(ie: &str, tm: &str) -> (r: Result<VlanMode, ProCurveError>)
    ensures
        match r {
            Ok(m) => spec_mode_pair(ie@, tm@) == Some(m),
            Err(e) => spec_mode_pair(ie@, tm@) is None && is_unexpected_mode(&e, ie@, tm@),
        },
{
    let is_included = text::str_eq(ie, "Include");
    let is_excluded = text::str_eq(ie, "Exclude");
    let tagged = text::str_eq(tm, "Tagged");
    let untagged = text::str_eq(tm, "UnTagged");
    if is_included && tagged {
        Ok(VlanMode::Tagged)
    } else if is_included && untagged {
        Ok(VlanMode::Untagged)
    } else if is_excluded && untagged {
        Ok(VlanMode::Excluded)
    } else {
        Err(
            ProCurveError::UnexpectedMode {
                include_exclude: String::from_str(ie),
                tag_mode: String::from_str(tm),
            },
        )
    }
}

/// How many port blocks a participation page with `n` input values
/// holds.
pub open spec fn part_block_count(n: int) -> int {
    if n < PARTICIPATION_SKIP + PARTICIPATION_TRAILER {
        0
    } else {
        (n - PARTICIPATION_SKIP - PARTICIPATION_TRAILER + (PARTICIPATION_STRIDE - 1)) / (
        PARTICIPATION_STRIDE as int)
    }
}

/// The first input index of port block `k`.
pub open spec fn block_base(k: int) -> int {
    PARTICIPATION_SKIP + PARTICIPATION_STRIDE * k
}

/// The port number of block `k`, parsed as a decimal number.
pub open spec fn port_at(vals: Seq<Option<Seq<char>>>, k: int) -> Option<u16> {
    digits::spec_parse_u16(field_at(vals, block_base(k)))
}

/// The mode of block `k`, from its two marker fields.
pub open spec fn mode_at(vals: Seq<Option<Seq<char>>>, k: int) -> Option<VlanMode> {
    spec_mode_pair(field_at(vals, block_base(k) + 2), field_at(vals, block_base(k) + 3))
}

/// Block `k` decodes: its port number is numeric, positive and within
/// the port limit, and its marker pair is one of the three legal ones.
pub open spec fn part_block_ok(vals: Seq<Option<Seq<char>>>, k: int) -> bool {
    &&& match port_at(vals, k) {
        Some(p) => 1 <= p <= PORT_LIMIT,
        None => false,
    }
    &&& mode_at(vals, k) is Some
}

/// The port number of block `k`, when the block decodes.
pub open spec fn port_of(vals: Seq<Option<Seq<char>>>, k: int) -> int
    recommends
        part_block_ok(vals, k),
{
    match port_at(vals, k) {
        Some(p) => p as int,
        None => 1,
    }
}

/// The mode of block `k`, when the block decodes.
pub open spec fn mode_of(vals: Seq<Option<Seq<char>>>, k: int) -> VlanMode
    recommends
        part_block_ok(vals, k),
{
    match mode_at(vals, k) {
        Some(m) => m,
        None => VlanMode::Excluded,
    }
}

/// Places one decoded block into the port sequence: the sequence grows
/// with `Excluded` entries until it accommodates the port number, and
/// the entry at `port - 1` becomes the block's mode.  A later block for
/// the same port overwrites an earlier one.
pub open spec fn place_config(
    ports: Seq<VlanPortConfig>,
    port: int,
    mode: VlanMode,
) -> Seq<VlanPortConfig>
    recommends
        1 <= port,
{
    let grown = if ports.len() < port {
        ports + Seq::new((port - ports.len()) as nat, |i: int| VlanPortConfig { mode: VlanMode::Excluded })
    } else {
        ports
    };
    grown.update(port - 1, VlanPortConfig { mode })
}

/// The port sequence after the first `k` blocks of the page are placed,
/// in page order.
pub open spec fn spec_ports(vals: Seq<Option<Seq<char>>>, k: int) -> Seq<VlanPortConfig>
    decreases k,
{
    if k <= 0 {
        Seq::empty()
    } else {
        place_config(spec_ports(vals, k - 1), port_of(vals, k - 1), mode_of(vals, k - 1))
    }
}

/// The whole participation page decodes: it is long enough for its
/// fixed layout, and every block decodes.
pub open spec fn participation_ok(vals: Seq<Option<Seq<char>>>) -> bool {
    &&& vals.len() >= PARTICIPATION_SKIP + PARTICIPATION_TRAILER
    &&& forall|k: int| 0 <= k < part_block_count(vals.len() as int) ==> part_block_ok(vals, k)
}

/// What error decoding a participation page yields when it fails: a
/// missing field where the page is shorter than its fixed layout, else
/// for the first bad block a parse error on its port number, or the
/// illegal marker pair.
pub open spec fn participation_err_matches(
    vals: Seq<Option<Seq<char>>>,
    e: &ProCurveError,
) -> bool {
    if vals.len() < PARTICIPATION_SKIP + PARTICIPATION_TRAILER {
        is_field_not_found(e, "port_num"@)
    } else {
        exists|k: int|
            {
                &&& 0 <= k < part_block_count(vals.len() as int)
                &&& !(#[trigger] part_block_ok(vals, k))
                &&& forall|j: int| 0 <= j < k ==> part_block_ok(vals, j)
                &&& if (match port_at(vals, k) {
                    Some(p) => !(1 <= p <= PORT_LIMIT),
                    None => true,
                }) {
                    is_parse_error(e, field_at(vals, block_base(k)))
                } else {
                    is_unexpected_mode(
                        e,
                        field_at(vals, block_base(k) + 2),
                        field_at(vals, block_base(k) + 3),
                    )
                }
            }
    }
}

/// Decodes one VLAN's port-participation page from its input values.
/// The vlan id is threaded through by the caller, since the page does
/// not reliably echo it.  Entry `port - 1` of the result holds each
/// decoded port's mode; ports that no block names are `Excluded`.
pub fn decode_vlan_participation(inputs: &Vec<Option<String>>, vlan_id: u16) -> (r: Result<
    VlanPortParticipation,
    ProCurveError,
>)
    requires
        vlan_id < VLAN_ID_LIMIT,
    ensures
        ({
            let vals = inputs.deep_view();
            match r {
                Ok(pp) => {
                    &&& participation_ok(vals)
                    &&& pp.vlan_id == vlan_id
                    &&& pp.wf()
                    &&& pp.ports@ == spec_ports(vals, part_block_count(vals.len() as int))
                },
                Err(e) => !participation_ok(vals) && participation_err_matches(vals, &e),
            }
        }),
{
    let ghost vals = inputs.deep_view();
    let n = inputs.len();
    if n < PARTICIPATION_SKIP + PARTICIPATION_TRAILER {
        return Err(ProCurveError::FieldNotFound { field: String::from_str("port_num") });
    }
    let limit = n - PARTICIPATION_TRAILER;
    let mut ports: Vec<VlanPortConfig> = Vec::new();
    let mut k: usize = 0;
    while PARTICIPATION_SKIP + PARTICIPATION_STRIDE * k < limit
        invariant
            n == vals.len(),
            n >= PARTICIPATION_SKIP + PARTICIPATION_TRAILER,
            limit == n - PARTICIPATION_TRAILER,
            vals == inputs.deep_view(),
            inputs@.len() == n,
            k <= part_block_count(n as int),
            forall|j: int| 0 <= j < k ==> part_block_ok(vals, j),
            ports@ == spec_ports(vals, k as int),
            ports@.len() <= PORT_LIMIT,
        decreases n - k,
    {
        let idx = PARTICIPATION_SKIP + PARTICIPATION_STRIDE * k;
        proof {
            assert(k < part_block_count(n as int)) by {
                assert(PARTICIPATION_STRIDE * k < n - PARTICIPATION_SKIP - PARTICIPATION_TRAILER);
            };
        }
        let port_text = field_value(inputs, idx);
        let parsed = digits::parse_u16(port_text.as_str());
        let bad_port = match parsed {
            None => true,
            Some(p) => p == 0 || p > PORT_LIMIT,
        };
        if bad_port {
            let err = ProCurveError::Parse { text: port_text };
            proof {
                let kk = k as int;
                assert(!part_block_ok(vals, kk));
                assert(is_parse_error(&err, field_at(vals, block_base(kk))));
                assert(participation_err_matches(vals, &err));
            }
            return Err(err);
        }
        let port = parsed.unwrap();
        let ie_text = field_value(inputs, idx + 2);
        let tm_text = field_value(inputs, idx + 3);
        match mode_of_markers(ie_text.as_str(), tm_text.as_str()) {
            Err(err) => {
                proof {
                    let kk = k as int;
                    assert(!part_block_ok(vals, kk));
                    assert(participation_err_matches(vals, &err));
                }
                return Err(err);
            },
            Ok(mode) => {
                let p = port as usize;
                while ports.len() < p
                    invariant
                        p <= PORT_LIMIT,
                        spec_ports(vals, k as int).len() <= ports@.len() <= PORT_LIMIT,
                        spec_ports(vals, k as int).len() >= p ==> ports@.len() == spec_ports(
                            vals,
                            k as int,
                        ).len(),
                        spec_ports(vals, k as int).len() < p ==> ports@.len() <= p,
                        ports@ == spec_ports(vals, k as int) + Seq::new(
                            (ports@.len() - spec_ports(vals, k as int).len()) as nat,
                            |i: int| VlanPortConfig { mode: VlanMode::Excluded },
                        ),
                    decreases p - ports.len(),
                {
                    ports.push(VlanPortConfig::new(VlanMode::Excluded));
                    proof {
                        let base = spec_ports(vals, k as int);
                        assert(ports@ =~= base + Seq::new(
                            (ports@.len() - base.len()) as nat,
                            |i: int| VlanPortConfig { mode: VlanMode::Excluded },
                        ));
                    }
                }
                let ghost before = ports@;
                let cfg = VlanPortConfig::new(mode);
                ports[p - 1] = cfg;
                proof {
                    let kk = k as int;
                    let base = spec_ports(vals, kk);
                    assert(port_of(vals, kk) == p as int);
                    assert(mode_of(vals, kk) == mode);
                    let grown = if base.len() < p as int {
                        base + Seq::new(
                            (p - base.len()) as nat,
                            |i: int| VlanPortConfig { mode: VlanMode::Excluded },
                        )
                    } else {
                        base
                    };
                    assert(before =~= grown);
                    assert(ports@ =~= spec_ports(vals, kk + 1));
                }
            },
        }
        k = k + 1;
    }
    proof {
        assert(k >= part_block_count(n as int)) by {
            assert(PARTICIPATION_STRIDE * k >= n - PARTICIPATION_SKIP - PARTICIPATION_TRAILER);
        };
    }
    Ok(VlanPortParticipation::new(vlan_id, ports))
}

/// Port placement is positional: when the first `m` blocks of a page
/// decode and block `k` names port `k + 1` — the dense, in-order layout
/// the firmware emits — the decoded sequence has exactly `m` entries
/// and entry `i` holds the mode of port `i + 1`.
pub proof fn lemma_ports_in_order(vals: Seq<Option<Seq<char>>>, m: int)
    requires
        0 <= m <= PORT_LIMIT,
        forall|k: int| 0 <= k < m ==> part_block_ok(vals, k),
        forall|k: int| 0 <= k < m ==> port_at(vals, k) == Some((k + 1) as u16),
    ensures
        spec_ports(vals, m).len() == m,
        forall|k: int|
            0 <= k < m ==> spec_ports(vals, m)[k] == (VlanPortConfig { mode: mode_of(vals, k) }),
    decreases m,
{
    if m > 0 {
        lemma_ports_in_order(vals, m - 1);
        let prev = spec_ports(vals, m - 1);
        assert(port_of(vals, m - 1) == m);
        assert(spec_ports(vals, m) == place_config(prev, m, mode_of(vals, m - 1)));
        assert(spec_ports(vals, m).len() == m);
        assert forall|k: int| 0 <= k < m implies spec_ports(vals, m)[k] == (VlanPortConfig {
            mode: mode_of(vals, k),
        }) by {
            if k < m - 1 {
                assert(spec_ports(vals, m)[k] == prev[k]);
            }
        }
    }
}

/// Decodes one VLAN's port-participation page.  The result is
/// determined by the page's input values and the given vlan id alone.
pub fn html_to_vlan_participation(body: &str, vlan_id: u16) -> (r: Result<
    VlanPortParticipation,
    ProCurveError,
>)
    requires
        vlan_id < VLAN_ID_LIMIT,
    ensures
        ({
            let vals = html::input_values_of(body@);
            match r {
                Ok(pp) => {
                    &&& participation_ok(vals)
                    &&& pp.vlan_id == vlan_id
                    &&& pp.wf()
                    &&& pp.ports@ == spec_ports(vals, part_block_count(vals.len() as int))
                },
                Err(e) => !participation_ok(vals) && participation_err_matches(vals, &e),
            }
        }),
{
    let inputs = html::extract_input_values(body);
    decode_vlan_participation(&inputs, vlan_id)
}

} // verus!
