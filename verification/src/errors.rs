//! The error taxonomy.  Every error is fatal to the running operation:
//! there is no retry or partial-success path.

use vstd::prelude::*;

verus! {

/// Why an operation against the switch failed.
#[derive(Debug)]
pub enum ProCurveError {
    /// The base URL of the switch's management interface is missing.
    /// Raised before any network activity.
    Configuration,
    /// The login response carried no `SID` session cookie.  The raw
    /// response status and body are kept for diagnostics.
    Authentication { status: u16, body: String },
    /// A request was answered with a non-success HTTP status.  Carries
    /// the status and the logical operation that was being attempted.
    Transport { status: u16, operation: String },
    /// A page holds fewer `<input>` elements than its layout requires;
    /// names the first field for which no element was left.
    FieldNotFound { field: String },
    /// A port-participation block carried a marker pair outside the
    /// three legal combinations; both raw marker texts are kept.
    UnexpectedMode { include_exclude: String, tag_mode: String },
    /// Text that had to be a number (a VLAN id or a port number) was
    /// not, or lay outside its domain.
    Parse { text: String },
    /// Fetching or decoding the port participation of one VLAN failed;
    /// carries that VLAN's id and the originating error.
    ForVlan { vlan_id: u16, cause: Box<ProCurveError> },
}

/// `e` names a missing field `field`.
pub open spec fn is_field_not_found(e: &ProCurveError, field: Seq<char>) -> bool {
    &&& e matches ProCurveError::FieldNotFound { field: f }
    &&& f@ == field
}

/// `e` reports unparsable or out-of-domain numeric text `text`.
pub open spec fn is_parse_error(e: &ProCurveError, text: Seq<char>) -> bool {
    &&& e matches ProCurveError::Parse { text: t }
    &&& t@ == text
}

/// `e` reports the illegal marker pair `(ie, tm)`.
pub open spec fn is_unexpected_mode(e: &ProCurveError, ie: Seq<char>, tm: Seq<char>) -> bool {
    &&& e matches ProCurveError::UnexpectedMode { include_exclude: a, tag_mode: b }
    &&& a@ == ie
    &&& b@ == tm
}

} // verus!
