//! Client library for the embedded web management interface of an HP
//! ProCurve switch.  The switch offers no machine-readable API: device
//! identity and VLAN port assignments are recovered by decoding the fixed,
//! position-dependent sequence of `<input>` elements in its HTML pages.
//!
//! The decoding and form-encoding rules are verified; the HTTP transport
//! and the table rendering live outside this crate.

pub mod client;
pub mod decode;
pub mod digits;
pub mod errors;
pub mod html;
pub mod model;
pub mod text;
