//! Wire-level message shapes shared by the protocol layer.

use vstd::prelude::*;

verus! {

/// A parsed JSON document as `serde_json` holds it. The router carries event
/// parameters through without reading them.
#[verifier::external_type_specification]
#[verifier::external_body]
pub struct ExJsonDocument(serde_json::Value);

/// An event pushed by the browser: a `method` name, its parameters, and the
/// page session it belongs to (`None` for the root, browser-level session).
pub struct EventMessage {
    pub method: String,
    pub params: serde_json::Value,
    pub session_id: Option<String>,
}

/// The `error` object of a failed protocol response.
pub struct ErrorData {
    pub message: String,
    pub data: Option<String>,
}

} // verus!
