//! IPC types for daemon ↔ client communication.
//!
//! Newline-delimited JSON over Unix socket. One request → one response per connection.

use vstd::prelude::*;

use crate::json::JsonValue;

verus! {

/// A request from a CLI client to the daemon.
#[derive(Debug, Clone, PartialEq, Eq)]
pub enum DaemonRequest {
    /// Ping the daemon. Returns instance count.
    Ping,
    /// Launch a new browser instance.
    Launch { headless: Option<bool>, executable: Option<String> },
    /// List all running instances.
    List,
    /// Stop a browser instance.
    Stop { instance_id: String },
    /// Create a new page in an instance.
    NewPage { instance_id: String },
    /// Navigate a page to a URL.
    Navigate { instance_id: String, page_id: String, url: String },
    /// Evaluate JavaScript on a page.
    Evaluate { instance_id: String, page_id: String, expression: String },
    /// Take a screenshot of a page.
    Screenshot {
        instance_id: String,
        page_id: String,
        format: Option<String>,
        quality: Option<u32>,
        path: Option<String>,
    },
    /// Shut down the daemon and all instances.
    Shutdown,
}

/// A response from the daemon to a CLI client.
#[derive(Debug)]
pub struct DaemonResponse {
    pub ok: bool,
    pub error: Option<String>,
    pub data: Option<JsonValue>,
}

impl DaemonResponse {
    /// Create a success response with data.
    pub fn ok(data: JsonValue) -> (r: Self)
        ensures
            r.ok,
            r.error is None,
            r.data == Some(data),
    {
        DaemonResponse { ok: true, error: None, data: Some(data) }
    }

    /// Create a success response with no data.
    pub fn ok_empty() -> (r: Self)
        ensures
            r.ok,
            r.error is None,
            r.data is None,
    {
        DaemonResponse { ok: true, error: None, data: None }
    }

    /// Create an error response.
    pub fn err(message: &str) -> (r: Self)
        ensures
            !r.ok,
            r.error matches Some(m) && m@ == message@,
            r.data is None,
    {
        DaemonResponse { ok: false, error: Some(message.to_owned()), data: None }
    }
}

} // verus!
