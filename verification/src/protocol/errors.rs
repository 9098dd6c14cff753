//! Protocol-level errors.

use vstd::prelude::*;

use crate::protocol::types::ErrorData;
use crate::text::decimal_text;
use core::time::Duration;

verus! {

/// The type of protocol error, matching Playwright's ProtocolError.type values.
#[derive(Debug, Clone, Copy, PartialEq, Eq, Structural)]
pub enum ProtocolErrorKind {
    /// Protocol error from the server (response had `error` field).
    Response,
    /// Session or connection was closed.
    Closed,
    /// Page crashed.
    Crashed,
    /// Transport-level failure.
    Transport,
    /// The request was not answered before its deadline.
    Timeout,
}

/// A failure of the transport underneath the protocol (the pipe to the
/// browser), with the text that describes it.
#[derive(Debug)]
pub struct TransportError {
    pub message: String,
}

/// A protocol-level error.
#[derive(Debug)]
pub struct ProtocolError {
    pub kind: ProtocolErrorKind,
    pub method: Option<String>,
    pub message: String,
    pub data: Option<String>,
    /// The transport failure this error wraps, if any.
    pub source: Option<TransportError>,
}

/// The name that `Debug` prints for an error kind.
pub open spec fn kind_name(kind: ProtocolErrorKind) -> Seq<char> {
    match kind {
        ProtocolErrorKind::Response => "Response"@,
        ProtocolErrorKind::Closed => "Closed"@,
        ProtocolErrorKind::Crashed => "Crashed"@,
        ProtocolErrorKind::Transport => "Transport"@,
        ProtocolErrorKind::Timeout => "Timeout"@,
    }
}

/// The one-line rendering of an error: `Kind (method): message`, the
/// parenthesised method only when there is one.
pub open spec fn display_text(e: ProtocolError) -> Seq<char> {
    kind_name(e.kind) + match e.method {
        Some(m) => " ("@ + m@ + ")"@,
        None => Seq::<char>::empty(),
    } + ": "@ + e.message@
}

/// The text that `Debug` formatting prints for a `Duration` of `secs`
/// seconds and `nanos` nanoseconds (such as `1.5s` or `250ms`).
pub uninterp spec fn duration_debug_text(secs: u64, nanos: u32) -> Seq<char>;

/// What `Debug` prints for a duration of `secs` seconds and `nanos`
/// nanoseconds: whole seconds as `{secs}s`, whole milliseconds below a
/// second as `{millis}ms`; the other forms are left to the name
/// `duration_debug_text`.
pub open spec fn duration_debug_model(secs: u64, nanos: u32) -> Seq<char> {
    if nanos == 0 && secs > 0 {
        decimal_text(secs as nat) + "s"@
    } else if secs == 0 && nanos > 0 && nanos % 1_000_000 == 0 {
        decimal_text((nanos / 1_000_000) as nat) + "ms"@
    } else {
        duration_debug_text(secs, nanos)
    }
}

/// The message of a timeout error for `method` after a deadline of `secs`
/// seconds and `nanos` nanoseconds.
pub open spec fn timeout_message(method: Seq<char>, secs: u64, nanos: u32) -> Seq<char> {
    "Request '"@ + method + "' timed out after "@ + duration_debug_model(secs, nanos)
}

/// The timeout error of `method` after `secs` seconds and `nanos`
/// nanoseconds.
pub open spec fn is_timeout_error(e: ProtocolError, method: Seq<char>, secs: u64, nanos: u32) -> bool {
    &&& e.kind == ProtocolErrorKind::Timeout
    &&& e.method matches Some(m) && m@ == method
    &&& e.message@ == timeout_message(method, secs, nanos)
    &&& e.data is None
    &&& e.source is None
}

/// The whole seconds of the duration `d`.
pub uninterp spec fn duration_secs(d: Duration) -> u64;

/// The fractional part of the duration `d`, in nanoseconds.
pub uninterp spec fn duration_subsec_nanos(d: Duration) -> u32;

/// `Duration::as_secs`: the whole seconds of a duration, a function of the
/// duration alone.
pub assume_specification[ Duration::as_secs ](d: &Duration) -> (secs: u64)
    ensures
        secs == duration_secs(*d),
;

/// `Duration::subsec_nanos`: the fractional part in nanoseconds, a function
/// of the duration alone, which std documents as always less than one
/// billion.
pub assume_specification[ Duration::subsec_nanos ](d: &Duration) -> (nanos: u32)
    ensures
        nanos == duration_subsec_nanos(*d),
        nanos < 1_000_000_000,
;

/// Formats the duration of `secs` seconds and `nanos` nanoseconds with
/// `{:?}`, std's `Debug` for `Duration`: whole seconds as `30s`, whole
/// milliseconds below a second as `250ms`; the other forms are left to the
/// name `duration_debug_text`.
#[verifier::external_body]
fn duration_debug(secs: u64, nanos: u32) -> (text: String)
    requires
        nanos < 1_000_000_000,
    ensures
        nanos == 0 && secs > 0 ==> text@ == decimal_text(secs as nat) + "s"@,
        secs == 0 && nanos > 0 && nanos % 1_000_000 == 0 ==> text@ == decimal_text(
            (nanos / 1_000_000) as nat,
        ) + "ms"@,
        !(nanos == 0 && secs > 0) && !(secs == 0 && nanos > 0 && nanos % 1_000_000 == 0) ==> text@
            == duration_debug_text(secs, nanos),
{
    format!("{:?}", Duration::new(secs, nanos))
}

fn text(s: &str) -> (r: String)
    ensures
        r@ == s@,
{
    s.to_owned()
}

impl ProtocolError {
    /// An error answered by the browser for the request `method`.
    pub fn response(method: &str, error: ErrorData) -> (e: Self)
        ensures
            e.kind == ProtocolErrorKind::Response,
            e.method matches Some(m) && m@ == method@,
            e.message == error.message,
            e.data == error.data,
            e.source is None,
    {
        ProtocolError {
            kind: ProtocolErrorKind::Response,
            method: Some(text(method)),
            message: error.message,
            data: error.data,
            source: None,
        }
    }

    /// The session or connection was closed.
    pub fn closed(method: Option<String>) -> (e: Self)
        ensures
            e.kind == ProtocolErrorKind::Closed,
            e.method == method,
            e.message@ == "Session closed"@,
            e.data is None,
            e.source is None,
    {
        let message = text("Session closed");
        proof {
            reveal_strlit("Session closed");
        }
        ProtocolError { kind: ProtocolErrorKind::Closed, method, message, data: None, source: None }
    }

    /// The page crashed.
    pub fn crashed(method: Option<String>) -> (e: Self)
        ensures
            e.kind == ProtocolErrorKind::Crashed,
            e.method == method,
            e.message@ == "Page crashed"@,
            e.data is None,
            e.source is None,
    {
        let message = text("Page crashed");
        proof {
            reveal_strlit("Page crashed");
        }
        ProtocolError { kind: ProtocolErrorKind::Crashed, method, message, data: None, source: None }
    }

    /// A transport failure; the error keeps it as its source.
    pub fn transport(err: TransportError) -> (e: Self)
        ensures
            e.kind == ProtocolErrorKind::Transport,
            e.method is None,
            e.message == err.message,
            e.data is None,
            e.source == Some(err),
    {
        let message = err.message.clone();
        ProtocolError {
            kind: ProtocolErrorKind::Transport,
            method: None,
            message,
            data: None,
            source: Some(err),
        }
    }

    /// Build a `Timeout` error for a request that exceeded its deadline.
    ///
    /// The pending slot on the sending side is the caller's responsibility
    /// to free before constructing this.
    pub fn timeout(method: &str, deadline: Duration) -> (e: Self)
        ensures
            is_timeout_error(
                e,
                method@,
                duration_secs(deadline),
                duration_subsec_nanos(deadline),
            ),
    {
        let secs = deadline.as_secs();
        let nanos = deadline.subsec_nanos();
        Self::timeout_after(method, secs, nanos)
    }

    /// The `Timeout` error for `method` after a deadline of `secs` seconds
    /// and `nanos` nanoseconds: `Request '{method}' timed out after
    /// {deadline:?}`.
    pub fn timeout_after(method: &str, secs: u64, nanos: u32) -> (e: Self)
        requires
            nanos < 1_000_000_000,
        ensures
            is_timeout_error(e, method@, secs, nanos),
    {
        let mut message = text("Request '");
        message.append(method);
        message.append("' timed out after ");
        let shown = duration_debug(secs, nanos);
        message.append(shown.as_str());
        proof {
            reveal_strlit("Request '");
            reveal_strlit("' timed out after ");
            assert(message@ == timeout_message(method@, secs, nanos));
        }
        ProtocolError {
            kind: ProtocolErrorKind::Timeout,
            method: Some(text(method)),
            message,
            data: None,
            source: None,
        }
    }

    /// The one-line rendering `Kind (method): message` of this error.
    pub fn to_display_string(&self) -> (s: String)
        ensures
            s@ == display_text(*self),
    {
        let mut s = match self.kind {
            ProtocolErrorKind::Response => text("Response"),
            ProtocolErrorKind::Closed => text("Closed"),
            ProtocolErrorKind::Crashed => text("Crashed"),
            ProtocolErrorKind::Transport => text("Transport"),
            ProtocolErrorKind::Timeout => text("Timeout"),
        };
        proof {
            reveal_strlit("Response");
            reveal_strlit("Closed");
            reveal_strlit("Crashed");
            reveal_strlit("Transport");
            reveal_strlit("Timeout");
        }
        let ghost head = s@;
        match &self.method {
            Some(m) => {
                s.append(" (");
                s.append(m.as_str());
                s.append(")");
            },
            None => {},
        }
        s.append(": ");
        s.append(self.message.as_str());
        proof {
            reveal_strlit(" (");
            reveal_strlit(")");
            reveal_strlit(": ");
            assert(s@ =~= display_text(*self));
        }
        s
    }
}

impl From<TransportError> for ProtocolError {
    fn from(e: TransportError) -> (r: Self) {
        Self::transport(e)
    }
}

impl vstd::std_specs::convert::FromSpecImpl<TransportError> for ProtocolError {
    open spec fn obeys_from_spec() -> bool {
        true
    }

    open spec fn from_spec(e: TransportError) -> Self {
        ProtocolError {
            kind: ProtocolErrorKind::Transport,
            method: None,
            message: e.message,
            data: None,
            source: Some(e),
        }
    }
}

} // verus!
