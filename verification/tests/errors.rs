use std::time::Duration;

use camoufox::protocol::errors::{ProtocolError, ProtocolErrorKind, TransportError};
use camoufox::protocol::types::ErrorData;

#[test]
fn response_error_carries_the_server_message() {
    let e = ProtocolError::response(
        "Page.navigate",
        ErrorData { message: "Invalid url".to_owned(), data: Some("extra".to_owned()) },
    );
    assert_eq!(e.kind, ProtocolErrorKind::Response);
    assert_eq!(e.method.as_deref(), Some("Page.navigate"));
    assert_eq!(e.message, "Invalid url");
    assert_eq!(e.data.as_deref(), Some("extra"));
    assert!(e.source.is_none());
    assert_eq!(e.to_display_string(), "Response (Page.navigate): Invalid url");
}

#[test]
fn closed_and_crashed_messages() {
    let c = ProtocolError::closed(Some("Runtime.evaluate".to_owned()));
    assert_eq!(c.kind, ProtocolErrorKind::Closed);
    assert_eq!(c.to_display_string(), "Closed (Runtime.evaluate): Session closed");
    let k = ProtocolError::crashed(None);
    assert_eq!(k.kind, ProtocolErrorKind::Crashed);
    assert_eq!(k.method, None);
    assert_eq!(k.to_display_string(), "Crashed: Page crashed");
}

#[test]
fn transport_error_keeps_its_source() {
    let e = ProtocolError::transport(TransportError { message: "pipe closed".to_owned() });
    assert_eq!(e.kind, ProtocolErrorKind::Transport);
    assert_eq!(e.method, None);
    assert_eq!(e.message, "pipe closed");
    assert_eq!(e.source.as_ref().map(|s| s.message.as_str()), Some("pipe closed"));
    assert_eq!(e.to_display_string(), "Transport: pipe closed");
}

#[test]
fn from_transport_error_is_a_transport_error() {
    let e: ProtocolError = TransportError { message: "broken".to_owned() }.into();
    assert_eq!(e.kind, ProtocolErrorKind::Transport);
    assert_eq!(e.message, "broken");
    assert!(e.source.is_some());
}

#[test]
fn timeout_message_shows_the_deadline() {
    let e = ProtocolError::timeout("Page.navigate", Duration::from_secs(30));
    assert_eq!(e.kind, ProtocolErrorKind::Timeout);
    assert_eq!(e.method.as_deref(), Some("Page.navigate"));
    assert_eq!(e.message, "Request 'Page.navigate' timed out after 30s");
    assert_eq!(e.data, None);
    assert_eq!(
        e.to_display_string(),
        "Timeout (Page.navigate): Request 'Page.navigate' timed out after 30s"
    );
}

#[test]
fn timeout_after_formats_fractions() {
    let e = ProtocolError::timeout_after("Runtime.evaluate", 1, 500_000_000);
    assert_eq!(e.message, "Request 'Runtime.evaluate' timed out after 1.5s");
    let e = ProtocolError::timeout("X", Duration::from_millis(250));
    assert_eq!(e.message, "Request 'X' timed out after 250ms");
}
