use camoufox::cli::ipc::DaemonResponse;
use camoufox::cli::output::{render_response, Output, Stream};
use camoufox::json::{JsonNumber, JsonValue};

fn s(text: &str) -> JsonValue {
    JsonValue::Str(text.to_owned())
}

fn u(n: u64) -> JsonValue {
    JsonValue::Number(JsonNumber::PosInt(n))
}

fn obj(entries: Vec<(&str, JsonValue)>) -> JsonValue {
    JsonValue::Object(entries.into_iter().map(|(k, v)| (k.to_owned(), v)).collect())
}

fn shown(out: &[Output]) -> Vec<String> {
    out.iter()
        .map(|o| match o {
            Output::Line(Stream::Stdout, t) => format!("out: {t}"),
            Output::Line(Stream::Stderr, t) => format!("err: {t}"),
            Output::PrettyResponse => "pretty response".to_owned(),
            Output::PrettyData => "pretty data".to_owned(),
            Output::Compact(v) => format!("compact: {v:?}"),
        })
        .collect()
}

fn render(data: JsonValue) -> Vec<String> {
    shown(&render_response(&DaemonResponse::ok(data), false))
}

#[test]
fn json_mode_prints_the_whole_response() {
    assert_eq!(shown(&render_response(&DaemonResponse::err("boom"), true)), vec!["pretty response"]);
    assert_eq!(shown(&render_response(&DaemonResponse::ok_empty(), true)), vec!["pretty response"]);
}

#[test]
fn errors_go_to_stderr() {
    assert_eq!(shown(&render_response(&DaemonResponse::err("boom"), false)), vec!["err: error: boom"]);
    let r = DaemonResponse { ok: false, error: None, data: None };
    assert_eq!(shown(&render_response(&r, false)), vec!["err: error: unknown error"]);
}

#[test]
fn empty_success_prints_ok() {
    assert_eq!(shown(&render_response(&DaemonResponse::ok_empty(), false)), vec!["out: ok"]);
}

#[test]
fn launch_response() {
    assert_eq!(
        render(obj(vec![("instance_id", s("00000001")), ("version", s("135.0")), ("pid", u(42))])),
        vec!["out: 00000001", "err: version: 135.0", "err: pid: 42"]
    );
    assert_eq!(render(obj(vec![("instance_id", s("00000002"))])), vec!["out: 00000002"]);
}

#[test]
fn new_page_response() {
    assert_eq!(render(obj(vec![("page_id", s("p3"))])), vec!["out: p3"]);
}

#[test]
fn list_response() {
    assert_eq!(
        render(obj(vec![("instances", JsonValue::Array(vec![]))])),
        vec!["out: no running instances"]
    );
    let instances = JsonValue::Array(vec![
        obj(vec![
            ("instance_id", s("00000001")),
            ("pid", u(10)),
            ("version", s("135.0")),
            ("pages", JsonValue::Array(vec![s("p1"), u(5), s("p2")])),
        ]),
        obj(vec![("version", JsonValue::Null)]),
    ]);
    assert_eq!(
        render(obj(vec![("instances", instances)])),
        vec![
            "out: 00000001  pid=10  version=135.0  pages=[p1,p2]",
            "out: ?  pid=?  version=?  pages=[]",
        ]
    );
}

#[test]
fn evaluate_response() {
    assert_eq!(render(obj(vec![("result", s("Example Domain"))])), vec!["out: Example Domain"]);
    assert_eq!(render(obj(vec![("result", u(2))])), vec!["compact: Number(PosInt(2))"]);
}

#[test]
fn screenshot_ping_and_navigation_responses() {
    assert_eq!(
        render(obj(vec![("path", s("/tmp/a.png")), ("bytes", u(1234))])),
        vec!["out: /tmp/a.png (1234 bytes)"]
    );
    assert_eq!(render(obj(vec![("path", s("/tmp/a.png"))])), vec!["out: /tmp/a.png (0 bytes)"]);
    assert_eq!(render(obj(vec![("instance_count", u(3))])), vec!["out: pong (3 instances)"]);
    assert_eq!(
        render(obj(vec![("navigation_id", JsonValue::Null)])),
        vec!["out: ok (same-document navigation)"]
    );
    assert_eq!(render(obj(vec![("navigation_id", s("n1"))])), vec!["out: ok (navigation_id: n1)"]);
    assert_eq!(render(obj(vec![("navigation_id", u(1))])), vec!["out: ok"]);
}

#[test]
fn unknown_data_is_printed_as_json() {
    assert_eq!(render(obj(vec![("something", u(1))])), vec!["pretty data"]);
    assert_eq!(render(JsonValue::Null), vec!["pretty data"]);
}
