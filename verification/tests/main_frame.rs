use camoufox::api::main_frame::{
    EmulatedMedia, EvaluateAction, EvaluateInput, EvaluatePhase, EvaluateState, KeyEventParams,
    MainFrame, MouseEventParams, NavigateOptions, Request, TapEventParams, CONTEXT_POLL_MILLIS,
    EVALUATE_MAX_RETRIES, RETRY_DELAY_MILLIS,
};
use camoufox::api::main_frame::{sequence_step, SequenceStep};
use camoufox::json::{JsonNumber, JsonValue};
use camoufox::protocol::errors::{ProtocolError, ProtocolErrorKind};
use camoufox::protocol::types::ErrorData;

fn s(text: &str) -> JsonValue {
    JsonValue::Str(text.to_owned())
}

fn u(n: u64) -> JsonValue {
    JsonValue::Number(JsonNumber::PosInt(n))
}

fn obj(entries: Vec<(&str, JsonValue)>) -> JsonValue {
    JsonValue::Object(entries.into_iter().map(|(k, v)| (k.to_owned(), v)).collect())
}

fn frame() -> MainFrame {
    MainFrame::new("target-1".to_owned(), "frame-1".to_owned())
}

fn assert_request(r: &Request, method: &str, params: JsonValue) {
    assert_eq!(r.method, method);
    assert_eq!(r.params, params);
}

#[test]
fn main_frame_keeps_its_ids() {
    let f = frame();
    assert_eq!(f.target_id(), "target-1");
    assert_eq!(f.frame_id(), "frame-1");
}

#[test]
fn navigate_targets_the_top_frame() {
    let f = frame();
    let r = f.navigate("https://example.com", NavigateOptions::default());
    assert_request(
        &r,
        "Page.navigate",
        obj(vec![("url", s("https://example.com")), ("frameId", s("frame-1"))]),
    );
    let r = f.navigate("https://a.test", NavigateOptions { referer: Some("https://b.test".to_owned()) });
    assert_request(
        &r,
        "Page.navigate",
        obj(vec![
            ("url", s("https://a.test")),
            ("frameId", s("frame-1")),
            ("referer", s("https://b.test")),
        ]),
    );
}

#[test]
fn navigation_id_reads_cross_document_navigations_only() {
    assert_eq!(MainFrame::navigation_id(&obj(vec![("navigationId", s("nav-7"))])), Some("nav-7".to_owned()));
    assert_eq!(MainFrame::navigation_id(&obj(vec![("navigationId", s(""))])), None);
    assert_eq!(MainFrame::navigation_id(&obj(vec![])), None);
    assert_eq!(MainFrame::navigation_id(&obj(vec![("navigationId", JsonValue::Null)])), None);
}

#[test]
fn history_requests_and_answers() {
    let f = frame();
    assert_request(&f.go_back(), "Page.goBack", obj(vec![("frameId", s("frame-1"))]));
    assert_request(&f.go_forward(), "Page.goForward", obj(vec![("frameId", s("frame-1"))]));
    assert!(MainFrame::history_navigated(&obj(vec![("success", JsonValue::Bool(true))])));
    assert!(!MainFrame::history_navigated(&obj(vec![("success", JsonValue::Bool(false))])));
    assert!(!MainFrame::history_navigated(&obj(vec![])));
}

#[test]
fn parameterless_requests() {
    let f = frame();
    assert_request(&f.reload(), "Page.reload", obj(vec![]));
    assert_request(&f.bring_to_front(), "Page.bringToFront", obj(vec![]));
    assert_request(&f.close(), "Page.close", obj(vec![]));
    assert_request(&f.collect_garbage(), "Heap.collectGarbage", obj(vec![]));
    assert_request(&f.stop_screencast(), "Page.stopScreencast", obj(vec![]));
    assert_request(&f.screencast_frame_ack(), "Page.screencastFrameAck", obj(vec![]));
}

#[test]
fn viewport_size_set_and_reset() {
    let f = frame();
    assert_request(
        &f.set_viewport_size(Some((1280, 720))),
        "Page.setViewportSize",
        obj(vec![("viewportSize", obj(vec![("width", u(1280)), ("height", u(720))]))]),
    );
    assert_request(
        &f.set_viewport_size(None),
        "Page.setViewportSize",
        obj(vec![("viewportSize", JsonValue::Null)]),
    );
}

#[test]
fn emulated_media_sends_only_given_overrides() {
    let f = frame();
    let media = EmulatedMedia {
        media_type: "print".to_owned(),
        color_scheme: Some("dark".to_owned()),
        reduced_motion: None,
        forced_colors: None,
        contrast: Some("more".to_owned()),
    };
    assert_request(
        &f.set_emulated_media(media),
        "Page.setEmulatedMedia",
        obj(vec![("type", s("print")), ("colorScheme", s("dark")), ("contrast", s("more"))]),
    );
}

#[test]
fn init_scripts_with_and_without_world() {
    let f = frame();
    let scripts = vec![("a()".to_owned(), None), ("b()".to_owned(), Some("w".to_owned()))];
    assert_request(
        &f.set_init_scripts(&scripts),
        "Page.setInitScripts",
        obj(vec![(
            "scripts",
            JsonValue::Array(vec![
                obj(vec![("script", s("a()"))]),
                obj(vec![("script", s("b()")), ("worldName", s("w"))]),
            ]),
        )]),
    );
}

#[test]
fn key_mouse_and_tap_events() {
    let f = frame();
    let key = KeyEventParams {
        event_type: "keydown".to_owned(),
        key_code: 65,
        code: "KeyA".to_owned(),
        key: "a".to_owned(),
        repeat: false,
        location: 0,
        text: Some("a".to_owned()),
    };
    assert_request(
        &f.dispatch_key_event(key),
        "Page.dispatchKeyEvent",
        obj(vec![
            ("type", s("keydown")),
            ("keyCode", u(65)),
            ("code", s("KeyA")),
            ("key", s("a")),
            ("repeat", JsonValue::Bool(false)),
            ("location", u(0)),
            ("text", s("a")),
        ]),
    );
    let mouse = MouseEventParams {
        event_type: "mousemove".to_owned(),
        button: 0,
        buttons: 1,
        x: -5,
        y: 12,
        modifiers: 2,
        click_count: None,
    };
    assert_request(
        &f.dispatch_mouse_event(mouse),
        "Page.dispatchMouseEvent",
        obj(vec![
            ("type", s("mousemove")),
            ("button", u(0)),
            ("buttons", u(1)),
            ("x", JsonValue::Number(JsonNumber::NegInt(-5))),
            ("y", u(12)),
            ("modifiers", u(2)),
        ]),
    );
    assert_request(
        &f.dispatch_tap_event(TapEventParams { x: 3, y: 4, modifiers: 0 }),
        "Page.dispatchTapEvent",
        obj(vec![("x", u(3)), ("y", u(4)), ("modifiers", u(0))]),
    );
    assert_request(&f.insert_text("hi"), "Page.insertText", obj(vec![("text", s("hi"))]));
}

#[test]
fn dialog_with_and_without_prompt_text() {
    let f = frame();
    assert_request(
        &f.handle_dialog("d1", true, Some("yes")),
        "Page.handleDialog",
        obj(vec![("dialogId", s("d1")), ("accept", JsonValue::Bool(true)), ("promptText", s("yes"))]),
    );
    assert_request(
        &f.handle_dialog("d1", false, None),
        "Page.handleDialog",
        obj(vec![("dialogId", s("d1")), ("accept", JsonValue::Bool(false))]),
    );
}

#[test]
fn runtime_requests() {
    let f = frame();
    assert_request(
        &f.evaluate_request("1 + 1", "ctx-1"),
        "Runtime.evaluate",
        obj(vec![
            ("expression", s("1 + 1")),
            ("returnByValue", JsonValue::Bool(true)),
            ("executionContextId", s("ctx-1")),
        ]),
    );
    assert_request(
        &f.call_function("(a) => a", vec![obj(vec![("value", u(3))])], "ctx-1"),
        "Runtime.callFunction",
        obj(vec![
            ("functionDeclaration", s("(a) => a")),
            ("args", JsonValue::Array(vec![obj(vec![("value", u(3))])])),
            ("returnByValue", JsonValue::Bool(true)),
            ("executionContextId", s("ctx-1")),
        ]),
    );
    assert_request(
        &f.get_object_properties("ctx-1", "obj-1"),
        "Runtime.getObjectProperties",
        obj(vec![("executionContextId", s("ctx-1")), ("objectId", s("obj-1"))]),
    );
    assert_request(
        &f.dispose_object("ctx-1", "obj-1"),
        "Runtime.disposeObject",
        obj(vec![("executionContextId", s("ctx-1")), ("objectId", s("obj-1"))]),
    );
}

#[test]
fn request_interception_also_toggles_the_cache() {
    let f = frame();
    let rs = f.set_request_interception(true);
    assert_eq!(rs.len(), 2);
    assert_request(&rs[0], "Network.setRequestInterception", obj(vec![("enabled", JsonValue::Bool(true))]));
    assert_request(&rs[1], "Page.setCacheDisabled", obj(vec![("cacheDisabled", JsonValue::Bool(true))]));
}

#[test]
fn network_requests() {
    let f = frame();
    let headers = [("X-A", "1"), ("X-B", "2")];
    let header_list = JsonValue::Array(vec![
        obj(vec![("name", s("X-A")), ("value", s("1"))]),
        obj(vec![("name", s("X-B")), ("value", s("2"))]),
    ]);
    assert_request(
        &f.set_extra_http_headers(&headers),
        "Network.setExtraHTTPHeaders",
        obj(vec![("headers", header_list)]),
    );
    assert_request(
        &f.resume_intercepted_request("r1", None, Some("POST"), None, Some("body")),
        "Network.resumeInterceptedRequest",
        obj(vec![("requestId", s("r1")), ("method", s("POST")), ("postData", s("body"))]),
    );
    assert_request(
        &f.fulfill_intercepted_request("r1", 404, "Not Found", &[], "SGk="),
        "Network.fulfillInterceptedRequest",
        obj(vec![
            ("requestId", s("r1")),
            ("status", u(404)),
            ("statusText", s("Not Found")),
            ("headers", JsonValue::Array(vec![])),
            ("base64body", s("SGk=")),
        ]),
    );
    assert_request(
        &f.abort_intercepted_request("r1", "failed"),
        "Network.abortInterceptedRequest",
        obj(vec![("requestId", s("r1")), ("errorCode", s("failed"))]),
    );
    assert_request(&f.get_response_body("r1"), "Network.getResponseBody", obj(vec![("requestId", s("r1"))]));
}

#[test]
fn response_body_decodes_and_reports_eviction() {
    let (body, evicted) =
        MainFrame::response_body(&obj(vec![("base64body", s("SGVsbG8=")), ("evicted", JsonValue::Bool(true))]))
            .unwrap();
    assert_eq!(body, b"Hello".to_vec());
    assert!(evicted);
    let (body, evicted) = MainFrame::response_body(&obj(vec![])).unwrap();
    assert!(body.is_empty());
    assert!(!evicted);
    let e = MainFrame::response_body(&obj(vec![("base64body", s("!"))])).unwrap_err();
    assert_eq!(e.kind, ProtocolErrorKind::Response);
    assert_eq!(e.method.as_deref(), Some("Network.getResponseBody"));
    assert_eq!(e.message, "invalid base64 character: '!'");
}

#[test]
fn screenshot_data_decodes_the_payload() {
    assert_eq!(MainFrame::screenshot_data(&obj(vec![("data", s("TWFu"))])).unwrap(), b"Man".to_vec());
    let e = MainFrame::screenshot_data(&obj(vec![("data", s("T#"))])).unwrap_err();
    assert_eq!(e.method.as_deref(), Some("Page.screenshot"));
}

#[test]
fn dom_and_worker_requests() {
    let f = frame();
    assert_request(
        &f.describe_node("fr", "o1"),
        "Page.describeNode",
        obj(vec![("frameId", s("fr")), ("objectId", s("o1"))]),
    );
    assert_request(
        &f.get_content_quads("fr", "o1"),
        "Page.getContentQuads",
        obj(vec![("frameId", s("fr")), ("objectId", s("o1"))]),
    );
    assert_request(
        &f.set_file_input_files("fr", "o1", &["/tmp/a", "/tmp/b"]),
        "Page.setFileInputFiles",
        obj(vec![
            ("frameId", s("fr")),
            ("objectId", s("o1")),
            ("files", JsonValue::Array(vec![s("/tmp/a"), s("/tmp/b")])),
        ]),
    );
    assert_request(
        &f.adopt_node("fr", Some("o1"), "ctx"),
        "Page.adoptNode",
        obj(vec![("frameId", s("fr")), ("executionContextId", s("ctx")), ("objectId", s("o1"))]),
    );
    assert_request(
        &f.send_message_to_worker("fr", "w1", "hello"),
        "Page.sendMessageToWorker",
        obj(vec![("frameId", s("fr")), ("workerId", s("w1")), ("message", s("hello"))]),
    );
    assert_request(
        &f.start_screencast(800, 600, 80),
        "Page.startScreencast",
        obj(vec![("width", u(800)), ("height", u(600)), ("quality", u(80))]),
    );
    assert_request(&f.set_cache_disabled(false), "Page.setCacheDisabled", obj(vec![("cacheDisabled", JsonValue::Bool(false))]));
    assert_request(
        &f.set_intercept_file_chooser_dialog(true),
        "Page.setInterceptFileChooserDialog",
        obj(vec![("enabled", JsonValue::Bool(true))]),
    );
    assert_eq!(MainFrame::adopted_object(&obj(vec![("remoteObject", obj(vec![("objectId", s("x"))]))])), Some(obj(vec![("objectId", s("x"))])));
    assert_eq!(MainFrame::adopted_object(&obj(vec![])), None);
}

fn observed(deadline_passed: bool, ctx: Option<&str>) -> EvaluateInput {
    EvaluateInput::Observed { deadline_passed, current_context: ctx.map(|c| c.to_owned()) }
}

fn context_lost() -> ProtocolError {
    ProtocolError::response(
        "Runtime.evaluate",
        ErrorData { message: "Cannot find execution context with id 5".to_owned(), data: None },
    )
}

#[test]
fn evaluate_sends_in_the_current_context_and_returns_the_answer() {
    let f = frame();
    let (state, step) = f.evaluate_step("1 + 1", EvaluateState::start(), observed(false, Some("ctx-1")));
    assert!(!step.clear_context);
    match &step.action {
        EvaluateAction::Send(r) => assert_request(
            r,
            "Runtime.evaluate",
            obj(vec![
                ("expression", s("1 + 1")),
                ("returnByValue", JsonValue::Bool(true)),
                ("executionContextId", s("ctx-1")),
            ]),
        ),
        _ => panic!("expected a request"),
    }
    assert!(matches!(&state.phase, EvaluatePhase::AwaitingReply(c) if c == "ctx-1"));
    let answer = obj(vec![("result", obj(vec![("value", u(2))]))]);
    let (_, step) = f.evaluate_step("1 + 1", state, EvaluateInput::Replied(Ok(obj(vec![("result", obj(vec![("value", u(2))]))]))));
    match step.action {
        EvaluateAction::Finish(Ok(v)) => assert_eq!(v, answer),
        _ => panic!("expected the answer"),
    }
}

#[test]
fn evaluate_retries_after_a_lost_context_and_avoids_it() {
    let f = frame();
    let (state, _) = f.evaluate_step("x", EvaluateState::start(), observed(false, Some("ctx-1")));
    let (state, step) = f.evaluate_step("x", state, EvaluateInput::Replied(Err(context_lost())));
    assert!(matches!(step.action, EvaluateAction::Wait { millis } if millis == RETRY_DELAY_MILLIS));
    assert_eq!(state.attempt, 1);
    assert_eq!(state.bad_context.as_deref(), Some("ctx-1"));
    // The lost context is not used again: wait for a fresh one.
    let (state, step) = f.evaluate_step("x", state, observed(false, Some("ctx-1")));
    assert!(step.clear_context);
    assert!(matches!(step.action, EvaluateAction::Wait { millis } if millis == CONTEXT_POLL_MILLIS));
    assert!(matches!(state.phase, EvaluatePhase::AwaitingContext));
    let (state, step) = f.evaluate_step("x", state, observed(false, Some("ctx-2")));
    assert!(matches!(&step.action, EvaluateAction::Send(r) if r.method == "Runtime.evaluate"));
    assert!(matches!(&state.phase, EvaluatePhase::AwaitingReply(c) if c == "ctx-2"));
}

#[test]
fn evaluate_gives_up_waiting_for_a_context_at_the_deadline() {
    let f = frame();
    let (state, step) = f.evaluate_step("x", EvaluateState::start(), observed(false, None));
    assert!(step.clear_context);
    let (_, step) = f.evaluate_step("x", state, observed(true, None));
    match step.action {
        EvaluateAction::Finish(Err(e)) => {
            assert_eq!(e.kind, ProtocolErrorKind::Closed);
            assert_eq!(e.method.as_deref(), Some("Runtime.evaluate"));
            assert_eq!(e.message, "timed out waiting for execution context");
        },
        _ => panic!("expected a failure"),
    }
}

#[test]
fn evaluate_fails_when_a_retry_starts_after_the_deadline() {
    let f = frame();
    let (_, step) = f.evaluate_step("x", EvaluateState::start(), observed(true, Some("ctx-1")));
    match step.action {
        EvaluateAction::Finish(Err(e)) => assert_eq!(e.message, "evaluate failed after 5 retries"),
        _ => panic!("expected a failure"),
    }
}

#[test]
fn evaluate_returns_other_errors_at_once() {
    let f = frame();
    let (state, _) = f.evaluate_step("x", EvaluateState::start(), observed(false, Some("c")));
    let err = ProtocolError::response(
        "Runtime.evaluate",
        ErrorData { message: "SyntaxError".to_owned(), data: None },
    );
    let (_, step) = f.evaluate_step("x", state, EvaluateInput::Replied(Err(err)));
    match step.action {
        EvaluateAction::Finish(Err(e)) => assert_eq!(e.message, "SyntaxError"),
        _ => panic!("expected the error"),
    }
}

#[test]
fn evaluate_stops_retrying_after_the_last_attempt() {
    let f = frame();
    let mut state = EvaluateState::start();
    let mut contexts = 0u32;
    loop {
        contexts += 1;
        let ctx = format!("ctx-{contexts}");
        let (s1, step) = f.evaluate_step("x", state, observed(false, Some(ctx.as_str())));
        assert!(matches!(step.action, EvaluateAction::Send(_)));
        let (s2, step) = f.evaluate_step("x", s1, EvaluateInput::Replied(Err(context_lost())));
        match step.action {
            EvaluateAction::Wait { .. } => state = s2,
            EvaluateAction::Finish(Err(e)) => {
                assert_eq!(e.message, "Cannot find execution context with id 5");
                break;
            },
            _ => panic!("unexpected step"),
        }
    }
    assert_eq!(contexts, EVALUATE_MAX_RETRIES + 1);
}

#[test]
fn context_lost_detection() {
    assert!(camoufox::api::main_frame::is_context_lost("Cannot find execution context with id 3"));
    assert!(camoufox::api::main_frame::is_context_lost("Failed to find frame"));
    assert!(!camoufox::api::main_frame::is_context_lost("SyntaxError"));
    assert!(camoufox::api::main_frame::contains_str("abc", ""));
    assert!(!camoufox::api::main_frame::contains_str("", "a"));
}

#[test]
fn request_sequences_stop_at_the_first_failure() {
    assert!(matches!(sequence_step(0, 2, Ok(obj(vec![]))), SequenceStep::SendNext));
    assert!(matches!(sequence_step(1, 2, Ok(obj(vec![]))), SequenceStep::Finish(Ok(()))));
    match sequence_step(0, 2, Err(ProtocolError::closed(None))) {
        SequenceStep::Finish(Err(e)) => assert_eq!(e.kind, ProtocolErrorKind::Closed),
        _ => panic!("expected the error"),
    }
}
