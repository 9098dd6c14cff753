use camoufox::cli::instance::{
    attached_frame, attached_target, context_event, context_wait_step, evaluation_value,
    is_page_ready, launch_settings, require_session, screenshot_mime, screenshot_path,
    track_execution_context, ContextTracker, ContextWait, Instance, InstanceManager, ManagedPage,
    DEFAULT_EXECUTABLE,
};
use camoufox::cli::instance::{
    navigation_wait_step, setup_step, stop_step, SetupAction, SetupInput, SetupPhase, StopAction,
    STOP_GRACE_SECS,
};
use camoufox::json::{JsonNumber, JsonValue};

type TestInstance = Instance<(), u32, Option<String>>;
type TestManager = InstanceManager<(), u32, Option<String>, &'static str>;

fn s(text: &str) -> JsonValue {
    JsonValue::Str(text.to_owned())
}

fn u(n: u64) -> JsonValue {
    JsonValue::Number(JsonNumber::PosInt(n))
}

fn obj(entries: Vec<(&str, JsonValue)>) -> JsonValue {
    JsonValue::Object(entries.into_iter().map(|(k, v)| (k.to_owned(), v)).collect())
}

fn page(n: u32, session: &str) -> ManagedPage<u32, Option<String>> {
    ManagedPage { page: n, session_id: session.to_owned(), execution_context_id: None }
}

#[test]
fn pages_get_sequential_ids() {
    let mut inst: TestInstance = Instance::new((), Some("Firefox/135.0".to_owned()), 4242);
    assert_eq!(inst.add_page(page(1, "s1")), "p1");
    assert_eq!(inst.add_page(page(2, "s2")), "p2");
    assert_eq!(inst.pages_created(), 2);
    assert_eq!(inst.page("p2").unwrap().page, 2);
    assert_eq!(inst.page("p1").unwrap().session_id, "s1");
    assert_eq!(inst.page("p3").err(), Some("page p3 not found".to_owned()));
}

#[test]
fn page_ids_are_sorted() {
    let mut inst: TestInstance = Instance::new((), None, 1);
    for n in 0..11 {
        inst.add_page(page(n, "s"));
    }
    assert_eq!(
        inst.page_ids(),
        vec!["p1", "p10", "p11", "p2", "p3", "p4", "p5", "p6", "p7", "p8", "p9"]
    );
}

#[test]
fn instances_get_hex_ids_and_list_in_order() {
    let mut m: TestManager = InstanceManager::new();
    let mut a: TestInstance = Instance::new((), Some("Firefox/1".to_owned()), 100);
    a.add_page(page(1, "s1"));
    let b: TestInstance = Instance::new((), None, 200);
    assert_eq!(m.register(a, "ctx-a"), "00000001");
    assert_eq!(m.register(b, "ctx-b"), "00000002");
    assert_eq!(m.instance_count(), 2);
    assert_eq!(m.instance_ids(), vec!["00000001", "00000002"]);
    let listed = m.list();
    assert_eq!(
        listed,
        vec![
            obj(vec![
                ("instance_id", s("00000001")),
                ("pid", u(100)),
                ("version", s("Firefox/1")),
                ("pages", JsonValue::Array(vec![s("p1")])),
            ]),
            obj(vec![
                ("instance_id", s("00000002")),
                ("pid", u(200)),
                ("version", JsonValue::Null),
                ("pages", JsonValue::Array(vec![])),
            ]),
        ]
    );
}

#[test]
fn stopped_instances_are_gone_and_ids_are_not_reused() {
    let mut m: TestManager = InstanceManager::new();
    m.register(Instance::new((), None, 1), "c1");
    m.register(Instance::new((), None, 2), "c2");
    let slot = m.remove("00000001").unwrap();
    assert_eq!(slot.instance.pid, 1);
    assert_eq!(slot.context, "c1");
    assert_eq!(m.remove("00000001").err(), Some("instance 00000001 not found".to_owned()));
    assert_eq!(m.instance("00000001").err(), Some("instance 00000001 not found".to_owned()));
    assert_eq!(m.register(Instance::new((), None, 3), "c3"), "00000003");
    assert_eq!(m.instance_ids(), vec!["00000002", "00000003"]);
}

#[test]
fn pages_are_added_through_the_manager() {
    let mut m: TestManager = InstanceManager::new();
    let id = m.register(Instance::new((), None, 7), "ctx");
    assert_eq!(*m.context_of(&id).unwrap(), "ctx");
    assert_eq!(m.add_page(&id, page(9, "sess")).unwrap(), "p1");
    assert_eq!(m.add_page(&id, page(10, "sess2")).unwrap(), "p2");
    assert_eq!(m.add_page("ffffffff", page(11, "x")).err(), Some("instance ffffffff not found".to_owned()));
    let inst = m.instance(&id).unwrap();
    assert_eq!(inst.page_ids(), vec!["p1", "p2"]);
    assert_eq!(inst.page("p1").unwrap().page, 9);
    assert_eq!(m.context_of("00000009").err(), Some("instance 00000009 not found".to_owned()));
}

#[test]
fn attached_target_reads_session_and_target() {
    let params = obj(vec![("sessionId", s("abc")), ("targetInfo", obj(vec![("targetId", s("t1"))]))]);
    assert_eq!(attached_target(&params), ("abc".to_owned(), "t1".to_owned()));
    assert_eq!(attached_target(&obj(vec![("targetInfo", obj(vec![]))])), (String::new(), String::new()));
    assert_eq!(require_session("abc".to_owned()), Ok("abc".to_owned()));
    assert_eq!(
        require_session(String::new()),
        Err("received empty sessionId from attachedToTarget".to_owned())
    );
}

#[test]
fn main_frame_is_the_first_frame_of_the_session() {
    let params = obj(vec![("frameId", s("f1"))]);
    assert_eq!(attached_frame("s1", "Page.frameAttached", Some("s1"), &params), Some("f1".to_owned()));
    assert_eq!(attached_frame("s1", "Page.frameAttached", Some("s2"), &params), None);
    assert_eq!(attached_frame("s1", "Page.frameDetached", Some("s1"), &params), None);
    assert_eq!(attached_frame("s1", "Page.frameAttached", Some("s1"), &obj(vec![])), None);
    assert_eq!(attached_frame("", "Page.frameAttached", None, &params), Some("f1".to_owned()));
    assert!(is_page_ready("s1", "Page.ready", Some("s1")));
    assert!(!is_page_ready("s1", "Page.ready", Some("s2")));
    assert!(!is_page_ready("s1", "Page.load", Some("s1")));
}

#[test]
fn context_events_are_recognised() {
    let params = obj(vec![("executionContextId", s("c1"))]);
    let ev = context_event("Runtime.executionContextCreated", Some("s1"), &params).unwrap();
    assert_eq!((ev.session_id.as_str(), ev.context_id.as_str(), ev.created), ("s1", "c1", true));
    let ev = context_event("Runtime.executionContextDestroyed", None, &obj(vec![])).unwrap();
    assert_eq!((ev.session_id.as_str(), ev.context_id.as_str(), ev.created), ("", "", false));
    assert!(context_event("Page.ready", Some("s1"), &params).is_none());
}

fn ctx_event(session: &str, ctx: &str, created: bool) -> camoufox::cli::instance::ContextEvent {
    camoufox::cli::instance::ContextEvent {
        session_id: session.to_owned(),
        context_id: ctx.to_owned(),
        created,
    }
}

#[test]
fn tracker_keeps_the_surviving_contexts() {
    let mut t = ContextTracker::new();
    assert!(t.is_empty());
    assert_eq!(t.surviving(), Err("no surviving execution context".to_owned()));
    t.record("s1", &ctx_event("s1", "c1", true));
    t.record("s1", &ctx_event("s2", "c9", true));
    t.record("s1", &ctx_event("s1", "", true));
    t.record("s1", &ctx_event("s1", "c2", true));
    t.record("s1", &ctx_event("s1", "c1", false));
    assert_eq!(t.surviving(), Ok("c2".to_owned()));
    t.record("s1", &ctx_event("s1", "c2", false));
    assert!(t.is_empty());
}

#[test]
fn awaiting_ends_at_the_first_created_context() {
    let mut t = ContextTracker::new();
    assert!(!t.await_event("s1", &ctx_event("s2", "c1", true)));
    assert!(!t.await_event("s1", &ctx_event("s1", "c1", false)));
    assert!(!t.await_event("s1", &ctx_event("s1", "", true)));
    assert!(t.is_empty());
    assert!(t.await_event("s1", &ctx_event("s1", "c3", true)));
    assert_eq!(t.surviving(), Ok("c3".to_owned()));
}

#[test]
fn cached_context_follows_the_page_session() {
    let created = obj(vec![("executionContextId", s("c1"))]);
    let mut current: Option<String> = None;
    track_execution_context(&mut current, "s1", "Runtime.executionContextCreated", Some("s1"), &created);
    assert_eq!(current.as_deref(), Some("c1"));
    // Another session's events change nothing.
    track_execution_context(&mut current, "s1", "Runtime.executionContextDestroyed", Some("s2"), &created);
    assert_eq!(current.as_deref(), Some("c1"));
    // The destruction of another context changes nothing.
    let other = obj(vec![("executionContextId", s("c0"))]);
    track_execution_context(&mut current, "s1", "Runtime.executionContextDestroyed", Some("s1"), &other);
    assert_eq!(current.as_deref(), Some("c1"));
    track_execution_context(&mut current, "s1", "Runtime.executionContextDestroyed", Some("s1"), &created);
    assert_eq!(current, None);
    track_execution_context(&mut current, "s1", "Runtime.executionContextCreated", Some("s1"), &obj(vec![]));
    assert_eq!(current, None);
}

#[test]
fn waiting_for_a_context() {
    assert!(matches!(context_wait_step(&Some("c1".to_owned()), true), ContextWait::Ready(c) if c == "c1"));
    assert!(matches!(context_wait_step(&None, false), ContextWait::Sleep { millis: 100 }));
    assert!(matches!(
        context_wait_step(&None, true),
        ContextWait::Failed(e) if e == "timed out waiting for execution context (page may still be loading)"
    ));
}

#[test]
fn evaluation_value_unwraps_the_result() {
    assert_eq!(evaluation_value(obj(vec![("result", obj(vec![("value", u(2))]))])), u(2));
    assert_eq!(evaluation_value(obj(vec![("value", s("x"))])), s("x"));
    assert_eq!(
        evaluation_value(obj(vec![("result", obj(vec![("type", s("undefined"))]))])),
        obj(vec![("result", obj(vec![("type", s("undefined"))]))])
    );
    assert_eq!(evaluation_value(JsonValue::Bool(true)), JsonValue::Bool(true));
}

#[test]
fn screenshot_type_and_path() {
    assert_eq!(screenshot_mime(Some("jpeg")), "image/jpeg");
    assert_eq!(screenshot_mime(Some("jpg")), "image/jpeg");
    assert_eq!(screenshot_mime(Some("png")), "image/png");
    assert_eq!(screenshot_mime(Some("webp")), "image/png");
    assert_eq!(screenshot_mime(None), "image/png");
    assert_eq!(screenshot_path("p1", "image/jpeg", None), "/tmp/screenshot-p1.jpg");
    assert_eq!(screenshot_path("p2", "image/png", None), "/tmp/screenshot-p2.png");
    assert_eq!(screenshot_path("p2", "image/png", Some("/x/y.png")), "/x/y.png");
}

#[test]
fn launch_defaults() {
    assert_eq!(launch_settings(None, None), (DEFAULT_EXECUTABLE.to_owned(), true));
    assert_eq!(DEFAULT_EXECUTABLE, "/root/.cache/camoufox/camoufox");
    assert_eq!(launch_settings(Some(false), Some("/opt/ff")), ("/opt/ff".to_owned(), false));
}

#[test]
fn instance_ids_never_repeat() {
    let mut m: TestManager = InstanceManager::new();
    let mut seen = std::collections::HashSet::new();
    for n in 0..300u32 {
        let id = m.register(Instance::new((), None, n), "c");
        assert_eq!(id.len(), 8);
        assert!(seen.insert(id.clone()));
        if n % 2 == 0 {
            m.remove(&id).unwrap();
        }
    }
    assert_eq!(m.registered(), 300);
    assert_eq!(m.instance_count(), 150);
    assert_eq!(m.instance_ids()[0], "00000002");
    assert_eq!(m.instance_ids()[149], "0000012c");
}

#[test]
fn navigation_waits_for_the_context_it_brings() {
    let old = Some("c1".to_owned());
    let new = Some("c2".to_owned());
    assert!(matches!(navigation_wait_step(&old, &old, true, false), ContextWait::Sleep { millis: 100 }));
    assert!(matches!(navigation_wait_step(&old, &None, true, false), ContextWait::Sleep { millis: 100 }));
    assert!(matches!(navigation_wait_step(&old, &new, true, false), ContextWait::Ready(c) if c == "c2"));
    // A same-document navigation keeps its context.
    assert!(matches!(navigation_wait_step(&old, &old, false, false), ContextWait::Ready(c) if c == "c1"));
    assert!(matches!(navigation_wait_step(&None, &new, true, false), ContextWait::Ready(c) if c == "c2"));
    assert!(matches!(
        navigation_wait_step(&old, &old, true, true),
        ContextWait::Failed(e) if e == "timed out waiting for execution context (page may still be loading)"
    ));
}

#[test]
fn stopping_waits_then_kills() {
    assert!(matches!(stop_step(false, false), StopAction::Done));
    assert!(matches!(stop_step(false, true), StopAction::Done));
    assert!(matches!(stop_step(true, false), StopAction::Wait { millis: 50 }));
    assert!(matches!(stop_step(true, true), StopAction::Kill));
    assert_eq!(STOP_GRACE_SECS, 5);
}

fn page_event(method: &str, session: Option<&str>, params: JsonValue) -> camoufox::cli::instance::PageEvent {
    camoufox::cli::instance::PageEvent {
        method: method.to_owned(),
        session_id: session.map(|s| s.to_owned()),
        params,
    }
}

#[test]
fn page_wiring_goes_attach_frame_ready() {
    let (phase, action) =
        setup_step(SetupPhase::AwaitingAttach, SetupInput::Attached(Some(("s1".to_owned(), "t1".to_owned()))));
    assert!(matches!(&action, SetupAction::CreateSession(s) if s == "s1"));
    // Another session's frame and a quiet poll keep waiting.
    let other = page_event("Page.frameAttached", Some("s2"), obj(vec![("frameId", s("f9"))]));
    let (phase, action) = setup_step(phase, SetupInput::Seen(other, false));
    assert!(matches!(action, SetupAction::Listen));
    let (phase, action) = setup_step(phase, SetupInput::Quiet(false));
    assert!(matches!(action, SetupAction::Listen));
    let mine = page_event("Page.frameAttached", Some("s1"), obj(vec![("frameId", s("f1"))]));
    let (phase, action) = setup_step(phase, SetupInput::Seen(mine, false));
    assert!(matches!(&action, SetupAction::SetMainFrame(f) if f == "f1"));
    let (phase, action) = setup_step(phase, SetupInput::Seen(page_event("Page.load", Some("s1"), JsonValue::Null), false));
    assert!(matches!(action, SetupAction::Listen));
    let (phase, action) = setup_step(phase, SetupInput::Seen(page_event("Page.ready", Some("s1"), JsonValue::Null), false));
    assert!(matches!(&action, SetupAction::ResolveContext(s) if s == "s1"));
    assert!(matches!(phase, SetupPhase::Wired(_)));
}

#[test]
fn page_wiring_failures() {
    let fail = |r: (SetupPhase, SetupAction)| match r.1 {
        SetupAction::Fail(e) => e,
        _ => panic!("expected a failure"),
    };
    assert_eq!(
        fail(setup_step(SetupPhase::AwaitingAttach, SetupInput::Attached(None))),
        "timeout waiting for Browser.attachedToTarget"
    );
    assert_eq!(
        fail(setup_step(SetupPhase::AwaitingAttach, SetupInput::Attached(Some((String::new(), "t".to_owned()))))),
        "received empty sessionId from attachedToTarget"
    );
    assert_eq!(
        fail(setup_step(SetupPhase::AwaitingFrame("s1".to_owned()), SetupInput::Quiet(true))),
        "timeout waiting for Page.frameAttached"
    );
    assert_eq!(
        fail(setup_step(SetupPhase::AwaitingFrame("s1".to_owned()), SetupInput::Disconnected)),
        "timeout waiting for Page.frameAttached"
    );
    assert_eq!(
        fail(setup_step(SetupPhase::AwaitingReady("s1".to_owned()), SetupInput::Quiet(true))),
        "timeout waiting for Page.ready"
    );
    // Another session's readiness after the deadline keeps the wait going.
    let (_, action) = setup_step(
        SetupPhase::AwaitingReady("s1".to_owned()),
        SetupInput::Seen(page_event("Page.ready", Some("s2"), JsonValue::Null), true),
    );
    assert!(matches!(action, SetupAction::Listen));
    assert!(camoufox::cli::instance::is_ready_event("Page.ready"));
    assert!(!camoufox::cli::instance::is_ready_event("Page.load"));
    assert_eq!(
        fail(setup_step(SetupPhase::AwaitingReady("s1".to_owned()), SetupInput::Disconnected)),
        "channel disconnected waiting for Page.ready"
    );
}
