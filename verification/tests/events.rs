use std::sync::atomic::{AtomicUsize, Ordering};
use std::sync::{Arc, Mutex};

use camoufox::protocol::events::EventRouter;
use camoufox::protocol::types::EventMessage;

type EventHandler = Box<dyn Fn(&EventMessage) + Send>;

fn make_event(method: &str, session_id: Option<&str>) -> EventMessage {
    EventMessage {
        method: method.to_owned(),
        params: serde_json::Value::Object(serde_json::Map::new()),
        session_id: session_id.map(|s| s.to_owned()),
    }
}

fn counter(count: &Arc<AtomicUsize>, by: usize) -> EventHandler {
    let c = count.clone();
    Box::new(move |_| {
        c.fetch_add(by, Ordering::SeqCst);
    })
}

#[test]
fn exact_match_fires() {
    let mut router: EventRouter<EventHandler> = EventRouter::new();
    let count = Arc::new(AtomicUsize::new(0));
    router.on("", "Browser.attachedToTarget", counter(&count, 1));

    router.dispatch(&make_event("Browser.attachedToTarget", None));
    assert_eq!(count.load(Ordering::SeqCst), 1);

    // Different method should not fire
    router.dispatch(&make_event("Browser.detachedFromTarget", None));
    assert_eq!(count.load(Ordering::SeqCst), 1);
}

#[test]
fn session_wildcard_fires_for_all_methods() {
    let mut router: EventRouter<EventHandler> = EventRouter::new();
    let count = Arc::new(AtomicUsize::new(0));
    router.on_any("session-1", counter(&count, 1));

    router.dispatch(&make_event("Page.navigationStarted", Some("session-1")));
    router.dispatch(&make_event("Page.dialogOpened", Some("session-1")));
    assert_eq!(count.load(Ordering::SeqCst), 2);

    // Different session should not fire
    router.dispatch(&make_event("Page.navigationStarted", Some("session-2")));
    assert_eq!(count.load(Ordering::SeqCst), 2);
}

#[test]
fn global_handler_fires_for_everything() {
    let mut router: EventRouter<EventHandler> = EventRouter::new();
    let count = Arc::new(AtomicUsize::new(0));
    router.on_global(counter(&count, 1));

    router.dispatch(&make_event("Browser.attachedToTarget", None));
    router.dispatch(&make_event("Page.navigationStarted", Some("s1")));
    router.dispatch(&make_event("Runtime.console", Some("s2")));
    assert_eq!(count.load(Ordering::SeqCst), 3);
}

#[test]
fn dispatch_order_exact_then_wildcard_then_global() {
    let mut router: EventRouter<EventHandler> = EventRouter::new();
    let order = Arc::new(Mutex::new(Vec::new()));

    let o1 = order.clone();
    router.on(
        "",
        "Browser.attachedToTarget",
        Box::new(move |_| {
            o1.lock().unwrap().push("exact");
        }),
    );

    let o2 = order.clone();
    router.on_any(
        "",
        Box::new(move |_| {
            o2.lock().unwrap().push("wildcard");
        }),
    );

    let o3 = order.clone();
    router.on_global(Box::new(move |_| {
        o3.lock().unwrap().push("global");
    }));

    router.dispatch(&make_event("Browser.attachedToTarget", None));
    let result = order.lock().unwrap().clone();
    assert_eq!(result, vec!["exact", "wildcard", "global"]);
}

#[test]
fn remove_session_cleans_up_all_handlers() {
    let mut router: EventRouter<EventHandler> = EventRouter::new();
    let count = Arc::new(AtomicUsize::new(0));

    router.on("s1", "Page.navigationStarted", counter(&count, 1));
    router.on_any("s1", counter(&count, 1));

    // Should have 2 handler entries for s1
    assert_eq!(router.handler_count(), 2);

    router.remove_session("s1");
    assert_eq!(router.handler_count(), 0);

    // Dispatch should not fire anything
    router.dispatch(&make_event("Page.navigationStarted", Some("s1")));
    assert_eq!(count.load(Ordering::SeqCst), 0);
}

#[test]
fn remove_session_does_not_affect_other_sessions() {
    let mut router: EventRouter<EventHandler> = EventRouter::new();
    let count_s1 = Arc::new(AtomicUsize::new(0));
    let count_s2 = Arc::new(AtomicUsize::new(0));

    router.on("s1", "Page.load", counter(&count_s1, 1));
    router.on("s2", "Page.load", counter(&count_s2, 1));

    router.remove_session("s1");

    router.dispatch(&make_event("Page.load", Some("s1")));
    router.dispatch(&make_event("Page.load", Some("s2")));

    assert_eq!(count_s1.load(Ordering::SeqCst), 0);
    assert_eq!(count_s2.load(Ordering::SeqCst), 1);
}

#[test]
fn remove_session_does_not_affect_globals() {
    let mut router: EventRouter<EventHandler> = EventRouter::new();
    let count = Arc::new(AtomicUsize::new(0));
    router.on_global(counter(&count, 1));

    router.remove_session("s1");

    router.dispatch(&make_event("Page.load", Some("s1")));
    assert_eq!(count.load(Ordering::SeqCst), 1);
}

#[test]
fn multiple_handlers_on_same_key() {
    let mut router: EventRouter<EventHandler> = EventRouter::new();
    let count = Arc::new(AtomicUsize::new(0));

    router.on("", "Browser.attachedToTarget", counter(&count, 1));
    router.on("", "Browser.attachedToTarget", counter(&count, 10));

    router.dispatch(&make_event("Browser.attachedToTarget", None));
    assert_eq!(count.load(Ordering::SeqCst), 11);
}

#[test]
fn handler_receives_event_params() {
    let mut router: EventRouter<EventHandler> = EventRouter::new();
    let received = Arc::new(Mutex::new(None));
    let r = received.clone();
    router.on(
        "",
        "Browser.attachedToTarget",
        Box::new(move |event| {
            *r.lock().unwrap() = Some(event.params.clone());
        }),
    );

    let mut params = serde_json::Map::new();
    params.insert("sessionId".to_owned(), serde_json::Value::String("abc".to_owned()));
    params.insert("targetInfo".to_owned(), serde_json::Value::Object(serde_json::Map::new()));
    let event = EventMessage {
        method: "Browser.attachedToTarget".to_owned(),
        params: serde_json::Value::Object(params),
        session_id: None,
    };
    router.dispatch(&event);

    let params = received.lock().unwrap().take().unwrap();
    assert_eq!(params["sessionId"], "abc");
}

#[test]
fn empty_router_dispatch_is_noop() {
    let router: EventRouter<EventHandler> = EventRouter::new();
    // Should not panic
    router.dispatch(&make_event("Browser.attachedToTarget", None));
}

#[test]
fn default_impl() {
    let router: EventRouter<EventHandler> = EventRouter::default();
    assert_eq!(router.handler_count(), 0);
}

#[test]
fn removing_a_session_keeps_its_later_subscriptions_working() {
    let mut router: EventRouter<EventHandler> = EventRouter::new();
    let count = Arc::new(AtomicUsize::new(0));
    router.on("s1", "Page.load", counter(&count, 1));
    router.remove_session("s1");
    router.on("s1", "Page.load", counter(&count, 100));
    router.dispatch(&make_event("Page.load", Some("s1")));
    assert_eq!(count.load(Ordering::SeqCst), 100);
    assert_eq!(router.handler_count(), 1);
}

#[test]
fn root_session_events_match_the_empty_key_only() {
    let mut router: EventRouter<EventHandler> = EventRouter::new();
    let root = Arc::new(AtomicUsize::new(0));
    let page = Arc::new(AtomicUsize::new(0));
    router.on_any("", counter(&root, 1));
    router.on_any("s1", counter(&page, 1));
    router.dispatch(&make_event("Page.load", None));
    router.dispatch(&make_event("Page.load", Some("")));
    router.dispatch(&make_event("Page.load", Some("s1")));
    assert_eq!(root.load(Ordering::SeqCst), 2);
    assert_eq!(page.load(Ordering::SeqCst), 1);
}
