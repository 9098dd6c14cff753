//! Instance management for the daemon.
//!
//! Each `Instance` holds a running Camoufox browser (its process, connection
//! and profile, kept as the `runtime`) with its pages. The
//! `InstanceManager` keeps the instances by id; the daemon maps CLI commands
//! onto it. This module holds the bookkeeping and the decisions; talking to
//! the browser is the caller's part.

use vstd::prelude::*;

use crate::json::{
    entries_model, items_model, json_get, json_get_str, lookup, push_entry, push_item, Json,
    JsonValue, NumberModel,
};
use crate::registry::{
    has_key, keys, lemma_same_keys_value, lemma_value_of_absent, lemma_value_of_index, strictly_sorted, value_of,
    Registry,
};
use crate::api::main_frame::CONTEXT_POLL_MILLIS;
use crate::text::{
    decimal, decimal_text, hex_digits, hex_text, lemma_decimal_text_injective, lemma_hex_text_injective,
    pow16, same_text, text_lt,
};

verus! {

/// The browser executable used when none is given.
pub const DEFAULT_EXECUTABLE: &'static str = "/root/.cache/camoufox/camoufox";

/// How long, in seconds, to wait for each protocol event while a page is set
/// up, and for an execution context.
pub const EVENT_TIMEOUT_SECS: u64 = 30;

/// A page with persistent execution context tracking.
pub struct ManagedPage<P, C> {
    pub page: P,
    pub session_id: String,
    /// The current execution context ID, updated by global event handlers.
    pub execution_context_id: C,
}

/// The id of the `n`-th page of an instance: `p{n}`.
pub open spec fn page_id_text(n: nat) -> Seq<char> {
    "p"@ + decimal_text(n)
}

/// Whether `key` is the id of one of the first `count` pages.
pub open spec fn issued_page_id(key: Seq<char>, count: nat) -> bool {
    exists|n: nat| 1 <= n <= count && key == page_id_text(n)
}

/// Pages with different numbers have different ids.
pub proof fn lemma_page_id_injective(n: nat, m: nat)
    requires
        page_id_text(n) == page_id_text(m),
    ensures
        n == m,
{
    reveal_strlit("p");
    assert(page_id_text(n).skip(1) =~= decimal_text(n));
    assert(page_id_text(m).skip(1) =~= decimal_text(m));
    lemma_decimal_text_injective(n, m);
}

/// The id of the `n`-th instance: `n` in eight lower-case hex digits.
pub open spec fn instance_id_text(n: nat) -> Seq<char> {
    hex_text(n, 8)
}

/// Whether `key` is the id of one of the first `count` instances.
pub open spec fn issued_instance_id(key: Seq<char>, count: nat) -> bool {
    exists|n: nat| 1 <= n <= count && key == instance_id_text(n)
}

/// Instances with different numbers (below `2^32`) have different ids.
pub proof fn lemma_instance_id_injective(n: nat, m: nat)
    requires
        n <= u32::MAX,
        m <= u32::MAX,
        instance_id_text(n) == instance_id_text(m),
    ensures
        n == m,
{
    assert(pow16(8) == 4294967296) by {
        reveal_with_fuel(pow16, 9);
    }
    lemma_hex_text_injective(n, m, 8);
}

/// The message for a missing page or instance: `{what} {id} not found`.
pub open spec fn not_found_text(what: Seq<char>, id: Seq<char>) -> Seq<char> {
    what + " "@ + id + " not found"@
}

fn not_found(what: &str, id: &str) -> (s: String)
    ensures
        s@ == not_found_text(what@, id@),
{
    let mut s = what.to_owned();
    s.append(" ");
    s.append(id);
    s.append(" not found");
    s
}

/// A running Camoufox browser instance managed by the daemon.
pub struct Instance<R, P, C> {
    /// The browser connection, its process and its profile directory.
    pub runtime: R,
    pub version: Option<String>,
    pub pid: u32,
    pages: Registry<ManagedPage<P, C>>,
    page_counter: u32,
}

impl<R, P, C> Instance<R, P, C> {
    /// The pages, by id, in id order.
    pub closed spec fn pages(&self) -> Seq<(Seq<char>, ManagedPage<P, C>)> {
        self.pages@
    }

    /// How many pages were ever added.
    pub closed spec fn page_counter(&self) -> nat {
        self.page_counter as nat
    }

    pub closed spec fn runtime(&self) -> R {
        self.runtime
    }

    pub closed spec fn version(&self) -> Option<String> {
        self.version
    }

    pub closed spec fn pid(&self) -> u32 {
        self.pid
    }

    /// The pages are in id order, and each page id is that of one of the
    /// pages added so far.
    pub closed spec fn wf(&self) -> bool {
        &&& self.pages.wf()
        &&& forall|i: int|
            0 <= i < self.pages@.len() ==> issued_page_id(
                #[trigger] self.pages@[i].0,
                self.page_counter as nat,
            )
    }

    /// Every page of a well-formed instance is under an id that was issued
    /// to it: `p{n}` for some `n` up to the number of pages added.
    pub proof fn law_page_ids_issued(&self)
        requires
            self.wf(),
        ensures
            forall|k: Seq<char>| #[trigger]
                has_key(self.pages(), k) ==> issued_page_id(k, self.page_counter()),
    {
        assert forall|k: Seq<char>| #[trigger] has_key(self.pages(), k) implies issued_page_id(
            k,
            self.page_counter(),
        ) by {
            let i = choose|i: int| 0 <= i < self.pages@.len() && self.pages@[i].0 == k;
            assert(issued_page_id(self.pages@[i].0, self.page_counter as nat));
        }
    }

    /// A new instance without pages.
    pub fn new(runtime: R, version: Option<String>, pid: u32) -> (inst: Self)
        ensures
            inst.wf(),
            inst.pages() == Seq::<(Seq<char>, ManagedPage<P, C>)>::empty(),
            inst.page_counter() == 0,
            inst.runtime() == runtime,
            inst.version() == version,
            inst.pid() == pid,
    {
        Instance { runtime, version, pid, pages: Registry::new(), page_counter: 0 }
    }

    /// Register a newly created, fully wired page under the next page id
    /// `p{n}` and return that id.
    pub fn add_page(&mut self, page: ManagedPage<P, C>) -> (id: String)
        requires
            old(self).wf(),
            old(self).page_counter() < u32::MAX,
        ensures
            page_added(*old(self), *final(self), page, id@),
    {
        let ghost old_view = self.pages@;
        let ghost count = self.page_counter as nat;
        self.page_counter = self.page_counter + 1;
        let mut id = "p".to_owned();
        let digits = decimal(self.page_counter as u64);
        id.append(digits.as_str());
        proof {
            if has_key(old_view, id@) {
                let i = choose|i: int| 0 <= i < old_view.len() && old_view[i].0 == id@;
                assert(issued_page_id(old_view[i].0, count));
                let n = choose|n: nat| 1 <= n <= count && old_view[i].0 == page_id_text(n);
                lemma_page_id_injective(n, count + 1);
            }
        }
        self.pages.insert(id.clone(), page);
        proof {
            assert forall|i: int| 0 <= i < self.pages@.len() implies issued_page_id(
                #[trigger] self.pages@[i].0,
                count + 1,
            ) by {
                let k = self.pages@[i].0;
                assert(has_key(self.pages@, k));
                if k == id@ {
                    assert(k == page_id_text(count + 1));
                } else {
                    let j = choose|j: int| 0 <= j < old_view.len() && old_view[j].0 == k;
                    assert(issued_page_id(old_view[j].0, count));
                    let n = choose|n: nat| 1 <= n <= count && k == page_id_text(n);
                    assert(k == page_id_text(n));
                }
            }
        }
        id
    }

    /// The page with id `page_id`, or the error `page {page_id} not found`.
    pub fn page(&self, page_id: &str) -> (r: Result<&ManagedPage<P, C>, String>)
        requires
            self.wf(),
        ensures
            match value_of(self.pages(), page_id@) {
                Some(p) => r matches Ok(q) && *q == p,
                None => r matches Err(e) && e@ == not_found_text("page"@, page_id@),
            },
    {
        match self.pages.get(page_id) {
            Some(p) => Ok(p),
            None => Err(not_found("page", page_id)),
        }
    }

    /// Get page IDs, sorted.
    pub fn page_ids(&self) -> (ids: Vec<String>)
        requires
            self.wf(),
        ensures
            ids@.map_values(|s: String| s@) == keys(self.pages()),
            forall|i: int, j: int| 0 <= i < j < ids@.len() ==> text_lt(ids@[i]@, ids@[j]@),
    {
        let ids = self.pages.keys();
        assert(ids@.map_values(|s: String| s@).len() == ids@.len());
        assert forall|i: int, j: int| 0 <= i < j < ids@.len() implies text_lt(ids@[i]@, ids@[j]@) by {
            assert(ids@.map_values(|s: String| s@)[i] == ids@[i]@);
            assert(ids@.map_values(|s: String| s@)[j] == ids@[j]@);
            assert(keys(self.pages@)[i] == self.pages@[i].0);
            assert(keys(self.pages@)[j] == self.pages@[j].0);
        }
        ids
    }

    /// How many pages were ever added.
    pub fn pages_created(&self) -> (n: u32)
        ensures
            n == self.page_counter(),
    {
        self.page_counter
    }
}

// ---------------------------------------------------------------------------
// Page setup: what the protocol events of a new page mean
// ---------------------------------------------------------------------------

/// The text of an optional string.
pub open spec fn opt_text(s: Option<&str>) -> Option<Seq<char>> {
    match s {
        Some(t) => Some(t@),
        None => None,
    }
}

/// The text of an optional owned string.
pub open spec fn opt_string(s: Option<String>) -> Option<Seq<char>> {
    match s {
        Some(t) => Some(t@),
        None => None,
    }
}

/// The text of an optional string; empty when there is none.
pub open spec fn text_or_empty(s: Option<Seq<char>>) -> Seq<char> {
    match s {
        Some(t) => t,
        None => Seq::empty(),
    }
}

fn owned_or_empty(s: Option<&str>) -> (r: String)
    ensures
        r@ == text_or_empty(opt_text(s)),
{
    match s {
        Some(t) => t.to_owned(),
        None => String::new(),
    }
}

/// The session id and the target id that `Browser.attachedToTarget`
/// announces (each empty when the event does not carry it).
pub open spec fn attached_target_model(params: Json) -> (Seq<char>, Seq<char>) {
    let target = match json_get(params, "targetInfo"@) {
        Some(info) => json_get_str(info, "targetId"@),
        None => None,
    };
    (text_or_empty(json_get_str(params, "sessionId"@)), text_or_empty(target))
}

/// The session id and the target id of a `Browser.attachedToTarget` event.
pub fn attached_target(params: &JsonValue) -> (r: (String, String))
    ensures
        (r.0@, r.1@) == attached_target_model(params.model()),
{
    let session_id = owned_or_empty(params.get_str("sessionId"));
    let target_id = match params.get("targetInfo") {
        Some(info) => owned_or_empty(info.get_str("targetId")),
        None => String::new(),
    };
    (session_id, target_id)
}

/// The session of a newly attached page, which must not be empty.
pub fn require_session(session_id: String) -> (r: Result<String, String>)
    ensures
        session_id@.len() > 0 ==> r == Ok::<String, String>(session_id),
        session_id@.len() == 0 ==> (r matches Err(e)
            && e@ == "received empty sessionId from attachedToTarget"@),
{
    if session_id.as_str().unicode_len() == 0 {
        Err("received empty sessionId from attachedToTarget".to_owned())
    } else {
        Ok(session_id)
    }
}

/// The main frame that an event announces for the page session
/// `session_id`: a `Page.frameAttached` of that session with a non-empty
/// frame id.
pub open spec fn attached_frame_model(
    session_id: Seq<char>,
    method: Seq<char>,
    event_session: Option<Seq<char>>,
    params: Json,
) -> Option<Seq<char>> {
    let frame = text_or_empty(json_get_str(params, "frameId"@));
    if method == "Page.frameAttached"@ && text_or_empty(event_session) == session_id && frame.len()
        > 0 {
        Some(frame)
    } else {
        None
    }
}

/// The main frame id, if the event announces the page's main frame.
pub fn attached_frame(session_id: &str, method: &str, event_session: Option<&str>, params: &JsonValue) -> (r:
    Option<String>)
    ensures
        opt_string(r) == attached_frame_model(session_id@, method@, opt_text(event_session), params.model()),
{
    if !same_text(method, "Page.frameAttached") {
        return None;
    }
    let sid = owned_or_empty(event_session);
    let frame = owned_or_empty(params.get_str("frameId"));
    if same_text(sid.as_str(), session_id) && frame.as_str().unicode_len() > 0 {
        Some(frame)
    } else {
        None
    }
}

/// Whether an event is a `Page.ready` event (of any session): the events
/// that the readiness listener passes on.
pub fn is_ready_event(method: &str) -> (r: bool)
    ensures
        r == (method@ == "Page.ready"@),
{
    same_text(method, "Page.ready")
}

/// Whether the event says that the page of session `session_id` is ready.
pub fn is_page_ready(session_id: &str, method: &str, event_session: Option<&str>) -> (r: bool)
    ensures
        r == (method@ == "Page.ready"@ && text_or_empty(opt_text(event_session)) == session_id@),
{
    let sid = owned_or_empty(event_session);
    same_text(method, "Page.ready") && same_text(sid.as_str(), session_id)
}

/// A `Runtime.executionContextCreated` or `Runtime.executionContextDestroyed`
/// event: its session (empty when it has none), the context id (empty when
/// the event does not carry one), and which of the two it is.
pub struct ContextEvent {
    pub session_id: String,
    pub context_id: String,
    pub created: bool,
}

/// The execution-context event that `method` is, if it is one.
pub open spec fn context_event_model(method: Seq<char>, event_session: Option<Seq<char>>, params: Json) -> Option<
    (Seq<char>, Seq<char>, bool),
> {
    let ctx = text_or_empty(json_get_str(params, "executionContextId"@));
    if method == "Runtime.executionContextCreated"@ {
        Some((text_or_empty(event_session), ctx, true))
    } else if method == "Runtime.executionContextDestroyed"@ {
        Some((text_or_empty(event_session), ctx, false))
    } else {
        None
    }
}

/// The execution-context event carried by an event, if any.
pub fn context_event(method: &str, event_session: Option<&str>, params: &JsonValue) -> (r: Option<
    ContextEvent,
>)
    ensures
        match context_event_model(method@, opt_text(event_session), params.model()) {
            Some((sid, ctx, created)) => r matches Some(ev) && ev.session_id@ == sid
                && ev.context_id@ == ctx && ev.created == created,
            None => r is None,
        },
{
    let created = same_text(method, "Runtime.executionContextCreated");
    if !created && !same_text(method, "Runtime.executionContextDestroyed") {
        return None;
    }
    Some(
        ContextEvent {
            session_id: owned_or_empty(event_session),
            context_id: owned_or_empty(params.get_str("executionContextId")),
            created,
        },
    )
}

/// An event as a listener saw it: its method, its session and its
/// parameters.
pub struct PageEvent {
    pub method: String,
    pub session_id: Option<String>,
    pub params: JsonValue,
}

/// Where the wiring of a new page stands.
pub enum SetupPhase {
    /// Waiting for `Browser.attachedToTarget` to name the page's session.
    AwaitingAttach,
    /// Waiting for the main frame of the page session.
    AwaitingFrame(String),
    /// Waiting for `Page.ready` of the page session.
    AwaitingReady(String),
    /// Session and main frame are set and the page is ready.
    Wired(String),
}

/// What the caller saw since the last step of the wiring.
pub enum SetupInput {
    /// The session and target ids that `Browser.attachedToTarget` announced,
    /// or `None` when it did not come in time.
    Attached(Option<(String, String)>),
    /// An event, and whether the deadline of the current phase has passed.
    Seen(PageEvent, bool),
    /// No event within one poll, and whether the deadline of the current
    /// phase has passed.
    Quiet(bool),
    /// The listener is gone.
    Disconnected,
}

/// What the caller does next while wiring a page.
pub enum SetupAction {
    /// Create the session with this id and give it to the page; then wait
    /// for events, with a fresh deadline.
    CreateSession(String),
    /// Make this frame the page's main frame; then wait for events, with a
    /// fresh deadline.
    SetMainFrame(String),
    /// Wait for the next event.
    Listen,
    /// Resolve the first execution context of the page session.
    ResolveContext(String),
    /// The page cannot be wired: this error.
    Fail(String),
}

/// One step of wiring a new page, from `phase` on `input` to `next` with
/// `action`:
/// - the attach announcement must come, with a non-empty session;
/// - then the first `Page.frameAttached` of that session with a frame id
///   gives the main frame, until the deadline (or the listener) runs out;
/// - then `Page.ready` of that session ends the wiring; the deadline is
///   looked at only when no event came within a poll (the listener passes on
///   `Page.ready` events only, see `is_ready_event`), and the wiring also
///   fails when the listener is gone.
pub open spec fn is_setup_step(phase: SetupPhase, input: SetupInput, next: SetupPhase, action: SetupAction) -> bool {
    match phase {
        SetupPhase::AwaitingAttach => match input {
            SetupInput::Attached(None) => action matches SetupAction::Fail(e)
                && e@ == "timeout waiting for Browser.attachedToTarget"@,
            SetupInput::Attached(Some((sid, _))) => if sid@.len() == 0 {
                action matches SetupAction::Fail(e)
                    && e@ == "received empty sessionId from attachedToTarget"@
            } else {
                &&& next matches SetupPhase::AwaitingFrame(s) && s@ == sid@
                &&& action matches SetupAction::CreateSession(s) && s@ == sid@
            },
            _ => false,
        },
        SetupPhase::AwaitingFrame(sid) => {
            let frame = match input {
                SetupInput::Seen(ev, _) => attached_frame_model(
                    sid@,
                    ev.method@,
                    opt_string(ev.session_id),
                    ev.params.model(),
                ),
                _ => None,
            };
            let expired = match input {
                SetupInput::Seen(_, d) => d,
                SetupInput::Quiet(d) => d,
                _ => true,
            };
            match frame {
                Some(f) => {
                    &&& next matches SetupPhase::AwaitingReady(s) && s@ == sid@
                    &&& action matches SetupAction::SetMainFrame(x) && x@ == f
                },
                None => if expired {
                    action matches SetupAction::Fail(e) && e@ == "timeout waiting for Page.frameAttached"@
                } else {
                    next == phase && action == SetupAction::Listen
                },
            }
        },
        SetupPhase::AwaitingReady(sid) => match input {
            SetupInput::Seen(ev, _) => if ev.method@ == "Page.ready"@ && text_or_empty(
                opt_string(ev.session_id),
            ) == sid@ {
                &&& next matches SetupPhase::Wired(s) && s@ == sid@
                &&& action matches SetupAction::ResolveContext(s) && s@ == sid@
            } else {
                next == phase && action == SetupAction::Listen
            },
            SetupInput::Quiet(d) => if d {
                action matches SetupAction::Fail(e) && e@ == "timeout waiting for Page.ready"@
            } else {
                next == phase && action == SetupAction::Listen
            },
            SetupInput::Disconnected => action matches SetupAction::Fail(e)
                && e@ == "channel disconnected waiting for Page.ready"@,
            _ => false,
        },
        SetupPhase::Wired(_) => false,
    }
}

fn fail(message: &str) -> (a: SetupAction)
    ensures
        a matches SetupAction::Fail(e) && e@ == message@,
{
    SetupAction::Fail(message.to_owned())
}

/// One step of wiring a new page (see `is_setup_step`). The caller starts
/// in `AwaitingAttach`, hands over what it saw as the phase asks, and does
/// what each step says until the page is wired or the wiring fails.
pub fn setup_step(phase: SetupPhase, input: SetupInput) -> (r: (SetupPhase, SetupAction))
    requires
        !(phase is Wired),
        (phase is AwaitingAttach) == (input is Attached),
    ensures
        is_setup_step(phase, input, r.0, r.1),
{
    match phase {
        SetupPhase::AwaitingAttach => match input {
            SetupInput::Attached(None) => (
                SetupPhase::AwaitingAttach,
                fail("timeout waiting for Browser.attachedToTarget"),
            ),
            SetupInput::Attached(Some((sid, _target))) => {
                match require_session(sid) {
                    Ok(s) => (SetupPhase::AwaitingFrame(s.clone()), SetupAction::CreateSession(s)),
                    Err(e) => (SetupPhase::AwaitingAttach, SetupAction::Fail(e)),
                }
            },
            _ => (SetupPhase::AwaitingAttach, SetupAction::Listen),
        },
        SetupPhase::AwaitingFrame(sid) => {
            let (frame, expired) = match &input {
                SetupInput::Seen(ev, d) => (
                    attached_frame(sid.as_str(), ev.method.as_str(), opt_str(&ev.session_id), &ev.params),
                    *d,
                ),
                SetupInput::Quiet(d) => (None, *d),
                _ => (None, true),
            };
            match frame {
                Some(f) => (SetupPhase::AwaitingReady(sid), SetupAction::SetMainFrame(f)),
                None => if expired {
                    (SetupPhase::AwaitingFrame(sid), fail("timeout waiting for Page.frameAttached"))
                } else {
                    (SetupPhase::AwaitingFrame(sid), SetupAction::Listen)
                },
            }
        },
        SetupPhase::AwaitingReady(sid) => match input {
            SetupInput::Seen(ev, _) => {
                if is_page_ready(sid.as_str(), ev.method.as_str(), opt_str(&ev.session_id)) {
                    let s = sid.clone();
                    (SetupPhase::Wired(sid), SetupAction::ResolveContext(s))
                } else {
                    (SetupPhase::AwaitingReady(sid), SetupAction::Listen)
                }
            },
            SetupInput::Quiet(d) => if d {
                (SetupPhase::AwaitingReady(sid), fail("timeout waiting for Page.ready"))
            } else {
                (SetupPhase::AwaitingReady(sid), SetupAction::Listen)
            },
            SetupInput::Disconnected => (
                SetupPhase::AwaitingReady(sid),
                fail("channel disconnected waiting for Page.ready"),
            ),
            SetupInput::Attached(_) => (SetupPhase::AwaitingReady(sid), SetupAction::Listen),
        },
        SetupPhase::Wired(sid) => (SetupPhase::Wired(sid), SetupAction::Listen),
    }
}

fn opt_str(s: &Option<String>) -> (r: Option<&str>)
    ensures
        opt_text(r) == opt_string(*s),
{
    match s {
        Some(t) => Some(t.as_str()),
        None => None,
    }
}

/// The execution contexts of a new page that are known to be alive.
pub struct ContextTracker {
    alive: Vec<String>,
}

/// Whether some string of `items` is `c`.
pub open spec fn listed(items: Seq<String>, c: Seq<char>) -> bool {
    exists|i: int| 0 <= i < items.len() && items[i]@ == c
}

impl View for ContextTracker {
    type V = Set<Seq<char>>;

    closed spec fn view(&self) -> Set<Seq<char>> {
        Set::new(|c: Seq<char>| listed(self.alive@, c))
    }
}

/// The set of live contexts after a created (`true`) or destroyed (`false`)
/// event for the context `ctx`.
pub open spec fn contexts_after(alive: Set<Seq<char>>, ctx: Seq<char>, created: bool) -> Set<Seq<char>> {
    if created {
        alive.insert(ctx)
    } else {
        alive.remove(ctx)
    }
}

impl ContextTracker {
    /// No context known yet.
    pub fn new() -> (t: Self)
        ensures
            t@ == Set::<Seq<char>>::empty(),
    {
        let t = ContextTracker { alive: Vec::new() };
        assert(t@ =~= Set::<Seq<char>>::empty());
        t
    }

    fn add(&mut self, ctx: &String)
        ensures
            final(self)@ == old(self)@.insert(ctx@),
    {
        let mut i: usize = 0;
        while i < self.alive.len()
            invariant
                0 <= i <= self.alive@.len(),
                *self == *old(self),
                forall|j: int| 0 <= j < i ==> self.alive@[j]@ != ctx@,
            decreases self.alive@.len() - i,
        {
            if self.alive[i] == *ctx {
                assert(self@ =~= old(self)@.insert(ctx@)) by {
                    assert(self@.contains(ctx@));
                }
                return;
            }
            i = i + 1;
        }
        let ghost before = self.alive@;
        self.alive.push(ctx.clone());
        assert(self@ =~= old(self)@.insert(ctx@)) by {
            assert forall|c: Seq<char>| self@.contains(c) == old(self)@.insert(ctx@).contains(c) by {
                if self@.contains(c) {
                    let j = choose|j: int| 0 <= j < self.alive@.len() && self.alive@[j]@ == c;
                    if j < before.len() {
                        assert(before[j] == self.alive@[j]);
                    }
                }
                if old(self)@.contains(c) {
                    let j = choose|j: int| 0 <= j < before.len() && before[j]@ == c;
                    assert(self.alive@[j] == before[j]);
                }
                if c == ctx@ {
                    assert(self.alive@[before.len() as int]@ == c);
                }
            }
        }
    }

    fn drop_context(&mut self, ctx: &String)
        ensures
            final(self)@ == old(self)@.remove(ctx@),
    {
        let mut kept: Vec<String> = Vec::new();
        let mut i: usize = 0;
        while i < self.alive.len()
            invariant
                0 <= i <= self.alive@.len(),
                *self == *old(self),
                forall|c: Seq<char>|
                    #[trigger] listed(kept@, c) <==> (c != ctx@ && listed(self.alive@.take(i as int), c)),
            decreases self.alive@.len() - i,
        {
            let ghost before = kept@;
            let ghost seen = self.alive@.take(i as int);
            if self.alive[i] != *ctx {
                kept.push(self.alive[i].clone());
            }
            assert forall|c: Seq<char>|
                #[trigger] listed(kept@, c) <==> (c != ctx@ && listed(self.alive@.take(i + 1), c)) by {
                let now = self.alive@.take(i + 1);
                if listed(kept@, c) {
                    let j = choose|j: int| 0 <= j < kept@.len() && kept@[j]@ == c;
                    if j < before.len() {
                        assert(kept@[j] == before[j]);
                        assert(listed(before, c));
                        let k = choose|k: int| 0 <= k < seen.len() && seen[k]@ == c;
                        assert(now[k] == seen[k]);
                    } else {
                        assert(now[i as int]@ == c);
                    }
                }
                if c != ctx@ && listed(now, c) {
                    let j = choose|j: int| 0 <= j < now.len() && now[j]@ == c;
                    if j < i {
                        assert(seen[j] == now[j]);
                        assert(listed(seen, c));
                        assert(listed(before, c));
                        let k = choose|k: int| 0 <= k < before.len() && before[k]@ == c;
                        assert(kept@[k] == before[k]);
                    } else {
                        assert(kept@[before.len() as int]@ == c);
                    }
                }
            }
            i = i + 1;
        }
        assert(self.alive@.take(i as int) =~= self.alive@);
        self.alive = kept;
        assert(self@ =~= old(self)@.remove(ctx@));
    }

    /// A context event seen before the page was ready: for the page's
    /// session and a non-empty context id, a created context is added and a
    /// destroyed one dropped; any other event changes nothing.
    pub fn record(&mut self, session_id: &str, event: &ContextEvent)
        ensures
            final(self)@ == if event.session_id@ == session_id@ && event.context_id@.len() > 0 {
                contexts_after(old(self)@, event.context_id@, event.created)
            } else {
                old(self)@
            },
    {
        if same_text(event.session_id.as_str(), session_id)
            && event.context_id.as_str().unicode_len() > 0 {
            if event.created {
                self.add(&event.context_id);
            } else {
                self.drop_context(&event.context_id);
            }
        }
    }

    /// A context event seen while waiting for the first context of the
    /// page: a context of the page's session created with a non-empty id
    /// ends the wait (the result is `true`); a destroyed one of that session
    /// is dropped; any other event changes nothing.
    pub fn await_event(&mut self, session_id: &str, event: &ContextEvent) -> (done: bool)
        ensures
            done == (event.session_id@ == session_id@ && event.context_id@.len() > 0
                && event.created),
            final(self)@ == if event.session_id@ == session_id@ && (done || !event.created) {
                contexts_after(old(self)@, event.context_id@, event.created)
            } else {
                old(self)@
            },
    {
        if !same_text(event.session_id.as_str(), session_id) {
            return false;
        }
        if event.created {
            if event.context_id.as_str().unicode_len() > 0 {
                self.add(&event.context_id);
                return true;
            }
            false
        } else {
            self.drop_context(&event.context_id);
            false
        }
    }

    /// Whether no context is known to be alive.
    pub fn is_empty(&self) -> (r: bool)
        ensures
            r == (self@ == Set::<Seq<char>>::empty()),
    {
        if self.alive.len() == 0 {
            assert(self@ =~= Set::<Seq<char>>::empty());
            true
        } else {
            assert(self@.contains(self.alive@[0]@));
            false
        }
    }

    /// One of the contexts that survived, or the error `no surviving
    /// execution context`.
    pub fn surviving(&self) -> (r: Result<String, String>)
        ensures
            match r {
                Ok(c) => self@.contains(c@),
                Err(e) => self@ == Set::<Seq<char>>::empty() && e@ == "no surviving execution context"@,
            },
    {
        if self.alive.len() == 0 {
            assert(self@ =~= Set::<Seq<char>>::empty());
            Err("no surviving execution context".to_owned())
        } else {
            let c = self.alive[0].clone();
            assert(self@.contains(self.alive@[0]@));
            Ok(c)
        }
    }
}

/// What the cached execution context of the page of session `session_id`
/// becomes on an event: an event of another session changes nothing; a
/// context created with an id becomes the current one; the destruction of
/// the current context leaves none.
pub open spec fn tracked_context(
    current: Option<Seq<char>>,
    session_id: Seq<char>,
    method: Seq<char>,
    event_session: Option<Seq<char>>,
    params: Json,
) -> Option<Seq<char>> {
    let ctx = json_get_str(params, "executionContextId"@);
    if text_or_empty(event_session) != session_id {
        current
    } else if method == "Runtime.executionContextCreated"@ && ctx is Some {
        ctx
    } else if method == "Runtime.executionContextDestroyed"@ && ctx is Some && current == ctx {
        None
    } else {
        current
    }
}

/// Keep the cached execution context of the page of session `session_id`
/// up to date across navigations, from every protocol event.
pub fn track_execution_context(
    current: &mut Option<String>,
    session_id: &str,
    method: &str,
    event_session: Option<&str>,
    params: &JsonValue,
)
    ensures
        opt_string(*final(current)) == tracked_context(
            opt_string(*old(current)),
            session_id@,
            method@,
            opt_text(event_session),
            params.model(),
        ),
{
    let sid = owned_or_empty(event_session);
    if !same_text(sid.as_str(), session_id) {
        return;
    }
    if same_text(method, "Runtime.executionContextCreated") {
        if let Some(ctx) = params.get_str("executionContextId") {
            *current = Some(ctx.to_owned());
        }
    } else if same_text(method, "Runtime.executionContextDestroyed") {
        if let Some(ctx) = params.get_str("executionContextId") {
            let is_current = match current {
                Some(c) => same_text(c.as_str(), ctx),
                None => false,
            };
            if is_current {
                *current = None;
            }
        }
    }
}

/// What waiting for an execution context does next.
pub enum ContextWait {
    /// The context to use.
    Ready(String),
    /// The wait is over without one.
    Failed(String),
    /// Look again after this many milliseconds.
    Sleep { millis: u64 },
}

/// One round of waiting for a page's execution context: the cached context
/// if there is one; otherwise, once the deadline has passed, the error
/// `timed out waiting for execution context (page may still be loading)`;
/// otherwise another look after `CONTEXT_POLL_MILLIS`.
pub fn context_wait_step(current: &Option<String>, deadline_passed: bool) -> (r: ContextWait)
    ensures
        match current {
            Some(c) => r matches ContextWait::Ready(x) && x@ == c@,
            None => if deadline_passed {
                r matches ContextWait::Failed(e)
                    && e@ == "timed out waiting for execution context (page may still be loading)"@
            } else {
                r == (ContextWait::Sleep { millis: CONTEXT_POLL_MILLIS })
            },
        },
{
    match current {
        Some(c) => ContextWait::Ready(c.clone()),
        None => if deadline_passed {
            ContextWait::Failed(
                "timed out waiting for execution context (page may still be loading)".to_owned(),
            )
        } else {
            ContextWait::Sleep { millis: CONTEXT_POLL_MILLIS }
        },
    }
}

/// Whether `current` is a context that a navigation may resume with: any
/// context after a same-document navigation, and after a cross-document one
/// only a context other than `before`, the one cached when it started.
pub open spec fn fresh_context(before: Option<String>, current: Option<String>, cross_document: bool) -> bool {
    match current {
        Some(c) => !cross_document || !(before matches Some(b) && b@ == c@),
        None => false,
    }
}

/// One round of waiting, after a navigation, for the execution context that
/// the navigation brought: that context when it is there; otherwise, once
/// the deadline has passed, the error `timed out waiting for execution
/// context (page may still be loading)`; otherwise another look after
/// `CONTEXT_POLL_MILLIS`.
pub fn navigation_wait_step(
    before: &Option<String>,
    current: &Option<String>,
    cross_document: bool,
    deadline_passed: bool,
) -> (r: ContextWait)
    ensures
        fresh_context(*before, *current, cross_document) ==> (r matches ContextWait::Ready(x)
            && *current matches Some(c) && x@ == c@),
        !fresh_context(*before, *current, cross_document) ==> if deadline_passed {
            r matches ContextWait::Failed(e)
                && e@ == "timed out waiting for execution context (page may still be loading)"@
        } else {
            r == (ContextWait::Sleep { millis: CONTEXT_POLL_MILLIS })
        },
{
    let fresh = match current {
        Some(c) => {
            if !cross_document {
                true
            } else {
                match before {
                    Some(b) => !same_text(b.as_str(), c.as_str()),
                    None => true,
                }
            }
        },
        None => false,
    };
    if fresh {
        match current {
            Some(c) => ContextWait::Ready(c.clone()),
            None => ContextWait::Sleep { millis: CONTEXT_POLL_MILLIS },
        }
    } else if deadline_passed {
        ContextWait::Failed(
            "timed out waiting for execution context (page may still be loading)".to_owned(),
        )
    } else {
        ContextWait::Sleep { millis: CONTEXT_POLL_MILLIS }
    }
}

/// How long, in seconds, a stopped browser gets to exit before it is killed.
pub const STOP_GRACE_SECS: u64 = 5;

/// How often, in milliseconds, a stopping browser is looked at.
pub const STOP_POLL_MILLIS: u64 = 50;

/// What stopping a browser process does next.
pub enum StopAction {
    /// The process is gone (or cannot be waited for): the stop is over.
    Done,
    /// The grace period is over: kill the process and reap it.
    Kill,
    /// Look again after this many milliseconds.
    Wait { millis: u64 },
}

/// One round of stopping a closed browser: over once the process is no
/// longer running (or its state cannot be read, `still_running` false);
/// killed when it still runs after the deadline; otherwise another look
/// after `STOP_POLL_MILLIS`.
pub fn stop_step(still_running: bool, deadline_passed: bool) -> (a: StopAction)
    ensures
        a == if !still_running {
            StopAction::Done
        } else if deadline_passed {
            StopAction::Kill
        } else {
            StopAction::Wait { millis: STOP_POLL_MILLIS }
        },
{
    if !still_running {
        StopAction::Done
    } else if deadline_passed {
        StopAction::Kill
    } else {
        StopAction::Wait { millis: STOP_POLL_MILLIS }
    }
}

/// The value of an evaluation result: `result.value` when there is one,
/// else `value`, else the whole result.
pub open spec fn evaluation_value_model(result: Json) -> Json {
    let inner = match json_get(result, "result"@) {
        Some(r) => json_get(r, "value"@),
        None => None,
    };
    match inner {
        Some(v) => v,
        None => match json_get(result, "value"@) {
            Some(v) => v,
            None => result,
        },
    }
}

/// Extract the inner value from a `{"result": {"value": ...}}` answer.
pub fn evaluation_value(result: JsonValue) -> (v: JsonValue)
    ensures
        v.model() == evaluation_value_model(result.model()),
{
    let inner = match result.get("result") {
        Some(r) => match r.get("value") {
            Some(v) => Some(v.duplicate()),
            None => None,
        },
        None => None,
    };
    match inner {
        Some(v) => v,
        None => match result.get("value") {
            Some(v) => v.duplicate(),
            None => result,
        },
    }
}

/// Whether a screenshot format asks for JPEG.
pub open spec fn is_jpeg_format(format: Option<&str>) -> bool {
    format matches Some(f) && (f@ == "jpeg"@ || f@ == "jpg"@)
}

/// The MIME type of a screenshot: JPEG for `jpeg` or `jpg`, PNG otherwise.
pub fn screenshot_mime(format: Option<&str>) -> (m: &'static str)
    ensures
        m@ == if is_jpeg_format(format) {
            "image/jpeg"@
        } else {
            "image/png"@
        },
{
    let jpeg = match format {
        Some(f) => same_text(f, "jpeg") || same_text(f, "jpg"),
        None => false,
    };
    if jpeg {
        "image/jpeg"
    } else {
        "image/png"
    }
}

/// Where a screenshot is written: the given path, or
/// `/tmp/screenshot-{page_id}.{jpg|png}` after its MIME type.
pub open spec fn screenshot_path_text(page_id: Seq<char>, mime: Seq<char>, path: Option<&str>) -> Seq<char> {
    match path {
        Some(p) => p@,
        None => "/tmp/screenshot-"@ + page_id + "."@ + if mime == "image/jpeg"@ {
            "jpg"@
        } else {
            "png"@
        },
    }
}

/// The file a screenshot of `page_id` in the type `mime` is written to.
pub fn screenshot_path(page_id: &str, mime: &str, path: Option<&str>) -> (p: String)
    ensures
        p@ == screenshot_path_text(page_id@, mime@, path),
{
    match path {
        Some(p) => p.to_owned(),
        None => {
            let ext = if same_text(mime, "image/jpeg") {
                "jpg"
            } else {
                "png"
            };
            let mut out = "/tmp/screenshot-".to_owned();
            out.append(page_id);
            out.append(".");
            out.append(ext);
            out
        },
    }
}

/// The executable and the headless flag to launch a browser with: the given
/// executable or `DEFAULT_EXECUTABLE`, and headless unless asked otherwise.
pub fn launch_settings(headless: Option<bool>, executable: Option<&str>) -> (r: (String, bool))
    ensures
        r.0@ == match executable {
            Some(e) => e@,
            None => DEFAULT_EXECUTABLE@,
        },
        r.1 == match headless {
            Some(h) => h,
            None => true,
        },
{
    let path = match executable {
        Some(e) => e.to_owned(),
        None => DEFAULT_EXECUTABLE.to_owned(),
    };
    let headless = match headless {
        Some(h) => h,
        None => true,
    };
    (path, headless)
}

/// `after` is `before` with `page` added under the fresh id `id`: the next
/// page id, under which no page was; every other page stays as it was.
pub open spec fn page_added<R, P, C>(
    before: Instance<R, P, C>,
    after: Instance<R, P, C>,
    page: ManagedPage<P, C>,
    id: Seq<char>,
) -> bool {
    &&& after.wf()
    &&& after.page_counter() == before.page_counter() + 1
    &&& id == page_id_text(after.page_counter())
    &&& !has_key(before.pages(), id)
    &&& after.pages().len() == before.pages().len() + 1
    &&& value_of(after.pages(), id) == Some(page)
    &&& forall|k: Seq<char>| k != id ==> value_of(after.pages(), k) == value_of(before.pages(), k)
    &&& forall|k: Seq<char>| #[trigger] has_key(after.pages(), k) == (k == id || has_key(before.pages(), k))
    &&& after.runtime() == before.runtime()
    &&& after.version() == before.version()
    &&& after.pid() == before.pid()
}

/// An instance and the browser context in which its pages are created.
pub struct InstanceSlot<R, P, C, X> {
    pub instance: Instance<R, P, C>,
    pub context: X,
}

/// The summary of an instance in a `List` response.
pub open spec fn instance_summary_model<R, P, C>(id: Seq<char>, inst: Instance<R, P, C>) -> Json {
    Json::Object(
        seq![
            ("instance_id"@, Json::Str(id)),
            ("pid"@, Json::Num(NumberModel::PosInt(inst.pid() as u64))),
            ("version"@, match inst.version() {
                Some(v) => Json::Str(v@),
                None => Json::Null,
            }),
            ("pages"@, Json::Array(page_list_model(inst.pages()))),
        ],
    )
}

/// The page ids of a listing, as JSON strings, in order.
pub open spec fn page_list_model<T>(pages: Seq<(Seq<char>, T)>) -> Seq<Json> {
    Seq::new(pages.len(), |i: int| Json::Str(pages[i].0))
}

/// Manages all browser instances for the daemon.
pub struct InstanceManager<R, P, C, X> {
    instances: Registry<InstanceSlot<R, P, C, X>>,
    counter: u32,
}

impl<R, P, C, X> InstanceManager<R, P, C, X> {
    /// The instances, by id, in id order.
    pub closed spec fn instances(&self) -> Seq<(Seq<char>, InstanceSlot<R, P, C, X>)> {
        self.instances@
    }

    /// How many instances were ever registered.
    pub closed spec fn counter(&self) -> nat {
        self.counter as nat
    }

    /// The instances are in id order, each is well formed, and each id is
    /// that of one of the instances registered so far.
    pub closed spec fn wf(&self) -> bool {
        &&& self.instances.wf()
        &&& forall|i: int|
            0 <= i < self.instances@.len() ==> (#[trigger] self.instances@[i]).1.instance.wf()
        &&& forall|i: int|
            0 <= i < self.instances@.len() ==> issued_instance_id(
                #[trigger] self.instances@[i].0,
                self.counter as nat,
            )
    }

    /// Every instance of a well-formed manager is under an id that was
    /// issued to it: eight hex digits of some `n` up to the number of
    /// instances registered.
    pub proof fn law_instance_ids_issued(&self)
        requires
            self.wf(),
        ensures
            forall|k: Seq<char>| #[trigger]
                has_key(self.instances(), k) ==> issued_instance_id(k, self.counter()),
    {
        assert forall|k: Seq<char>| #[trigger] has_key(self.instances(), k) implies issued_instance_id(
            k,
            self.counter(),
        ) by {
            let i = choose|i: int| 0 <= i < self.instances@.len() && self.instances@[i].0 == k;
            assert(issued_instance_id(self.instances@[i].0, self.counter as nat));
        }
    }

    pub fn new() -> (m: Self)
        ensures
            m.wf(),
            m.instances() == Seq::<(Seq<char>, InstanceSlot<R, P, C, X>)>::empty(),
            m.counter() == 0,
    {
        InstanceManager { instances: Registry::new(), counter: 0 }
    }

    /// Register a launched instance with its default context under the next
    /// instance id (eight hex digits) and return that id.
    pub fn register(&mut self, instance: Instance<R, P, C>, context: X) -> (id: String)
        requires
            old(self).wf(),
            instance.wf(),
            old(self).counter() < u32::MAX,
        ensures
            final(self).wf(),
            final(self).counter() == old(self).counter() + 1,
            id@ == instance_id_text(final(self).counter()),
            !has_key(old(self).instances(), id@),
            final(self).instances().len() == old(self).instances().len() + 1,
            value_of(final(self).instances(), id@) == Some(
                InstanceSlot { instance, context },
            ),
            forall|k: Seq<char>|
                k != id@ ==> value_of(final(self).instances(), k) == value_of(
                    old(self).instances(),
                    k,
                ),
            forall|k: Seq<char>| #[trigger]
                has_key(final(self).instances(), k) == (k == id@ || has_key(old(self).instances(), k)),
    {
        let ghost count = self.counter as nat;
        self.counter = self.counter + 1;
        let id = hex_digits(self.counter as u64, 8);
        let ghost old_view = self.instances@;
        proof {
            if has_key(old_view, id@) {
                let i = choose|i: int| 0 <= i < old_view.len() && old_view[i].0 == id@;
                assert(issued_instance_id(old_view[i].0, count));
                let n = choose|n: nat| 1 <= n <= count && old_view[i].0 == instance_id_text(n);
                lemma_instance_id_injective(n, count + 1);
            }
        }
        self.instances.insert(id.clone(), InstanceSlot { instance, context });
        proof {
            assert forall|i: int| 0 <= i < self.instances@.len() implies issued_instance_id(
                #[trigger] self.instances@[i].0,
                count + 1,
            ) by {
                let k = self.instances@[i].0;
                assert(has_key(self.instances@, k));
                if k == id@ {
                    assert(k == instance_id_text(count + 1));
                } else {
                    let j = choose|j: int| 0 <= j < old_view.len() && old_view[j].0 == k;
                    assert(issued_instance_id(old_view[j].0, count));
                    let n = choose|n: nat| 1 <= n <= count && k == instance_id_text(n);
                    assert(k == instance_id_text(n));
                }
            }
            assert forall|i: int| 0 <= i < self.instances@.len() implies (
            #[trigger] self.instances@[i]).1.instance.wf() by {
                let k = self.instances@[i].0;
                crate::registry::lemma_value_of_index(self.instances@, k, i);
                assert(has_key(self.instances@, k));
                if k != id@ {
                    assert(has_key(old_view, k));
                    let j = choose|j: int| 0 <= j < old_view.len() && old_view[j].0 == k;
                    crate::registry::lemma_value_of_index(old_view, k, j);
                }
            }
        }
        id
    }

    /// The instance with id `instance_id`, or `instance {id} not found`.
    pub fn instance(&self, instance_id: &str) -> (r: Result<&Instance<R, P, C>, String>)
        requires
            self.wf(),
        ensures
            match value_of(self.instances(), instance_id@) {
                Some(slot) => r matches Ok(inst) && *inst == slot.instance,
                None => r matches Err(e) && e@ == not_found_text("instance"@, instance_id@),
            },
    {
        match self.instances.get(instance_id) {
            Some(slot) => Ok(&slot.instance),
            None => Err(not_found("instance", instance_id)),
        }
    }

    /// The browser context of the instance `instance_id`, in which its pages
    /// are created; or `instance {id} not found`.
    pub fn context_of(&self, instance_id: &str) -> (r: Result<&X, String>)
        requires
            self.wf(),
        ensures
            match value_of(self.instances(), instance_id@) {
                Some(slot) => r matches Ok(x) && *x == slot.context,
                None => r matches Err(e) && e@ == not_found_text("instance"@, instance_id@),
            },
    {
        match self.instances.get(instance_id) {
            Some(slot) => Ok(&slot.context),
            None => Err(not_found("instance", instance_id)),
        }
    }

    /// Register a newly created, fully wired page of the instance
    /// `instance_id` under that instance's next page id, and return the id;
    /// or `instance {id} not found`.
    pub fn add_page(&mut self, instance_id: &str, page: ManagedPage<P, C>) -> (r: Result<String, String>)
        requires
            old(self).wf(),
            value_of(old(self).instances(), instance_id@) matches Some(slot)
                ==> slot.instance.page_counter() < u32::MAX,
        ensures
            final(self).wf(),
            final(self).counter() == old(self).counter(),
            keys(final(self).instances()) == keys(old(self).instances()),
            forall|k: Seq<char>|
                k != instance_id@ ==> value_of(final(self).instances(), k) == value_of(
                    old(self).instances(),
                    k,
                ),
            match value_of(old(self).instances(), instance_id@) {
                Some(slot) => r matches Ok(id) && value_of(final(self).instances(), instance_id@)
                    matches Some(now) && now.context == slot.context && page_added(
                    slot.instance,
                    now.instance,
                    page,
                    id@,
                ),
                None => r matches Err(e) && e@ == not_found_text("instance"@, instance_id@)
                    && final(self).instances() == old(self).instances(),
            },
    {
        let ghost old_view = self.instances@;
        match self.instances.position(instance_id) {
            None => {
                proof {
                    lemma_value_of_absent(old_view, instance_id@);
                }
                Err(not_found("instance", instance_id))
            },
            Some(i) => {
                proof {
                    lemma_value_of_index(old_view, instance_id@, i as int);
                }
                let slot = self.instances.value_at_mut(i);
                let id = slot.instance.add_page(page);
                proof {
                    let now = self.instances@;
                    assert(now == old_view.update(i as int, (instance_id@, now[i as int].1)));
                    assert(keys(now) =~= keys(old_view));
                    assert(strictly_sorted(now)) by {
                        assert forall|a: int, b: int| 0 <= a < b < now.len() implies crate::text::text_lt(
                            now[a].0,
                            now[b].0,
                        ) by {
                            assert(now[a].0 == old_view[a].0 && now[b].0 == old_view[b].0);
                        }
                    }
                    lemma_value_of_index(now, instance_id@, i as int);
                    assert forall|k: Seq<char>| k != instance_id@ implies value_of(now, k) == value_of(
                        old_view,
                        k,
                    ) by {
                        lemma_same_keys_value(old_view, now, k, i as int);
                    }
                    assert forall|j: int| 0 <= j < now.len() implies (#[trigger] now[j]).1.instance.wf()
                        && issued_instance_id(now[j].0, self.counter as nat) by {
                        if j != i {
                            assert(now[j] == old_view[j]);
                        }
                        assert(now[j].0 == old_view[j].0);
                    }
                }
                Ok(id)
            },
        }
    }

    /// Take the instance with id `instance_id` out of the manager, with its
    /// context, to stop it; or `instance {id} not found`.
    pub fn remove(&mut self, instance_id: &str) -> (r: Result<InstanceSlot<R, P, C, X>, String>)
        requires
            old(self).wf(),
        ensures
            final(self).wf(),
            final(self).counter() == old(self).counter(),
            !has_key(final(self).instances(), instance_id@),
            forall|k: Seq<char>|
                k != instance_id@ ==> value_of(final(self).instances(), k) == value_of(
                    old(self).instances(),
                    k,
                ),
            forall|k: Seq<char>| #[trigger]
                has_key(final(self).instances(), k) == (k != instance_id@ && has_key(
                    old(self).instances(),
                    k,
                )),
            match value_of(old(self).instances(), instance_id@) {
                Some(slot) => r == Ok::<InstanceSlot<R, P, C, X>, String>(slot)
                    && final(self).instances().len() + 1 == old(self).instances().len(),
                None => r matches Err(e) && e@ == not_found_text("instance"@, instance_id@)
                    && final(self).instances() == old(self).instances(),
            },
    {
        let ghost old_view = self.instances@;
        let removed = self.instances.remove(instance_id);
        proof {
            assert forall|i: int| 0 <= i < self.instances@.len() implies (
            #[trigger] self.instances@[i]).1.instance.wf() by {
                let k = self.instances@[i].0;
                crate::registry::lemma_value_of_index(self.instances@, k, i);
                assert(has_key(self.instances@, k));
                let j = choose|j: int| 0 <= j < old_view.len() && old_view[j].0 == k;
                crate::registry::lemma_value_of_index(old_view, k, j);
            }
            assert forall|i: int| 0 <= i < self.instances@.len() implies issued_instance_id(
                #[trigger] self.instances@[i].0,
                self.counter as nat,
            ) by {
                let k = self.instances@[i].0;
                assert(has_key(self.instances@, k));
                let j = choose|j: int| 0 <= j < old_view.len() && old_view[j].0 == k;
                assert(issued_instance_id(old_view[j].0, self.counter as nat));
            }
        }
        match removed {
            Some(slot) => Ok(slot),
            None => Err(not_found("instance", instance_id)),
        }
    }

    /// How many instances were ever registered.
    pub fn registered(&self) -> (n: u32)
        ensures
            n == self.counter(),
    {
        self.counter
    }

    /// Number of running instances.
    pub fn instance_count(&self) -> (n: usize)
        ensures
            n == self.instances().len(),
    {
        self.instances.len()
    }

    /// The ids of all instances, sorted.
    pub fn instance_ids(&self) -> (ids: Vec<String>)
        requires
            self.wf(),
        ensures
            ids@.map_values(|s: String| s@) == keys(self.instances()),
            forall|i: int, j: int| 0 <= i < j < ids@.len() ==> text_lt(ids@[i]@, ids@[j]@),
    {
        let ids = self.instances.keys();
        assert(ids@.map_values(|s: String| s@).len() == ids@.len());
        assert forall|i: int, j: int| 0 <= i < j < ids@.len() implies text_lt(ids@[i]@, ids@[j]@) by {
            assert(ids@.map_values(|s: String| s@)[i] == ids@[i]@);
            assert(ids@.map_values(|s: String| s@)[j] == ids@[j]@);
            assert(keys(self.instances@)[i] == self.instances@[i].0);
            assert(keys(self.instances@)[j] == self.instances@[j].0);
        }
        ids
    }

    /// List all instances, sorted by instance id: each as
    /// `{instance_id, pid, version, pages}`.
    pub fn list(&self) -> (r: Vec<JsonValue>)
        requires
            self.wf(),
        ensures
            strictly_sorted(self.instances()),
            items_model(r@) == Seq::new(
                self.instances().len(),
                |i: int| instance_summary_model(self.instances()[i].0, self.instances()[i].1.instance),
            ),
    {
        let n = self.instances.len();
        let mut out: Vec<JsonValue> = Vec::new();
        let mut i: usize = 0;
        while i < n
            invariant
                self.wf(),
                n == self.instances().len(),
                0 <= i <= n,
                out@.len() == i,
                items_model(out@) == Seq::new(
                    i as nat,
                    |k: int| instance_summary_model(self.instances()[k].0, self.instances()[k].1.instance),
                ),
            decreases n - i,
        {
            let (id, slot) = self.instances.entry_at(i);
            assert(self.instances@[i as int].1.instance.wf());
            let summary = instance_summary(id.as_str(), &slot.instance);
            let ghost before = out@;
            push_item(&mut out, summary);
            assert forall|k: int| 0 <= k < i + 1 implies items_model(out@)[k] == instance_summary_model(
                self.instances()[k].0,
                self.instances()[k].1.instance,
            ) by {
                if k < i {
                    assert(items_model(out@)[k] == items_model(before)[k]);
                }
            }
            assert(items_model(out@) =~= Seq::new(
                (i + 1) as nat,
                |k: int| instance_summary_model(self.instances()[k].0, self.instances()[k].1.instance),
            ));
            i = i + 1;
        }
        out
    }
}

fn instance_summary<R, P, C>(id: &str, inst: &Instance<R, P, C>) -> (v: JsonValue)
    requires
        inst.wf(),
    ensures
        v.model() == instance_summary_model(id@, *inst),
{
    let ids = inst.page_ids();
    let mut pages: Vec<JsonValue> = Vec::new();
    let mut i: usize = 0;
    let ghost ks = keys(inst.pages());
    while i < ids.len()
        invariant
            0 <= i <= ids@.len(),
            ids@.map_values(|s: String| s@) == ks,
            ks == keys(inst.pages()),
            pages@.len() == i,
            items_model(pages@) == Seq::new(i as nat, |k: int| Json::Str(ks[k])),
        decreases ids@.len() - i,
    {
        let item = JsonValue::string(ids[i].as_str());
        assert(ks[i as int] == ids@[i as int]@);
        let ghost before = pages@;
        push_item(&mut pages, item);
        assert forall|k: int| 0 <= k < i + 1 implies items_model(pages@)[k] == Json::Str(ks[k]) by {
            if k < i {
                assert(items_model(pages@)[k] == items_model(before)[k]);
            }
        }
        assert(items_model(pages@) =~= Seq::new((i + 1) as nat, |k: int| Json::Str(ks[k])));
        i = i + 1;
    }
    let mut entries: Vec<(String, JsonValue)> = Vec::new();
    assert(entries_model(entries@) =~= Seq::<(Seq<char>, Json)>::empty());
    push_entry(&mut entries, "instance_id", JsonValue::string(id));
    push_entry(&mut entries, "pid", JsonValue::unsigned(inst.pid as u64));
    let version = match &inst.version {
        Some(v) => JsonValue::string(v.as_str()),
        None => JsonValue::Null,
    };
    push_entry(&mut entries, "version", version);
    assert(ids@.map_values(|s: String| s@).len() == ids@.len());
    assert(i == ks.len());
    let ghost page_models = items_model(pages@);
    push_entry(&mut entries, "pages", JsonValue::array(pages));
    assert(page_models =~= page_list_model(inst.pages()));
    let v = JsonValue::object(entries);
    let ghost m = instance_summary_model(id@, *inst);
    assert(m->Object_0 =~= entries_model(entries@));
    v
}

// ---------------------------------------------------------------------------
// Laws over runs of calls
// ---------------------------------------------------------------------------

/// Over any run of page additions on a new instance, the `j`-th page added
/// gets the id `p{j+1}`; no two get the same id; the instance then holds
/// exactly the pages added, each under its id.
pub proof fn law_page_history<R, P, C>(
    states: Seq<Instance<R, P, C>>,
    pages: Seq<ManagedPage<P, C>>,
    ids: Seq<Seq<char>>,
)
    requires
        states.len() == ids.len() + 1,
        pages.len() == ids.len(),
        states[0].page_counter() == 0,
        states[0].pages().len() == 0,
        forall|j: int|
            #![trigger ids[j]]
            0 <= j < ids.len() ==> page_added(states[j], states[j + 1], pages[j], ids[j]),
    ensures
        states.last().page_counter() == ids.len(),
        forall|j: int| 0 <= j < ids.len() ==> #[trigger] ids[j] == page_id_text((j + 1) as nat),
        forall|j: int, l: int| 0 <= j < l < ids.len() ==> #[trigger] ids[j] != #[trigger] ids[l],
        forall|k: Seq<char>|
            #[trigger] has_key(states.last().pages(), k) <==> exists|j: int|
                0 <= j < ids.len() && ids[j] == k,
        forall|j: int|
            0 <= j < ids.len() ==> value_of(states.last().pages(), #[trigger] ids[j]) == Some(
                pages[j],
            ),
    decreases ids.len(),
{
    let n = ids.len() as int;
    if n == 0 {
        assert forall|k: Seq<char>| !has_key(states.last().pages(), k) by {}
    } else {
        let s0 = states.drop_last();
        let p0 = pages.drop_last();
        let i0 = ids.drop_last();
        assert forall|j: int| #![trigger i0[j]] 0 <= j < i0.len() implies page_added(
            s0[j],
            s0[j + 1],
            p0[j],
            i0[j],
        ) by {
            assert(ids[j] == i0[j]);
        }
        law_page_history(s0, p0, i0);
        assert(ids[n - 1] == ids[n - 1]);
        let before = states[n - 1];
        let after = states[n];
        assert(s0.last() == before);
        assert forall|j: int| 0 <= j < n implies #[trigger] ids[j] == page_id_text((j + 1) as nat) by {
            if j < n - 1 {
                assert(i0[j] == ids[j]);
            }
        }
        assert forall|j: int, l: int| 0 <= j < l < n implies #[trigger] ids[j] != #[trigger] ids[l] by {
            assert(ids[j] == page_id_text((j + 1) as nat));
            assert(ids[l] == page_id_text((l + 1) as nat));
            if ids[j] == ids[l] {
                lemma_page_id_injective((j + 1) as nat, (l + 1) as nat);
            }
        }
        assert forall|k: Seq<char>|
            #[trigger] has_key(after.pages(), k) <==> exists|j: int| 0 <= j < n && ids[j] == k by {
            assert(has_key(after.pages(), k) == (k == ids[n - 1] || has_key(before.pages(), k)));
            if has_key(before.pages(), k) {
                let j = choose|j: int| 0 <= j < i0.len() && i0[j] == k;
                assert(ids[j] == k);
            }
            if exists|j: int| 0 <= j < n && ids[j] == k {
                let j = choose|j: int| 0 <= j < n && ids[j] == k;
                if j < n - 1 {
                    assert(i0[j] == k);
                }
            }
        }
        assert forall|j: int| 0 <= j < n implies value_of(after.pages(), #[trigger] ids[j]) == Some(
            pages[j],
        ) by {
            if j < n - 1 {
                assert(i0[j] == ids[j] && p0[j] == pages[j]);
                assert(ids[j] != ids[n - 1]);
            }
        }
    }
}

/// How many of the first `j` steps of a run registered an instance.
pub open spec fn launches_before(launched: Seq<Option<Seq<char>>>, j: int) -> nat
    decreases j,
{
    if j <= 0 {
        0
    } else {
        launches_before(launched, j - 1) + if launched[j - 1] is Some {
            1nat
        } else {
            0nat
        }
    }
}

proof fn lemma_launches_grow(launched: Seq<Option<Seq<char>>>, j: int, l: int)
    requires
        0 <= j < l,
        launched[j] is Some,
    ensures
        launches_before(launched, l) >= launches_before(launched, j) + 1,
    decreases l - j,
{
    if l > j + 1 {
        lemma_launches_grow(launched, j, l - 1);
    }
}

/// Over any run of registrations and removals on a new manager (step `j`
/// registers under `launched[j] == Some(id)`, or removes when it is
/// `None`), the `k`-th registration gets the id `k` in eight hex digits, and
/// no id is ever given twice, removals notwithstanding.
pub proof fn law_instance_id_history<R, P, C, X>(
    states: Seq<InstanceManager<R, P, C, X>>,
    launched: Seq<Option<Seq<char>>>,
)
    requires
        states.len() == launched.len() + 1,
        states[0].counter() == 0,
        forall|j: int|
            #![trigger launched[j]]
            0 <= j < launched.len() ==> match launched[j] {
                Some(id) => states[j + 1].counter() == states[j].counter() + 1 && id
                    == instance_id_text(states[j + 1].counter()),
                None => states[j + 1].counter() == states[j].counter(),
            },
    ensures
        forall|j: int|
            0 <= j <= launched.len() ==> #[trigger] states[j].counter() == launches_before(
                launched,
                j,
            ),
        forall|j: int|
            0 <= j < launched.len() && #[trigger] launched[j] is Some ==> launched[j]->0
                == instance_id_text(launches_before(launched, j) + 1),
        forall|j: int, l: int|
            0 <= j < l < launched.len() && #[trigger] launched[j] is Some
                && #[trigger] launched[l] is Some ==> launched[j]->0 != launched[l]->0,
{
    assert forall|j: int| 0 <= j <= launched.len() implies #[trigger] states[j].counter()
        == launches_before(launched, j) by {
        lemma_counter_run(states, launched, j);
    }
    assert forall|j: int| 0 <= j < launched.len() && #[trigger] launched[j] is Some implies launched[j]->0
        == instance_id_text(launches_before(launched, j) + 1) by {
        lemma_counter_run(states, launched, j);
        lemma_counter_run(states, launched, j + 1);
    }
    assert forall|j: int, l: int|
        0 <= j < l < launched.len() && #[trigger] launched[j] is Some
            && #[trigger] launched[l] is Some implies launched[j]->0 != launched[l]->0 by {
        lemma_counter_run(states, launched, j);
        lemma_counter_run(states, launched, j + 1);
        lemma_counter_run(states, launched, l);
        lemma_counter_run(states, launched, l + 1);
        lemma_launches_grow(launched, j, l);
        let a = states[j + 1].counter();
        let b = states[l + 1].counter();
        assert(states[j + 1].counter == a && states[l + 1].counter == b);
        if launched[j]->0 == launched[l]->0 {
            lemma_instance_id_injective(a, b);
        }
    }
}

proof fn lemma_counter_run<R, P, C, X>(
    states: Seq<InstanceManager<R, P, C, X>>,
    launched: Seq<Option<Seq<char>>>,
    j: int,
)
    requires
        states.len() == launched.len() + 1,
        states[0].counter() == 0,
        forall|i: int|
            #![trigger launched[i]]
            0 <= i < launched.len() ==> match launched[i] {
                Some(id) => states[i + 1].counter() == states[i].counter() + 1 && id
                    == instance_id_text(states[i + 1].counter()),
                None => states[i + 1].counter() == states[i].counter(),
            },
        0 <= j <= launched.len(),
    ensures
        states[j].counter() == launches_before(launched, j),
    decreases j,
{
    if j > 0 {
        lemma_counter_run(states, launched, j - 1);
        assert(launched[j - 1] == launched[j - 1]);
    }
}

// ---------------------------------------------------------------------------
// Laws on what single operations mean
// ---------------------------------------------------------------------------

/// An evaluation answer whose `result` object has a `value` evaluates to
/// that value, whatever its JSON type (strings included).
pub proof fn law_evaluation_value_is_result_value(answer: Json, inner: Json, value: Json)
    requires
        json_get(answer, "result"@) == Some(inner),
        json_get(inner, "value"@) == Some(value),
    ensures
        evaluation_value_model(answer) == value,
{
}

/// Without a `result.value`, an answer evaluates to its own `value` when it
/// has one, and to the whole answer otherwise.
pub proof fn law_evaluation_value_fallbacks(answer: Json)
    requires
        !(json_get(answer, "result"@) matches Some(inner) && json_get(inner, "value"@) is Some),
    ensures
        json_get(answer, "value"@) matches Some(v) ==> evaluation_value_model(answer) == v,
        json_get(answer, "value"@) is None ==> evaluation_value_model(answer) == answer,
{
}

/// A context created in the page's own session, with an id, becomes the
/// cached context, whatever was cached before.
pub proof fn law_created_context_is_cached(
    current: Option<Seq<char>>,
    session_id: Seq<char>,
    event_session: Option<Seq<char>>,
    params: Json,
    created: Seq<char>,
)
    requires
        text_or_empty(event_session) == session_id,
        json_get_str(params, "executionContextId"@) == Some(created),
    ensures
        tracked_context(
            current,
            session_id,
            "Runtime.executionContextCreated"@,
            event_session,
            params,
        ) == Some(created),
{
}

/// The destruction of the cached context, in the page's own session,
/// leaves no cached context.
pub proof fn law_destroyed_context_is_dropped(
    cached: Seq<char>,
    session_id: Seq<char>,
    event_session: Option<Seq<char>>,
    params: Json,
)
    requires
        text_or_empty(event_session) == session_id,
        json_get_str(params, "executionContextId"@) == Some(cached),
    ensures
        tracked_context(
            Some(cached),
            session_id,
            "Runtime.executionContextDestroyed"@,
            event_session,
            params,
        ) is None,
{
    reveal_strlit("Runtime.executionContextCreated");
    reveal_strlit("Runtime.executionContextDestroyed");
    assert("Runtime.executionContextCreated"@[24] != "Runtime.executionContextDestroyed"@[24]);
}

/// Events of another session never change the cached context.
pub proof fn law_other_sessions_leave_the_context(
    current: Option<Seq<char>>,
    session_id: Seq<char>,
    method: Seq<char>,
    event_session: Option<Seq<char>>,
    params: Json,
)
    requires
        text_or_empty(event_session) != session_id,
    ensures
        tracked_context(current, session_id, method, event_session, params) == current,
{
}

/// The listing of an instance carries its id, pid and version, and all of
/// its page ids: as many items as the instance has pages, the `k`-th being
/// the `k`-th page id in order.
pub proof fn law_listing_shows_every_page<R, P, C>(id: Seq<char>, inst: Instance<R, P, C>)
    ensures
        json_get(instance_summary_model(id, inst), "instance_id"@) == Some(Json::Str(id)),
        json_get(instance_summary_model(id, inst), "pid"@) == Some(
            Json::Num(NumberModel::PosInt(inst.pid() as u64)),
        ),
        json_get(instance_summary_model(id, inst), "pages"@) matches Some(Json::Array(items))
            && items.len() == inst.pages().len() && forall|k: int|
            0 <= k < items.len() ==> #[trigger] items[k] == Json::Str(inst.pages()[k].0),
{
    reveal_strlit("instance_id");
    reveal_strlit("pid");
    reveal_strlit("version");
    reveal_strlit("pages");
    let entries = instance_summary_model(id, inst)->Object_0;
    assert("pid"@ != "instance_id"@) by {
        assert("pid"@.len() != "instance_id"@.len());
    }
    assert("pages"@ != "instance_id"@ && "pages"@ != "pid"@ && "pages"@ != "version"@) by {
        assert("pages"@[1] != "instance_id"@[1]);
        assert("pages"@.len() != "pid"@.len());
        assert("pages"@[0] != "version"@[0]);
    }
    assert(entries.drop_first().drop_first().drop_first().drop_first().len() == 0);
    reveal_with_fuel(lookup, 5);
}

} // verus!
