//! Event routing: which subscribed handlers an incoming event reaches, and
//! in which order.

use vstd::prelude::*;

use crate::protocol::types::EventMessage;

verus! {

/// The wildcard method that matches every event of a session.
pub open spec fn wildcard() -> Seq<char> {
    seq!['*']
}

/// One subscription: a handler for events of `method` (or of every method,
/// when `method` is `"*"`) on the session `session_key`.
pub struct Subscription<H> {
    pub session_key: String,
    pub method: String,
    pub handler: H,
}

/// What a router holds, as values: the subscriptions in the order they were
/// made, each as `(session_key, method, handler)`, and the global handlers
/// in the order they were added.
pub type RouterView<H> = (Seq<(Seq<char>, Seq<char>, H)>, Seq<H>);

/// Manages event subscriptions per session.
///
/// Events are keyed by `(session_key, method)`. The `session_key` is `""` for
/// the root (browser-level) session and a UUID string for page sessions.
///
/// There are three subscription levels:
/// - **Specific**: `(session_key, method)` — matches one event type on one session.
/// - **Session-wide**: `(session_key, "*")` — matches all events on one session.
/// - **Global**: catches every event regardless of session or method.
pub struct EventRouter<H> {
    /// Subscriptions in the order they were made.
    subscriptions: Vec<Subscription<H>>,
    /// Global catch-all handlers (for logging/debugging).
    global_handlers: Vec<H>,
}

/// The handlers among `subs` subscribed to exactly `(session, method)`, in
/// subscription order.
pub open spec fn keyed_handlers<H>(
    subs: Seq<(Seq<char>, Seq<char>, H)>,
    session: Seq<char>,
    method: Seq<char>,
) -> Seq<H>
    decreases subs.len(),
{
    if subs.len() == 0 {
        Seq::empty()
    } else {
        let rest = keyed_handlers(subs.drop_last(), session, method);
        let last = subs.last();
        if last.0 == session && last.1 == method {
            rest.push(last.2)
        } else {
            rest
        }
    }
}

/// The subscriptions of `subs` that do not belong to `session`, in order.
pub open spec fn without_session<H>(
    subs: Seq<(Seq<char>, Seq<char>, H)>,
    session: Seq<char>,
) -> Seq<(Seq<char>, Seq<char>, H)>
    decreases subs.len(),
{
    if subs.len() == 0 {
        Seq::empty()
    } else {
        let rest = without_session(subs.drop_last(), session);
        if subs.last().0 == session {
            rest
        } else {
            rest.push(subs.last())
        }
    }
}

/// The handlers that an event of `method` on `session` reaches, in the order
/// they run: the exact `(session, method)` subscriptions, then the session's
/// wildcard subscriptions, then the global handlers.
pub open spec fn dispatch_plan<H>(v: RouterView<H>, session: Seq<char>, method: Seq<char>) -> Seq<H> {
    keyed_handlers(v.0, session, method) + keyed_handlers(v.0, session, wildcard()) + v.1
}

/// The session key of an event: its session id, or `""` for the root session.
pub open spec fn event_session_key(event: EventMessage) -> Seq<char> {
    match event.session_id {
        Some(id) => id@,
        None => Seq::empty(),
    }
}

/// A handler that can be run on any event.
pub open spec fn accepts_every_event<H: Fn(&EventMessage)>(h: H) -> bool {
    forall|e: &EventMessage| call_requires(h, (e,))
}

impl<H> View for EventRouter<H> {
    type V = RouterView<H>;

    closed spec fn view(&self) -> RouterView<H> {
        (
            self.subscriptions@.map_values(
                |s: Subscription<H>| (s.session_key@, s.method@, s.handler),
            ),
            self.global_handlers@,
        )
    }
}

proof fn lemma_keyed_take<H>(
    subs: Seq<(Seq<char>, Seq<char>, H)>,
    i: int,
    session: Seq<char>,
    method: Seq<char>,
)
    requires
        0 <= i < subs.len(),
    ensures
        keyed_handlers(subs.take(i + 1), session, method) == if subs[i].0 == session && subs[i].1
            == method {
            keyed_handlers(subs.take(i), session, method).push(subs[i].2)
        } else {
            keyed_handlers(subs.take(i), session, method)
        },
{
    assert(subs.take(i + 1).drop_last() =~= subs.take(i));
}

proof fn lemma_without_take<H>(subs: Seq<(Seq<char>, Seq<char>, H)>, i: int, session: Seq<char>)
    requires
        0 <= i < subs.len(),
    ensures
        without_session(subs.take(i + 1), session) == if subs[i].0 == session {
            without_session(subs.take(i), session)
        } else {
            without_session(subs.take(i), session).push(subs[i])
        },
{
    assert(subs.take(i + 1).drop_last() =~= subs.take(i));
}


proof fn lemma_keyed_without<H>(
    subs: Seq<(Seq<char>, Seq<char>, H)>,
    removed: Seq<char>,
    session: Seq<char>,
    method: Seq<char>,
)
    ensures
        keyed_handlers(without_session(subs, removed), session, method) == if session == removed {
            Seq::<H>::empty()
        } else {
            keyed_handlers(subs, session, method)
        },
    decreases subs.len(),
{
    if subs.len() > 0 {
        lemma_keyed_without(subs.drop_last(), removed, session, method);
        let rest = without_session(subs.drop_last(), removed);
        if subs.last().0 != removed {
            assert(rest.push(subs.last()).drop_last() =~= rest);
        }
    }
}

/// A subscription made with `on(session, method, h)` runs on the next event
/// of `method` on `session` right after the handlers subscribed to that key
/// before it, ahead of the session's wildcard and the global handlers; the
/// handlers that every other event reaches stay as they were, unless the
/// subscription is itself a wildcard of the same session.
pub proof fn law_subscription_reaches_its_events<H>(
    v: RouterView<H>,
    session: Seq<char>,
    method: Seq<char>,
    h: H,
    event_session: Seq<char>,
    event_method: Seq<char>,
)
    requires
        method != wildcard(),
    ensures
        event_session == session && event_method == method ==> dispatch_plan(
            (v.0.push((session, method, h)), v.1),
            event_session,
            event_method,
        ) == keyed_handlers(v.0, session, method).push(h) + keyed_handlers(
            v.0,
            session,
            wildcard(),
        ) + v.1,
        !(event_session == session && event_method == method) ==> dispatch_plan(
            (v.0.push((session, method, h)), v.1),
            event_session,
            event_method,
        ) == dispatch_plan(v, event_session, event_method),
{
    let subs = v.0.push((session, method, h));
    assert(subs.drop_last() =~= v.0);
}

/// A wildcard subscription made with `on_any(session, h)` runs on every
/// later event of `session`, whatever its method, after the exact-match
/// handlers and the session's earlier wildcards and before the global
/// handlers; events of other sessions are unaffected.
pub proof fn law_wildcard_reaches_every_method<H>(
    v: RouterView<H>,
    session: Seq<char>,
    h: H,
    event_session: Seq<char>,
    event_method: Seq<char>,
)
    requires
        event_method != wildcard(),
    ensures
        event_session == session ==> dispatch_plan(
            (v.0.push((session, wildcard(), h)), v.1),
            event_session,
            event_method,
        ) == keyed_handlers(v.0, session, event_method) + keyed_handlers(
            v.0,
            session,
            wildcard(),
        ).push(h) + v.1,
        event_session != session ==> dispatch_plan(
            (v.0.push((session, wildcard(), h)), v.1),
            event_session,
            event_method,
        ) == dispatch_plan(v, event_session, event_method),
{
    let subs = v.0.push((session, wildcard(), h));
    assert(subs.drop_last() =~= v.0);
}

/// A global handler added with `on_global(h)` runs last on every later
/// event, after everything that the event reached before.
pub proof fn law_global_reaches_everything<H>(
    v: RouterView<H>,
    h: H,
    event_session: Seq<char>,
    event_method: Seq<char>,
)
    ensures
        dispatch_plan((v.0, v.1.push(h)), event_session, event_method) == dispatch_plan(
            v,
            event_session,
            event_method,
        ).push(h),
{
    assert(dispatch_plan((v.0, v.1.push(h)), event_session, event_method) =~= dispatch_plan(
        v,
        event_session,
        event_method,
    ).push(h));
}

/// After `remove_session(session)`, an event of that session reaches only
/// the global handlers, while events of every other session reach exactly
/// the handlers they reached before.
pub proof fn law_remove_session_isolates<H>(
    v: RouterView<H>,
    session: Seq<char>,
    event_session: Seq<char>,
    event_method: Seq<char>,
)
    ensures
        event_session == session ==> dispatch_plan(
            (without_session(v.0, session), v.1),
            event_session,
            event_method,
        ) == v.1,
        event_session != session ==> dispatch_plan(
            (without_session(v.0, session), v.1),
            event_session,
            event_method,
        ) == dispatch_plan(v, event_session, event_method),
{
    lemma_keyed_without(v.0, session, event_session, event_method);
    lemma_keyed_without(v.0, session, event_session, wildcard());
    if event_session == session {
        assert(Seq::<H>::empty() + Seq::<H>::empty() + v.1 =~= v.1);
    }
}

/// Removing a session's subscriptions removes every one of them and keeps
/// every subscription of the other sessions, in order.
pub proof fn law_remove_session_count<H>(
    subs: Seq<(Seq<char>, Seq<char>, H)>,
    session: Seq<char>,
)
    ensures
        without_session(subs, session).len() <= subs.len(),
        forall|i: int|
            0 <= i < without_session(subs, session).len() ==> (#[trigger] without_session(
                subs,
                session,
            )[i]).0 != session,
        (forall|i: int| 0 <= i < subs.len() ==> (#[trigger] subs[i]).0 != session)
            ==> without_session(subs, session) == subs,
    decreases subs.len(),
{
    if subs.len() > 0 {
        law_remove_session_count(subs.drop_last(), session);
        let rest = without_session(subs.drop_last(), session);
        if (forall|i: int| 0 <= i < subs.len() ==> (#[trigger] subs[i]).0 != session) {
            assert forall|i: int| 0 <= i < subs.drop_last().len() implies (
            #[trigger] subs.drop_last()[i]).0 != session by {
                assert(subs.drop_last()[i] == subs[i]);
            }
            assert(subs.drop_last().push(subs.last()) =~= subs);
        }
    }
}

impl<H: Fn(&EventMessage)> EventRouter<H> {
    /// Every stored handler can be run on any event.
    pub closed spec fn wf(&self) -> bool {
        &&& forall|j: int|
            0 <= j < self.subscriptions@.len() ==> accepts_every_event(
                #[trigger] self.subscriptions@[j].handler,
            )
        &&& forall|j: int|
            0 <= j < self.global_handlers@.len() ==> accepts_every_event(
                #[trigger] self.global_handlers@[j],
            )
    }

    /// Create a new, empty event router.
    pub fn new() -> (r: Self)
        ensures
            r.wf(),
            r@.0 == Seq::<(Seq<char>, Seq<char>, H)>::empty(),
            r@.1 == Seq::<H>::empty(),
    {
        let r = EventRouter { subscriptions: Vec::new(), global_handlers: Vec::new() };
        assert(r@.0 =~= Seq::<(Seq<char>, Seq<char>, H)>::empty());
        r
    }

    /// Subscribe to a specific event type on a session.
    ///
    /// - `session_key`: `""` for root session, UUID string for page sessions.
    /// - `method`: the event method name, e.g. `"Page.navigationStarted"`.
    /// - `handler`: callback invoked when a matching event is dispatched.
    pub fn on(&mut self, session_key: &str, method: &str, handler: H)
        requires
            old(self).wf(),
            accepts_every_event(handler),
        ensures
            final(self).wf(),
            final(self)@.0 == old(self)@.0.push((session_key@, method@, handler)),
            final(self)@.1 == old(self)@.1,
    {
        let sub = Subscription {
            session_key: session_key.to_owned(),
            method: method.to_owned(),
            handler,
        };
        self.subscriptions.push(sub);
        assert(self@.0 =~= old(self)@.0.push((session_key@, method@, handler)));
    }

    /// Subscribe to ALL events on a session (wildcard).
    ///
    /// The handler fires for every event whose `session_id` matches, regardless
    /// of the event's `method` name.
    pub fn on_any(&mut self, session_key: &str, handler: H)
        requires
            old(self).wf(),
            accepts_every_event(handler),
        ensures
            final(self).wf(),
            final(self)@.0 == old(self)@.0.push((session_key@, wildcard(), handler)),
            final(self)@.1 == old(self)@.1,
    {
        proof {
            reveal_strlit("*");
            assert("*"@ =~= wildcard());
        }
        self.on(session_key, "*", handler);
    }

    /// Add a global event listener that fires for every single event.
    ///
    /// Global handlers run *after* session-specific and session-wildcard
    /// handlers. They are mainly useful for logging and debugging.
    pub fn on_global(&mut self, handler: H)
        requires
            old(self).wf(),
            accepts_every_event(handler),
        ensures
            final(self).wf(),
            final(self)@.0 == old(self)@.0,
            final(self)@.1 == old(self)@.1.push(handler),
    {
        self.global_handlers.push(handler);
    }

    /// Dispatch an event to all matching handlers.
    ///
    /// The dispatch order is:
    /// 1. Exact-match handlers for `(session_key, method)`.
    /// 2. Session-wildcard handlers for `(session_key, "*")`.
    /// 3. Global handlers.
    ///
    /// Every handler of the plan is called on the event, in the plan's
    /// order; the ghost result is that sequence of handlers, and each of them
    /// returned from its call on `event`.
    pub fn dispatch(&self, event: &EventMessage) -> (fired: Ghost<Seq<H>>)
        requires
            self.wf(),
        ensures
            fired@ == dispatch_plan(self@, event_session_key(*event), event.method@),
            forall|i: int| 0 <= i < fired@.len() ==> call_ensures(fired@[i], (event,), ()),
    {
        let session_key = session_key_from_event(event);
        let star = "*".to_owned();
        proof {
            reveal_strlit("*");
        }
        let ghost subs = self@.0;
        let ghost mut ran: Seq<H> = Seq::empty();
        let n = self.subscriptions.len();
        assert(subs.take(0) =~= Seq::<(Seq<char>, Seq<char>, H)>::empty());

        // 1. Exact match: (session_key, method)
        let mut i: usize = 0;
        while i < n
            invariant
                self.wf(),
                n == self.subscriptions@.len(),
                subs == self@.0,
                0 <= i <= n,
                session_key@ == event_session_key(*event),
                ran == keyed_handlers(subs.take(i as int), session_key@, event.method@),
                forall|k: int| 0 <= k < ran.len() ==> call_ensures(ran[k], (event,), ()),
            decreases n - i,
        {
            let sub = &self.subscriptions[i];
            proof {
                lemma_keyed_take(subs, i as int, session_key@, event.method@);
            }
            if sub.session_key == session_key && sub.method == event.method {
                (sub.handler)(event);
                proof {
                    ran = ran.push(sub.handler);
                }
            }
            i = i + 1;
        }
        assert(subs.take(n as int) =~= subs);
        let ghost exact = ran;

        // 2. Session wildcard: (session_key, "*")
        let mut i: usize = 0;
        while i < n
            invariant
                self.wf(),
                n == self.subscriptions@.len(),
                subs == self@.0,
                0 <= i <= n,
                session_key@ == event_session_key(*event),
                star@ == wildcard(),
                ran == exact + keyed_handlers(subs.take(i as int), session_key@, wildcard()),
                forall|k: int| 0 <= k < ran.len() ==> call_ensures(ran[k], (event,), ()),
            decreases n - i,
        {
            let sub = &self.subscriptions[i];
            proof {
                lemma_keyed_take(subs, i as int, session_key@, wildcard());
            }
            if sub.session_key == session_key && sub.method == star {
                (sub.handler)(event);
                proof {
                    ran = ran.push(sub.handler);
                }
            }
            i = i + 1;
        }
        let ghost keyed = ran;

        // 3. Global catch-all handlers
        let m = self.global_handlers.len();
        let mut j: usize = 0;
        while j < m
            invariant
                self.wf(),
                m == self.global_handlers@.len(),
                0 <= j <= m,
                ran == keyed + self@.1.take(j as int),
                forall|k: int| 0 <= k < ran.len() ==> call_ensures(ran[k], (event,), ()),
            decreases m - j,
        {
            let handler = &self.global_handlers[j];
            handler(event);
            proof {
                ran = ran.push(*handler);
                assert(self@.1.take(j + 1) =~= self@.1.take(j as int).push(*handler));
            }
            j = j + 1;
        }
        assert(self@.1.take(m as int) =~= self@.1);
        Ghost(ran)
    }

    /// Remove all handlers associated with a session.
    ///
    /// Called when a session is disposed (page closed or detached). This
    /// removes both exact-match and wildcard subscriptions for the session.
    pub fn remove_session(&mut self, session_key: &str)
        requires
            old(self).wf(),
        ensures
            final(self).wf(),
            final(self)@.0 == without_session(old(self)@.0, session_key@),
            final(self)@.1 == old(self)@.1,
    {
        let key = session_key.to_owned();
        let ghost subs = old(self)@.0;
        let ghost mut p: int = 0;
        let mut i: usize = 0;
        assert(subs.take(0) =~= Seq::<(Seq<char>, Seq<char>, H)>::empty());
        assert(self@.0 =~= without_session(subs.take(0), session_key@) + subs.skip(0));
        while i < self.subscriptions.len()
            invariant
                0 <= p <= subs.len(),
                key@ == session_key@,
                self@.1 == old(self)@.1,
                self.wf(),
                i == without_session(subs.take(p), session_key@).len(),
                self@.0 == without_session(subs.take(p), session_key@) + subs.skip(p),
            decreases subs.len() - p,
        {
            proof {
                lemma_without_take(subs, p, session_key@);
                assert(self@.0[i as int] == subs[p]);
                assert(self.subscriptions@[i as int].session_key@ == subs[p].0);
            }
            if self.subscriptions[i].session_key == key {
                let ghost before = self.subscriptions@;
                let ghost old_view = self@.0;
                self.subscriptions.remove(i);
                proof {
                    assert(self.subscriptions@ =~= before.remove(i as int));
                    assert(self@.0 =~= old_view.remove(i as int));
                    assert(self@.0 =~= without_session(subs.take(p + 1), session_key@) + subs.skip(
                        p + 1,
                    ));
                }
            } else {
                i = i + 1;
                proof {
                    assert(self@.0 =~= without_session(subs.take(p + 1), session_key@) + subs.skip(
                        p + 1,
                    ));
                }
            }
            proof {
                p = p + 1;
            }
        }
        proof {
            assert(p == subs.len());
            assert(subs.take(p) =~= subs);
            assert(self@.0 =~= without_session(subs, session_key@));
        }
    }

    /// Returns the total number of handler registrations (all keys + globals).
    pub fn handler_count(&self) -> (count: usize)
        requires
            self@.0.len() + self@.1.len() <= usize::MAX,
        ensures
            count == self@.0.len() + self@.1.len(),
    {
        self.subscriptions.len() + self.global_handlers.len()
    }
}

impl<H: Fn(&EventMessage)> Default for EventRouter<H> {
    fn default() -> (r: Self)
        ensures
            r.wf(),
            r@.0 == Seq::<(Seq<char>, Seq<char>, H)>::empty(),
            r@.1 == Seq::<H>::empty(),
    {
        Self::new()
    }
}

/// Extract the session key string from an event message.
///
/// Root session events have `session_id: None` → key `""`.
/// Page session events have `session_id: Some(uuid)` → key `uuid`.
fn session_key_from_event(event: &EventMessage) -> (key: String)
    ensures
        key@ == event_session_key(*event),
{
    match &event.session_id {
        Some(id) => id.clone(),
        None => String::new(),
    }
}

} // verus!
