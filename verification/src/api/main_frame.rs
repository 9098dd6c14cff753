//! Main-frame domain wrapper.
//!
//! [`MainFrame`] describes a page-scoped Juggler session pinned to the top
//! frame of a page: its target and its top frame, both populated from
//! authoritative protocol responses at construction time, so a `MainFrame`
//! cannot refer to a sub-frame.
//!
//! Every command is built here as a [`Request`] (method name and
//! parameters), and every answer that the library interprets is read here;
//! sending the request over the page session is left to the caller.

use vstd::prelude::*;

pub use crate::api::base64::decode_base64;
use crate::api::base64::decode_base64_result;
use crate::json::{
    entries_model, items_model, json_get, json_get_bool, json_get_str, json_int, json_uint, push_entry, push_item, Json,
    JsonValue,
};
use crate::protocol::errors::{display_text, ProtocolError, ProtocolErrorKind};
use vstd::string::StringSliceAdditionalSpecFns;
use vstd::utf8::encode_utf8;

verus! {

// ---------------------------------------------------------------------------
// Supporting types
// ---------------------------------------------------------------------------

/// Options for page navigation.
///
/// Top-frame-only — there is no `frame_id` override. `MainFrame::navigate`
/// always operates on the main frame.
#[derive(Debug, Clone, Default)]
pub struct NavigateOptions {
    /// HTTP referer header to send with the navigation request.
    pub referer: Option<String>,
}

/// Parameters for `Page.dispatchKeyEvent`.
#[derive(Debug, Clone)]
pub struct KeyEventParams {
    /// Event type: `"keydown"` or `"keyup"`.
    pub event_type: String,
    /// Virtual key code (e.g., 65 for 'A').
    pub key_code: u32,
    /// Physical key code string (e.g., `"KeyA"`, `"Enter"`).
    pub code: String,
    /// Logical key string (e.g., `"a"`, `"Enter"`).
    pub key: String,
    /// Whether this is a key repeat.
    pub repeat: bool,
    /// Key location: 0=standard, 1=left, 2=right, 3=numpad.
    pub location: u32,
    /// Text input. `"\r"` is mapped to `""` by the browser.
    pub text: Option<String>,
}

/// Parameters for `Page.dispatchMouseEvent`.
#[derive(Debug, Clone)]
pub struct MouseEventParams {
    /// Event type: `"mousemove"`, `"mousedown"`, or `"mouseup"`.
    pub event_type: String,
    /// Button: 0=left, 1=middle, 2=right.
    pub button: u32,
    /// Button bitmask: 1=left, 2=right, 4=middle.
    pub buttons: u32,
    /// X coordinate (integer, floored).
    pub x: i32,
    /// Y coordinate (integer, floored).
    pub y: i32,
    /// Modifier bitmask: 1=Alt, 2=Control, 4=Shift, 8=Meta.
    pub modifiers: u32,
    /// Click count (for double-click detection, etc.).
    pub click_count: Option<u32>,
}

/// Parameters for `Page.dispatchTapEvent`.
#[derive(Debug, Clone)]
pub struct TapEventParams {
    /// X coordinate.
    pub x: i32,
    /// Y coordinate.
    pub y: i32,
    /// Modifier bitmask: 1=Alt, 2=Control, 4=Shift, 8=Meta.
    pub modifiers: u32,
}

/// Emulated media settings for `Page.setEmulatedMedia`.
#[derive(Debug, Clone, Default)]
pub struct EmulatedMedia {
    /// Media type: `""`, `"screen"`, or `"print"`.
    pub media_type: String,
    /// Color scheme override.
    pub color_scheme: Option<String>,
    /// Reduced motion override.
    pub reduced_motion: Option<String>,
    /// Forced colors override.
    pub forced_colors: Option<String>,
    /// Contrast override.
    pub contrast: Option<String>,
}

/// A protocol command: the method to call and its parameters.
#[derive(Debug)]
pub struct Request {
    pub method: String,
    pub params: JsonValue,
}

/// The request `method` with the parameter object `entries`.
pub open spec fn is_request(r: Request, method: Seq<char>, entries: Seq<(Seq<char>, Json)>) -> bool {
    r.method@ == method && r.params.model() == Json::Object(entries)
}

/// The JSON model of an optional string: the string, or nothing.
pub open spec fn opt_entry(key: Seq<char>, value: Option<String>) -> Seq<(Seq<char>, Json)> {
    match value {
        Some(v) => seq![(key, Json::Str(v@))],
        None => Seq::empty(),
    }
}

/// The model of a `{name, value}` header list.
pub open spec fn headers_model(headers: Seq<(&str, &str)>) -> Seq<Json> {
    Seq::new(
        headers.len(),
        |i: int|
            Json::Object(
                seq![("name"@, Json::Str(headers[i].0@)), ("value"@, Json::Str(headers[i].1@))],
            ),
    )
}

fn request(method: &str, params: JsonValue) -> (r: Request)
    ensures
        r.method@ == method@,
        r.params == params,
{
    Request { method: method.to_owned(), params }
}

fn new_entries() -> (e: Vec<(String, JsonValue)>)
    ensures
        entries_model(e@) == Seq::<(Seq<char>, Json)>::empty(),
{
    let e: Vec<(String, JsonValue)> = Vec::new();
    assert(entries_model(e@) =~= Seq::<(Seq<char>, Json)>::empty());
    e
}

fn empty_request(method: &str) -> (r: Request)
    ensures
        is_request(r, method@, Seq::empty()),
{
    request(method, JsonValue::object(new_entries()))
}

fn push_opt_str(entries: &mut Vec<(String, JsonValue)>, key: &str, value: &Option<String>)
    ensures
        entries_model(final(entries)@) == entries_model(old(entries)@) + opt_entry(key@, *value),
{
    match value {
        Some(v) => {
            push_entry(entries, key, JsonValue::string(v.as_str()));
        },
        None => {},
    }
    assert(entries_model(entries@) =~= entries_model(old(entries)@) + opt_entry(key@, *value));
}

fn header_list(headers: &[(&str, &str)]) -> (v: JsonValue)
    ensures
        v.model() == Json::Array(headers_model(headers@)),
{
    let mut items: Vec<JsonValue> = Vec::new();
    assert(items_model(items@) =~= headers_model(headers@).take(0));
    let mut i: usize = 0;
    while i < headers.len()
        invariant
            0 <= i <= headers@.len(),
            items_model(items@) == headers_model(headers@).take(i as int),
        decreases headers@.len() - i,
    {
        let (name, value) = headers[i];
        let mut entries = new_entries();
        push_entry(&mut entries, "name", JsonValue::string(name));
        push_entry(&mut entries, "value", JsonValue::string(value));
        assert(entries_model(entries@) =~= seq![("name"@, Json::Str(headers@[i as int].0@)), ("value"@, Json::Str(headers@[i as int].1@))]);
        let header = JsonValue::object(entries);
        assert(header.model() == headers_model(headers@)[i as int]);
        push_item(&mut items, header);
        assert(headers_model(headers@).take(i + 1) =~= headers_model(headers@).take(i as int).push(
            header.model(),
        ));
        i = i + 1;
    }
    assert(headers_model(headers@).take(i as int) =~= headers_model(headers@));
    JsonValue::array(items)
}


/// The model of a page-level init-script list.
pub open spec fn scripts_model(scripts: Seq<(String, Option<String>)>) -> Seq<Json> {
    Seq::new(
        scripts.len(),
        |i: int|
            Json::Object(
                seq![("script"@, Json::Str(scripts[i].0@))] + opt_entry("worldName"@, scripts[i].1),
            ),
    )
}

/// The model of a list of strings.
pub open spec fn strs_model(items: Seq<&str>) -> Seq<Json> {
    Seq::new(items.len(), |i: int| Json::Str(items[i]@))
}

fn script_list(scripts: &[(String, Option<String>)]) -> (v: JsonValue)
    ensures
        v.model() == Json::Array(scripts_model(scripts@)),
{
    let mut items: Vec<JsonValue> = Vec::new();
    assert(items_model(items@) =~= scripts_model(scripts@).take(0));
    let mut i: usize = 0;
    while i < scripts.len()
        invariant
            0 <= i <= scripts@.len(),
            items_model(items@) == scripts_model(scripts@).take(i as int),
        decreases scripts@.len() - i,
    {
        let (script, world_name) = &scripts[i];
        let mut entries = new_entries();
        push_entry(&mut entries, "script", JsonValue::string(script.as_str()));
        push_opt_str(&mut entries, "worldName", world_name);
        assert(entries_model(entries@) =~= seq![("script"@, Json::Str(scripts@[i as int].0@))]
            + opt_entry("worldName"@, scripts@[i as int].1));
        let obj = JsonValue::object(entries);
        push_item(&mut items, obj);
        assert(scripts_model(scripts@).take(i + 1) =~= scripts_model(scripts@).take(i as int).push(
            obj.model(),
        ));
        i = i + 1;
    }
    assert(scripts_model(scripts@).take(i as int) =~= scripts_model(scripts@));
    JsonValue::array(items)
}

fn str_list(strs: &[&str]) -> (v: JsonValue)
    ensures
        v.model() == Json::Array(strs_model(strs@)),
{
    let mut items: Vec<JsonValue> = Vec::new();
    assert(items_model(items@) =~= strs_model(strs@).take(0));
    let mut i: usize = 0;
    while i < strs.len()
        invariant
            0 <= i <= strs@.len(),
            items_model(items@) == strs_model(strs@).take(i as int),
        decreases strs@.len() - i,
    {
        let item = JsonValue::string(strs[i]);
        push_item(&mut items, item);
        assert(strs_model(strs@).take(i + 1) =~= strs_model(strs@).take(i as int).push(
            item.model(),
        ));
        i = i + 1;
    }
    assert(strs_model(strs@).take(i as int) =~= strs_model(strs@));
    JsonValue::array(items)
}


/// The UTF-8 bytes of the base64 text under `key` in a response (no bytes
/// when there is no such string).
pub open spec fn payload_bytes(response: Json, key: Seq<char>) -> Seq<u8> {
    match json_get_str(response, key) {
        Some(s) => encode_utf8(s),
        None => Seq::empty(),
    }
}

/// A `Response` error for `method` whose message is the decoder's `msg`.
pub open spec fn is_payload_error(e: ProtocolError, method: Seq<char>, msg: Seq<char>) -> bool {
    &&& e.kind == ProtocolErrorKind::Response
    &&& e.method matches Some(m) && m@ == method
    &&& e.message@ == msg
    &&& e.data is None
    &&& e.source is None
}

fn decode_payload(response: &JsonValue, key: &str, method: &str) -> (r: Result<Vec<u8>, ProtocolError>)
    ensures
        match decode_base64_result(payload_bytes(response.model(), key@)) {
            Ok(bytes) => r matches Ok(out) && out@ == bytes,
            Err(msg) => r matches Err(e) && is_payload_error(e, method@, msg),
        },
{
    let text = match response.get_str(key) {
        Some(t) => t,
        None => "",
    };
    proof {
        reveal_strlit("");
        assert(""@ =~= Seq::<char>::empty());
        assert(encode_utf8(Seq::<char>::empty()) =~= Seq::<u8>::empty()) by {
            reveal_with_fuel(encode_utf8, 1);
        }
    }
    match decode_base64(text) {
        Ok(bytes) => Ok(bytes),
        Err(message) => Err(
            ProtocolError {
                kind: ProtocolErrorKind::Response,
                method: Some(method.to_owned()),
                message,
                data: None,
                source: None,
            },
        ),
    }
}


/// The parameters of a `Runtime.evaluate` request.
pub open spec fn evaluate_params(expression: Seq<char>, context: Seq<char>) -> Seq<(Seq<char>, Json)> {
    seq![
        ("expression"@, Json::Str(expression)),
        ("returnByValue"@, Json::Bool(true)),
        ("executionContextId"@, Json::Str(context)),
    ]
}

/// The JSON model of an optional string slice.
pub open spec fn opt_str_entry(key: Seq<char>, value: Option<&str>) -> Seq<(Seq<char>, Json)> {
    match value {
        Some(v) => seq![(key, Json::Str(v@))],
        None => Seq::empty(),
    }
}

fn push_opt_slice(entries: &mut Vec<(String, JsonValue)>, key: &str, value: Option<&str>)
    ensures
        entries_model(final(entries)@) == entries_model(old(entries)@) + opt_str_entry(key@, value),
{
    match value {
        Some(v) => {
            push_entry(entries, key, JsonValue::string(v));
        },
        None => {},
    }
    assert(entries_model(entries@) =~= entries_model(old(entries)@) + opt_str_entry(key@, value));
}


// ---------------------------------------------------------------------------
// Evaluation with execution-context recovery
// ---------------------------------------------------------------------------

/// How many times an evaluation is retried after its execution context was
/// destroyed under it.
pub const EVALUATE_MAX_RETRIES: u32 = 5;

/// How long to wait before looking for an execution context again.
pub const CONTEXT_POLL_MILLIS: u64 = 100;

/// How long to wait before retrying an evaluation whose context was lost.
pub const RETRY_DELAY_MILLIS: u64 = 300;

/// Where an evaluation stands.
pub enum EvaluatePhase {
    /// About to start an attempt.
    Starting,
    /// Waiting for a usable execution context.
    AwaitingContext,
    /// The request was sent in the named execution context.
    AwaitingReply(String),
}

/// The state of an evaluation between two steps.
pub struct EvaluateState {
    /// The attempt under way, from 0.
    pub attempt: u32,
    /// A context that failed with a "context destroyed" error and must not be
    /// used again.
    pub bad_context: Option<String>,
    pub phase: EvaluatePhase,
}

/// What the caller observed since the last step.
pub enum EvaluateInput {
    /// Whether the deadline has passed, and the latest known main-world
    /// execution context of the frame.
    Observed { deadline_passed: bool, current_context: Option<String> },
    /// The answer to the request that was sent.
    Replied(Result<JsonValue, ProtocolError>),
}

/// What the caller must do next.
pub enum EvaluateAction {
    /// Send this request and report its answer.
    Send(Request),
    /// Sleep this long, then observe again.
    Wait { millis: u64 },
    /// The evaluation is over, with this outcome.
    Finish(Result<JsonValue, ProtocolError>),
}

/// One step of an evaluation: whether to clear the cached execution context
/// first, and the action to take.
pub struct EvaluateStep {
    pub clear_context: bool,
    pub action: EvaluateAction,
}

/// Whether `needle` occurs in `hay` at position `i`.
pub open spec fn occurs_at(hay: Seq<char>, needle: Seq<char>, i: int) -> bool {
    0 <= i && i + needle.len() <= hay.len() && hay.subrange(i, i + needle.len()) == needle
}

/// Whether `needle` occurs somewhere in `hay`.
pub open spec fn contains_text(hay: Seq<char>, needle: Seq<char>) -> bool {
    exists|i: int| occurs_at(hay, needle, i)
}

/// Whether an error's rendering says that the execution context is gone.
pub open spec fn is_context_lost_text(text: Seq<char>) -> bool {
    contains_text(text, "execution context"@) || contains_text(text, "Failed to find"@)
}

/// A `Closed` error of `Runtime.evaluate` with the message `message`.
pub open spec fn is_evaluate_closed_error(e: ProtocolError, message: Seq<char>) -> bool {
    &&& e.kind == ProtocolErrorKind::Closed
    &&& e.method matches Some(m) && m@ == "Runtime.evaluate"@
    &&& e.message@ == message
    &&& e.data is None
    &&& e.source is None
}

/// Whether `current` is a context that may be used, `bad` being the one
/// known to be lost.
pub open spec fn usable_context(current: Option<String>, bad: Option<String>) -> bool {
    match current {
        Some(c) => !(bad matches Some(b) && b@ == c@),
        None => false,
    }
}

/// Whether `needle` occurs in `hay`.
pub fn contains_str(hay: &str, needle: &str) -> (r: bool)
    ensures
        r == contains_text(hay@, needle@),
{
    let h = hay.unicode_len();
    let n = needle.unicode_len();
    if n > h {
        assert forall|i: int| !occurs_at(hay@, needle@, i) by {}
        return false;
    }
    let mut i: usize = 0;
    while i <= h - n
        invariant
            h == hay@.len(),
            n == needle@.len(),
            n <= h,
            0 <= i <= h - n + 1,
            forall|k: int| 0 <= k < i ==> !occurs_at(hay@, needle@, k),
        decreases h - n + 1 - i,
    {
        let mut j: usize = 0;
        let mut same = true;
        while j < n
            invariant
                h == hay@.len(),
                n == needle@.len(),
                i + n <= h,
                0 <= j <= n,
                same == (forall|k: int| 0 <= k < j ==> hay@[i + k] == needle@[k]),
            decreases n - j,
        {
            if hay.get_char(i + j) != needle.get_char(j) {
                same = false;
            }
            j = j + 1;
        }
        if same {
            assert(hay@.subrange(i as int, i + n) =~= needle@);
            assert(occurs_at(hay@, needle@, i as int));
            return true;
        }
        assert(!occurs_at(hay@, needle@, i as int)) by {
            if hay@.subrange(i as int, i + n) == needle@ {
                assert forall|k: int| 0 <= k < n implies hay@[i + k] == needle@[k] by {
                    assert(hay@.subrange(i as int, i + n)[k] == hay@[i + k]);
                }
            }
        }
        i = i + 1;
    }
    assert forall|k: int| !occurs_at(hay@, needle@, k) by {
        if 0 <= k && k + n <= h {
            assert(k < i);
        }
    }
    false
}

/// Whether the rendering of an error says that the execution context it
/// was sent to is gone (destroyed by a navigation).
pub fn is_context_lost(text: &str) -> (r: bool)
    ensures
        r == is_context_lost_text(text@),
{
    contains_str(text, "execution context") || contains_str(text, "Failed to find")
}

fn evaluate_closed_error(message: &str) -> (e: ProtocolError)
    ensures
        is_evaluate_closed_error(e, message@),
{
    ProtocolError {
        kind: ProtocolErrorKind::Closed,
        method: Some("Runtime.evaluate".to_owned()),
        message: message.to_owned(),
        data: None,
        source: None,
    }
}


/// What one step of an evaluation does in `state` on `input`, giving the
/// state `next` and the step `step`:
/// - an attempt that starts after the deadline ends the evaluation;
/// - a usable context is used at once: the request is sent in it;
/// - otherwise the cached context is cleared, and the caller waits for a
///   fresh one until the deadline;
/// - a successful answer is the outcome;
/// - a failure that says the context is lost is retried in a later attempt,
///   after a pause, and that context is not used again; any other failure
///   (or one past the last retry) is the outcome.
pub open spec fn is_evaluate_step(
    expression: Seq<char>,
    state: EvaluateState,
    input: EvaluateInput,
    next: EvaluateState,
    step: EvaluateStep,
) -> bool {
    match input {
        EvaluateInput::Observed { deadline_passed, current_context } => {
            if state.phase is Starting && deadline_passed {
                &&& !step.clear_context
                &&& step.action matches EvaluateAction::Finish(Err(e))
                &&& is_evaluate_closed_error(e, "evaluate failed after 5 retries"@)
            } else if usable_context(current_context, state.bad_context) {
                let cur = current_context.unwrap();
                &&& !step.clear_context
                &&& next.attempt == state.attempt
                &&& next.bad_context == state.bad_context
                &&& next.phase matches EvaluatePhase::AwaitingReply(c)
                &&& c@ == cur@
                &&& step.action matches EvaluateAction::Send(req)
                &&& is_request(req, "Runtime.evaluate"@, evaluate_params(expression, cur@))
            } else if state.phase is AwaitingContext && deadline_passed {
                &&& step.clear_context
                &&& step.action matches EvaluateAction::Finish(Err(e))
                &&& is_evaluate_closed_error(e, "timed out waiting for execution context"@)
            } else {
                &&& step.clear_context
                &&& step.action == (EvaluateAction::Wait { millis: CONTEXT_POLL_MILLIS })
                &&& next.phase is AwaitingContext
                &&& next.attempt == state.attempt
                &&& next.bad_context == state.bad_context
            }
        },
        EvaluateInput::Replied(Ok(v)) => !step.clear_context && step.action == EvaluateAction::Finish(
            Ok(v),
        ),
        EvaluateInput::Replied(Err(e)) => {
            &&& !step.clear_context
            &&& if state.attempt < EVALUATE_MAX_RETRIES && is_context_lost_text(display_text(e)) {
                &&& step.action == (EvaluateAction::Wait { millis: RETRY_DELAY_MILLIS })
                &&& next.attempt == state.attempt + 1
                &&& next.phase is Starting
                &&& state.phase matches EvaluatePhase::AwaitingReply(c)
                &&& next.bad_context matches Some(b)
                &&& b@ == c@
            } else {
                step.action == EvaluateAction::Finish(Err(e))
            }
        },
    }
}

impl EvaluateState {
    /// The state of an evaluation that has not started.
    pub fn start() -> (s: Self)
        ensures
            s.attempt == 0,
            s.bad_context is None,
            s.phase is Starting,
    {
        EvaluateState { attempt: 0, bad_context: None, phase: EvaluatePhase::Starting }
    }
}

/// What follows the answer to request `index` of `count` requests that are
/// sent in order, each only after the one before succeeded.
pub enum SequenceStep {
    /// Send request `index + 1`.
    SendNext,
    /// The sequence is over with this outcome.
    Finish(Result<(), ProtocolError>),
}

/// The next step of a sequence of requests after the answer to request
/// `index` of `count`: a failure ends the sequence with that error; a
/// success sends the next request, or ends the sequence with success after
/// the last one.
pub fn sequence_step(index: usize, count: usize, answer: Result<JsonValue, ProtocolError>) -> (r:
    SequenceStep)
    requires
        index < count,
    ensures
        match answer {
            Err(e) => r == SequenceStep::Finish(Err(e)),
            Ok(_) => if index + 1 < count {
                r == SequenceStep::SendNext
            } else {
                r == SequenceStep::Finish(Ok(()))
            },
        },
{
    match answer {
        Err(e) => SequenceStep::Finish(Err(e)),
        Ok(_) => if index + 1 < count {
            SequenceStep::SendNext
        } else {
            SequenceStep::Finish(Ok(()))
        },
    }
}

// ---------------------------------------------------------------------------
// MainFrame
// ---------------------------------------------------------------------------

/// A page handle pinned to the top frame.
///
/// Every field is populated from authoritative protocol responses
/// (`Browser.attachedToTarget` filtered to `type == "page"`, the top frame of
/// that target) — never from "first event seen".
#[derive(Debug)]
pub struct MainFrame {
    /// Server-assigned target ID; the target has `type == "page"`.
    target_id: String,
    /// Top frame ID, populated at construction time.
    frame_id: String,
}

impl View for MainFrame {
    /// The target id and the top frame id.
    type V = (Seq<char>, Seq<char>);

    closed spec fn view(&self) -> (Seq<char>, Seq<char>) {
        (self.target_id@, self.frame_id@)
    }
}

impl MainFrame {
    /// A handle on the page `target_id` whose top frame is `frame_id`.
    pub fn new(target_id: String, frame_id: String) -> (f: Self)
        ensures
            f@ == (target_id@, frame_id@),
    {
        MainFrame { target_id, frame_id }
    }

    /// Returns the target ID for this page.
    pub fn target_id(&self) -> (id: &str)
        ensures
            id@ == self@.0,
    {
        self.target_id.as_str()
    }

    /// Returns the top frame ID.
    pub fn frame_id(&self) -> (id: &str)
        ensures
            id@ == self@.1,
    {
        self.frame_id.as_str()
    }

    // -----------------------------------------------------------------------
    // Page domain methods
    // -----------------------------------------------------------------------

    /// Navigate to a URL: the `Page.navigate` request for the top frame.
    pub fn navigate(&self, url: &str, options: NavigateOptions) -> (r: Request)
        ensures
            is_request(
                r,
                "Page.navigate"@,
                seq![("url"@, Json::Str(url@)), ("frameId"@, Json::Str(self@.1))] + opt_entry(
                    "referer"@,
                    options.referer,
                ),
            ),
    {
        let mut entries = new_entries();
        push_entry(&mut entries, "url", JsonValue::string(url));
        push_entry(&mut entries, "frameId", JsonValue::string(self.frame_id.as_str()));
        push_opt_str(&mut entries, "referer", &options.referer);
        assert(entries_model(entries@) =~= seq![("url"@, Json::Str(url@)), ("frameId"@, Json::Str(self@.1))] + opt_entry(
                    "referer"@,
                    options.referer,
                ));
        request("Page.navigate", JsonValue::object(entries))
    }

    /// The navigation id that a `Page.navigate` response carries: the
    /// `navigationId` string for cross-document navigations, `None` for
    /// same-document ones (absent or empty id).
    pub fn navigation_id(response: &JsonValue) -> (id: Option<String>)
        ensures
            match json_get_str(response.model(), "navigationId"@) {
                Some(s) if s.len() > 0 => id matches Some(t) && t@ == s,
                _ => id is None,
            },
    {
        match response.get_str("navigationId") {
            Some(s) => {
                if s.is_empty() {
                    None
                } else {
                    Some(s.to_owned())
                }
            },
            None => None,
        }
    }

    /// Reload the page: the `Page.reload` request.
    pub fn reload(&self) -> (r: Request)
        ensures
            is_request(r, "Page.reload"@, Seq::empty()),
    {
        empty_request("Page.reload")
    }

    /// Go back in the navigation history: the `Page.goBack` request.
    pub fn go_back(&self) -> (r: Request)
        ensures
            is_request(r, "Page.goBack"@, seq![("frameId"@, Json::Str(self@.1))]),
    {
        let mut entries = new_entries();
        push_entry(&mut entries, "frameId", JsonValue::string(self.frame_id.as_str()));
        request("Page.goBack", JsonValue::object(entries))
    }

    /// Go forward in the navigation history: the `Page.goForward` request.
    pub fn go_forward(&self) -> (r: Request)
        ensures
            is_request(r, "Page.goForward"@, seq![("frameId"@, Json::Str(self@.1))]),
    {
        let mut entries = new_entries();
        push_entry(&mut entries, "frameId", JsonValue::string(self.frame_id.as_str()));
        request("Page.goForward", JsonValue::object(entries))
    }

    /// Whether a history navigation (`Page.goBack` / `Page.goForward`)
    /// succeeded: its `success` flag, `false` when there is none.
    pub fn history_navigated(response: &JsonValue) -> (ok: bool)
        ensures
            ok == (json_get_bool(response.model(), "success"@) == Some(true)),
    {
        match response.get_bool("success") {
            Some(b) => b,
            None => false,
        }
    }

    /// Bring the page to the front (activate the tab).
    pub fn bring_to_front(&self) -> (r: Request)
        ensures
            is_request(r, "Page.bringToFront"@, Seq::empty()),
    {
        empty_request("Page.bringToFront")
    }

    /// Set the viewport size for this page; `None` resets it to the default.
    pub fn set_viewport_size(&self, size: Option<(u32, u32)>) -> (r: Request)
        ensures
            is_request(
                r,
                "Page.setViewportSize"@,
                seq![
                    ("viewportSize"@, match size {
                        Some((w, h)) => Json::Object(
                            seq![("width"@, json_uint(w as u64)), ("height"@, json_uint(h as u64))],
                        ),
                        None => Json::Null,
                    }),
                ],
            ),
    {
        let viewport = match size {
            Some((w, h)) => {
                let mut dims = new_entries();
                push_entry(&mut dims, "width", JsonValue::unsigned(w as u64));
                push_entry(&mut dims, "height", JsonValue::unsigned(h as u64));
                assert(entries_model(dims@) =~= seq![("width"@, json_uint(w as u64)), ("height"@, json_uint(h as u64))]);
                JsonValue::object(dims)
            },
            None => JsonValue::Null,
        };
        let mut entries = new_entries();
        push_entry(&mut entries, "viewportSize", viewport);
        request("Page.setViewportSize", JsonValue::object(entries))
    }

    /// Set emulated media properties.
    pub fn set_emulated_media(&self, media: EmulatedMedia) -> (r: Request)
        ensures
            is_request(
                r,
                "Page.setEmulatedMedia"@,
                seq![("type"@, Json::Str(media.media_type@))] + opt_entry(
                    "colorScheme"@,
                    media.color_scheme,
                ) + opt_entry("reducedMotion"@, media.reduced_motion) + opt_entry(
                    "forcedColors"@,
                    media.forced_colors,
                ) + opt_entry("contrast"@, media.contrast),
            ),
    {
        let mut entries = new_entries();
        push_entry(&mut entries, "type", JsonValue::string(media.media_type.as_str()));
        push_opt_str(&mut entries, "colorScheme", &media.color_scheme);
        push_opt_str(&mut entries, "reducedMotion", &media.reduced_motion);
        push_opt_str(&mut entries, "forcedColors", &media.forced_colors);
        push_opt_str(&mut entries, "contrast", &media.contrast);
        assert(entries_model(entries@) =~= seq![("type"@, Json::Str(media.media_type@))] + opt_entry(
                    "colorScheme"@,
                    media.color_scheme,
                ) + opt_entry("reducedMotion"@, media.reduced_motion) + opt_entry(
                    "forcedColors"@,
                    media.forced_colors,
                ) + opt_entry("contrast"@, media.contrast));
        request("Page.setEmulatedMedia", JsonValue::object(entries))
    }

    /// Set whether the cache is disabled for this page.
    pub fn set_cache_disabled(&self, disabled: bool) -> (r: Request)
        ensures
            is_request(r, "Page.setCacheDisabled"@, seq![("cacheDisabled"@, Json::Bool(disabled))]),
    {
        let mut entries = new_entries();
        push_entry(&mut entries, "cacheDisabled", JsonValue::Bool(disabled));
        request("Page.setCacheDisabled", JsonValue::object(entries))
    }

    /// Set page-level init scripts, replacing all previous ones. Each script
    /// may carry a `worldName` for isolation.
    pub fn set_init_scripts(&self, scripts: &[(String, Option<String>)]) -> (r: Request)
        ensures
            is_request(
                r,
                "Page.setInitScripts"@,
                seq![("scripts"@, Json::Array(scripts_model(scripts@)))],
            ),
    {
        let mut entries = new_entries();
        push_entry(&mut entries, "scripts", script_list(scripts));
        request("Page.setInitScripts", JsonValue::object(entries))
    }

    /// Set whether to intercept file chooser dialogs. The request may fail
    /// without harm.
    pub fn set_intercept_file_chooser_dialog(&self, enabled: bool) -> (r: Request)
        ensures
            is_request(r, "Page.setInterceptFileChooserDialog"@, seq![("enabled"@, Json::Bool(enabled))]),
    {
        let mut entries = new_entries();
        push_entry(&mut entries, "enabled", JsonValue::Bool(enabled));
        request("Page.setInterceptFileChooserDialog", JsonValue::object(entries))
    }

    /// The image bytes of a `Page.screenshot` response: its base64 `data`
    /// decoded (empty data when there is none). A malformed payload is a
    /// `Response` error for `Page.screenshot` carrying the decoder's message.
    pub fn screenshot_data(response: &JsonValue) -> (r: Result<Vec<u8>, ProtocolError>)
        ensures
            match decode_base64_result(payload_bytes(response.model(), "data"@)) {
                Ok(bytes) => r matches Ok(out) && out@ == bytes,
                Err(msg) => r matches Err(e) && is_payload_error(e, "Page.screenshot"@, msg),
            },
    {
        decode_payload(response, "data", "Page.screenshot")
    }

    /// Describe a DOM node: its `contentFrameId` and `ownerFrameId`.
    pub fn describe_node(&self, frame_id: &str, object_id: &str) -> (r: Request)
        ensures
            is_request(
                r,
                "Page.describeNode"@,
                seq![("frameId"@, Json::Str(frame_id@)), ("objectId"@, Json::Str(object_id@))],
            ),
    {
        let mut entries = new_entries();
        push_entry(&mut entries, "frameId", JsonValue::string(frame_id));
        push_entry(&mut entries, "objectId", JsonValue::string(object_id));
        assert(entries_model(entries@) =~= seq![("frameId"@, Json::Str(frame_id@)), ("objectId"@, Json::Str(object_id@))]);
        request("Page.describeNode", JsonValue::object(entries))
    }

    /// The `Page.getContentQuads` request for a DOM element. The request may
    /// fail without harm.
    pub fn get_content_quads(&self, frame_id: &str, object_id: &str) -> (r: Request)
        ensures
            is_request(
                r,
                "Page.getContentQuads"@,
                seq![("frameId"@, Json::Str(frame_id@)), ("objectId"@, Json::Str(object_id@))],
            ),
    {
        let mut entries = new_entries();
        push_entry(&mut entries, "frameId", JsonValue::string(frame_id));
        push_entry(&mut entries, "objectId", JsonValue::string(object_id));
        assert(entries_model(entries@) =~= seq![("frameId"@, Json::Str(frame_id@)), ("objectId"@, Json::Str(object_id@))]);
        request("Page.getContentQuads", JsonValue::object(entries))
    }

    /// Set files for a file input element.
    pub fn set_file_input_files(&self, frame_id: &str, object_id: &str, files: &[&str]) -> (r:
        Request)
        ensures
            is_request(
                r,
                "Page.setFileInputFiles"@,
                seq![
                    ("frameId"@, Json::Str(frame_id@)),
                    ("objectId"@, Json::Str(object_id@)),
                    ("files"@, Json::Array(strs_model(files@))),
                ],
            ),
    {
        let mut entries = new_entries();
        push_entry(&mut entries, "frameId", JsonValue::string(frame_id));
        push_entry(&mut entries, "objectId", JsonValue::string(object_id));
        push_entry(&mut entries, "files", str_list(files));
        assert(entries_model(entries@) =~= seq![("frameId"@, Json::Str(frame_id@)), ("objectId"@, Json::Str(object_id@)), ("files"@, Json::Array(strs_model(files@)))]);
        request("Page.setFileInputFiles", JsonValue::object(entries))
    }

    /// Close this page.
    pub fn close(&self) -> (r: Request)
        ensures
            is_request(r, "Page.close"@, Seq::empty()),
    {
        empty_request("Page.close")
    }

    // -----------------------------------------------------------------------
    // Input event methods
    // -----------------------------------------------------------------------

    /// Dispatch a keyboard event.
    pub fn dispatch_key_event(&self, params: KeyEventParams) -> (r: Request)
        ensures
            is_request(
                r,
                "Page.dispatchKeyEvent"@,
                seq![
                    ("type"@, Json::Str(params.event_type@)),
                    ("keyCode"@, json_uint(params.key_code as u64)),
                    ("code"@, Json::Str(params.code@)),
                    ("key"@, Json::Str(params.key@)),
                    ("repeat"@, Json::Bool(params.repeat)),
                    ("location"@, json_uint(params.location as u64)),
                ] + opt_entry("text"@, params.text),
            ),
    {
        let mut entries = new_entries();
        push_entry(&mut entries, "type", JsonValue::string(params.event_type.as_str()));
        push_entry(&mut entries, "keyCode", JsonValue::unsigned(params.key_code as u64));
        push_entry(&mut entries, "code", JsonValue::string(params.code.as_str()));
        push_entry(&mut entries, "key", JsonValue::string(params.key.as_str()));
        push_entry(&mut entries, "repeat", JsonValue::Bool(params.repeat));
        push_entry(&mut entries, "location", JsonValue::unsigned(params.location as u64));
        push_opt_str(&mut entries, "text", &params.text);
        assert(entries_model(entries@) =~= seq![
            ("type"@, Json::Str(params.event_type@)),
            ("keyCode"@, json_uint(params.key_code as u64)),
            ("code"@, Json::Str(params.code@)),
            ("key"@, Json::Str(params.key@)),
            ("repeat"@, Json::Bool(params.repeat)),
            ("location"@, json_uint(params.location as u64)),
        ] + opt_entry("text"@, params.text));
        request("Page.dispatchKeyEvent", JsonValue::object(entries))
    }

    /// Insert text at the current cursor position.
    pub fn insert_text(&self, text: &str) -> (r: Request)
        ensures
            is_request(r, "Page.insertText"@, seq![("text"@, Json::Str(text@))]),
    {
        let mut entries = new_entries();
        push_entry(&mut entries, "text", JsonValue::string(text));
        request("Page.insertText", JsonValue::object(entries))
    }

    /// Dispatch a mouse event.
    pub fn dispatch_mouse_event(&self, params: MouseEventParams) -> (r: Request)
        ensures
            is_request(
                r,
                "Page.dispatchMouseEvent"@,
                seq![
                    ("type"@, Json::Str(params.event_type@)),
                    ("button"@, json_uint(params.button as u64)),
                    ("buttons"@, json_uint(params.buttons as u64)),
                    ("x"@, json_int(params.x as i64)),
                    ("y"@, json_int(params.y as i64)),
                    ("modifiers"@, json_uint(params.modifiers as u64)),
                ] + match params.click_count {
                    Some(c) => seq![("clickCount"@, json_uint(c as u64))],
                    None => Seq::empty(),
                },
            ),
    {
        let mut entries = new_entries();
        push_entry(&mut entries, "type", JsonValue::string(params.event_type.as_str()));
        push_entry(&mut entries, "button", JsonValue::unsigned(params.button as u64));
        push_entry(&mut entries, "buttons", JsonValue::unsigned(params.buttons as u64));
        push_entry(&mut entries, "x", JsonValue::signed(params.x as i64));
        push_entry(&mut entries, "y", JsonValue::signed(params.y as i64));
        push_entry(&mut entries, "modifiers", JsonValue::unsigned(params.modifiers as u64));
        let ghost before = entries_model(entries@);
        match params.click_count {
            Some(c) => {
                push_entry(&mut entries, "clickCount", JsonValue::unsigned(c as u64));
            },
            None => {},
        }
        assert(entries_model(entries@) =~= seq![
            ("type"@, Json::Str(params.event_type@)),
            ("button"@, json_uint(params.button as u64)),
            ("buttons"@, json_uint(params.buttons as u64)),
            ("x"@, json_int(params.x as i64)),
            ("y"@, json_int(params.y as i64)),
            ("modifiers"@, json_uint(params.modifiers as u64)),
        ] + match params.click_count {
            Some(c) => seq![("clickCount"@, json_uint(c as u64))],
            None => Seq::empty(),
        });
        request("Page.dispatchMouseEvent", JsonValue::object(entries))
    }

    /// Dispatch a tap event.
    pub fn dispatch_tap_event(&self, params: TapEventParams) -> (r: Request)
        ensures
            is_request(
                r,
                "Page.dispatchTapEvent"@,
                seq![
                    ("x"@, json_int(params.x as i64)),
                    ("y"@, json_int(params.y as i64)),
                    ("modifiers"@, json_uint(params.modifiers as u64)),
                ],
            ),
    {
        let mut entries = new_entries();
        push_entry(&mut entries, "x", JsonValue::signed(params.x as i64));
        push_entry(&mut entries, "y", JsonValue::signed(params.y as i64));
        push_entry(&mut entries, "modifiers", JsonValue::unsigned(params.modifiers as u64));
        assert(entries_model(entries@) =~= seq![("x"@, json_int(params.x as i64)), ("y"@, json_int(params.y as i64)), ("modifiers"@, json_uint(params.modifiers as u64))]);
        request("Page.dispatchTapEvent", JsonValue::object(entries))
    }

    // -----------------------------------------------------------------------
    // Dialog handling
    // -----------------------------------------------------------------------

    /// Handle a dialog (alert, confirm, prompt, beforeunload). The request
    /// may fail without harm: the dialog may already be handled.
    pub fn handle_dialog(&self, dialog_id: &str, accept: bool, prompt_text: Option<&str>) -> (r:
        Request)
        ensures
            is_request(
                r,
                "Page.handleDialog"@,
                seq![("dialogId"@, Json::Str(dialog_id@)), ("accept"@, Json::Bool(accept))]
                    + match prompt_text {
                    Some(t) => seq![("promptText"@, Json::Str(t@))],
                    None => Seq::empty(),
                },
            ),
    {
        let mut entries = new_entries();
        push_entry(&mut entries, "dialogId", JsonValue::string(dialog_id));
        push_entry(&mut entries, "accept", JsonValue::Bool(accept));
        match prompt_text {
            Some(t) => {
                push_entry(&mut entries, "promptText", JsonValue::string(t));
            },
            None => {},
        }
        assert(entries_model(entries@) =~= seq![("dialogId"@, Json::Str(dialog_id@)), ("accept"@, Json::Bool(accept))]
            + match prompt_text {
            Some(t) => seq![("promptText"@, Json::Str(t@))],
            None => Seq::empty(),
        });
        request("Page.handleDialog", JsonValue::object(entries))
    }

    // -----------------------------------------------------------------------
    // Runtime domain methods
    // -----------------------------------------------------------------------

    /// The `Runtime.evaluate` request for `expression` in the execution
    /// context `execution_context_id`, returning its result by value.
    pub fn evaluate_request(&self, expression: &str, execution_context_id: &str) -> (r: Request)
        ensures
            is_request(r, "Runtime.evaluate"@, evaluate_params(expression@, execution_context_id@)),
    {
        let mut entries = new_entries();
        push_entry(&mut entries, "expression", JsonValue::string(expression));
        push_entry(&mut entries, "returnByValue", JsonValue::Bool(true));
        push_entry(&mut entries, "executionContextId", JsonValue::string(execution_context_id));
        assert(entries_model(entries@) =~= evaluate_params(expression@, execution_context_id@));
        request("Runtime.evaluate", JsonValue::object(entries))
    }

    /// Call a JavaScript function with arguments.
    ///
    /// `declaration` is the function source code (e.g., `"(a, b) => a + b"`).
    /// `args` is a list of argument descriptors, each with an optional
    /// `objectId` or `value`.
    pub fn call_function(
        &self,
        declaration: &str,
        args: Vec<JsonValue>,
        execution_context_id: &str,
    ) -> (r: Request)
        ensures
            is_request(
                r,
                "Runtime.callFunction"@,
                seq![
                    ("functionDeclaration"@, Json::Str(declaration@)),
                    ("args"@, Json::Array(items_model(args@))),
                    ("returnByValue"@, Json::Bool(true)),
                    ("executionContextId"@, Json::Str(execution_context_id@)),
                ],
            ),
    {
        let ghost arg_models = items_model(args@);
        let mut entries = new_entries();
        push_entry(&mut entries, "functionDeclaration", JsonValue::string(declaration));
        push_entry(&mut entries, "args", JsonValue::array(args));
        push_entry(&mut entries, "returnByValue", JsonValue::Bool(true));
        push_entry(&mut entries, "executionContextId", JsonValue::string(execution_context_id));
        assert(entries_model(entries@) =~= seq![
            ("functionDeclaration"@, Json::Str(declaration@)),
            ("args"@, Json::Array(arg_models)),
            ("returnByValue"@, Json::Bool(true)),
            ("executionContextId"@, Json::Str(execution_context_id@)),
        ]);
        request("Runtime.callFunction", JsonValue::object(entries))
    }

    /// Get properties of a JavaScript object.
    pub fn get_object_properties(&self, execution_context_id: &str, object_id: &str) -> (r: Request)
        ensures
            is_request(
                r,
                "Runtime.getObjectProperties"@,
                seq![
                    ("executionContextId"@, Json::Str(execution_context_id@)),
                    ("objectId"@, Json::Str(object_id@)),
                ],
            ),
    {
        let mut entries = new_entries();
        push_entry(&mut entries, "executionContextId", JsonValue::string(execution_context_id));
        push_entry(&mut entries, "objectId", JsonValue::string(object_id));
        assert(entries_model(entries@) =~= seq![
            ("executionContextId"@, Json::Str(execution_context_id@)),
            ("objectId"@, Json::Str(object_id@)),
        ]);
        request("Runtime.getObjectProperties", JsonValue::object(entries))
    }

    /// Dispose of a JavaScript object handle, releasing the server-side
    /// reference so that it can be garbage collected.
    pub fn dispose_object(&self, execution_context_id: &str, object_id: &str) -> (r: Request)
        ensures
            is_request(
                r,
                "Runtime.disposeObject"@,
                seq![
                    ("executionContextId"@, Json::Str(execution_context_id@)),
                    ("objectId"@, Json::Str(object_id@)),
                ],
            ),
    {
        let mut entries = new_entries();
        push_entry(&mut entries, "executionContextId", JsonValue::string(execution_context_id));
        push_entry(&mut entries, "objectId", JsonValue::string(object_id));
        assert(entries_model(entries@) =~= seq![
            ("executionContextId"@, Json::Str(execution_context_id@)),
            ("objectId"@, Json::Str(object_id@)),
        ]);
        request("Runtime.disposeObject", JsonValue::object(entries))
    }

    // -----------------------------------------------------------------------
    // Network domain methods
    // -----------------------------------------------------------------------

    /// Set request interception for this page: `Network.setRequestInterception`
    /// followed by `Page.setCacheDisabled` with the same flag (as Playwright
    /// does), to be sent in this order, the second only if the first succeeds
    /// (see `sequence_step`).
    pub fn set_request_interception(&self, enabled: bool) -> (r: Vec<Request>)
        ensures
            r@.len() == 2,
            is_request(
                r@[0],
                "Network.setRequestInterception"@,
                seq![("enabled"@, Json::Bool(enabled))],
            ),
            is_request(
                r@[1],
                "Page.setCacheDisabled"@,
                seq![("cacheDisabled"@, Json::Bool(enabled))],
            ),
    {
        let mut entries = new_entries();
        push_entry(&mut entries, "enabled", JsonValue::Bool(enabled));
        let first = request("Network.setRequestInterception", JsonValue::object(entries));
        let second = self.set_cache_disabled(enabled);
        let mut requests: Vec<Request> = Vec::new();
        requests.push(first);
        requests.push(second);
        requests
    }

    /// Set extra HTTP headers for this page.
    pub fn set_extra_http_headers(&self, headers: &[(&str, &str)]) -> (r: Request)
        ensures
            is_request(
                r,
                "Network.setExtraHTTPHeaders"@,
                seq![("headers"@, Json::Array(headers_model(headers@)))],
            ),
    {
        let mut entries = new_entries();
        push_entry(&mut entries, "headers", header_list(headers));
        request("Network.setExtraHTTPHeaders", JsonValue::object(entries))
    }

    /// The `Network.getResponseBody` request for a completed request.
    pub fn get_response_body(&self, request_id: &str) -> (r: Request)
        ensures
            is_request(
                r,
                "Network.getResponseBody"@,
                seq![("requestId"@, Json::Str(request_id@))],
            ),
    {
        let mut entries = new_entries();
        push_entry(&mut entries, "requestId", JsonValue::string(request_id));
        request("Network.getResponseBody", JsonValue::object(entries))
    }

    /// The body of a `Network.getResponseBody` response and whether it was
    /// evicted from memory: the base64 `base64body` decoded (empty when there
    /// is none) and the `evicted` flag (`false` when there is none). A
    /// malformed payload is a `Response` error for `Network.getResponseBody`.
    pub fn response_body(response: &JsonValue) -> (r: Result<(Vec<u8>, bool), ProtocolError>)
        ensures
            match decode_base64_result(payload_bytes(response.model(), "base64body"@)) {
                Ok(bytes) => r matches Ok((body, evicted)) && body@ == bytes && evicted == (
                json_get_bool(response.model(), "evicted"@) == Some(true)),
                Err(msg) => r matches Err(e) && is_payload_error(
                    e,
                    "Network.getResponseBody"@,
                    msg,
                ),
            },
    {
        let evicted = match response.get_bool("evicted") {
            Some(b) => b,
            None => false,
        };
        match decode_payload(response, "base64body", "Network.getResponseBody") {
            Ok(body) => Ok((body, evicted)),
            Err(e) => Err(e),
        }
    }

    /// Resume an intercepted request, optionally overriding its url, method,
    /// headers and post data. The request may fail without harm: the
    /// intercepted request may already be cancelled.
    pub fn resume_intercepted_request(
        &self,
        request_id: &str,
        url: Option<&str>,
        method: Option<&str>,
        headers: Option<&[(&str, &str)]>,
        post_data: Option<&str>,
    ) -> (r: Request)
        ensures
            is_request(
                r,
                "Network.resumeInterceptedRequest"@,
                seq![("requestId"@, Json::Str(request_id@))] + opt_str_entry("url"@, url)
                    + opt_str_entry("method"@, method) + match headers {
                    Some(h) => seq![("headers"@, Json::Array(headers_model(h@)))],
                    None => Seq::empty(),
                } + opt_str_entry("postData"@, post_data),
            ),
    {
        let mut entries = new_entries();
        push_entry(&mut entries, "requestId", JsonValue::string(request_id));
        push_opt_slice(&mut entries, "url", url);
        push_opt_slice(&mut entries, "method", method);
        let ghost mid = entries_model(entries@);
        match headers {
            Some(h) => {
                push_entry(&mut entries, "headers", header_list(h));
            },
            None => {},
        }
        assert(entries_model(entries@) =~= mid + match headers {
            Some(h) => seq![("headers"@, Json::Array(headers_model(h@)))],
            None => Seq::empty(),
        });
        push_opt_slice(&mut entries, "postData", post_data);
        assert(entries_model(entries@) =~= seq![("requestId"@, Json::Str(request_id@))]
            + opt_str_entry("url"@, url) + opt_str_entry("method"@, method) + match headers {
            Some(h) => seq![("headers"@, Json::Array(headers_model(h@)))],
            None => Seq::empty(),
        } + opt_str_entry("postData"@, post_data));
        request("Network.resumeInterceptedRequest", JsonValue::object(entries))
    }

    /// Fulfill an intercepted request with a custom response. The request may
    /// fail without harm.
    pub fn fulfill_intercepted_request(
        &self,
        request_id: &str,
        status: u16,
        status_text: &str,
        headers: &[(&str, &str)],
        base64_body: &str,
    ) -> (r: Request)
        ensures
            is_request(
                r,
                "Network.fulfillInterceptedRequest"@,
                seq![
                    ("requestId"@, Json::Str(request_id@)),
                    ("status"@, json_uint(status as u64)),
                    ("statusText"@, Json::Str(status_text@)),
                    ("headers"@, Json::Array(headers_model(headers@))),
                    ("base64body"@, Json::Str(base64_body@)),
                ],
            ),
    {
        let mut entries = new_entries();
        push_entry(&mut entries, "requestId", JsonValue::string(request_id));
        push_entry(&mut entries, "status", JsonValue::unsigned(status as u64));
        push_entry(&mut entries, "statusText", JsonValue::string(status_text));
        push_entry(&mut entries, "headers", header_list(headers));
        push_entry(&mut entries, "base64body", JsonValue::string(base64_body));
        assert(entries_model(entries@) =~= seq![
            ("requestId"@, Json::Str(request_id@)),
            ("status"@, json_uint(status as u64)),
            ("statusText"@, Json::Str(status_text@)),
            ("headers"@, Json::Array(headers_model(headers@))),
            ("base64body"@, Json::Str(base64_body@)),
        ]);
        request("Network.fulfillInterceptedRequest", JsonValue::object(entries))
    }

    /// Abort an intercepted request with `error_code`, one of `"aborted"`,
    /// `"accessdenied"`, `"addressunreachable"`, `"blockedbyclient"`,
    /// `"blockedbyresponse"`, `"connectionaborted"`, `"connectionclosed"`,
    /// `"connectionfailed"`, `"connectionrefused"`, `"connectionreset"`,
    /// `"internetdisconnected"`, `"namenotresolved"`, `"timedout"`,
    /// `"failed"`. The request may fail without harm.
    pub fn abort_intercepted_request(&self, request_id: &str, error_code: &str) -> (r: Request)
        ensures
            is_request(
                r,
                "Network.abortInterceptedRequest"@,
                seq![("requestId"@, Json::Str(request_id@)), ("errorCode"@, Json::Str(error_code@))],
            ),
    {
        let mut entries = new_entries();
        push_entry(&mut entries, "requestId", JsonValue::string(request_id));
        push_entry(&mut entries, "errorCode", JsonValue::string(error_code));
        assert(entries_model(entries@) =~= seq![
            ("requestId"@, Json::Str(request_id@)),
            ("errorCode"@, Json::Str(error_code@)),
        ]);
        request("Network.abortInterceptedRequest", JsonValue::object(entries))
    }

    // -----------------------------------------------------------------------
    // Heap domain methods
    // -----------------------------------------------------------------------

    /// Force garbage collection.
    pub fn collect_garbage(&self) -> (r: Request)
        ensures
            is_request(r, "Heap.collectGarbage"@, Seq::empty()),
    {
        empty_request("Heap.collectGarbage")
    }

    // -----------------------------------------------------------------------
    // Screencast methods
    // -----------------------------------------------------------------------

    /// Start screencast.
    pub fn start_screencast(&self, width: u32, height: u32, quality: u32) -> (r: Request)
        ensures
            is_request(
                r,
                "Page.startScreencast"@,
                seq![
                    ("width"@, json_uint(width as u64)),
                    ("height"@, json_uint(height as u64)),
                    ("quality"@, json_uint(quality as u64)),
                ],
            ),
    {
        let mut entries = new_entries();
        push_entry(&mut entries, "width", JsonValue::unsigned(width as u64));
        push_entry(&mut entries, "height", JsonValue::unsigned(height as u64));
        push_entry(&mut entries, "quality", JsonValue::unsigned(quality as u64));
        assert(entries_model(entries@) =~= seq![
            ("width"@, json_uint(width as u64)),
            ("height"@, json_uint(height as u64)),
            ("quality"@, json_uint(quality as u64)),
        ]);
        request("Page.startScreencast", JsonValue::object(entries))
    }

    /// Stop screencast. The request may fail without harm.
    pub fn stop_screencast(&self) -> (r: Request)
        ensures
            is_request(r, "Page.stopScreencast"@, Seq::empty()),
    {
        empty_request("Page.stopScreencast")
    }

    /// Acknowledge a screencast frame. The request may fail without harm.
    pub fn screencast_frame_ack(&self) -> (r: Request)
        ensures
            is_request(r, "Page.screencastFrameAck"@, Seq::empty()),
    {
        empty_request("Page.screencastFrameAck")
    }

    /// Send a message to a worker.
    pub fn send_message_to_worker(&self, frame_id: &str, worker_id: &str, message: &str) -> (r:
        Request)
        ensures
            is_request(
                r,
                "Page.sendMessageToWorker"@,
                seq![
                    ("frameId"@, Json::Str(frame_id@)),
                    ("workerId"@, Json::Str(worker_id@)),
                    ("message"@, Json::Str(message@)),
                ],
            ),
    {
        let mut entries = new_entries();
        push_entry(&mut entries, "frameId", JsonValue::string(frame_id));
        push_entry(&mut entries, "workerId", JsonValue::string(worker_id));
        push_entry(&mut entries, "message", JsonValue::string(message));
        assert(entries_model(entries@) =~= seq![
            ("frameId"@, Json::Str(frame_id@)),
            ("workerId"@, Json::Str(worker_id@)),
            ("message"@, Json::Str(message@)),
        ]);
        request("Page.sendMessageToWorker", JsonValue::object(entries))
    }

    /// Adopt a DOM node into a different execution context.
    pub fn adopt_node(
        &self,
        frame_id: &str,
        object_id: Option<&str>,
        execution_context_id: &str,
    ) -> (r: Request)
        ensures
            is_request(
                r,
                "Page.adoptNode"@,
                seq![
                    ("frameId"@, Json::Str(frame_id@)),
                    ("executionContextId"@, Json::Str(execution_context_id@)),
                ] + opt_str_entry("objectId"@, object_id),
            ),
    {
        let mut entries = new_entries();
        push_entry(&mut entries, "frameId", JsonValue::string(frame_id));
        push_entry(&mut entries, "executionContextId", JsonValue::string(execution_context_id));
        push_opt_slice(&mut entries, "objectId", object_id);
        assert(entries_model(entries@) =~= seq![
            ("frameId"@, Json::Str(frame_id@)),
            ("executionContextId"@, Json::Str(execution_context_id@)),
        ] + opt_str_entry("objectId"@, object_id));
        request("Page.adoptNode", JsonValue::object(entries))
    }

    /// The remote object for the adopted node that a `Page.adoptNode`
    /// response carries, or `None` if the node is detached.
    pub fn adopted_object(response: &JsonValue) -> (r: Option<JsonValue>)
        ensures
            match json_get(response.model(), "remoteObject"@) {
                Some(j) => r matches Some(v) && v.model() == j,
                None => r is None,
            },
    {
        match response.get("remoteObject") {
            Some(v) => Some(v.duplicate()),
            None => None,
        }
    }

    /// One step of evaluating `expression` in the top-frame main world.
    ///
    /// The caller polls the cached execution context (up to a deadline); if
    /// evaluation fails because the context was destroyed (SPA navigation),
    /// it is retried, up to `EVALUATE_MAX_RETRIES` times, after waiting for a
    /// fresh context. The caller starts from `EvaluateState::start()`,
    /// observes (deadline and cached context) or reports the answer as the
    /// phase asks, and does what each step says until it finishes.
    pub fn evaluate_step(&self, expression: &str, state: EvaluateState, input: EvaluateInput) -> (r: (
        EvaluateState,
        EvaluateStep,
    ))
        requires
            state.attempt <= EVALUATE_MAX_RETRIES,
            (input is Replied) == (state.phase is AwaitingReply),
        ensures
            r.0.attempt <= EVALUATE_MAX_RETRIES,
            (r.0.phase is AwaitingReply) == (r.1.action is Send),
            is_evaluate_step(expression@, state, input, r.0, r.1),
    {
        let EvaluateState { attempt, bad_context, phase } = state;
        match input {
            EvaluateInput::Observed { deadline_passed, current_context } => {
                let waiting = match phase {
                    EvaluatePhase::AwaitingContext => true,
                    _ => false,
                };
                if !waiting && deadline_passed {
                    let e = evaluate_closed_error("evaluate failed after 5 retries");
                    return (
                        EvaluateState { attempt, bad_context, phase: EvaluatePhase::Starting },
                        EvaluateStep { clear_context: false, action: EvaluateAction::Finish(Err(e)) },
                    );
                }
                let usable = match (&current_context, &bad_context) {
                    (Some(c), Some(b)) => !(*b == *c),
                    (Some(_), None) => true,
                    _ => false,
                };
                if usable {
                    match current_context {
                        Some(c) => {
                            let req = self.evaluate_request(expression, c.as_str());
                            (
                                EvaluateState {
                                    attempt,
                                    bad_context,
                                    phase: EvaluatePhase::AwaitingReply(c),
                                },
                                EvaluateStep { clear_context: false, action: EvaluateAction::Send(req) },
                            )
                        },
                        None => {
                            // `usable` implies a current context.
                            (
                                EvaluateState { attempt, bad_context, phase: EvaluatePhase::AwaitingContext },
                                EvaluateStep {
                                    clear_context: true,
                                    action: EvaluateAction::Wait { millis: CONTEXT_POLL_MILLIS },
                                },
                            )
                        },
                    }
                } else if waiting && deadline_passed {
                    let e = evaluate_closed_error("timed out waiting for execution context");
                    (
                        EvaluateState { attempt, bad_context, phase: EvaluatePhase::AwaitingContext },
                        EvaluateStep { clear_context: true, action: EvaluateAction::Finish(Err(e)) },
                    )
                } else {
                    (
                        EvaluateState { attempt, bad_context, phase: EvaluatePhase::AwaitingContext },
                        EvaluateStep {
                            clear_context: true,
                            action: EvaluateAction::Wait { millis: CONTEXT_POLL_MILLIS },
                        },
                    )
                }
            },
            EvaluateInput::Replied(Ok(v)) => (
                EvaluateState { attempt, bad_context, phase: EvaluatePhase::Starting },
                EvaluateStep { clear_context: false, action: EvaluateAction::Finish(Ok(v)) },
            ),
            EvaluateInput::Replied(Err(e)) => {
                let text = e.to_display_string();
                if attempt < EVALUATE_MAX_RETRIES && is_context_lost(text.as_str()) {
                    let used = match phase {
                        EvaluatePhase::AwaitingReply(c) => c,
                        // The phase is `AwaitingReply` whenever a reply comes in.
                        _ => String::new(),
                    };
                    (
                        EvaluateState {
                            attempt: attempt + 1,
                            bad_context: Some(used),
                            phase: EvaluatePhase::Starting,
                        },
                        EvaluateStep {
                            clear_context: false,
                            action: EvaluateAction::Wait { millis: RETRY_DELAY_MILLIS },
                        },
                    )
                } else {
                    (
                        EvaluateState { attempt, bad_context, phase: EvaluatePhase::Starting },
                        EvaluateStep { clear_context: false, action: EvaluateAction::Finish(Err(e)) },
                    )
                }
            },
        }
    }
}

/// A header list has exactly one `{name, value}` object per given header,
/// in order: as many items as headers, the `k`-th naming the `k`-th header
/// and carrying its value.
pub proof fn law_one_object_per_header(headers: Seq<(&str, &str)>)
    ensures
        headers_model(headers).len() == headers.len(),
        forall|k: int|
            0 <= k < headers.len() ==> #[trigger] headers_model(headers)[k] == Json::Object(
                seq![("name"@, Json::Str(headers[k].0@)), ("value"@, Json::Str(headers[k].1@))],
            ),
{
}

} // verus!
