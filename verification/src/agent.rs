//! The agent chat: the prompt taken from the front end's message list, and
//! the conversation with the local Hermes gateway as a state machine over
//! the frames the WebSocket delivers (wait for `gateway.ready`, create or
//! reuse a session, submit the prompt, collect the streamed reply).

use vstd::prelude::*;
use crate::json::{json_index, json_str, str_field, JsonValue};
use crate::text::{chars_of, eq_str, err_is, or_empty, or_text, owned, push_str, string_of, trim, trimmed};

verus! {

// ---------------------------------------------------------------------------
// The prompt
// ---------------------------------------------------------------------------

/// A message written by the user: its `role` is the string `"user"`.
pub open spec fn is_user_message(m: JsonValue) -> bool {
    str_field(m, "role"@) == Some("user"@)
}

/// The index of the last user message among `msgs`.
pub open spec fn last_user_index(msgs: Seq<JsonValue>) -> Option<int> {
    if exists|k: int| 0 <= k < msgs.len() && is_user_message(msgs[k]) {
        Some(
            choose|k: int|
                0 <= k < msgs.len() && is_user_message(msgs[k]) && forall|j: int|
                    k < j < msgs.len() ==> !is_user_message(msgs[j]),
        )
    } else {
        None
    }
}

/// The prompt: the text content of the last user message in the
/// `messages` array, or nothing.
pub open spec fn prompt_of(parsed: JsonValue) -> Seq<char> {
    match json_index(parsed, "messages"@) {
        JsonValue::Array(msgs) => match last_user_index(msgs@) {
            Some(k) => or_empty(str_field(msgs@[k], "content"@)),
            None => Seq::empty(),
        },
        _ => Seq::empty(),
    }
}

proof fn lemma_last_user_found(msgs: Seq<JsonValue>, k: int)
    requires
        0 <= k < msgs.len(),
        is_user_message(msgs[k]),
        forall|j: int| k < j < msgs.len() ==> !is_user_message(msgs[j]),
    ensures
        last_user_index(msgs) == Some(k),
{
    let c = choose|c: int|
        0 <= c < msgs.len() && is_user_message(msgs[c]) && forall|j: int|
            c < j < msgs.len() ==> !is_user_message(msgs[j]);
    assert(0 <= c < msgs.len() && is_user_message(msgs[c]) && forall|j: int|
        c < j < msgs.len() ==> !is_user_message(msgs[j]));
    if c < k {
        assert(!is_user_message(msgs[k]));
    } else if c > k {
        assert(!is_user_message(msgs[c]));
    }
}

fn is_user(m: &JsonValue) -> (r: bool)
    ensures
        r == is_user_message(*m),
{
    match m.str_field("role") {
        Some(role) => {
            let cs = chars_of(role.as_str());
            eq_str(cs.as_slice(), "user")
        },
        None => false,
    }
}

/// Extracts the prompt from the front end's `{"messages": [...]}` document.
pub fn user_prompt(parsed: &JsonValue) -> (r: String)
    ensures
        r@ == prompt_of(*parsed),
{
    match parsed.get("messages") {
        Some(JsonValue::Array(msgs)) => {
            let mut i = msgs.len();
            assert(json_index(*parsed, "messages"@) == JsonValue::Array(*msgs));
            while i > 0
                invariant
                    i <= msgs@.len(),
                    json_index(*parsed, "messages"@) == JsonValue::Array(*msgs),
                    forall|j: int| i <= j < msgs@.len() ==> !is_user_message(msgs@[j]),
                decreases i,
            {
                if is_user(&msgs[i - 1]) {
                    proof {
                        lemma_last_user_found(msgs@, i - 1);
                    }
                    return match msgs[i - 1].str_field("content") {
                        Some(c) => c,
                        None => String::new(),
                    };
                }
                i -= 1;
            }
            String::new()
        },
        _ => String::new(),
    }
}

// ---------------------------------------------------------------------------
// The Hermes session token and address
// ---------------------------------------------------------------------------

/// The session token file's contents, trimmed; an empty token is refused.
pub fn session_token(contents: &str) -> (r: Result<String, String>)
    ensures
        trim(contents@).len() == 0 ==> err_is(r, "Hermes session token is empty"@),
        trim(contents@).len() > 0 ==> (r matches Ok(t) && t@ == trim(contents@)),
{
    let t = trimmed(contents);
    if t.len() == 0 {
        Err(owned("Hermes session token is empty"))
    } else {
        Ok(string_of(t.as_slice()))
    }
}

/// The gateway's WebSocket address for `token`.
pub fn hermes_ws_url(token: &str) -> (r: String)
    ensures
        r@ == "ws://localhost:18789/api/ws?token="@ + token@,
{
    let mut e: Vec<char> = Vec::new();
    push_str(&mut e, "ws://localhost:18789/api/ws?token=");
    push_str(&mut e, token);
    string_of(e.as_slice())
}

/// The token the front end uses: the token file's contents, or the fixed
/// fallback token when the file cannot be read.
pub fn front_end_token(contents: Option<String>) -> (r: String)
    ensures
        contents matches Some(c) ==> r@ == c@,
        contents is None ==> r@ == "dcp-agent-ws-token-fixed"@,
{
    match contents {
        Some(c) => c,
        None => owned("dcp-agent-ws-token-fixed"),
    }
}

// ---------------------------------------------------------------------------
// The conversation
// ---------------------------------------------------------------------------

/// Where the conversation stands.
#[derive(Clone, Copy, Debug, PartialEq, Eq)]
pub enum HermesPhase {
    /// Waiting for the `gateway.ready` notification.
    AwaitReady,
    /// `session.create` sent; waiting for its answer.
    AwaitSession,
    /// `prompt.submit` sent; collecting the streamed reply.
    Streaming,
    /// Finished.
    Done,
}

/// What the WebSocket delivered.
#[derive(Debug)]
pub enum HermesEvent {
    /// A text frame, parsed as JSON (`Null` when it does not parse).
    Text(JsonValue),
    /// A close frame.
    Close,
    /// Another kind of frame.
    Other,
    /// The stream ended.
    Ended,
    /// Reading failed; the error as text.
    ReadError(String),
    /// The phase's time limit passed.
    TimedOut,
}

/// What the shell does next.
#[derive(Debug)]
pub enum HermesAction {
    /// Keep reading.
    Wait,
    /// Send `session.create` (request id `create-1`).
    CreateSession,
    /// Send `prompt.submit` (request id `prompt-1`) for the session; when
    /// `created`, the session is new and is remembered for later chats.
    SubmitPrompt { session_id: String, created: bool },
    /// Close the socket and answer with this assistant message content.
    Reply(String),
    /// Close the socket and fail with this error.
    Fail(String),
}

/// A conversation with the gateway. `cached_session` is the session a
/// previous chat created; `response` the reply streamed so far.
#[derive(Debug)]
pub struct HermesChat {
    pub phase: HermesPhase,
    pub cached_session: Option<String>,
    pub response: String,
}

pub open spec fn text_is(v: JsonValue, key: Seq<char>, expected: Seq<char>) -> bool {
    str_field(v, key) == Some(expected)
}

/// The assistant content of the reply: the streamed text, or a notice that
/// there was none.
pub open spec fn reply_content(response: Seq<char>) -> Seq<char> {
    if response.len() == 0 {
        "Hermes processed the request but returned no content."@
    } else {
        response
    }
}

pub open spec fn is_fail(a: HermesAction, msg: Seq<char>) -> bool {
    a matches HermesAction::Fail(m) && m@ == msg
}

pub open spec fn is_reply(a: HermesAction, msg: Seq<char>) -> bool {
    a matches HermesAction::Reply(m) && m@ == msg
}

pub open spec fn is_submit(a: HermesAction, sid: Seq<char>, created: bool) -> bool {
    a matches HermesAction::SubmitPrompt { session_id, created: c } && session_id@ == sid && c
        == created
}

pub open spec fn opt_view(o: Option<String>) -> Option<Seq<char>> {
    match o {
        Some(s) => Some(s@),
        None => None,
    }
}

/// The error for a read failure.
pub open spec fn read_error_message(e: Seq<char>) -> Seq<char> {
    "WS read error: "@ + e
}

/// What a frame adds to the reply: the content of a `message.delta`
/// notification while streaming (a frame answering `prompt-1` is not one);
/// nothing otherwise.
pub open spec fn delta_content(c: HermesChat, ev: HermesEvent) -> Seq<char> {
    match ev {
        HermesEvent::Text(v) => if c.phase == HermesPhase::Streaming && !text_is(v, "id"@, "prompt-1"@)
            && text_is(v, "method"@, "message.delta"@) {
            or_empty(str_field(json_index(v, "params"@), "content"@))
        } else {
            Seq::empty()
        },
        _ => Seq::empty(),
    }
}

/// One step of the conversation, phase by phase.
pub open spec fn hermes_step(
    pre: HermesChat,
    ev: HermesEvent,
    post: HermesChat,
    a: HermesAction,
) -> bool {
    let ended = post.phase == HermesPhase::Done;
    &&& post.response@ == pre.response@ + delta_content(pre, ev)
    &&& !(a matches HermesAction::SubmitPrompt { created: true, .. }) ==> opt_view(post.cached_session)
        == opt_view(pre.cached_session)
    &&& match pre.phase {
        HermesPhase::AwaitReady => match ev {
            HermesEvent::Text(v) => if text_is(v, "method"@, "gateway.ready"@) {
                match opt_view(pre.cached_session) {
                    Some(s) => post.phase == HermesPhase::Streaming && is_submit(a, s, false),
                    None => post.phase == HermesPhase::AwaitSession && a is CreateSession,
                }
            } else {
                post.phase == HermesPhase::AwaitReady && a is Wait
            },
            HermesEvent::Ended => ended && is_fail(a, "WS closed before gateway.ready"@),
            HermesEvent::ReadError(e) => ended && is_fail(a, read_error_message(e@)),
            HermesEvent::TimedOut => ended && is_fail(a, "Timeout waiting for gateway.ready"@),
            _ => post.phase == HermesPhase::AwaitReady && a is Wait,
        },
        HermesPhase::AwaitSession => match ev {
            HermesEvent::Text(v) => if text_is(v, "id"@, "create-1"@) {
                match str_field(json_index(v, "result"@), "session_id"@) {
                    Some(sid) => post.phase == HermesPhase::Streaming && opt_view(post.cached_session)
                        == Some(sid) && is_submit(a, sid, true),
                    None => match str_field(json_index(v, "error"@), "message"@) {
                        Some(err) => ended && is_fail(a, "session.create error: "@ + err),
                        None => post.phase == HermesPhase::AwaitSession && a is Wait,
                    },
                }
            } else {
                post.phase == HermesPhase::AwaitSession && a is Wait
            },
            HermesEvent::Ended => ended && is_fail(a, "WS closed before session.create response"@),
            HermesEvent::ReadError(e) => ended && is_fail(a, read_error_message(e@)),
            HermesEvent::TimedOut => ended && is_fail(
                a,
                "Timeout waiting for session.create response"@,
            ),
            _ => post.phase == HermesPhase::AwaitSession && a is Wait,
        },
        HermesPhase::Streaming => match ev {
            HermesEvent::Text(v) => if text_is(v, "id"@, "prompt-1"@) {
                if json_index(v, "error"@) is Object {
                    ended && is_fail(
                        a,
                        "prompt.submit error: "@ + or_text(
                            str_field(json_index(v, "error"@), "message"@),
                            "unknown error"@,
                        ),
                    )
                } else {
                    post.phase == HermesPhase::Streaming && a is Wait && post.response@
                        == pre.response@
                }
            } else if text_is(v, "method"@, "message.delta"@) {
                post.phase == HermesPhase::Streaming && a is Wait && post.response@ == pre.response@
                    + or_empty(str_field(json_index(v, "params"@), "content"@))
            } else if text_is(v, "method"@, "message.done"@) {
                ended && is_reply(a, reply_content(pre.response@))
            } else {
                post.phase == HermesPhase::Streaming && a is Wait && post.response@ == pre.response@
            },
            HermesEvent::Close => ended && is_reply(a, reply_content(pre.response@)),
            HermesEvent::Ended => ended && is_reply(a, reply_content(pre.response@)),
            HermesEvent::ReadError(e) => ended && is_fail(a, read_error_message(e@)),
            HermesEvent::TimedOut => ended && is_fail(
                a,
                "Timeout waiting for Hermes response (120s)"@,
            ),
            HermesEvent::Other => post.phase == HermesPhase::Streaming && a is Wait
                && post.response@ == pre.response@,
        },
        HermesPhase::Done => ended && a is Wait,
    }
}

fn text_field_is(v: &JsonValue, key: &str, expected: &str) -> (r: bool)
    ensures
        r == text_is(*v, key@, expected@),
{
    match v.str_field(key) {
        Some(s) => {
            let cs = chars_of(s.as_str());
            eq_str(cs.as_slice(), expected)
        },
        None => false,
    }
}

/// `v[outer][inner].as_str()`.
fn nested_str(v: &JsonValue, outer: &str, inner: &str) -> (r: Option<String>)
    ensures
        opt_view(r) == str_field(json_index(*v, outer@), inner@),
{
    match v.get(outer) {
        Some(o) => o.str_field(inner),
        None => None,
    }
}

fn fail_with(prefix: &str, detail: &str) -> (a: HermesAction)
    ensures
        is_fail(a, prefix@ + detail@),
{
    let mut e: Vec<char> = Vec::new();
    push_str(&mut e, prefix);
    push_str(&mut e, detail);
    HermesAction::Fail(string_of(e.as_slice()))
}

impl HermesChat {
    /// A conversation about to start; `cached_session` is the session a
    /// previous chat created, if any.
    pub fn new(cached_session: Option<String>) -> (c: Self)
        ensures
            c.phase == HermesPhase::AwaitReady,
            opt_view(c.cached_session) == opt_view(cached_session),
            c.response@ == Seq::<char>::empty(),
    {
        HermesChat { phase: HermesPhase::AwaitReady, cached_session, response: String::new() }
    }

    fn reply(&mut self) -> (a: HermesAction)
        ensures
            final(self).phase == HermesPhase::Done,
            final(self).response@ == old(self).response@,
            opt_view(final(self).cached_session) == opt_view(old(self).cached_session),
            is_reply(a, reply_content(old(self).response@)),
    {
        self.phase = HermesPhase::Done;
        if self.response.as_str().is_empty() {
            HermesAction::Reply(owned("Hermes processed the request but returned no content."))
        } else {
            HermesAction::Reply(self.response.clone())
        }
    }

    /// Takes one step on what the socket delivered.
    pub fn step(&mut self, ev: HermesEvent) -> (a: HermesAction)
        ensures
            hermes_step(*old(self), ev, *final(self), a),
    {
        proof {
            assert(self.response@ + Seq::<char>::empty() =~= self.response@);
        }
        match self.phase {
            HermesPhase::AwaitReady => match ev {
                HermesEvent::Text(v) => {
                    if text_field_is(&v, "method", "gateway.ready") {
                        match &self.cached_session {
                            Some(s) => {
                                let sid = s.clone();
                                self.phase = HermesPhase::Streaming;
                                HermesAction::SubmitPrompt { session_id: sid, created: false }
                            },
                            None => {
                                self.phase = HermesPhase::AwaitSession;
                                HermesAction::CreateSession
                            },
                        }
                    } else {
                        HermesAction::Wait
                    }
                },
                HermesEvent::Ended => {
                    self.phase = HermesPhase::Done;
                    HermesAction::Fail(owned("WS closed before gateway.ready"))
                },
                HermesEvent::ReadError(e) => {
                    self.phase = HermesPhase::Done;
                    fail_with("WS read error: ", e.as_str())
                },
                HermesEvent::TimedOut => {
                    self.phase = HermesPhase::Done;
                    HermesAction::Fail(owned("Timeout waiting for gateway.ready"))
                },
                _ => HermesAction::Wait,
            },
            HermesPhase::AwaitSession => match ev {
                HermesEvent::Text(v) => {
                    if text_field_is(&v, "id", "create-1") {
                        match nested_str(&v, "result", "session_id") {
                            Some(sid) => {
                                let a = HermesAction::SubmitPrompt {
                                    session_id: sid.clone(),
                                    created: true,
                                };
                                self.cached_session = Some(sid);
                                self.phase = HermesPhase::Streaming;
                                a
                            },
                            None => match nested_str(&v, "error", "message") {
                                Some(err) => {
                                    self.phase = HermesPhase::Done;
                                    fail_with("session.create error: ", err.as_str())
                                },
                                None => HermesAction::Wait,
                            },
                        }
                    } else {
                        HermesAction::Wait
                    }
                },
                HermesEvent::Ended => {
                    self.phase = HermesPhase::Done;
                    HermesAction::Fail(owned("WS closed before session.create response"))
                },
                HermesEvent::ReadError(e) => {
                    self.phase = HermesPhase::Done;
                    fail_with("WS read error: ", e.as_str())
                },
                HermesEvent::TimedOut => {
                    self.phase = HermesPhase::Done;
                    HermesAction::Fail(owned("Timeout waiting for session.create response"))
                },
                _ => HermesAction::Wait,
            },
            HermesPhase::Streaming => match ev {
                HermesEvent::Text(v) => {
                    if text_field_is(&v, "id", "prompt-1") {
                        let is_obj = match v.get("error") {
                            Some(JsonValue::Object(_)) => true,
                            _ => false,
                        };
                        if is_obj {
                            self.phase = HermesPhase::Done;
                            match nested_str(&v, "error", "message") {
                                Some(m) => fail_with("prompt.submit error: ", m.as_str()),
                                None => fail_with("prompt.submit error: ", "unknown error"),
                            }
                        } else {
                            HermesAction::Wait
                        }
                    } else if text_field_is(&v, "method", "message.delta") {
                        match nested_str(&v, "params", "content") {
                            Some(c) => {
                                let mut buf: Vec<char> = Vec::new();
                                push_str(&mut buf, self.response.as_str());
                                push_str(&mut buf, c.as_str());
                                self.response = string_of(buf.as_slice());
                            },
                            None => {
                                proof {
                                    assert(self.response@ + Seq::<char>::empty() =~= self.response@);
                                }
                            },
                        }
                        HermesAction::Wait
                    } else if text_field_is(&v, "method", "message.done") {
                        self.reply()
                    } else {
                        HermesAction::Wait
                    }
                },
                HermesEvent::Close => self.reply(),
                HermesEvent::Ended => self.reply(),
                HermesEvent::ReadError(e) => {
                    self.phase = HermesPhase::Done;
                    fail_with("WS read error: ", e.as_str())
                },
                HermesEvent::TimedOut => {
                    self.phase = HermesPhase::Done;
                    HermesAction::Fail(owned("Timeout waiting for Hermes response (120s)"))
                },
                HermesEvent::Other => HermesAction::Wait,
            },
            HermesPhase::Done => HermesAction::Wait,
        }
    }
}

/// Streamed text accumulates: a delta appends exactly its content, every
/// other frame while streaming leaves the reply as it was, and the reply
/// answered is what accumulated (or the no-content notice).
pub proof fn lemma_stream_accumulates(pre: HermesChat, ev: HermesEvent, post: HermesChat, a: HermesAction)
    requires
        pre.phase == HermesPhase::Streaming,
        hermes_step(pre, ev, post, a),
    ensures
        post.phase == HermesPhase::Streaming ==> (post.response@ == pre.response@ || (ev matches HermesEvent::Text(v) && text_is(v, "method"@, "message.delta"@)
            && post.response@ == pre.response@ + or_empty(str_field(json_index(v, "params"@), "content"@)))),
        a matches HermesAction::Reply(m) ==> m@ == reply_content(pre.response@),
{
}

/// A session is only created when none was cached, and a prompt is only
/// submitted once the gateway announced itself ready.
pub proof fn lemma_session_reuse(pre: HermesChat, ev: HermesEvent, post: HermesChat, a: HermesAction)
    requires
        hermes_step(pre, ev, post, a),
    ensures
        a is CreateSession ==> pre.phase == HermesPhase::AwaitReady && pre.cached_session is None,
        a matches HermesAction::SubmitPrompt { created, .. } ==> (pre.phase
            == HermesPhase::AwaitReady && !created && pre.cached_session is Some) || (pre.phase
            == HermesPhase::AwaitSession && created),
{
}

/// What the frames `evs[0..n]` added to the reply, in order.
pub open spec fn streamed(states: Seq<HermesChat>, evs: Seq<HermesEvent>, n: nat) -> Seq<char>
    decreases n,
{
    if n == 0 {
        Seq::empty()
    } else {
        streamed(states, evs, (n - 1) as nat) + delta_content(states[n - 1], evs[n - 1])
    }
}

/// `states[i]` steps on `evs[i]` to `states[i + 1]` with action `acts[i]`,
/// for each of the `n` steps.
pub open spec fn is_run(
    states: Seq<HermesChat>,
    evs: Seq<HermesEvent>,
    acts: Seq<HermesAction>,
    n: nat,
) -> bool {
    &&& states.len() == n + 1
    &&& evs.len() == n
    &&& acts.len() == n
    &&& forall|i: int| 0 <= i < n ==> hermes_step(states[i], evs[i], #[trigger] states[i + 1], acts[i])
}

/// Over a whole conversation the reply is the concatenation, in order, of
/// the contents of the `message.delta` notifications streamed before it
/// (or the no-content notice when there were none).
pub proof fn lemma_reply_is_streamed(
    states: Seq<HermesChat>,
    evs: Seq<HermesEvent>,
    acts: Seq<HermesAction>,
    n: nat,
)
    requires
        is_run(states, evs, acts, n),
        states[0].response@ == Seq::<char>::empty(),
    ensures
        states[n as int].response@ == streamed(states, evs, n),
        forall|i: int|
            0 <= i < n ==> (#[trigger] acts[i] matches HermesAction::Reply(m) ==> m@ == reply_content(
                streamed(states, evs, i as nat),
            )),
    decreases n,
{
    if n > 0 {
        let m = (n - 1) as nat;
        assert(is_run(states.take(n as int), evs.take(m as int), acts.take(m as int), m)) by {
            assert forall|i: int| 0 <= i < m implies hermes_step(
                states.take(n as int)[i],
                evs.take(m as int)[i],
                #[trigger] states.take(n as int)[i + 1],
                acts.take(m as int)[i],
            ) by {
                assert(hermes_step(states[i], evs[i], states[i + 1], acts[i]));
            }
        }
        lemma_reply_is_streamed(states.take(n as int), evs.take(m as int), acts.take(m as int), m);
        lemma_streamed_prefix(states, evs, n as int, m);
        assert(hermes_step(states[m as int], evs[m as int], states[m as int + 1], acts[m as int]));
        assert forall|i: int| 0 <= i < n implies (#[trigger] acts[i] matches HermesAction::Reply(r)
            ==> r@ == reply_content(streamed(states, evs, i as nat))) by {
            if i < m {
                assert(acts.take(m as int)[i] == acts[i]);
                lemma_streamed_prefix(states, evs, n as int, i as nat);
            } else {
                assert(hermes_step(states[i], evs[i], states[i + 1], acts[i]));
            }
        }
    }
}

/// The reply streamed over the first `k` steps does not depend on the
/// states and frames after them.
proof fn lemma_streamed_prefix(states: Seq<HermesChat>, evs: Seq<HermesEvent>, len: int, k: nat)
    requires
        k < len <= states.len(),
        len - 1 <= evs.len(),
    ensures
        streamed(states.take(len), evs.take(len - 1), k) == streamed(states, evs, k),
    decreases k,
{
    if k > 0 {
        lemma_streamed_prefix(states, evs, len, (k - 1) as nat);
        assert(states.take(len)[k - 1] == states[k - 1]);
        assert(evs.take(len - 1)[k - 1] == evs[k - 1]);
    }
}

/// A session, once known, is kept: every step leaves the cached session as
/// it was, except the one that creates a session, which caches it.
pub proof fn lemma_session_kept(pre: HermesChat, ev: HermesEvent, post: HermesChat, a: HermesAction)
    requires
        hermes_step(pre, ev, post, a),
    ensures
        a matches HermesAction::SubmitPrompt { session_id, created } ==> (created ==> opt_view(
            post.cached_session,
        ) == Some(session_id@)),
        !(a matches HermesAction::SubmitPrompt { created: true, .. }) ==> opt_view(post.cached_session)
            == opt_view(pre.cached_session),
{
}

/// In a conversation that started waiting for the gateway, a chat waiting
/// for its session to be created has none cached.
proof fn lemma_awaiting_session_has_none(
    states: Seq<HermesChat>,
    evs: Seq<HermesEvent>,
    acts: Seq<HermesAction>,
    n: nat,
    k: nat,
)
    requires
        is_run(states, evs, acts, n),
        states[0].phase == HermesPhase::AwaitReady,
        k <= n,
    ensures
        states[k as int].phase == HermesPhase::AwaitSession ==> states[k as int].cached_session is None,
    decreases k,
{
    if k > 0 {
        lemma_awaiting_session_has_none(states, evs, acts, n, (k - 1) as nat);
        let m = k - 1;
        assert(hermes_step(states[m], evs[m], states[m + 1], acts[m]));
    }
}

proof fn lemma_session_persists(
    states: Seq<HermesChat>,
    evs: Seq<HermesEvent>,
    acts: Seq<HermesAction>,
    n: nat,
    i: nat,
    j: nat,
)
    requires
        is_run(states, evs, acts, n),
        states[0].phase == HermesPhase::AwaitReady,
        i <= j <= n,
        states[i as int].cached_session is Some,
    ensures
        opt_view(states[j as int].cached_session) == opt_view(states[i as int].cached_session),
    decreases j - i,
{
    if j > i {
        lemma_session_persists(states, evs, acts, n, i, (j - 1) as nat);
        lemma_awaiting_session_has_none(states, evs, acts, n, (j - 1) as nat);
        let m = j - 1;
        assert(hermes_step(states[m], evs[m], states[m + 1], acts[m]));
    }
}

/// Over a whole conversation a session, once cached, is never dropped nor
/// replaced, and the session a step creates stays cached to the end.
pub proof fn lemma_session_kept_over_run(
    states: Seq<HermesChat>,
    evs: Seq<HermesEvent>,
    acts: Seq<HermesAction>,
    n: nat,
)
    requires
        is_run(states, evs, acts, n),
        states[0].phase == HermesPhase::AwaitReady,
    ensures
        forall|i: int, j: int|
            #![trigger states[i], states[j]]
            0 <= i <= j <= n && states[i].cached_session is Some ==> opt_view(states[j].cached_session)
                == opt_view(states[i].cached_session),
        forall|i: int, j: int|
            #![trigger acts[i], states[j]]
            0 <= i < j <= n ==> (acts[i] matches HermesAction::SubmitPrompt { session_id, created }
                ==> (created ==> opt_view(states[j].cached_session) == Some(session_id@))),
{
    assert forall|i: int, j: int|
        #![trigger states[i], states[j]]
        0 <= i <= j <= n && states[i].cached_session is Some implies opt_view(states[j].cached_session)
            == opt_view(states[i].cached_session) by {
        lemma_session_persists(states, evs, acts, n, i as nat, j as nat);
    }
    assert forall|i: int, j: int|
        #![trigger acts[i], states[j]]
        0 <= i < j <= n implies (acts[i] matches HermesAction::SubmitPrompt { session_id, created }
            ==> (created ==> opt_view(states[j].cached_session) == Some(session_id@))) by {
        assert(hermes_step(states[i], evs[i], states[i + 1], acts[i]));
        match acts[i] {
            HermesAction::SubmitPrompt { session_id, created } => {
                if created {
                    lemma_session_persists(states, evs, acts, n, (i + 1) as nat, j as nat);
                }
            },
            _ => {},
        }
    }
}

/// A conversation that starts with session `sid` cached reuses it to the
/// end: it never asks for a new session, every prompt is submitted for
/// `sid` as an existing session, and `sid` stays cached.
pub proof fn lemma_cached_session_reused(
    states: Seq<HermesChat>,
    evs: Seq<HermesEvent>,
    acts: Seq<HermesAction>,
    n: nat,
    sid: Seq<char>,
)
    requires
        is_run(states, evs, acts, n),
        states[0].phase == HermesPhase::AwaitReady,
        opt_view(states[0].cached_session) == Some(sid),
    ensures
        forall|i: int| 0 <= i <= n ==> opt_view(#[trigger] states[i].cached_session) == Some(sid),
        forall|i: int| 0 <= i < n ==> !(#[trigger] acts[i] is CreateSession),
        forall|i: int|
            0 <= i < n ==> (#[trigger] acts[i] matches HermesAction::SubmitPrompt { session_id, created }
                ==> session_id@ == sid && !created),
{
    assert forall|i: int| 0 <= i <= n implies opt_view(#[trigger] states[i].cached_session) == Some(
        sid,
    ) by {
        lemma_session_persists(states, evs, acts, n, 0, i as nat);
    }
    assert forall|i: int| 0 <= i < n implies !(#[trigger] acts[i] is CreateSession) && (
    acts[i] matches HermesAction::SubmitPrompt { session_id, created } ==> session_id@ == sid
        && !created) by {
        lemma_session_persists(states, evs, acts, n, 0, i as nat);
        lemma_awaiting_session_has_none(states, evs, acts, n, i as nat);
        assert(hermes_step(states[i], evs[i], states[i + 1], acts[i]));
    }
}

} // verus!
