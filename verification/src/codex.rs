//! The protocol of the Codex app server: requests and notifications, and the session state
//! that they drive.

use std::collections::VecDeque;

use vstd::prelude::*;

use crate::headless::{opt_event, EventView, HeadlessConfig, StreamEvent};
use crate::json::{
    field2, field3, no_fields, one_item, text_of, text_or_null, uint_json, Json, JsonView,
};
use crate::json_text::{parse, parsed_text, print, printed_text};
use crate::text::{
    concat2, contains, decimal, joined, lower, lowered, occurs, opt, opt_str, same, texts,
    to_decimal, trim, trimmed,
};

verus! {

/// The state of one Codex session.
pub struct CodexProtocolState {
    pub initialized: bool,
    pub start_request_id: Option<u64>,
    pub thread_id: Option<String>,
    pub turn_in_progress: bool,
    pub next_request_id: u64,
    pub pending_messages: VecDeque<String>,
    pub latest_agent_message: Option<String>,
    pub resume_thread_id: Option<String>,
    pub fork_session: bool,
    pub allow_tools: bool,
    pub model: String,
    pub cwd: Option<String>,
    pub system_prompt: String,
    pub output_schema: Option<Json>,
    pub start_phase: String,
    pub retried_fresh_start: bool,
}

/// What the state of a session says.
#[verifier::ext_equal]
pub struct CodexView {
    pub initialized: bool,
    pub start_request_id: Option<u64>,
    pub thread_id: Option<Seq<char>>,
    pub turn_in_progress: bool,
    pub next_request_id: u64,
    pub pending_messages: Seq<Seq<char>>,
    pub latest_agent_message: Option<Seq<char>>,
    pub resume_thread_id: Option<Seq<char>>,
    pub fork_session: bool,
    pub allow_tools: bool,
    pub model: Seq<char>,
    pub cwd: Option<Seq<char>>,
    pub system_prompt: Seq<char>,
    pub output_schema: Option<JsonView>,
    pub start_phase: Seq<char>,
    pub retried_fresh_start: bool,
}

/// What an optional value says.
pub open spec fn opt_json(j: Option<Json>) -> Option<JsonView> {
    match j {
        Some(j) => Some(j.jv()),
        None => None,
    }
}

impl View for CodexProtocolState {
    type V = CodexView;

    open spec fn view(&self) -> CodexView {
        CodexView {
            initialized: self.initialized,
            start_request_id: self.start_request_id,
            thread_id: opt(self.thread_id),
            turn_in_progress: self.turn_in_progress,
            next_request_id: self.next_request_id,
            pending_messages: texts(self.pending_messages@),
            latest_agent_message: opt(self.latest_agent_message),
            resume_thread_id: opt(self.resume_thread_id),
            fork_session: self.fork_session,
            allow_tools: self.allow_tools,
            model: self.model@,
            cwd: opt(self.cwd),
            system_prompt: self.system_prompt@,
            output_schema: opt_json(self.output_schema),
            start_phase: self.start_phase@,
            retried_fresh_start: self.retried_fresh_start,
        }
    }
}

/// What has to be done once a message has been taken in.
#[derive(Debug, Clone, Copy, PartialEq, Eq, Structural)]
pub enum CodexPostAction {
    Nothing,
    DispatchPendingTurns,
    RetryThreadStart,
}

/// The outcome of taking in one message.
#[verifier::ext_equal]
pub struct CodexStep {
    pub event: Option<EventView>,
    pub action: CodexPostAction,
    pub state: CodexView,
    pub session_id: Option<Seq<char>>,
}

/// The `id` of a thread.
pub open spec fn id_of_thread(thread: Option<JsonView>) -> Option<Seq<char>> {
    match thread {
        Some(t) => text_of(t.field("id"@)),
        None => None,
    }
}

/// The thread that a message speaks of: that of its result, or else that of its parameters,
/// of their turn or of their item, the first that is named.
pub open spec fn thread_in(parsed: JsonView) -> Option<Seq<char>> {
    let result = id_of_thread(field2(parsed, "result"@, "thread"@));
    let params = id_of_thread(field2(parsed, "params"@, "thread"@));
    let turn = id_of_thread(field3(parsed, "params"@, "turn"@, "thread"@));
    let item = id_of_thread(field3(parsed, "params"@, "item"@, "thread"@));
    if result is Some {
        result
    } else if params is Some {
        params
    } else if turn is Some {
        turn
    } else {
        item
    }
}

/// An error message that says that the thread to resume or fork is gone.
pub open spec fn says_stale_thread(message: Seq<char>) -> bool {
    let m = lower(message);
    occurs(m, "no rollout found"@) || occurs(m, "thread not found"@) || occurs(
        m,
        "thread_not_found"@,
    )
}

/// The command of a command item: that of its first action, or else its own.
pub open spec fn command_in(item: JsonView) -> Option<Seq<char>> {
    let first = match item.field("commandActions"@) {
        Some(actions) => match actions.items() {
            Some(list) => if list.len() > 0 {
                text_of(list[0].field("command"@))
            } else {
                None
            },
            None => None,
        },
        None => None,
    };
    if first is Some {
        first
    } else {
        text_of(item.field("command"@))
    }
}

/// An identifier: a text that is not empty, or an integer in decimal.
pub open spec fn identifier(j: Option<JsonView>) -> Option<Seq<char>> {
    match j {
        Some(j) => match j.text() {
            Some(s) => if s.len() > 0 {
                Some(s)
            } else {
                None
            },
            None => match j.uint() {
                Some(n) => Some(decimal(n as nat)),
                None => None,
            },
        },
        None => None,
    }
}

/// The identifier of a command item.
pub open spec fn call_id_in(item: JsonView) -> Option<Seq<char>> {
    if identifier(item.field("id"@)) is Some {
        identifier(item.field("id"@))
    } else if identifier(item.field("call_id"@)) is Some {
        identifier(item.field("call_id"@))
    } else {
        identifier(item.field("callId"@))
    }
}

/// A command item has failed: its exit code is not zero, or its status is another than
/// `completed`, whatever the case of the letters.
pub open spec fn command_failed(item: JsonView) -> bool {
    let code = match item.field("exitCode"@) {
        Some(c) => c.sint(),
        None => None,
    };
    let status = text_of(item.field("status"@));
    (code is Some && code->0 != 0) || (status is Some && lower(status->0) != "completed"@)
}

pub open spec fn heartbeat(session_id: Option<Seq<char>>, detail: JsonView) -> EventView {
    EventView::System {
        subtype: "heartbeat"@,
        session_id,
        model: None,
        extra: no_fields().with("provider"@, JsonView::Str("codex"@)).with(
            "event"@,
            JsonView::Str("heartbeat"@),
        ).with("detail"@, detail),
    }
}

/// Nothing but a sign of life comes of the message.
pub open spec fn only_heartbeat(
    state: CodexView,
    session_id: Option<Seq<char>>,
    detail: JsonView,
) -> CodexStep {
    CodexStep {
        event: Some(heartbeat(session_id, detail)),
        action: CodexPostAction::Nothing,
        state,
        session_id,
    }
}

/// The session begins on the given thread.
pub open spec fn begun(state: CodexView, thread: Seq<char>) -> CodexStep {
    CodexStep {
        event: Some(
            EventView::System {
                subtype: "init"@,
                session_id: Some(thread),
                model: Some(state.model),
                extra: no_fields().with("provider"@, JsonView::Str("codex"@)),
            },
        ),
        action: CodexPostAction::DispatchPendingTurns,
        state: CodexView { thread_id: Some(thread), ..state },
        session_id: Some(thread),
    }
}

/// A request was refused with the given message.
pub open spec fn refused(
    state: CodexView,
    session_id: Option<Seq<char>>,
    id: u64,
    is_start: bool,
    message: Seq<char>,
) -> CodexStep {
    let turn_failed = !is_start && state.turn_in_progress;
    let phase = if is_start {
        state.start_phase
    } else if state.turn_in_progress {
        "turn/start"@
    } else {
        "request"@
    };
    CodexStep {
        event: Some(
            EventView::Result {
                subtype: "error"@,
                is_error: true,
                result: Some(message),
                duration_ms: None,
                total_cost_usd: None,
                session_id,
                usage: None,
                extra: no_fields().with("provider"@, JsonView::Str("codex"@)).with(
                    "phase"@,
                    JsonView::Str(phase),
                ).with("request_id"@, uint_json(id)),
            },
        ),
        action: if turn_failed {
            CodexPostAction::DispatchPendingTurns
        } else {
            CodexPostAction::Nothing
        },
        state: CodexView { turn_in_progress: state.turn_in_progress && !turn_failed, ..state },
        session_id,
    }
}

/// The start of the session on an old thread was refused because that thread is gone, and a
/// fresh start was not tried yet.
pub open spec fn may_start_afresh(state: CodexView, message: Seq<char>) -> bool {
    &&& state.resume_thread_id is Some
    &&& state.start_phase == "thread/resume"@ || state.start_phase == "thread/fork"@
    &&& !state.retried_fresh_start
    &&& says_stale_thread(message)
}

/// The outcome of an answer to a request.
pub open spec fn answer_step(
    parsed: JsonView,
    state: CodexView,
    session_id: Option<Seq<char>>,
) -> CodexStep {
    let id = match parsed.field("id"@) {
        Some(j) => match j.uint() {
            Some(n) => n,
            None => 0,
        },
        None => 0,
    };
    let start = match state.start_request_id {
        Some(n) => n,
        None => 0,
    };
    let is_start = id == start;
    let thread = text_of(field3(parsed, "result"@, "thread"@, "id"@));
    match text_of(field2(parsed, "error"@, "message"@)) {
        Some(message) => if is_start && may_start_afresh(state, message) {
            CodexStep {
                event: None,
                action: CodexPostAction::RetryThreadStart,
                state: CodexView {
                    start_request_id: None,
                    resume_thread_id: None,
                    retried_fresh_start: true,
                    ..state
                },
                session_id,
            }
        } else {
            refused(state, session_id, id, is_start, message)
        },
        None => if is_start && thread is Some {
            begun(state, thread->0)
        } else {
            only_heartbeat(
                state,
                session_id,
                no_fields().with("kind"@, JsonView::Str("rpc_response"@)).with("id"@, uint_json(id)),
            )
        },
    }
}

/// A message with the one content block `block`.
pub open spec fn message_of(role: Seq<char>, block: JsonView) -> JsonView {
    no_fields().with("role"@, JsonView::Str(role)).with("content"@, one_item(block))
}

pub open spec fn text_block(text: Seq<char>) -> JsonView {
    no_fields().with("type"@, JsonView::Str("text"@)).with("text"@, JsonView::Str(text))
}

/// The piece `delta` of the agent's message has come.
pub open spec fn message_grown(
    state: CodexView,
    session_id: Option<Seq<char>>,
    delta: Seq<char>,
) -> CodexStep {
    let before = match state.latest_agent_message {
        Some(m) => m,
        None => ""@,
    };
    CodexStep {
        event: Some(
            EventView::Assistant {
                message: message_of("assistant"@, text_block(delta)),
                session_id,
                extra: no_fields().with("provider"@, JsonView::Str("codex"@)),
            },
        ),
        action: CodexPostAction::Nothing,
        state: CodexView { latest_agent_message: Some(before + delta), ..state },
        session_id,
    }
}

/// The agent's message is complete.
pub open spec fn message_done(
    state: CodexView,
    session_id: Option<Seq<char>>,
    text: Seq<char>,
) -> CodexStep {
    CodexStep {
        event: Some(
            EventView::Assistant {
                message: message_of("assistant"@, text_block(text)),
                session_id,
                extra: no_fields().with("provider"@, JsonView::Str("codex"@)).with(
                    "event"@,
                    JsonView::Str("item/completed"@),
                ),
            },
        ),
        action: CodexPostAction::Nothing,
        state: CodexView { latest_agent_message: Some(text), ..state },
        session_id,
    }
}

pub open spec fn item_extra(event: Seq<char>) -> JsonView {
    no_fields().with("provider"@, JsonView::Str("codex"@)).with("event"@, JsonView::Str(event)).with(
        "item_type"@,
        JsonView::Str("commandExecution"@),
    )
}

/// A command has been started.
pub open spec fn command_started(
    state: CodexView,
    session_id: Option<Seq<char>>,
    item: JsonView,
    call_id: Seq<char>,
) -> CodexStep {
    let command = match command_in(item) {
        Some(c) => c,
        None => ""@,
    };
    let block = no_fields().with("type"@, JsonView::Str("tool_use"@)).with(
        "id"@,
        JsonView::Str(call_id),
    ).with("name"@, JsonView::Str("Bash"@)).with(
        "input"@,
        no_fields().with("command"@, JsonView::Str(command)),
    );
    CodexStep {
        event: Some(
            EventView::Assistant {
                message: message_of("assistant"@, block),
                session_id,
                extra: item_extra("item/started"@),
            },
        ),
        action: CodexPostAction::Nothing,
        state,
        session_id,
    }
}

/// A command has ended.
pub open spec fn command_ended(
    state: CodexView,
    session_id: Option<Seq<char>>,
    item: JsonView,
    call_id: Seq<char>,
) -> CodexStep {
    let output = match text_of(item.field("aggregatedOutput"@)) {
        Some(o) => o,
        None => ""@,
    };
    let block = no_fields().with("type"@, JsonView::Str("tool_result"@)).with(
        "tool_use_id"@,
        JsonView::Str(call_id),
    ).with("content"@, JsonView::Str(output)).with(
        "is_error"@,
        JsonView::Bool(command_failed(item)),
    );
    CodexStep {
        event: Some(
            EventView::User {
                message: message_of("user"@, block),
                extra: item_extra("item/completed"@),
            },
        ),
        action: CodexPostAction::Nothing,
        state,
        session_id,
    }
}

/// A turn has ended.
pub open spec fn turn_ended(
    parsed: JsonView,
    state: CodexView,
    session_id: Option<Seq<char>>,
) -> CodexStep {
    let status = match text_of(field3(parsed, "params"@, "turn"@, "status"@)) {
        Some(s) => s,
        None => "failed"@,
    };
    let is_error = status != "completed"@;
    let error = match field3(parsed, "params"@, "turn"@, "error"@) {
        Some(e) => text_of(e.field("message"@)),
        None => None,
    };
    CodexStep {
        event: Some(
            EventView::Result {
                subtype: if is_error {
                    "error"@
                } else {
                    "success"@
                },
                is_error,
                result: if is_error {
                    error
                } else {
                    state.latest_agent_message
                },
                duration_ms: None,
                total_cost_usd: None,
                session_id,
                usage: None,
                extra: no_fields().with("provider"@, JsonView::Str("codex"@)).with(
                    "status"@,
                    JsonView::Str(status),
                ),
            },
        ),
        action: CodexPostAction::DispatchPendingTurns,
        state: CodexView { turn_in_progress: false, ..state },
        session_id,
    }
}

/// The type that an item states.
pub open spec fn item_type(item: Option<JsonView>) -> Option<Seq<char>> {
    match item {
        Some(i) => text_of(i.field("type"@)),
        None => None,
    }
}

/// An item that starts a command: one of that type, or one without a type that holds a
/// command.
pub open spec fn starts_command(item: JsonView) -> bool {
    item_type(Some(item)) == Some("commandExecution"@) || (item.field("type"@) is None
        && command_in(item) is Some)
}

/// The outcome of a notification.
pub open spec fn notice_step(
    parsed: JsonView,
    method: Seq<char>,
    state: CodexView,
    session_id: Option<Seq<char>>,
) -> CodexStep {
    let plain = only_heartbeat(
        state,
        session_id,
        no_fields().with("kind"@, JsonView::Str("event"@)).with("method"@, JsonView::Str(method)),
    );
    let item = field2(parsed, "params"@, "item"@);
    if method == "thread/started"@ {
        let thread = text_of(field3(parsed, "params"@, "thread"@, "id"@));
        if session_id is None && thread is Some {
            begun(state, thread->0)
        } else {
            plain
        }
    } else if method == "item/agentMessage/delta"@ {
        match text_of(field2(parsed, "params"@, "delta"@)) {
            Some(delta) => message_grown(state, session_id, delta),
            None => plain,
        }
    } else if method == "item/started"@ {
        if item is Some && starts_command(item->0) && call_id_in(item->0) is Some {
            command_started(state, session_id, item->0, call_id_in(item->0)->0)
        } else {
            plain
        }
    } else if method == "item/completed"@ {
        let text = text_of(field3(parsed, "params"@, "item"@, "text"@));
        if item_type(item) == Some("commandExecution"@) && call_id_in(item->0) is Some {
            command_ended(state, session_id, item->0, call_id_in(item->0)->0)
        } else if item_type(item) == Some("agentMessage"@) && text is Some {
            message_done(state, session_id, text->0)
        } else {
            plain
        }
    } else if method == "turn/completed"@ {
        turn_ended(parsed, state, session_id)
    } else {
        plain
    }
}

/// The outcome of taking in the message `parsed`: an answer where it has an `id`, else a
/// notification.
pub open spec fn codex_step(
    parsed: JsonView,
    state: CodexView,
    session_id: Option<Seq<char>>,
) -> CodexStep {
    if parsed.field("id"@) is Some {
        answer_step(parsed, state, session_id)
    } else {
        match text_of(parsed.field("method"@)) {
            Some(method) => notice_step(parsed, method, state, session_id),
            None => only_heartbeat(
                state,
                session_id,
                no_fields().with("kind"@, JsonView::Str("event_without_method"@)),
            ),
        }
    }
}

fn get2<'a>(j: &'a Json, a: &str, b: &str) -> (r: Option<&'a Json>)
    ensures
        match r {
            Some(x) => field2(j.jv(), a@, b@) == Some(x.jv()),
            None => field2(j.jv(), a@, b@) is None,
        },
{
    match j.get(a) {
        Some(x) => x.get(b),
        None => None,
    }
}

fn get3<'a>(j: &'a Json, a: &str, b: &str, c: &str) -> (r: Option<&'a Json>)
    ensures
        match r {
            Some(x) => field3(j.jv(), a@, b@, c@) == Some(x.jv()),
            None => field3(j.jv(), a@, b@, c@) is None,
        },
{
    match get2(j, a, b) {
        Some(x) => x.get(c),
        None => None,
    }
}

spec fn opt_ref(j: Option<&Json>) -> Option<JsonView> {
    match j {
        Some(j) => Some(j.jv()),
        None => None,
    }
}

fn owned_text(j: Option<&Json>) -> (r: Option<String>)
    ensures
        opt(r) == text_of(opt_ref(j)),
{
    match j {
        Some(j) => match j.as_str() {
            Some(s) => Some(s.to_owned()),
            None => None,
        },
        None => None,
    }
}

fn id_of(thread: Option<&Json>) -> (r: Option<String>)
    ensures
        opt(r) == id_of_thread(opt_ref(thread)),
{
    match thread {
        Some(t) => owned_text(t.get("id")),
        None => None,
    }
}

/// The thread that a message speaks of.
pub fn codex_thread_id(parsed: &Json) -> (r: Option<String>)
    ensures
        opt(r) == thread_in(parsed.jv()),
{
    let result = id_of(get2(parsed, "result", "thread"));
    if result.is_some() {
        return result;
    }
    let params = id_of(get2(parsed, "params", "thread"));
    if params.is_some() {
        return params;
    }
    let turn = id_of(get3(parsed, "params", "turn", "thread"));
    if turn.is_some() {
        return turn;
    }
    id_of(get3(parsed, "params", "item", "thread"))
}

/// Whether an error message says that the thread to resume or fork is gone.
pub fn is_stale_codex_thread_error(message: &str) -> (r: bool)
    ensures
        r == says_stale_thread(message@),
{
    let m = lowered(message);
    contains(m.as_str(), "no rollout found") || contains(m.as_str(), "thread not found")
        || contains(m.as_str(), "thread_not_found")
}

/// The sign of life of a session.
pub fn codex_heartbeat_event(session_id: &Option<String>, detail: Json) -> (r: StreamEvent)
    ensures
        r@ == heartbeat(opt(*session_id), detail.jv()),
{
    StreamEvent::System {
        subtype: "heartbeat".to_owned(),
        session_id: session_id.clone(),
        model: None,
        extra: Json::object().with("provider", Json::text("codex")).with(
            "event",
            Json::text("heartbeat"),
        ).with("detail", detail),
    }
}

/// The command of a command item.
pub fn codex_command_text(item: &Json) -> (r: Option<String>)
    ensures
        opt(r) == command_in(item.jv()),
{
    if let Some(actions) = item.get("commandActions") {
        if let Some(list) = actions.as_array() {
            if list.len() > 0 {
                let first = owned_text(list[0].get("command"));
                if first.is_some() {
                    return first;
                }
            }
        }
    }
    owned_text(item.get("command"))
}

fn identifier_text(j: Option<&Json>) -> (r: Option<String>)
    ensures
        opt(r) == identifier(opt_ref(j)),
{
    match j {
        Some(j) => match j.as_str() {
            Some(s) => if s.is_empty() {
                None
            } else {
                Some(s.to_owned())
            },
            None => match j.as_u64() {
                Some(n) => Some(to_decimal(n)),
                None => None,
            },
        },
        None => None,
    }
}

/// The identifier of a command item.
pub fn codex_command_call_id(item: &Json) -> (r: Option<String>)
    ensures
        opt(r) == call_id_in(item.jv()),
{
    let id = identifier_text(item.get("id"));
    if id.is_some() {
        return id;
    }
    let id = identifier_text(item.get("call_id"));
    if id.is_some() {
        return id;
    }
    identifier_text(item.get("callId"))
}

/// Whether a command item has failed.
pub fn codex_command_is_error(item: &Json) -> (r: bool)
    ensures
        r == command_failed(item.jv()),
{
    if let Some(code) = item.get("exitCode") {
        if let Some(n) = code.as_i64() {
            if n != 0 {
                return true;
            }
        }
    }
    match owned_text(item.get("status")) {
        Some(status) => !same(lowered(status.as_str()).as_str(), "completed"),
        None => false,
    }
}

fn provider_extra() -> (r: Json)
    ensures
        r.jv() == no_fields().with("provider"@, JsonView::Str("codex"@)),
        r.jv() is Obj,
{
    Json::object().with("provider", Json::text("codex"))
}

fn item_extra_json(event: &str) -> (r: Json)
    ensures
        r.jv() == item_extra(event@),
{
    provider_extra().with("event", Json::text(event)).with(
        "item_type",
        Json::text("commandExecution"),
    )
}

fn message_json(role: &str, block: Json) -> (r: Json)
    ensures
        r.jv() == message_of(role@, block.jv()),
{
    Json::object().with("role", Json::text(role)).with("content", Json::singleton(block))
}

fn text_block_json(text: &str) -> (r: Json)
    ensures
        r.jv() == text_block(text@),
{
    Json::object().with("type", Json::text("text")).with("text", Json::text(text))
}

fn begin_on_thread(
    thread: String,
    state: &mut CodexProtocolState,
    session_id: &mut Option<String>,
) -> (r: StreamEvent)
    ensures
        ({
            let step = begun(old(state)@, thread@);
            &&& step.event == Some(r@)
            &&& step.state == final(state)@
            &&& step.session_id == opt(*final(session_id))
        }),
{
    *session_id = Some(thread.clone());
    state.thread_id = Some(thread.clone());
    StreamEvent::System {
        subtype: "init".to_owned(),
        session_id: Some(thread),
        model: Some(state.model.clone()),
        extra: provider_extra(),
    }
}

fn take_in_answer(
    parsed: &Json,
    state: &mut CodexProtocolState,
    session_id: &mut Option<String>,
) -> (r: (Option<StreamEvent>, CodexPostAction))
    requires
        parsed.jv().field("id"@) is Some,
    ensures
        ({
            let step = answer_step(parsed.jv(), old(state)@, opt(*old(session_id)));
            &&& step.event == opt_event(r.0)
            &&& step.action == r.1
            &&& step.state == final(state)@
            &&& step.session_id == opt(*final(session_id))
        }),
{
    let start: u64 = match state.start_request_id {
        Some(n) => n,
        None => 0,
    };
    let id: u64 = match parsed.get("id") {
        Some(j) => match j.as_u64() {
            Some(n) => n,
            None => 0,
        },
        None => 0,
    };
    let is_start = id == start;
    if let Some(message) = owned_text(get2(parsed, "error", "message")) {
        let old_thread = state.resume_thread_id.is_some() && (same(
            state.start_phase.as_str(),
            "thread/resume",
        ) || same(state.start_phase.as_str(), "thread/fork"));
        if is_start && old_thread && !state.retried_fresh_start && is_stale_codex_thread_error(
            message.as_str(),
        ) {
            state.start_request_id = None;
            state.resume_thread_id = None;
            state.retried_fresh_start = true;
            return (None, CodexPostAction::RetryThreadStart);
        }
        let turn_failed = !is_start && state.turn_in_progress;
        let phase = if is_start {
            state.start_phase.clone()
        } else if state.turn_in_progress {
            "turn/start".to_owned()
        } else {
            "request".to_owned()
        };
        if turn_failed {
            state.turn_in_progress = false;
        }
        let event = StreamEvent::Result {
            subtype: "error".to_owned(),
            is_error: true,
            result: Some(message),
            duration_ms: None,
            total_cost_usd: None,
            session_id: session_id.clone(),
            usage: None,
            extra: provider_extra().with("phase", Json::Str(phase)).with(
                "request_id",
                Json::uint(id),
            ),
        };
        let action = if turn_failed {
            CodexPostAction::DispatchPendingTurns
        } else {
            CodexPostAction::Nothing
        };
        return (Some(event), action);
    }
    if is_start {
        if let Some(thread) = owned_text(get3(parsed, "result", "thread", "id")) {
            let event = begin_on_thread(thread, state, session_id);
            return (Some(event), CodexPostAction::DispatchPendingTurns);
        }
    }
    let detail = Json::object().with("kind", Json::text("rpc_response")).with("id", Json::uint(id));
    (Some(codex_heartbeat_event(session_id, detail)), CodexPostAction::Nothing)
}

fn command_started_event(item: &Json, call_id: String, session_id: &Option<String>) -> (r:
    StreamEvent)
    ensures
        forall|state: CodexView|
            (#[trigger] command_started(state, opt(*session_id), item.jv(), call_id@)).event
                == Some(r@),
{
    let command = match codex_command_text(item) {
        Some(c) => c,
        None => "".to_owned(),
    };
    let block = Json::object().with("type", Json::text("tool_use")).with(
        "id",
        Json::Str(call_id),
    ).with("name", Json::text("Bash")).with(
        "input",
        Json::object().with("command", Json::Str(command)),
    );
    StreamEvent::Assistant {
        message: message_json("assistant", block),
        session_id: session_id.clone(),
        extra: item_extra_json("item/started"),
    }
}

fn command_ended_event(item: &Json, call_id: String) -> (r: StreamEvent)
    ensures
        forall|state: CodexView, session_id: Option<Seq<char>>|
            (#[trigger] command_ended(state, session_id, item.jv(), call_id@)).event == Some(r@),
{
    let output = match owned_text(item.get("aggregatedOutput")) {
        Some(o) => o,
        None => "".to_owned(),
    };
    let block = Json::object().with("type", Json::text("tool_result")).with(
        "tool_use_id",
        Json::Str(call_id),
    ).with("content", Json::Str(output)).with(
        "is_error",
        Json::Bool(codex_command_is_error(item)),
    );
    StreamEvent::User {
        message: message_json("user", block),
        extra: item_extra_json("item/completed"),
    }
}

fn end_turn(
    parsed: &Json,
    state: &mut CodexProtocolState,
    session_id: &Option<String>,
) -> (r: StreamEvent)
    ensures
        ({
            let step = turn_ended(parsed.jv(), old(state)@, opt(*session_id));
            &&& step.event == Some(r@)
            &&& step.state == final(state)@
        }),
{
    let status = match owned_text(get3(parsed, "params", "turn", "status")) {
        Some(s) => s,
        None => "failed".to_owned(),
    };
    let is_error = !same(status.as_str(), "completed");
    let result = if is_error {
        match get3(parsed, "params", "turn", "error") {
            Some(e) => owned_text(e.get("message")),
            None => None,
        }
    } else {
        state.latest_agent_message.clone()
    };
    state.turn_in_progress = false;
    StreamEvent::Result {
        subtype: if is_error {
            "error".to_owned()
        } else {
            "success".to_owned()
        },
        is_error,
        result,
        duration_ms: None,
        total_cost_usd: None,
        session_id: session_id.clone(),
        usage: None,
        extra: provider_extra().with("status", Json::Str(status)),
    }
}

fn is_type(item: &Json, name: &str) -> (r: bool)
    ensures
        r == (item_type(Some(item.jv())) == Some(name@)),
{
    match owned_text(item.get("type")) {
        Some(t) => same(t.as_str(), name),
        None => false,
    }
}

fn take_in_notice(
    parsed: &Json,
    method: &str,
    state: &mut CodexProtocolState,
    session_id: &mut Option<String>,
) -> (r: (StreamEvent, CodexPostAction))
    ensures
        ({
            let step = notice_step(parsed.jv(), method@, old(state)@, opt(*old(session_id)));
            &&& step.event == Some(r.0@)
            &&& step.action == r.1
            &&& step.state == final(state)@
            &&& step.session_id == opt(*final(session_id))
        }),
{
    proof {
        lemma_methods_differ();
    }
    if same(method, "thread/started") {
        if session_id.is_none() {
            if let Some(thread) = owned_text(get3(parsed, "params", "thread", "id")) {
                let event = begin_on_thread(thread, state, session_id);
                return (event, CodexPostAction::DispatchPendingTurns);
            }
        }
    } else if same(method, "item/agentMessage/delta") {
        if let Some(delta) = owned_text(get2(parsed, "params", "delta")) {
            let before = match &state.latest_agent_message {
                Some(m) => m.clone(),
                None => "".to_owned(),
            };
            state.latest_agent_message = Some(concat2(before.as_str(), delta.as_str()));
            let event = StreamEvent::Assistant {
                message: message_json("assistant", text_block_json(delta.as_str())),
                session_id: session_id.clone(),
                extra: provider_extra(),
            };
            return (event, CodexPostAction::Nothing);
        }
    } else if same(method, "item/started") {
        if let Some(item) = get2(parsed, "params", "item") {
            let started = is_type(item, "commandExecution") || (item.get("type").is_none()
                && codex_command_text(item).is_some());
            if started {
                if let Some(call_id) = codex_command_call_id(item) {
                    let event = command_started_event(item, call_id, session_id);
                    assert(command_started(
                        state@,
                        opt(*session_id),
                        item.jv(),
                        call_id@,
                    ).event == Some(event@));
                    return (event, CodexPostAction::Nothing);
                }
            }
        }
    } else if same(method, "item/completed") {
        if let Some(item) = get2(parsed, "params", "item") {
            if is_type(item, "commandExecution") {
                if let Some(call_id) = codex_command_call_id(item) {
                    let event = command_ended_event(item, call_id);
                    assert(command_ended(
                        state@,
                        opt(*session_id),
                        item.jv(),
                        call_id@,
                    ).event == Some(event@));
                    return (event, CodexPostAction::Nothing);
                }
            } else if is_type(item, "agentMessage") {
                if let Some(text) = owned_text(item.get("text")) {
                    state.latest_agent_message = Some(text.clone());
                    let event = StreamEvent::Assistant {
                        message: message_json("assistant", text_block_json(text.as_str())),
                        session_id: session_id.clone(),
                        extra: provider_extra().with("event", Json::text("item/completed")),
                    };
                    return (event, CodexPostAction::Nothing);
                }
            }
        }
    } else if same(method, "turn/completed") {
        let event = end_turn(parsed, state, session_id);
        return (event, CodexPostAction::DispatchPendingTurns);
    }
    let detail = Json::object().with("kind", Json::text("event")).with("method", Json::text(method));
    (codex_heartbeat_event(session_id, detail), CodexPostAction::Nothing)
}

proof fn lemma_methods_differ()
    ensures
        "commandExecution"@ != "agentMessage"@,
{
    reveal_strlit("commandExecution");
    reveal_strlit("agentMessage");
    assert("commandExecution"@.len() != "agentMessage"@.len());
}

/// Takes in one message of the app server: gives the event that comes of it and what is to be
/// done next, and updates the session's state and identifier.
pub fn codex_translate_event(
    parsed: &Json,
    state: &mut CodexProtocolState,
    session_id: &mut Option<String>,
) -> (r: (Option<StreamEvent>, CodexPostAction))
    ensures
        ({
            let step = codex_step(parsed.jv(), old(state)@, opt(*old(session_id)));
            &&& step.event == opt_event(r.0)
            &&& step.action == r.1
            &&& step.state == final(state)@
            &&& step.session_id == opt(*final(session_id))
        }),
{
    if parsed.get("id").is_some() {
        return take_in_answer(parsed, state, session_id);
    }
    match owned_text(parsed.get("method")) {
        Some(method) => {
            let (event, action) = take_in_notice(parsed, method.as_str(), state, session_id);
            (Some(event), action)
        },
        None => {
            let detail = Json::object().with("kind", Json::text("event_without_method"));
            (Some(codex_heartbeat_event(session_id, detail)), CodexPostAction::Nothing)
        },
    }
}

/// The request that puts a session on a thread: its method and its parameters.
pub open spec fn thread_request(
    resume_thread_id: Option<Seq<char>>,
    fork_session: bool,
    allow_tools: bool,
    cwd: Option<Seq<char>>,
    model: Seq<char>,
    system_prompt: Seq<char>,
) -> (Seq<char>, JsonView) {
    let instructions = if system_prompt.len() == 0 {
        JsonView::Null
    } else {
        JsonView::Str(system_prompt)
    };
    let sandbox = if allow_tools {
        "danger-full-access"@
    } else {
        "read-only"@
    };
    let params = no_fields().with("cwd"@, text_or_null(cwd)).with("model"@, JsonView::Str(model)).with(
        "approvalPolicy"@,
        JsonView::Str("never"@),
    ).with("sandbox"@, JsonView::Str(sandbox)).with("developerInstructions"@, instructions);
    match resume_thread_id {
        Some(id) => (
            if fork_session {
                "thread/fork"@
            } else {
                "thread/resume"@
            },
            params.with("threadId"@, JsonView::Str(id)),
        ),
        None => ("thread/start"@, params),
    }
}

fn str_or_null(s: Option<&str>) -> (r: Json)
    ensures
        r.jv() == text_or_null(opt_str(s)),
{
    match s {
        Some(s) => Json::text(s),
        None => Json::Null,
    }
}

/// The request that puts a session on a thread: a fork of an old one, an old one, or a new
/// one.
pub fn codex_thread_init_request(
    resume_thread_id: Option<&str>,
    fork_session: bool,
    allow_tools: bool,
    cwd: Option<&str>,
    model: &str,
    system_prompt: &str,
) -> (r: (&'static str, Json))
    ensures
        (r.0@, r.1.jv()) == thread_request(
            opt_str(resume_thread_id),
            fork_session,
            allow_tools,
            opt_str(cwd),
            model@,
            system_prompt@,
        ),
{
    let instructions = if system_prompt.is_empty() {
        Json::Null
    } else {
        Json::text(system_prompt)
    };
    let sandbox = if allow_tools {
        "danger-full-access"
    } else {
        "read-only"
    };
    let params = Json::object().with("cwd", str_or_null(cwd)).with("model", Json::text(model)).with(
        "approvalPolicy",
        Json::text("never"),
    ).with("sandbox", Json::text(sandbox)).with("developerInstructions", instructions);
    match resume_thread_id {
        Some(id) => {
            let method = if fork_session {
                "thread/fork"
            } else {
                "thread/resume"
            };
            (method, params.with("threadId", Json::text(id)))
        },
        None => ("thread/start", params),
    }
}

fn borrowed(s: &Option<String>) -> (r: Option<&str>)
    ensures
        opt_str(r) == opt(*s),
{
    match s {
        Some(s) => Some(s.as_str()),
        None => None,
    }
}

/// The request that puts a session in the given state on a thread.
pub open spec fn start_request(state: CodexView) -> (Seq<char>, JsonView) {
    thread_request(
        state.resume_thread_id,
        state.fork_session,
        state.allow_tools,
        state.cwd,
        state.model,
        state.system_prompt,
    )
}

/// The request that puts this session on a thread.
pub fn codex_start_request(state: &CodexProtocolState) -> (r: (&'static str, Json))
    ensures
        (r.0@, r.1.jv()) == start_request(state@),
{
    codex_thread_init_request(
        borrowed(&state.resume_thread_id),
        state.fork_session,
        state.allow_tools,
        borrowed(&state.cwd),
        state.model.as_str(),
        state.system_prompt.as_str(),
    )
}

pub open spec fn initialize_params(version: Seq<char>) -> JsonView {
    no_fields().with(
        "clientInfo"@,
        no_fields().with("name"@, JsonView::Str("midtown"@)).with("version"@, JsonView::Str(version)),
    )
}

/// What a session that is not initialized sends first: the parameters of `initialize`, and
/// the request for a thread. An initialized session sends neither.
pub fn codex_ready_requests(state: &CodexProtocolState, version: &str) -> (r: Option<
    (Json, &'static str, Json),
>)
    ensures
        match r {
            Some((init, method, params)) => !state.initialized && init.jv() == initialize_params(
                version@,
            ) && (method@, params.jv()) == start_request(state@),
            None => state.initialized,
        },
{
    if state.initialized {
        return None;
    }
    let init = Json::object().with(
        "clientInfo",
        Json::object().with("name", Json::text("midtown")).with("version", Json::text(version)),
    );
    let (method, params) = codex_start_request(state);
    Some((init, method, params))
}

/// Records that the request for a thread was sent.
pub fn codex_mark_started(state: &mut CodexProtocolState, request_id: u64, method: &str)
    ensures
        final(state)@ == (CodexView {
            initialized: true,
            start_request_id: Some(request_id),
            start_phase: method@,
            ..old(state)@
        }),
{
    state.initialized = true;
    state.start_request_id = Some(request_id);
    state.start_phase = method.to_owned();
}

/// Counts a request that was sent.
pub fn codex_count_request(state: &mut CodexProtocolState)
    ensures
        final(state)@ == (CodexView {
            next_request_id: if old(state)@.next_request_id == u64::MAX {
                u64::MAX
            } else {
                (old(state)@.next_request_id + 1) as u64
            },
            ..old(state)@
        }),
{
    if state.next_request_id < u64::MAX {
        state.next_request_id = state.next_request_id + 1;
    }
}

/// A turn can begin: the thread is known, no turn is under way and a message waits.
pub open spec fn turn_can_begin(state: CodexView) -> bool {
    state.thread_id is Some && !state.turn_in_progress && state.pending_messages.len() > 0
}

/// The parameters of `turn/start` for the message `prompt`.
pub open spec fn turn_params(state: CodexView, prompt: Seq<char>) -> JsonView {
    let base = no_fields().with("threadId"@, JsonView::Str(state.thread_id->0)).with(
        "input"@,
        one_item(text_block(prompt)),
    );
    let with_model = if state.model.len() == 0 {
        base
    } else {
        base.with("model"@, JsonView::Str(state.model))
    };
    match state.output_schema {
        Some(schema) => with_model.with("outputSchema"@, schema),
        None => with_model,
    }
}

/// Takes the next waiting message and begins a turn with it, where one can begin: gives the
/// message and the parameters of `turn/start`.
pub fn codex_begin_turn(state: &mut CodexProtocolState) -> (r: Option<(String, Json)>)
    ensures
        match r {
            Some((prompt, params)) => {
                &&& turn_can_begin(old(state)@)
                &&& prompt@ == old(state)@.pending_messages[0]
                &&& params.jv() == turn_params(old(state)@, prompt@)
                &&& final(state)@ == (CodexView {
                    turn_in_progress: true,
                    latest_agent_message: None,
                    pending_messages: old(state)@.pending_messages.skip(1),
                    ..old(state)@
                })
            },
            None => !turn_can_begin(old(state)@) && final(state)@ == old(state)@,
        },
{
    let thread = match &state.thread_id {
        Some(t) => t.clone(),
        None => {
            return None;
        },
    };
    if state.turn_in_progress {
        return None;
    }
    let ghost before = state@;
    let prompt = match state.pending_messages.pop_front() {
        Some(p) => p,
        None => {
            return None;
        },
    };
    assert(texts(state.pending_messages@) =~= before.pending_messages.skip(1));
    state.turn_in_progress = true;
    state.latest_agent_message = None;
    let mut params = Json::object().with("threadId", Json::Str(thread)).with(
        "input",
        Json::singleton(text_block_json(prompt.as_str())),
    );
    if !state.model.as_str().is_empty() {
        params = params.with("model", Json::Str(state.model.clone()));
    }
    if let Some(schema) = &state.output_schema {
        params = params.with("outputSchema", schema.duplicate());
    }
    Some((prompt, params))
}

/// Takes a turn back that could not be sent: its message waits again, before all others.
pub fn codex_take_back_turn(state: &mut CodexProtocolState, prompt: String)
    ensures
        final(state)@ == (CodexView {
            turn_in_progress: false,
            pending_messages: seq![prompt@] + old(state)@.pending_messages,
            ..old(state)@
        }),
{
    let ghost before = state@;
    state.turn_in_progress = false;
    state.pending_messages.push_front(prompt);
    assert(texts(state.pending_messages@) =~= seq![prompt@] + before.pending_messages);
}

/// Adds a message that waits for its turn, after all others.
pub fn codex_queue_message(state: &mut CodexProtocolState, content: &str)
    ensures
        final(state)@ == (CodexView {
            pending_messages: old(state)@.pending_messages.push(content@),
            ..old(state)@
        }),
{
    let ghost before = state@;
    state.pending_messages.push_back(content.to_owned());
    assert(texts(state.pending_messages@) =~= before.pending_messages.push(content@));
}

/// What a Codex session is launched with.
pub struct CodexLaunchPlan {
    pub model: String,
    pub cwd: Option<String>,
    pub system_prompt: String,
    pub output_schema: Option<Json>,
    pub resume_thread_id: Option<String>,
    pub fork_session: bool,
    pub allow_tools: bool,
}

/// The name, where it is set.
pub open spec fn named_if(set: bool, name: Seq<char>) -> Seq<Seq<char>> {
    if set {
        seq![name]
    } else {
        Seq::empty()
    }
}

/// The settings of a configuration that Codex cannot honour.
pub open spec fn unsupported_settings(config: HeadlessConfig) -> Seq<Seq<char>> {
    named_if(config.max_budget_usd is Some, "max_budget_usd"@) + named_if(
        config.settings_path is Some,
        "settings_path"@,
    ) + named_if(config.setting_sources is Some, "setting_sources"@) + named_if(
        config.session_id is Some,
        "session_id"@,
    ) + named_if(config.disallowed_tools@.len() > 0, "disallowed_tools"@)
}

fn name_if(names: &mut Vec<String>, set: bool, name: &str)
    ensures
        texts(final(names)@) == texts(old(names)@) + named_if(set, name@),
{
    if set {
        names.push(name.to_owned());
    }
    assert(texts(names@) =~= texts(old(names)@) + named_if(set, name@));
}

/// The plan for a Codex session, or which settings stand against it.
pub fn codex_launch_plan_from_config(config: &HeadlessConfig) -> (r: Result<
    CodexLaunchPlan,
    String,
>)
    ensures
        match r {
            Ok(plan) => {
                &&& unsupported_settings(*config).len() == 0
                &&& plan.model@ == config.model@
                &&& opt(plan.cwd) == opt(config.cwd)
                &&& plan.system_prompt@ == config.system_prompt@
                &&& opt_json(plan.output_schema) == opt_json(config.json_schema)
                &&& opt(plan.resume_thread_id) == opt(config.resume_session_id)
                &&& plan.fork_session == config.fork_session
                &&& plan.allow_tools == config.allow_tools
            },
            Err(message) => {
                &&& unsupported_settings(*config).len() > 0
                &&& message@ == "Codex headless does not support: "@ + crate::text::join(
                    unsupported_settings(*config),
                    ", "@,
                )
            },
        },
{
    let mut unsupported: Vec<String> = Vec::new();
    assert(texts(unsupported@) =~= Seq::<Seq<char>>::empty());
    name_if(&mut unsupported, config.max_budget_usd.is_some(), "max_budget_usd");
    assert(texts(unsupported@) =~= named_if(config.max_budget_usd is Some, "max_budget_usd"@));
    name_if(&mut unsupported, config.settings_path.is_some(), "settings_path");
    name_if(&mut unsupported, config.setting_sources.is_some(), "setting_sources");
    name_if(&mut unsupported, config.session_id.is_some(), "session_id");
    name_if(&mut unsupported, config.disallowed_tools.len() > 0, "disallowed_tools");
    assert(texts(unsupported@).len() == unsupported@.len());
    if unsupported.len() > 0 {
        return Err(
            concat2("Codex headless does not support: ", joined(&unsupported, ", ").as_str()),
        );
    }
    let output_schema = match &config.json_schema {
        Some(schema) => Some(schema.duplicate()),
        None => None,
    };
    Ok(
        CodexLaunchPlan {
            model: config.model.clone(),
            cwd: config.cwd.clone(),
            system_prompt: config.system_prompt.clone(),
            output_schema,
            resume_thread_id: config.resume_session_id.clone(),
            fork_session: config.fork_session,
            allow_tools: config.allow_tools,
        },
    )
}

/// The state in which a planned session begins.
pub open spec fn initial_state(plan: CodexLaunchPlan) -> CodexView {
    CodexView {
        initialized: false,
        start_request_id: None,
        thread_id: None,
        turn_in_progress: false,
        next_request_id: 1,
        pending_messages: Seq::empty(),
        latest_agent_message: None,
        resume_thread_id: opt(plan.resume_thread_id),
        fork_session: plan.fork_session,
        allow_tools: plan.allow_tools,
        model: plan.model@,
        cwd: opt(plan.cwd),
        system_prompt: plan.system_prompt@,
        output_schema: opt_json(plan.output_schema),
        start_phase: "thread/start"@,
        retried_fresh_start: false,
    }
}

impl CodexProtocolState {
    pub fn new(plan: CodexLaunchPlan) -> (r: CodexProtocolState)
        ensures
            r@ == initial_state(plan),
    {
        let pending: VecDeque<String> = VecDeque::new();
        assert(texts(pending@) =~= Seq::<Seq<char>>::empty());
        CodexProtocolState {
            initialized: false,
            start_request_id: None,
            thread_id: None,
            turn_in_progress: false,
            next_request_id: 1,
            pending_messages: pending,
            latest_agent_message: None,
            resume_thread_id: plan.resume_thread_id,
            fork_session: plan.fork_session,
            allow_tools: plan.allow_tools,
            model: plan.model,
            cwd: plan.cwd,
            system_prompt: plan.system_prompt,
            output_schema: plan.output_schema,
            start_phase: "thread/start".to_owned(),
            retried_fresh_start: false,
        }
    }
}

/// A request in the form in which it is sent.
pub open spec fn request_json(id: u64, method: Seq<char>, params: JsonView) -> JsonView {
    no_fields().with("jsonrpc"@, JsonView::Str("2.0"@)).with("id"@, uint_json(id)).with(
        "method"@,
        JsonView::Str(method),
    ).with("params"@, params)
}

/// The line that carries a request.
pub fn codex_request_line(id: u64, method: &str, params: Json) -> (r: String)
    ensures
        r@ == printed_text(request_json(id, method@, params.jv())).push('\n'),
{
    let request = Json::object().with("jsonrpc", Json::text("2.0")).with("id", Json::uint(id)).with(
        "method",
        Json::text(method),
    ).with("params", params);
    let mut line = print(&request);
    line.push('\n');
    line
}

/// What a line of the app server's output holds: nothing where it is blank or no JSON.
pub fn codex_read_line(line: &str) -> (r: Option<Json>)
    ensures
        opt_json(r) == (if trim(line@).len() == 0 {
            None
        } else {
            parsed_text(trim(line@))
        }),
{
    let body = trimmed(line);
    if body.as_str().is_empty() {
        return None;
    }
    parse(body.as_str())
}

/// Every message gives an event, except one that calls for a fresh start; and none does where
/// there is no thread to resume.
pub proof fn every_message_gives_an_event(
    parsed: JsonView,
    state: CodexView,
    session_id: Option<Seq<char>>,
)
    ensures
        ({
            let step = codex_step(parsed, state, session_id);
            &&& step.event is None <==> step.action is RetryThreadStart
            &&& state.resume_thread_id is None ==> step.event is Some
        }),
{
}

/// A fresh start is tried once at most: after a message that called for one, no other
/// message does.
pub proof fn fresh_start_is_tried_once(
    first: JsonView,
    second: JsonView,
    state: CodexView,
    session_id: Option<Seq<char>>,
)
    requires
        codex_step(first, state, session_id).action is RetryThreadStart,
    ensures
        ({
            let after = codex_step(first, state, session_id);
            &&& after.state.retried_fresh_start
            &&& !(codex_step(second, after.state, after.session_id).action is RetryThreadStart)
            &&& start_request(after.state).0 == "thread/start"@
        }),
{
}

/// No message changes what the session was launched with, nor the messages that wait.
pub proof fn messages_keep_the_launch_settings(
    parsed: JsonView,
    state: CodexView,
    session_id: Option<Seq<char>>,
)
    ensures
        ({
            let after = codex_step(parsed, state, session_id).state;
            &&& after.initialized == state.initialized
            &&& after.next_request_id == state.next_request_id
            &&& after.pending_messages == state.pending_messages
            &&& after.fork_session == state.fork_session
            &&& after.allow_tools == state.allow_tools
            &&& after.model == state.model
            &&& after.cwd == state.cwd
            &&& after.system_prompt == state.system_prompt
            &&& after.output_schema == state.output_schema
            &&& after.start_phase == state.start_phase
        }),
{
}

/// The end of a turn frees the session for the next one and gives a result.
pub proof fn turn_end_frees_the_session(
    parsed: JsonView,
    state: CodexView,
    session_id: Option<Seq<char>>,
)
    requires
        parsed.field("id"@) is None,
        text_of(parsed.field("method"@)) == Some("turn/completed"@),
    ensures
        ({
            let step = codex_step(parsed, state, session_id);
            &&& !step.state.turn_in_progress
            &&& step.action is DispatchPendingTurns
            &&& step.event matches Some(e) && e is Result
        }),
{
    lemma_method_names();
}

/// A refused turn frees the session for the next one: an answer with an error, to another
/// request than the one for a thread.
pub proof fn refused_turn_frees_the_session(
    parsed: JsonView,
    state: CodexView,
    session_id: Option<Seq<char>>,
    id: u64,
)
    requires
        parsed.field("id"@) == Some(uint_json(id)),
        state.start_request_id matches Some(start) ==> start != id,
        state.start_request_id is None ==> id != 0,
        text_of(field2(parsed, "error"@, "message"@)) is Some,
        state.turn_in_progress,
    ensures
        ({
            let step = codex_step(parsed, state, session_id);
            &&& !step.state.turn_in_progress
            &&& step.action is DispatchPendingTurns
        }),
{
}

/// The answer to the request for a thread fixes the session's identifier.
pub proof fn start_answer_begins_the_session(
    parsed: JsonView,
    state: CodexView,
    session_id: Option<Seq<char>>,
    id: u64,
    thread: Seq<char>,
)
    requires
        parsed.field("id"@) == Some(uint_json(id)),
        state.start_request_id == Some(id),
        text_of(field2(parsed, "error"@, "message"@)) is None,
        text_of(field3(parsed, "result"@, "thread"@, "id"@)) == Some(thread),
    ensures
        ({
            let step = codex_step(parsed, state, session_id);
            &&& step.session_id == Some(thread)
            &&& step.state.thread_id == Some(thread)
            &&& step.event matches Some(EventView::System { subtype, .. }) && subtype == "init"@
            &&& step.action is DispatchPendingTurns
        }),
{
}

proof fn lemma_method_names()
    ensures
        "turn/completed"@.len() == 14,
        "thread/started"@.len() == 14,
        "turn/completed"@[1] == 'u',
        "thread/started"@[1] == 'h',
        "item/agentMessage/delta"@.len() == 23,
        "item/started"@.len() == 12,
        "item/completed"@.len() == 14,
        "item/completed"@[0] == 'i',
        "turn/completed"@[0] == 't',
{
    reveal_strlit("turn/completed");
    reveal_strlit("thread/started");
    reveal_strlit("item/agentMessage/delta");
    reveal_strlit("item/started");
    reveal_strlit("item/completed");
}

pub open spec fn is_delta(parsed: JsonView, delta: Seq<char>) -> bool {
    &&& parsed.field("id"@) is None
    &&& text_of(parsed.field("method"@)) == Some("item/agentMessage/delta"@)
    &&& text_of(field2(parsed, "params"@, "delta"@)) == Some(delta)
}

/// The state and the identifier of a session once some messages have come in.
pub open spec fn after_messages(
    messages: Seq<JsonView>,
    state: CodexView,
    session_id: Option<Seq<char>>,
) -> (CodexView, Option<Seq<char>>)
    decreases messages.len(),
{
    if messages.len() == 0 {
        (state, session_id)
    } else {
        let (before, id) = after_messages(messages.drop_last(), state, session_id);
        let step = codex_step(messages.last(), before, id);
        (step.state, step.session_id)
    }
}

/// Pieces of text, one behind the other.
pub open spec fn in_a_row(pieces: Seq<Seq<char>>) -> Seq<char>
    decreases pieces.len(),
{
    if pieces.len() == 0 {
        Seq::empty()
    } else {
        in_a_row(pieces.drop_last()) + pieces.last()
    }
}

/// The messages bring these pieces, each one.
pub open spec fn are_deltas(messages: Seq<JsonView>, pieces: Seq<Seq<char>>) -> bool {
    &&& messages.len() == pieces.len()
    &&& forall|i: int| 0 <= i < messages.len() ==> is_delta(#[trigger] messages[i], pieces[i])
}

/// What a session holds of a message once some pieces have come.
pub open spec fn gathered_text(before: Option<Seq<char>>, pieces: Seq<Seq<char>>) -> Option<
    Seq<char>,
> {
    if pieces.len() == 0 {
        before
    } else {
        match before {
            Some(m) => Some(m + in_a_row(pieces)),
            None => Some(in_a_row(pieces)),
        }
    }
}

proof fn lemma_pieces(
    messages: Seq<JsonView>,
    pieces: Seq<Seq<char>>,
    state: CodexView,
    session_id: Option<Seq<char>>,
)
    requires
        are_deltas(messages, pieces),
    ensures
        after_messages(messages, state, session_id).0.latest_agent_message == gathered_text(
            state.latest_agent_message,
            pieces,
        ),
    decreases messages.len(),
{
    lemma_method_names();
    if messages.len() > 0 {
        let fewer = messages.drop_last();
        let less = pieces.drop_last();
        assert forall|i: int| 0 <= i < fewer.len() implies is_delta(
            #[trigger] fewer[i],
            less[i],
        ) by {
            assert(is_delta(messages[i], pieces[i]));
        }
        lemma_pieces(fewer, less, state, session_id);
        assert(is_delta(messages[messages.len() - 1], pieces[messages.len() - 1]));
        let start = match state.latest_agent_message {
            Some(m) => m,
            None => Seq::empty(),
        };
        assert(start + in_a_row(less) + pieces.last() =~= start + in_a_row(pieces));
        if less.len() == 0 {
            reveal_strlit("");
            assert(in_a_row(pieces) =~= ""@ + pieces.last());
            assert(in_a_row(pieces) =~= pieces.last());
        }
    }
}

/// The pieces of a message add up: any number of pieces and then the end of the turn give a
/// result with the pieces one behind the other, behind what had come before.
pub proof fn pieces_add_up(
    messages: Seq<JsonView>,
    pieces: Seq<Seq<char>>,
    end: JsonView,
    state: CodexView,
    session_id: Option<Seq<char>>,
)
    requires
        are_deltas(messages, pieces),
        end.field("id"@) is None,
        text_of(end.field("method"@)) == Some("turn/completed"@),
        text_of(field3(end, "params"@, "turn"@, "status"@)) == Some("completed"@),
    ensures
        ({
            let (before, id) = after_messages(messages, state, session_id);
            codex_step(end, before, id).event matches Some(
                EventView::Result { result, is_error, .. },
            ) && !is_error && result == gathered_text(state.latest_agent_message, pieces)
        }),
{
    lemma_method_names();
    lemma_pieces(messages, pieces, state, session_id);
}

/// A turn that could not be sent leaves the queue as it was.
pub proof fn taken_back_turn_keeps_the_queue(state: CodexView, prompt: Seq<char>)
    requires
        turn_can_begin(state),
        prompt == state.pending_messages[0],
    ensures
        ({
            let begun_turn = CodexView {
                turn_in_progress: true,
                latest_agent_message: None,
                pending_messages: state.pending_messages.skip(1),
                ..state
            };
            let back = CodexView {
                turn_in_progress: false,
                pending_messages: seq![prompt] + begun_turn.pending_messages,
                ..begun_turn
            };
            back.pending_messages == state.pending_messages && turn_can_begin(back)
        }),
{
    assert(seq![prompt] + state.pending_messages.skip(1) =~= state.pending_messages);
}

/// What the request for a thread always says: which thread, and how far tools may go.
pub proof fn thread_request_is_faithful(
    resume: Option<Seq<char>>,
    fork: bool,
    allow_tools: bool,
    cwd: Option<Seq<char>>,
    model: Seq<char>,
    prompt: Seq<char>,
)
    ensures
        ({
            let (method, params) = thread_request(resume, fork, allow_tools, cwd, model, prompt);
            &&& resume is Some && fork ==> method == "thread/fork"@
            &&& resume is Some && !fork ==> method == "thread/resume"@
            &&& resume is None ==> method == "thread/start"@
            &&& text_of(params.field("threadId"@)) == resume
            &&& resume is None ==> params.field("threadId"@) is None
            &&& text_of(params.field("approvalPolicy"@)) == Some("never"@)
            &&& text_of(params.field("sandbox"@)) == Some(
                if allow_tools {
                    "danger-full-access"@
                } else {
                    "read-only"@
                },
            )
            &&& prompt.len() == 0 ==> params.field("developerInstructions"@) == Some(JsonView::Null)
        }),
{
    reveal_strlit("threadId");
    reveal_strlit("cwd");
    reveal_strlit("model");
    reveal_strlit("approvalPolicy");
    reveal_strlit("sandbox");
    reveal_strlit("developerInstructions");
    assert("threadId"@.len() == 8);
    assert("cwd"@.len() == 3);
    assert("model"@.len() == 5);
    assert("approvalPolicy"@.len() == 14);
    assert("sandbox"@.len() == 7);
    assert("developerInstructions"@.len() == 21);
}

/// A turn that did not complete is told as an error, with the message of its error; a turn
/// that did is told as a success, with what the agent said.
pub proof fn only_a_completed_turn_succeeds(
    parsed: JsonView,
    state: CodexView,
    session_id: Option<Seq<char>>,
)
    requires
        parsed.field("id"@) is None,
        text_of(parsed.field("method"@)) == Some("turn/completed"@),
    ensures
        ({
            let status = text_of(field3(parsed, "params"@, "turn"@, "status"@));
            let error = field3(parsed, "params"@, "turn"@, "error"@);
            let step = codex_step(parsed, state, session_id);
            &&& step.event matches Some(
                EventView::Result { subtype, is_error, result, session_id: told, extra, .. },
            )
            &&& is_error <==> status != Some("completed"@)
            &&& is_error ==> subtype == "error"@
            &&& !is_error ==> subtype == "success"@
            &&& is_error && error is Some ==> result == text_of(error->0.field("message"@))
            &&& is_error && error is None ==> result is None
            &&& !is_error ==> result == state.latest_agent_message
            &&& told == session_id
            &&& status is Some ==> text_of(extra.field("status"@)) == status
            &&& step.session_id == session_id
            &&& step.state.latest_agent_message == state.latest_agent_message
            &&& step.state.thread_id == state.thread_id
        }),
{
    lemma_method_names();
    reveal_strlit("completed");
    reveal_strlit("failed");
    reveal_strlit("provider");
    reveal_strlit("status");
    assert("completed"@.len() == 9);
    assert("failed"@.len() == 6);
    assert("provider"@.len() == 8);
    assert("status"@.len() == 6);
    assert("status"@[0] == 's');
    assert("failed"@[0] == 'f');
}

/// An answer that refuses a request tells the message as an error, unless it calls for a fresh
/// start. It does so where it answers the request for an old thread, for the first time, and
/// says that the thread is gone.
pub proof fn a_refusal_is_told_or_tried_afresh(
    parsed: JsonView,
    state: CodexView,
    session_id: Option<Seq<char>>,
    id: u64,
    message: Seq<char>,
)
    requires
        parsed.field("id"@) == Some(uint_json(id)),
        text_of(field2(parsed, "error"@, "message"@)) == Some(message),
        state.start_request_id is Some,
    ensures
        ({
            let step = codex_step(parsed, state, session_id);
            let gone = occurs(lower(message), "no rollout found"@) || occurs(
                lower(message),
                "thread not found"@,
            ) || occurs(lower(message), "thread_not_found"@);
            let answers_start = state.start_request_id == Some(id);
            &&& step.action is RetryThreadStart <==> answers_start && state.resume_thread_id is Some
                && (state.start_phase == "thread/resume"@ || state.start_phase == "thread/fork"@)
                && !state.retried_fresh_start && gone
            &&& step.action is RetryThreadStart ==> step.event is None
                && step.state.start_request_id is None && step.state.resume_thread_id is None
            &&& !(step.action is RetryThreadStart) ==> (step.event matches Some(
                EventView::Result { subtype, is_error, result, session_id: told, extra, .. },
            ) && subtype == "error"@ && is_error && result == Some(message) && told == session_id
                && text_of(extra.field("phase"@)) == Some(
                if answers_start {
                    state.start_phase
                } else if state.turn_in_progress {
                    "turn/start"@
                } else {
                    "request"@
                },
            ) && extra.field("request_id"@) == Some(uint_json(id)))
            &&& answers_start ==> step.state.turn_in_progress == state.turn_in_progress
            &&& step.action is DispatchPendingTurns <==> !answers_start && state.turn_in_progress
            &&& step.session_id == session_id
        }),
{
    reveal_strlit("provider");
    reveal_strlit("phase");
    reveal_strlit("request_id");
    assert("provider"@.len() == 8);
    assert("phase"@.len() == 5);
    assert("request_id"@.len() == 10);
}

/// An answer that refuses nothing and does not answer the request for a thread is a sign of
/// life and no more.
pub proof fn other_answers_change_nothing(
    parsed: JsonView,
    state: CodexView,
    session_id: Option<Seq<char>>,
    id: u64,
)
    requires
        parsed.field("id"@) == Some(uint_json(id)),
        text_of(field2(parsed, "error"@, "message"@)) is None,
        state.start_request_id is Some,
        state.start_request_id != Some(id) || text_of(
            field3(parsed, "result"@, "thread"@, "id"@),
        ) is None,
    ensures
        ({
            let step = codex_step(parsed, state, session_id);
            &&& step.event matches Some(EventView::System { subtype, session_id: told, model, .. })
            &&& subtype == "heartbeat"@
            &&& told == session_id
            &&& model is None
            &&& step.action is Nothing
            &&& step.state == state
            &&& step.session_id == session_id
        }),
{
}

/// A notification of another kind is a sign of life and no more.
pub proof fn unknown_notices_change_nothing(
    parsed: JsonView,
    state: CodexView,
    session_id: Option<Seq<char>>,
)
    requires
        parsed.field("id"@) is None,
        ({
            let method = text_of(parsed.field("method"@));
            &&& method != Some("thread/started"@)
            &&& method != Some("item/agentMessage/delta"@)
            &&& method != Some("item/started"@)
            &&& method != Some("item/completed"@)
            &&& method != Some("turn/completed"@)
        }),
    ensures
        ({
            let step = codex_step(parsed, state, session_id);
            &&& step.event matches Some(EventView::System { subtype, session_id: told, .. })
            &&& subtype == "heartbeat"@
            &&& told == session_id
            &&& step.action is Nothing
            &&& step.state == state
            &&& step.session_id == session_id
        }),
{
}

/// A thread that is announced begins a session that has none yet, and no other.
pub proof fn an_announced_thread_begins_a_new_session(
    parsed: JsonView,
    state: CodexView,
    session_id: Option<Seq<char>>,
)
    requires
        parsed.field("id"@) is None,
        text_of(parsed.field("method"@)) == Some("thread/started"@),
    ensures
        ({
            let thread = text_of(field3(parsed, "params"@, "thread"@, "id"@));
            let step = codex_step(parsed, state, session_id);
            &&& session_id is None && thread is Some ==> step.session_id == thread
                && step.state.thread_id == thread && step.action is DispatchPendingTurns && (
            step.event matches Some(EventView::System { subtype, session_id: told, model, .. })
                && subtype == "init"@ && told == thread && model == Some(state.model))
            &&& session_id is Some || thread is None ==> step.session_id == session_id
                && step.state == state && step.action is Nothing && (step.event matches Some(
                EventView::System { subtype, .. },
            ) && subtype == "heartbeat"@)
        }),
{
    lemma_method_names();
}

/// The only block of a message.
pub open spec fn block_of(message: JsonView) -> Option<JsonView> {
    match message.field("content"@) {
        Some(content) => match content.items() {
            Some(blocks) => if blocks.len() == 1 {
                Some(blocks[0])
            } else {
                None
            },
            None => None,
        },
        None => None,
    }
}

/// A piece of the agent's message is told as it came, and joins what came before.
pub proof fn a_piece_is_told_and_kept(
    parsed: JsonView,
    state: CodexView,
    session_id: Option<Seq<char>>,
    delta: Seq<char>,
)
    requires
        is_delta(parsed, delta),
    ensures
        ({
            let step = codex_step(parsed, state, session_id);
            &&& step.event matches Some(EventView::Assistant { message, session_id: told, .. })
            &&& told == session_id
            &&& text_of(message.field("role"@)) == Some("assistant"@)
            &&& block_of(message) matches Some(block)
            &&& text_of(block.field("type"@)) == Some("text"@)
            &&& text_of(block.field("text"@)) == Some(delta)
            &&& step.state.latest_agent_message matches Some(now)
            &&& state.latest_agent_message matches Some(before) ==> now == before + delta
            &&& state.latest_agent_message is None ==> now == delta
            &&& step.state == (CodexView {
                latest_agent_message: step.state.latest_agent_message,
                ..state
            })
            &&& step.action is Nothing
            &&& step.session_id == session_id
        }),
{
    lemma_method_names();
    reveal_strlit("role");
    reveal_strlit("content");
    reveal_strlit("type");
    reveal_strlit("text");
    assert("role"@.len() == 4);
    assert("content"@.len() == 7);
    assert("type"@.len() == 4);
    assert("text"@.len() == 4);
    assert("type"@[0] == 't');
    assert("role"@[0] == 'r');
    assert("text"@[0] == 't');
    assert("text"@[1] == 'e');
    assert("type"@[1] == 'y');
    reveal_strlit("");
    assert(""@ + delta =~= delta);
}

/// A complete message of the agent is told, and takes the place of the pieces.
pub proof fn a_complete_message_replaces_its_pieces(
    parsed: JsonView,
    state: CodexView,
    session_id: Option<Seq<char>>,
    text: Seq<char>,
)
    requires
        parsed.field("id"@) is None,
        text_of(parsed.field("method"@)) == Some("item/completed"@),
        text_of(field3(parsed, "params"@, "item"@, "type"@)) == Some("agentMessage"@),
        text_of(field3(parsed, "params"@, "item"@, "text"@)) == Some(text),
    ensures
        ({
            let step = codex_step(parsed, state, session_id);
            &&& step.event matches Some(EventView::Assistant { message, session_id: told, .. })
            &&& told == session_id
            &&& text_of(message.field("role"@)) == Some("assistant"@)
            &&& block_of(message) matches Some(block)
            &&& text_of(block.field("type"@)) == Some("text"@)
            &&& text_of(block.field("text"@)) == Some(text)
            &&& step.state == (CodexView { latest_agent_message: Some(text), ..state })
            &&& step.action is Nothing
            &&& step.session_id == session_id
        }),
{
    lemma_method_names();
    reveal_strlit("role");
    reveal_strlit("content");
    reveal_strlit("type");
    reveal_strlit("text");
    reveal_strlit("commandExecution");
    reveal_strlit("agentMessage");
    reveal_strlit("thread/started");
    reveal_strlit("item/completed");
    assert("role"@.len() == 4);
    assert("content"@.len() == 7);
    assert("type"@.len() == 4);
    assert("text"@.len() == 4);
    assert("commandExecution"@.len() == 16);
    assert("agentMessage"@.len() == 12);
    assert("thread/started"@.len() == 14);
    assert("item/completed"@.len() == 14);
    assert("type"@[0] == 't');
    assert("role"@[0] == 'r');
    assert("text"@[0] == 't');
    assert("text"@[1] == 'e');
    assert("type"@[1] == 'y');
    assert("item/completed"@[0] == 'i');
    assert("thread/started"@[0] == 't');
}

/// A command that begins is told with its identifier and its text: that of its first action,
/// or else its own.
pub proof fn a_started_command_is_told(
    parsed: JsonView,
    item: JsonView,
    state: CodexView,
    session_id: Option<Seq<char>>,
    call_id: Seq<char>,
)
    requires
        parsed.field("id"@) is None,
        text_of(parsed.field("method"@)) == Some("item/started"@),
        field2(parsed, "params"@, "item"@) == Some(item),
        text_of(item.field("type"@)) == Some("commandExecution"@),
        text_of(item.field("id"@)) == Some(call_id),
        call_id.len() > 0,
    ensures
        ({
            let step = codex_step(parsed, state, session_id);
            let actions = match item.field("commandActions"@) {
                Some(a) => a.items(),
                None => None,
            };
            let by_action = if actions is Some && actions->0.len() > 0 {
                text_of((actions->0)[0].field("command"@))
            } else {
                None
            };
            &&& step.event matches Some(EventView::Assistant { message, session_id: told, .. })
            &&& told == session_id
            &&& text_of(message.field("role"@)) == Some("assistant"@)
            &&& block_of(message) matches Some(block)
            &&& text_of(block.field("type"@)) == Some("tool_use"@)
            &&& text_of(block.field("id"@)) == Some(call_id)
            &&& text_of(block.field("name"@)) == Some("Bash"@)
            &&& text_of(field2(block, "input"@, "command"@)) matches Some(command)
            &&& by_action is Some ==> by_action == Some(command)
            &&& by_action is None && text_of(item.field("command"@)) is Some ==> text_of(
                item.field("command"@),
            ) == Some(command)
            &&& by_action is None && text_of(item.field("command"@)) is None ==> command.len() == 0
            &&& step.state == state
            &&& step.action is Nothing
            &&& step.session_id == session_id
        }),
{
    lemma_method_names();
    reveal_strlit("role");
    reveal_strlit("content");
    reveal_strlit("type");
    reveal_strlit("id");
    reveal_strlit("name");
    reveal_strlit("input");
    assert("role"@.len() == 4);
    assert("content"@.len() == 7);
    assert("type"@.len() == 4);
    assert("id"@.len() == 2);
    assert("name"@.len() == 4);
    assert("input"@.len() == 5);
    assert("type"@[0] == 't');
    assert("role"@[0] == 'r');
    assert("name"@[0] == 'n');
    reveal_strlit("");
}

/// A command that has ended is told with its output and whether it failed: it did where its
/// exit code is not zero or where it has another status than `completed`.
pub proof fn an_ended_command_is_told(
    parsed: JsonView,
    item: JsonView,
    state: CodexView,
    session_id: Option<Seq<char>>,
    call_id: Seq<char>,
)
    requires
        parsed.field("id"@) is None,
        text_of(parsed.field("method"@)) == Some("item/completed"@),
        field2(parsed, "params"@, "item"@) == Some(item),
        text_of(item.field("type"@)) == Some("commandExecution"@),
        text_of(item.field("id"@)) == Some(call_id),
        call_id.len() > 0,
    ensures
        ({
            let step = codex_step(parsed, state, session_id);
            let bad_code = item.field("exitCode"@) matches Some(c) && c.sint() is Some
                && c.sint()->0 != 0;
            let bad_status = text_of(item.field("status"@)) matches Some(s) && lower(s)
                != "completed"@;
            &&& step.event matches Some(EventView::User { message, .. })
            &&& text_of(message.field("role"@)) == Some("user"@)
            &&& block_of(message) matches Some(block)
            &&& text_of(block.field("type"@)) == Some("tool_result"@)
            &&& text_of(block.field("tool_use_id"@)) == Some(call_id)
            &&& text_of(item.field("aggregatedOutput"@)) is Some ==> text_of(
                block.field("content"@),
            ) == text_of(item.field("aggregatedOutput"@))
            &&& text_of(item.field("aggregatedOutput"@)) is None ==> text_of(
                block.field("content"@),
            ) == Some(Seq::<char>::empty())
            &&& block.field("is_error"@) == Some(JsonView::Bool(bad_code || bad_status))
            &&& step.state == state
            &&& step.action is Nothing
            &&& step.session_id == session_id
        }),
{
    lemma_method_names();
    reveal_strlit("role");
    reveal_strlit("content");
    reveal_strlit("type");
    reveal_strlit("tool_use_id");
    reveal_strlit("is_error");
    reveal_strlit("thread/started");
    reveal_strlit("item/completed");
    assert("role"@.len() == 4);
    assert("content"@.len() == 7);
    assert("type"@.len() == 4);
    assert("tool_use_id"@.len() == 11);
    assert("is_error"@.len() == 8);
    assert("thread/started"@.len() == 14);
    assert("item/completed"@.len() == 14);
    assert("type"@[0] == 't');
    assert("role"@[0] == 'r');
    assert("item/completed"@[0] == 'i');
    assert("thread/started"@[0] == 't');
    reveal_strlit("");
    assert(""@ =~= Seq::<char>::empty());
}

/// A command is known by the first of `id`, `call_id` and `callId` that is a text that is not
/// empty or a number.
pub proof fn commands_are_known_by_their_identifier(item: JsonView)
    ensures
        ({
            let named = |key: Seq<char>|
                match item.field(key) {
                    Some(JsonView::Str(s)) => s.len() > 0,
                    Some(j) => j.uint() is Some,
                    None => false,
                };
            let tells = |key: Seq<char>|
                match item.field(key) {
                    Some(JsonView::Str(s)) => call_id_in(item) == Some(s),
                    Some(j) => call_id_in(item) == Some(decimal(j.uint()->0 as nat)),
                    None => false,
                };
            &&& named("id"@) ==> tells("id"@)
            &&& !named("id"@) && named("call_id"@) ==> tells("call_id"@)
            &&& !named("id"@) && !named("call_id"@) && named("callId"@) ==> tells("callId"@)
            &&& !named("id"@) && !named("call_id"@) && !named("callId"@) ==> call_id_in(item) is None
        }),
{
}

/// A message speaks of the thread of its result before that of its parameters, and of that
/// before the one of their turn or item.
pub proof fn the_nearest_thread_is_meant(parsed: JsonView)
    ensures
        ({
            let result = text_of(field3(parsed, "result"@, "thread"@, "id"@));
            let params = text_of(field3(parsed, "params"@, "thread"@, "id"@));
            let of = |part: Seq<char>|
                match field3(parsed, "params"@, part, "thread"@) {
                    Some(t) => text_of(t.field("id"@)),
                    None => None,
                };
            &&& result is Some ==> thread_in(parsed) == result
            &&& result is None && params is Some ==> thread_in(parsed) == params
            &&& result is None && params is None && of("turn"@) is Some ==> thread_in(parsed) == of(
                "turn"@,
            )
            &&& result is None && params is None && of("turn"@) is None ==> thread_in(parsed) == of(
                "item"@,
            )
        }),
{
}

/// The request for a turn names the thread and carries the message alone; it names a model and
/// a schema exactly where the session has them.
pub proof fn a_turn_carries_its_message(state: CodexView, prompt: Seq<char>, thread: Seq<char>)
    requires
        state.thread_id == Some(thread),
    ensures
        ({
            let params = turn_params(state, prompt);
            &&& text_of(params.field("threadId"@)) == Some(thread)
            &&& params.field("input"@) matches Some(input)
            &&& input.items() matches Some(blocks)
            &&& blocks.len() == 1
            &&& text_of(blocks[0].field("type"@)) == Some("text"@)
            &&& text_of(blocks[0].field("text"@)) == Some(prompt)
            &&& state.model.len() > 0 ==> text_of(params.field("model"@)) == Some(state.model)
            &&& state.model.len() == 0 ==> params.field("model"@) is None
            &&& params.field("outputSchema"@) == state.output_schema
        }),
{
    reveal_strlit("threadId");
    reveal_strlit("input");
    reveal_strlit("model");
    reveal_strlit("outputSchema");
    reveal_strlit("type");
    reveal_strlit("text");
    assert("threadId"@.len() == 8);
    assert("input"@.len() == 5);
    assert("model"@.len() == 5);
    assert("outputSchema"@.len() == 12);
    assert("type"@.len() == 4);
    assert("text"@.len() == 4);
    assert("model"@[0] == 'm');
    assert("input"@[0] == 'i');
    assert("text"@[1] == 'e');
    assert("type"@[1] == 'y');
}

/// The request for a thread is made from the session's own settings.
pub proof fn the_thread_request_tells_the_settings(state: CodexView)
    ensures
        ({
            let (method, params) = start_request(state);
            &&& state.resume_thread_id is None ==> method == "thread/start"@
            &&& state.resume_thread_id is Some && state.fork_session ==> method == "thread/fork"@
            &&& state.resume_thread_id is Some && !state.fork_session ==> method
                == "thread/resume"@
            &&& text_of(params.field("threadId"@)) == state.resume_thread_id
            &&& text_of(params.field("model"@)) == Some(state.model)
            &&& text_of(params.field("cwd"@)) == state.cwd
            &&& text_of(params.field("sandbox"@)) == Some("danger-full-access"@)
                || text_of(params.field("sandbox"@)) == Some("read-only"@)
            &&& state.allow_tools ==> text_of(params.field("sandbox"@)) == Some(
                "danger-full-access"@,
            )
            &&& !state.allow_tools ==> text_of(params.field("sandbox"@)) == Some("read-only"@)
            &&& text_of(params.field("approvalPolicy"@)) == Some("never"@)
            &&& state.system_prompt.len() > 0 ==> text_of(params.field("developerInstructions"@))
                == Some(state.system_prompt)
        }),
{
    thread_request_is_faithful(
        state.resume_thread_id,
        state.fork_session,
        state.allow_tools,
        state.cwd,
        state.model,
        state.system_prompt,
    );
    reveal_strlit("threadId");
    reveal_strlit("cwd");
    reveal_strlit("model");
    reveal_strlit("approvalPolicy");
    reveal_strlit("sandbox");
    reveal_strlit("developerInstructions");
    assert("threadId"@.len() == 8);
    assert("cwd"@.len() == 3);
    assert("model"@.len() == 5);
    assert("approvalPolicy"@.len() == 14);
    assert("sandbox"@.len() == 7);
    assert("developerInstructions"@.len() == 21);
}

/// A request carries its number, its method and its parameters, by the second version of
/// JSON-RPC.
pub proof fn requests_say_what_they_ask(id: u64, method: Seq<char>, params: JsonView)
    ensures
        ({
            let request = request_json(id, method, params);
            &&& text_of(request.field("jsonrpc"@)) == Some("2.0"@)
            &&& request.field("id"@) == Some(uint_json(id))
            &&& text_of(request.field("method"@)) == Some(method)
            &&& request.field("params"@) == Some(params)
        }),
{
    reveal_strlit("jsonrpc");
    reveal_strlit("id");
    reveal_strlit("method");
    reveal_strlit("params");
    assert("jsonrpc"@.len() == 7);
    assert("id"@.len() == 2);
    assert("method"@.len() == 6);
    assert("params"@.len() == 6);
    assert("params"@[0] == 'p');
    assert("method"@[0] == 'm');
}

/// A client tells its name and its version.
pub proof fn clients_introduce_themselves(version: Seq<char>)
    ensures
        ({
            let params = initialize_params(version);
            &&& text_of(field2(params, "clientInfo"@, "name"@)) == Some("midtown"@)
            &&& text_of(field2(params, "clientInfo"@, "version"@)) == Some(version)
        }),
{
    reveal_strlit("name");
    reveal_strlit("version");
    assert("name"@.len() == 4);
    assert("version"@.len() == 7);
}

/// A setting stands against a Codex session exactly where it is set and Codex cannot honour it.
pub proof fn only_unsupported_settings_are_named(config: HeadlessConfig)
    ensures
        ({
            let named = unsupported_settings(config);
            &&& named.contains("max_budget_usd"@) <==> config.max_budget_usd is Some
            &&& named.contains("settings_path"@) <==> config.settings_path is Some
            &&& named.contains("setting_sources"@) <==> config.setting_sources is Some
            &&& named.contains("session_id"@) <==> config.session_id is Some
            &&& named.contains("disallowed_tools"@) <==> config.disallowed_tools@.len() > 0
            &&& named.len() == 0 <==> config.max_budget_usd is None && config.settings_path is None
                && config.setting_sources is None && config.session_id is None
                && config.disallowed_tools@.len() == 0
        }),
{
    reveal_strlit("max_budget_usd");
    reveal_strlit("settings_path");
    reveal_strlit("setting_sources");
    reveal_strlit("session_id");
    reveal_strlit("disallowed_tools");
    assert("max_budget_usd"@.len() == 14);
    assert("settings_path"@.len() == 13);
    assert("setting_sources"@.len() == 15);
    assert("session_id"@.len() == 10);
    assert("disallowed_tools"@.len() == 16);
    let a = named_if(config.max_budget_usd is Some, "max_budget_usd"@);
    let b = named_if(config.settings_path is Some, "settings_path"@);
    let c = named_if(config.setting_sources is Some, "setting_sources"@);
    let d = named_if(config.session_id is Some, "session_id"@);
    let e = named_if(config.disallowed_tools@.len() > 0, "disallowed_tools"@);
    let named = a + b + c + d + e;
    if a.len() > 0 {
        assert(named[0] == a[0]);
    }
    if b.len() > 0 {
        assert(named[a.len() as int] == b[0]);
    }
    if c.len() > 0 {
        assert(named[(a + b).len() as int] == c[0]);
    }
    if d.len() > 0 {
        assert(named[(a + b + c).len() as int] == d[0]);
    }
    if e.len() > 0 {
        assert(named[(a + b + c + d).len() as int] == e[0]);
    }
    assert forall|i: int| 0 <= i < named.len() implies #[trigger] named[i] == "max_budget_usd"@
        && a.len() > 0 || named[i] == "settings_path"@ && b.len() > 0 || named[i]
        == "setting_sources"@ && c.len() > 0 || named[i] == "session_id"@ && d.len() > 0
        || named[i] == "disallowed_tools"@ && e.len() > 0 by {}
}

/// A new session has sent nothing and waits for nothing; it takes its settings from the plan.
pub proof fn new_sessions_follow_the_plan(plan: CodexLaunchPlan)
    ensures
        ({
            let state = initial_state(plan);
            &&& !state.initialized && !state.turn_in_progress && !state.retried_fresh_start
            &&& state.start_request_id is None && state.thread_id is None
            &&& state.latest_agent_message is None
            &&& state.pending_messages.len() == 0
            &&& state.resume_thread_id == opt(plan.resume_thread_id)
            &&& state.fork_session == plan.fork_session
            &&& state.allow_tools == plan.allow_tools
            &&& state.model == plan.model@
            &&& state.cwd == opt(plan.cwd)
            &&& state.system_prompt == plan.system_prompt@
            &&& !turn_can_begin(state)
        }),
{
}

/// A turn begins exactly where the thread is known, no turn is under way and a message waits.
pub proof fn turns_begin_one_at_a_time(state: CodexView)
    ensures
        turn_can_begin(state) ==> state.thread_id is Some && !state.turn_in_progress,
        state.thread_id is Some && !state.turn_in_progress ==> (turn_can_begin(state) <==> exists|
            m: Seq<char>,
        |
            #[trigger] state.pending_messages.contains(m)),
{
    if state.pending_messages.len() > 0 {
        assert(state.pending_messages.contains(state.pending_messages[0]));
    }
}

/// What an event says besides its own fields.
pub open spec fn extra_of(e: EventView) -> JsonView {
    match e {
        EventView::System { extra, .. } => extra,
        EventView::Assistant { extra, .. } => extra,
        EventView::User { extra, .. } => extra,
        EventView::Result { extra, .. } => extra,
        EventView::Progress { extra, .. } => extra,
        EventView::Unknown => JsonView::Null,
    }
}

/// Every event says that it comes from Codex.
pub proof fn events_name_their_provider(
    parsed: JsonView,
    state: CodexView,
    session_id: Option<Seq<char>>,
)
    ensures
        codex_step(parsed, state, session_id).event matches Some(e) ==> text_of(
            extra_of(e).field("provider"@),
        ) == Some("codex"@),
{
    reveal_strlit("provider");
    reveal_strlit("event");
    reveal_strlit("detail");
    reveal_strlit("phase");
    reveal_strlit("request_id");
    reveal_strlit("status");
    reveal_strlit("item_type");
    reveal_strlit("kind");
    reveal_strlit("id");
    reveal_strlit("method");
    assert("provider"@.len() == 8);
    assert("event"@.len() == 5);
    assert("detail"@.len() == 6);
    assert("phase"@.len() == 5);
    assert("request_id"@.len() == 10);
    assert("status"@.len() == 6);
    assert("item_type"@.len() == 9);
    assert("kind"@.len() == 4);
    assert("id"@.len() == 2);
    assert("method"@.len() == 6);
    assert("phase"@[0] == 'p');
    assert("event"@[0] == 'e');
    assert("status"@[0] == 's');
    assert("detail"@[0] == 'd');
    assert("method"@[0] == 'm');
}

/// A sign of life says what it is about: an answer, with its number, or a notification, with its
/// method where it has one.
pub proof fn signs_of_life_say_what_they_are_about(
    session_id: Option<Seq<char>>,
    detail: JsonView,
    parsed: JsonView,
    state: CodexView,
)
    ensures
        heartbeat(session_id, detail) matches EventView::System {
            subtype,
            session_id: told,
            model,
            extra,
        } && subtype == "heartbeat"@ && told == session_id && model is None && text_of(
            extra.field("event"@),
        ) == Some("heartbeat"@) && extra.field("detail"@) == Some(detail),
        parsed.field("id"@) is None && text_of(parsed.field("method"@)) is None ==> codex_step(
            parsed,
            state,
            session_id,
        ).event == Some(
            heartbeat(
                session_id,
                no_fields().with("kind"@, JsonView::Str("event_without_method"@)),
            ),
        ),
        parsed.field("id"@) is None ==> (text_of(parsed.field("method"@)) matches Some(method) ==> (
        method != "thread/started"@ && method != "item/agentMessage/delta"@ && method
            != "item/started"@ && method != "item/completed"@ && method != "turn/completed"@
            ==> codex_step(parsed, state, session_id).event == Some(
            heartbeat(
                session_id,
                no_fields().with("kind"@, JsonView::Str("event"@)).with(
                    "method"@,
                    JsonView::Str(method),
                ),
            ),
        ))),
{
    reveal_strlit("provider");
    reveal_strlit("event");
    reveal_strlit("detail");
    reveal_strlit("phase");
    reveal_strlit("request_id");
    reveal_strlit("status");
    reveal_strlit("item_type");
    reveal_strlit("kind");
    reveal_strlit("id");
    reveal_strlit("method");
    assert("provider"@.len() == 8);
    assert("event"@.len() == 5);
    assert("detail"@.len() == 6);
    assert("phase"@.len() == 5);
    assert("request_id"@.len() == 10);
    assert("status"@.len() == 6);
    assert("item_type"@.len() == 9);
    assert("kind"@.len() == 4);
    assert("id"@.len() == 2);
    assert("method"@.len() == 6);
    assert("phase"@[0] == 'p');
    assert("event"@[0] == 'e');
    assert("status"@[0] == 's');
    assert("detail"@[0] == 'd');
    assert("method"@[0] == 'm');
}

/// An answer counts as the one to the request for a thread where it has the number of that
/// request; a number that is missing on either side counts as zero.
pub proof fn missing_numbers_count_as_zero(
    parsed: JsonView,
    state: CodexView,
    session_id: Option<Seq<char>>,
    answer: JsonView,
)
    requires
        parsed.field("id"@) == Some(answer),
        text_of(field2(parsed, "error"@, "message"@)) is None,
    ensures
        ({
            let id = match answer.uint() {
                Some(n) => n,
                None => 0u64,
            };
            let start = match state.start_request_id {
                Some(n) => n,
                None => 0u64,
            };
            let thread = text_of(field3(parsed, "result"@, "thread"@, "id"@));
            let step = codex_step(parsed, state, session_id);
            &&& id == start && thread is Some ==> step.session_id == thread && step.state
                == (CodexView { thread_id: thread, ..state }) && step.action is DispatchPendingTurns
            &&& id != start || thread is None ==> step.session_id == session_id && step.state
                == state && step.action is Nothing && step.event == Some(
                heartbeat(
                    session_id,
                    no_fields().with("kind"@, JsonView::Str("rpc_response"@)).with(
                        "id"@,
                        uint_json(id),
                    ),
                ),
            )
        }),
{
}

/// A notification that lacks what its kind is about is a sign of life and no more: a piece
/// without text, an item that starts no command or bears no identifier, and one that is
/// complete and neither a command with an identifier nor a message with a text.
pub proof fn incomplete_notices_change_nothing(
    parsed: JsonView,
    state: CodexView,
    session_id: Option<Seq<char>>,
)
    requires
        parsed.field("id"@) is None,
    ensures
        ({
            let method = text_of(parsed.field("method"@));
            let item = field2(parsed, "params"@, "item"@);
            let kind = match item {
                Some(i) => text_of(i.field("type"@)),
                None => None,
            };
            let known = item is Some && call_id_in(item->0) is Some;
            let holds_command = item is Some && ((item->0).field("commandActions"@) matches Some(a)
                && a.items() matches Some(list) && list.len() > 0 && text_of(
                list[0].field("command"@),
            ) is Some || text_of((item->0).field("command"@)) is Some);
            let starts = kind == Some("commandExecution"@) || (item is Some && (item->0).field(
                "type"@,
            ) is None && holds_command);
            let text = text_of(field3(parsed, "params"@, "item"@, "text"@));
            let step = codex_step(parsed, state, session_id);
            let silent = step.state == state && step.action is Nothing && step.session_id
                == session_id && (step.event matches Some(EventView::System { subtype, .. })
                && subtype == "heartbeat"@);
            &&& method == Some("item/agentMessage/delta"@) && text_of(
                field2(parsed, "params"@, "delta"@),
            ) is None ==> silent
            &&& method == Some("item/started"@) && !(starts && known) ==> silent
            &&& method == Some("item/started"@) && starts && known ==> (
            step.event matches Some(e) && e is Assistant)
            &&& method == Some("item/completed"@) && !(kind == Some("commandExecution"@) && known)
                && !(kind == Some("agentMessage"@) && text is Some) ==> silent
        }),
{
    reveal_strlit("thread/started");
    reveal_strlit("item/agentMessage/delta");
    reveal_strlit("item/started");
    reveal_strlit("item/completed");
    reveal_strlit("turn/completed");
    assert("thread/started"@.len() == 14);
    assert("item/agentMessage/delta"@.len() == 23);
    assert("item/started"@.len() == 12);
    assert("item/completed"@.len() == 14);
    assert("turn/completed"@.len() == 14);
    assert("item/completed"@[0] == 'i');
    assert("thread/started"@[0] == 't');
    assert("turn/completed"@[1] == 'u');
    assert("thread/started"@[1] == 'h');
    assert("turn/completed"@[0] == 't');
}

/// What is told of a command, of a complete message and of the end of a turn says which
/// notification it comes from, and for how it ended the status that was given, or that it
/// failed where none was. Nothing is told of times and costs.
pub proof fn events_say_where_they_come_from(
    parsed: JsonView,
    state: CodexView,
    session_id: Option<Seq<char>>,
)
    requires
        parsed.field("id"@) is None,
    ensures
        ({
            let method = text_of(parsed.field("method"@));
            let step = codex_step(parsed, state, session_id);
            &&& method == Some("item/started"@) && (step.event matches Some(e) && e is Assistant)
                ==> text_of(extra_of(step.event->0).field("event"@)) == Some("item/started"@)
                && text_of(extra_of(step.event->0).field("item_type"@)) == Some(
                "commandExecution"@,
            )
            &&& method == Some("item/completed"@) && (step.event matches Some(e) && e is User)
                ==> text_of(extra_of(step.event->0).field("event"@)) == Some("item/completed"@)
                && text_of(extra_of(step.event->0).field("item_type"@)) == Some(
                "commandExecution"@,
            )
            &&& method == Some("item/completed"@) && (step.event matches Some(e) && e is Assistant)
                ==> text_of(extra_of(step.event->0).field("event"@)) == Some("item/completed"@)
            &&& method == Some("turn/completed"@) ==> (step.event matches Some(
                EventView::Result { duration_ms, total_cost_usd, usage, extra, .. },
            ) && duration_ms is None && total_cost_usd is None && usage is None && (text_of(
                field3(parsed, "params"@, "turn"@, "status"@),
            ) is None ==> text_of(extra.field("status"@)) == Some("failed"@)))
        }),
{
    reveal_strlit("thread/started");
    reveal_strlit("item/agentMessage/delta");
    reveal_strlit("item/started");
    reveal_strlit("item/completed");
    reveal_strlit("turn/completed");
    reveal_strlit("provider");
    reveal_strlit("event");
    reveal_strlit("item_type");
    reveal_strlit("status");
    reveal_strlit("failed");
    assert("thread/started"@.len() == 14);
    assert("item/agentMessage/delta"@.len() == 23);
    assert("item/started"@.len() == 12);
    assert("item/completed"@.len() == 14);
    assert("turn/completed"@.len() == 14);
    assert("provider"@.len() == 8);
    assert("event"@.len() == 5);
    assert("item_type"@.len() == 9);
    assert("status"@.len() == 6);
    assert("failed"@.len() == 6);
    assert("item/completed"@[0] == 'i');
    assert("thread/started"@[0] == 't');
    assert("turn/completed"@[1] == 'u');
    assert("thread/started"@[1] == 'h');
    assert("turn/completed"@[0] == 't');
    assert("failed"@[0] == 'f');
    assert("status"@[0] == 's');
}

/// A request for a thread tells an unknown directory as null. A new session counts its requests
/// from one, and starts a thread of its own first.
pub proof fn unknown_directories_are_null(state: CodexView, plan: CodexLaunchPlan)
    ensures
        state.cwd is None ==> start_request(state).1.field("cwd"@) == Some(JsonView::Null),
        state.system_prompt.len() == 0 ==> start_request(state).1.field("developerInstructions"@)
            == Some(JsonView::Null),
        initial_state(plan).next_request_id == 1,
        initial_state(plan).start_phase == "thread/start"@,
        plan.output_schema matches Some(schema) ==> initial_state(plan).output_schema == Some(
            schema.jv(),
        ),
        plan.output_schema is None ==> initial_state(plan).output_schema is None,
{
    reveal_strlit("cwd");
    reveal_strlit("model");
    reveal_strlit("approvalPolicy");
    reveal_strlit("sandbox");
    reveal_strlit("developerInstructions");
    reveal_strlit("threadId");
    assert("cwd"@.len() == 3);
    assert("model"@.len() == 5);
    assert("approvalPolicy"@.len() == 14);
    assert("sandbox"@.len() == 7);
    assert("developerInstructions"@.len() == 21);
    assert("threadId"@.len() == 8);
}

} // verus!
