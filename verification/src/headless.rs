//! Headless sessions: what one is launched with, the events it emits, and what becomes of
//! them.

use vstd::prelude::*;

use crate::args::{add_all, add_one, add_pair, no_args};
use crate::auth::AuthProvider;
use crate::codex::{
    codex_begin_turn, codex_queue_message, codex_ready_requests, codex_step,
    codex_translate_event, initialize_params, start_request, turn_can_begin, turn_params,
    CodexPostAction, CodexProtocolState, CodexView,
};
use crate::json::{no_fields, Json, JsonView};
use crate::json_text::{print, printed_text};
use crate::names::Names;
use crate::platform::{
    build_claude_headless_args, build_codex_headless_args, claude_headless_args, Platform,
};
use crate::text::{concat3, decimal, opt, opt_str, same, texts, to_decimal, trim, trimmed};
use crate::text_map::TextMap;

verus! {

/// What a headless session is launched with.
pub struct HeadlessConfig {
    pub model: String,
    pub system_prompt: String,
    /// The schema that structured output has to meet.
    pub json_schema: Option<Json>,
    /// The working directory of the process.
    pub cwd: Option<String>,
    /// The project whose sandbox configuration applies.
    pub project_name: Option<String>,
    /// The most that the session may spend, in US dollars, as a decimal number.
    pub max_budget_usd: Option<String>,
    pub allow_tools: bool,
    /// Whether the session is kept on disk.
    pub persist_session: bool,
    /// The saved session to resume in place of a fresh start.
    pub resume_session_id: Option<String>,
    /// The time without output, in milliseconds, after which a caller may give up.
    pub inactivity_timeout: Option<u64>,
    pub team_name: Option<String>,
    pub agent_id: Option<String>,
    pub agent_name: Option<String>,
    pub settings_path: Option<String>,
    pub setting_sources: Option<String>,
    pub auth_provider: AuthProvider,
    /// The identifier that a fresh session is given beforehand.
    pub session_id: Option<String>,
    /// Variables set on the process.
    pub env: TextMap,
    /// Whether a resumed session continues as a new, independent one.
    pub fork_session: bool,
    /// Tools that the session may not use.
    pub disallowed_tools: Vec<String>,
    /// Directories, besides the working directory, that the session may use.
    pub additional_dirs: Vec<String>,
}

/// Tokens that a session used.
#[derive(Debug, Clone, Copy, PartialEq, Eq, Structural)]
pub struct TokenUsage {
    pub input_tokens: u64,
    pub output_tokens: u64,
    pub cache_read_input_tokens: u64,
    pub cache_creation_input_tokens: u64,
}

impl Default for TokenUsage {
    fn default() -> (r: TokenUsage)
        ensures
            r.input_tokens == 0,
            r.output_tokens == 0,
            r.cache_read_input_tokens == 0,
            r.cache_creation_input_tokens == 0,
    {
        TokenUsage {
            input_tokens: 0,
            output_tokens: 0,
            cache_read_input_tokens: 0,
            cache_creation_input_tokens: 0,
        }
    }
}

/// An event of a session. An amount of dollars is kept as a decimal number.
pub enum StreamEvent {
    System { subtype: String, session_id: Option<String>, model: Option<String>, extra: Json },
    Assistant { message: Json, session_id: Option<String>, extra: Json },
    User { message: Json, extra: Json },
    Result {
        subtype: String,
        is_error: bool,
        result: Option<String>,
        duration_ms: Option<u64>,
        total_cost_usd: Option<String>,
        session_id: Option<String>,
        usage: Option<TokenUsage>,
        extra: Json,
    },
    /// What goes on inside a tool, such as an agent that the session started.
    Progress {
        data: Json,
        parent_tool_use_id: Option<String>,
        tool_use_id: Option<String>,
        extra: Json,
    },
    Unknown,
}

/// What an event says.
#[verifier::ext_equal]
pub enum EventView {
    System {
        subtype: Seq<char>,
        session_id: Option<Seq<char>>,
        model: Option<Seq<char>>,
        extra: JsonView,
    },
    Assistant { message: JsonView, session_id: Option<Seq<char>>, extra: JsonView },
    User { message: JsonView, extra: JsonView },
    Result {
        subtype: Seq<char>,
        is_error: bool,
        result: Option<Seq<char>>,
        duration_ms: Option<u64>,
        total_cost_usd: Option<Seq<char>>,
        session_id: Option<Seq<char>>,
        usage: Option<TokenUsage>,
        extra: JsonView,
    },
    Progress {
        data: JsonView,
        parent_tool_use_id: Option<Seq<char>>,
        tool_use_id: Option<Seq<char>>,
        extra: JsonView,
    },
    Unknown,
}

impl View for StreamEvent {
    type V = EventView;

    open spec fn view(&self) -> EventView {
        match *self {
            StreamEvent::System { subtype, session_id, model, extra } => EventView::System {
                subtype: subtype@,
                session_id: opt(session_id),
                model: opt(model),
                extra: extra.jv(),
            },
            StreamEvent::Assistant { message, session_id, extra } => EventView::Assistant {
                message: message.jv(),
                session_id: opt(session_id),
                extra: extra.jv(),
            },
            StreamEvent::User { message, extra } => EventView::User {
                message: message.jv(),
                extra: extra.jv(),
            },
            StreamEvent::Result {
                subtype,
                is_error,
                result,
                duration_ms,
                total_cost_usd,
                session_id,
                usage,
                extra,
            } => EventView::Result {
                subtype: subtype@,
                is_error,
                result: opt(result),
                duration_ms,
                total_cost_usd: opt(total_cost_usd),
                session_id: opt(session_id),
                usage,
                extra: extra.jv(),
            },
            StreamEvent::Progress { data, parent_tool_use_id, tool_use_id, extra } => {
                EventView::Progress {
                    data: data.jv(),
                    parent_tool_use_id: opt(parent_tool_use_id),
                    tool_use_id: opt(tool_use_id),
                    extra: extra.jv(),
                }
            },
            StreamEvent::Unknown => EventView::Unknown,
        }
    }
}

/// What an optional event says.
pub open spec fn opt_event(e: Option<StreamEvent>) -> Option<EventView> {
    match e {
        Some(e) => Some(e@),
        None => None,
    }
}

/// Which protocol a session speaks.
#[derive(Debug, Clone, Copy, PartialEq, Eq, Structural)]
pub enum HeadlessSessionBackend {
    Claude,
    Codex,
}

impl HeadlessSessionBackend {
    /// Whether the process ends by itself once its input is closed and the result is there.
    /// Codex sessions share a process that goes on.
    pub fn should_wait_for_exit(self) -> (r: bool)
        ensures
            r == (self is Claude),
    {
        match self {
            HeadlessSessionBackend::Claude => true,
            HeadlessSessionBackend::Codex => false,
        }
    }
}

/// A session as its driver sees it.
pub struct HeadlessSession {
    pub session_id: Option<String>,
    pub backend: HeadlessSessionBackend,
    /// The state of a Codex session.
    pub codex: Option<CodexProtocolState>,
    /// Whether input can still be sent to the process.
    pub stdin_open: bool,
    /// Whether the process is left alone when the session is dropped.
    pub detach_on_drop: bool,
}

impl HeadlessSession {
    /// A session with a process of its own that has just been started.
    pub fn claude() -> (r: HeadlessSession)
        ensures
            r.session_id is None,
            r.backend is Claude,
            r.codex is None,
            r.stdin_open,
            !r.detach_on_drop,
    {
        HeadlessSession {
            session_id: None,
            backend: HeadlessSessionBackend::Claude,
            codex: None,
            stdin_open: true,
            detach_on_drop: false,
        }
    }

    /// A session of Codex, in the given state.
    pub fn codex(state: CodexProtocolState) -> (r: HeadlessSession)
        ensures
            r.session_id is None,
            r.backend is Codex,
            r.codex == Some(state),
            !r.stdin_open,
            !r.detach_on_drop,
    {
        HeadlessSession {
            session_id: None,
            backend: HeadlessSessionBackend::Codex,
            codex: Some(state),
            stdin_open: false,
            detach_on_drop: false,
        }
    }

    pub fn is_codex_session(&self) -> (r: bool)
        ensures
            r == (self.backend is Codex),
    {
        match self.backend {
            HeadlessSessionBackend::Codex => true,
            HeadlessSessionBackend::Claude => false,
        }
    }

    pub fn should_wait_for_exit_on_result(&self) -> (r: bool)
        ensures
            r == (self.backend is Claude),
    {
        self.backend.should_wait_for_exit()
    }

    pub fn session_id(&self) -> (r: Option<&str>)
        ensures
            opt_str(r) == opt(self.session_id),
    {
        match &self.session_id {
            Some(id) => Some(id.as_str()),
            None => None,
        }
    }

    /// Closes the input of a session that has its own.
    pub fn close_stdin(&mut self)
        ensures
            *final(self) == (HeadlessSession {
                stdin_open: old(self).stdin_open && !(old(self).backend is Claude),
                ..*old(self)
            }),
    {
        match self.backend {
            HeadlessSessionBackend::Claude => {
                self.stdin_open = false;
            },
            HeadlessSessionBackend::Codex => {},
        }
    }

    /// Leaves the process alone when the session is dropped.
    pub fn detach_on_drop(&mut self)
        ensures
            *final(self) == (HeadlessSession { detach_on_drop: true, ..*old(self) }),
    {
        self.detach_on_drop = true;
    }

    /// Takes in what a line of the process's output was read as: gives the event, unless the line
    /// could not be read or its event is of an unknown type. The first event tells the
    /// session's identifier.
    pub fn next_claude_event(&mut self, read: Option<StreamEvent>) -> (r: Option<StreamEvent>)
        ensures
            r == (match read {
                Some(event) => if event is Unknown {
                    None
                } else {
                    Some(event)
                },
                None => None,
            }),
            opt(final(self).session_id) == (match opt_event(read) {
                Some(EventView::System { subtype, session_id, .. }) => if subtype == "init"@ {
                    session_id
                } else {
                    opt(old(self).session_id)
                },
                _ => opt(old(self).session_id),
            }),
            *final(self) == (HeadlessSession { session_id: final(self).session_id, ..*old(self) }),
    {
        match read {
            None => None,
            Some(StreamEvent::Unknown) => None,
            Some(event) => {
                if let StreamEvent::System { subtype, session_id, .. } = &event {
                    if same(subtype.as_str(), "init") {
                        self.session_id = session_id.clone();
                    }
                }
                Some(event)
            },
        }
    }

    /// What is known of the thread of a Codex session.
    pub open spec fn thread(self) -> Option<CodexView> {
        match self.codex {
            Some(state) => Some(state@),
            None => None,
        }
    }

    /// The session is as before but for its Codex state and its identifier.
    pub open spec fn only_thread_differs(self, before: HeadlessSession) -> bool {
        self == (HeadlessSession { codex: self.codex, session_id: self.session_id, ..before })
    }

    /// What has to be sent before the session can take messages: the parameters of the
    /// greeting, and the request that opens its thread. Nothing, once that was done or where
    /// there is no thread.
    pub fn ensure_ready(&self, version: &str) -> (r: Option<(Json, &'static str, Json)>)
        ensures
            match r {
                Some((greeting, method, params)) => self.thread() is Some
                    && !self.thread()->0.initialized && greeting.jv() == initialize_params(version@)
                    && (method@, params.jv()) == start_request(self.thread()->0),
                None => self.thread() is Some ==> self.thread()->0.initialized,
            },
    {
        match &self.codex {
            Some(state) => codex_ready_requests(state, version),
            None => None,
        }
    }

    /// Takes in a message for the session: gives the line to write to a process of its own;
    /// for Codex the message waits for its turn.
    pub fn send_message(&mut self, content: &str) -> (r: Option<String>)
        ensures
            match old(self).backend {
                HeadlessSessionBackend::Claude => *final(self) == *old(self) && opt(r) == Some(
                    printed_text(user_message(content@)).push('\n'),
                ),
                HeadlessSessionBackend::Codex => r is None && final(self).only_thread_differs(
                    *old(self),
                ) && final(self).session_id == old(self).session_id && final(self).thread() == (
                match old(self).thread() {
                    Some(t) => Some(
                        CodexView { pending_messages: t.pending_messages.push(content@), ..t },
                    ),
                    None => None,
                }),
            },
    {
        match self.backend {
            HeadlessSessionBackend::Claude => Some(claude_message_line(content)),
            HeadlessSessionBackend::Codex => {
                if let Some(mut state) = self.codex.take() {
                    codex_queue_message(&mut state, content);
                    self.codex = Some(state);
                }
                None
            },
        }
    }

    /// Begins the next turn of a Codex session, where one can begin: gives the message and the
    /// parameters of the request. This is repeated until there is nothing to begin.
    pub fn codex_dispatch_pending_turns(&mut self) -> (r: Result<Option<(String, Json)>, String>)
        ensures
            final(self).only_thread_differs(*old(self)),
            final(self).session_id == old(self).session_id,
            match old(self).thread() {
                None => *final(self) == *old(self) && (r matches Err(message) && message@
                    == "not a codex session"@),
                Some(t) => final(self).thread() is Some && match r {
                    Err(_) => false,
                    Ok(Some((prompt, params))) => turn_can_begin(t) && prompt@
                        == t.pending_messages[0] && params.jv() == turn_params(t, prompt@)
                        && final(self).thread()->0 == (CodexView {
                        turn_in_progress: true,
                        latest_agent_message: None,
                        pending_messages: t.pending_messages.skip(1),
                        ..t
                    }),
                    Ok(None) => !turn_can_begin(t) && final(self).thread()->0 == t,
                },
            },
    {
        match self.codex.take() {
            Some(mut state) => {
                let turn = codex_begin_turn(&mut state);
                self.codex = Some(state);
                Ok(turn)
            },
            None => Err("not a codex session".to_owned()),
        }
    }

    /// Takes in a message of the Codex server for the session: gives the event that it comes
    /// to, where there is one, and what is to be done before the event is handed on.
    pub fn next_codex_event(&mut self, parsed: &Json) -> (r: (Option<StreamEvent>, CodexPostAction))
        ensures
            final(self).only_thread_differs(*old(self)),
            match old(self).thread() {
                None => *final(self) == *old(self) && r.0 is None && r.1 is Nothing,
                Some(t) => {
                    let step = codex_step(parsed.jv(), t, opt(old(self).session_id));
                    &&& opt_event(r.0) == step.event
                    &&& r.1 == step.action
                    &&& final(self).thread() == Some(step.state)
                    &&& opt(final(self).session_id) == step.session_id
                },
            },
    {
        match self.codex.take() {
            Some(mut state) => {
                let mut id = self.session_id.take();
                let r = codex_translate_event(parsed, &mut state, &mut id);
                self.codex = Some(state);
                self.session_id = id;
                r
            },
            None => (None, CodexPostAction::Nothing),
        }
    }
}

/// The message of a user in the form in which the process reads it.
pub open spec fn user_message(content: Seq<char>) -> JsonView {
    no_fields().with("type"@, JsonView::Str("user"@)).with(
        "message"@,
        no_fields().with("role"@, JsonView::Str("user"@)).with("content"@, JsonView::Str(content)),
    )
}

/// The line that sends a message to the process of a session.
pub fn claude_message_line(content: &str) -> (r: String)
    ensures
        r@ == printed_text(user_message(content@)).push('\n'),
{
    let message = Json::object().with("role", Json::text("user")).with(
        "content",
        Json::text(content),
    );
    let mut line = print(&Json::object().with("type", Json::text("user")).with("message", message));
    line.push('\n');
    line
}

/// What a session is resumed with: the configuration of another session, kept on disk, with
/// neither prompt nor schema.
pub fn resume_config(session_id: &str, base: HeadlessConfig) -> (r: HeadlessConfig)
    ensures
        opt(r.resume_session_id) == Some(session_id@),
        r.persist_session,
        r.system_prompt@ == ""@,
        r.json_schema is None,
        r == (HeadlessConfig {
            resume_session_id: r.resume_session_id,
            persist_session: r.persist_session,
            system_prompt: r.system_prompt,
            json_schema: r.json_schema,
            ..base
        }),
{
    HeadlessConfig {
        resume_session_id: Some(session_id.to_owned()),
        persist_session: true,
        system_prompt: "".to_owned(),
        json_schema: None,
        ..base
    }
}

/// How a process is kept from writing where it should not.
pub enum Sandbox {
    /// Not at all.
    Open,
    /// By `sandbox-exec`, with these arguments before the program.
    SandboxExec(Vec<String>),
    /// By `bwrap`, with these directories writable.
    Bubblewrap(Vec<String>),
}

/// A process to start.
pub struct SpawnPlan {
    pub program: String,
    pub args: Vec<String>,
    pub cwd: Option<String>,
    /// Variables that are removed.
    pub env_removed: Vec<String>,
    /// Variables that are set, once those have been removed.
    pub env: TextMap,
}

/// Each directory bound to itself.
pub open spec fn binds(dirs: Seq<Seq<char>>) -> Seq<Seq<char>>
    decreases dirs.len(),
{
    if dirs.len() == 0 {
        Seq::empty()
    } else {
        binds(dirs.drop_last()) + seq!["--bind"@, dirs.last(), dirs.last()]
    }
}

/// The program and the arguments that run `binary` with `args` in a sandbox.
pub open spec fn sandboxed(sandbox: Sandbox, binary: Seq<char>, args: Seq<Seq<char>>) -> (
    Seq<char>,
    Seq<Seq<char>>,
) {
    match sandbox {
        Sandbox::Open => (binary, args),
        Sandbox::SandboxExec(prefix) => (
            "sandbox-exec"@,
            texts(prefix@) + seq![binary] + args,
        ),
        Sandbox::Bubblewrap(dirs) => (
            "bwrap"@,
            seq!["--ro-bind"@, "/"@, "/"@] + binds(texts(dirs@)) + seq![
                "--dev"@,
                "/dev"@,
                "--proc"@,
                "/proc"@,
                "--"@,
                binary,
            ] + args,
        ),
    }
}

fn add_binds(args: &mut Vec<String>, dirs: &Vec<String>)
    ensures
        texts(final(args)@) == texts(old(args)@) + binds(texts(dirs@)),
{
    let ghost before = texts(args@);
    let ghost all = texts(dirs@);
    let mut i: usize = 0;
    assert(before =~= before + binds(all.take(0)));
    while i < dirs.len()
        invariant
            i <= dirs.len(),
            all == texts(dirs@),
            texts(args@) == before + binds(all.take(i as int)),
        decreases dirs.len() - i,
    {
        proof {
            assert(all.take(i + 1).drop_last() =~= all.take(i as int));
            assert(all.take(i + 1).last() == dirs@[i as int]@);
        }
        let ghost now = texts(args@);
        add_one(args, "--bind");
        add_pair(args, dirs[i].as_str(), dirs[i].as_str());
        assert(texts(args@) =~= before + binds(all.take(i + 1)));
        i += 1;
    }
    assert(all.take(i as int) =~= all);
}

fn sandbox_command(sandbox: &Sandbox, binary: &str, args: &Vec<String>) -> (r: (
    String,
    Vec<String>,
))
    ensures
        (r.0@, texts(r.1@)) == sandboxed(*sandbox, binary@, texts(args@)),
{
    let mut out = no_args();
    match sandbox {
        Sandbox::Open => {
            add_all(&mut out, args);
            assert(texts(out@) =~= texts(args@));
            (binary.to_owned(), out)
        },
        Sandbox::SandboxExec(prefix) => {
            add_all(&mut out, prefix);
            add_one(&mut out, binary);
            add_all(&mut out, args);
            assert(texts(out@) =~= texts(prefix@) + seq![binary@] + texts(args@));
            ("sandbox-exec".to_owned(), out)
        },
        Sandbox::Bubblewrap(dirs) => {
            add_one(&mut out, "--ro-bind");
            add_pair(&mut out, "/", "/");
            assert(texts(out@) =~= seq!["--ro-bind"@, "/"@, "/"@]);
            add_binds(&mut out, dirs);
            let ghost now = texts(out@);
            add_pair(&mut out, "--dev", "/dev");
            add_pair(&mut out, "--proc", "/proc");
            add_pair(&mut out, "--", binary);
            assert(texts(out@) =~= now + seq![
                "--dev"@,
                "/dev"@,
                "--proc"@,
                "/proc"@,
                "--"@,
                binary@,
            ]);
            add_all(&mut out, args);
            ("bwrap".to_owned(), out)
        },
    }
}

/// The variables that are set on the process of a session: those of the configuration
/// count before the others.
pub open spec fn claude_spawn_env(c: HeadlessConfig) -> Map<Seq<char>, Seq<char>> {
    let base = Map::<Seq<char>, Seq<char>>::empty().insert("DISABLE_AUTOUPDATER"@, "1"@);
    let teamed = if c.team_name is Some && c.auth_provider is Claude {
        base.insert("CLAUDE_CODE_EXPERIMENTAL_AGENT_TEAMS"@, "1"@)
    } else {
        base
    };
    teamed.union_prefer_right(c.env@)
}

/// The process of a session that has one of its own.
pub fn claude_spawn_plan(config: &HeadlessConfig, sandbox: &Sandbox, names: &Names) -> (r:
    SpawnPlan)
    ensures
        (r.program@, texts(r.args@)) == sandboxed(
            *sandbox,
            Platform::of(config.auth_provider).program(*names),
            claude_headless_args(*config),
        ),
        opt(r.cwd) == opt(config.cwd),
        texts(r.env_removed@) == seq!["MIDTOWN_AGENT"@, "CLAUDECODE"@],
        r.env@ == claude_spawn_env(*config),
{
    let binary = Platform::from_provider(config.auth_provider).binary_name(names);
    let (program, args) = sandbox_command(sandbox, binary, &build_claude_headless_args(config));
    let mut env_removed = no_args();
    add_pair(&mut env_removed, "MIDTOWN_AGENT", "CLAUDECODE");
    assert(texts(env_removed@) =~= seq!["MIDTOWN_AGENT"@, "CLAUDECODE"@]);
    let mut env = TextMap::new();
    env.insert("DISABLE_AUTOUPDATER", "1");
    let is_claude = match config.auth_provider {
        AuthProvider::Claude => true,
        _ => false,
    };
    if config.team_name.is_some() && is_claude {
        env.insert("CLAUDE_CODE_EXPERIMENTAL_AGENT_TEAMS", "1");
    }
    env.insert_all(&config.env);
    SpawnPlan { program, args, cwd: config.cwd.clone(), env_removed, env }
}

/// The process of the server that all Codex sessions share.
pub fn codex_spawn_plan() -> (r: SpawnPlan)
    ensures
        r.program@ == "codex"@,
        texts(r.args@) == seq!["app-server"@],
        r.cwd is None,
        r.env_removed@.len() == 0,
        r.env@ == Map::<Seq<char>, Seq<char>>::empty().insert("DISABLE_AUTOUPDATER"@, "1"@),
{
    let mut env = TextMap::new();
    env.insert("DISABLE_AUTOUPDATER", "1");
    SpawnPlan {
        program: "codex".to_owned(),
        args: build_codex_headless_args(),
        cwd: None,
        env_removed: Vec::new(),
        env,
    }
}

/// The directory that a session works in, for the sandbox.
pub fn sandbox_root(config: &HeadlessConfig) -> (r: String)
    ensures
        r@ == (match opt(config.cwd) {
            Some(dir) => dir,
            None => "/tmp"@,
        }),
{
    match &config.cwd {
        Some(dir) => dir.clone(),
        None => "/tmp".to_owned(),
    }
}

/// The project whose sandbox configuration applies.
pub fn sandbox_project(config: &HeadlessConfig) -> (r: String)
    ensures
        r@ == (match opt(config.project_name) {
            Some(name) => name,
            None => "midtown"@,
        }),
{
    match &config.project_name {
        Some(name) => name.clone(),
        None => "midtown".to_owned(),
    }
}

/// What came of a single query.
pub struct HeadlessResult {
    pub result: Option<String>,
    /// The cost in US dollars, as a decimal number.
    pub cost_usd: Option<String>,
    pub duration_ms: Option<u64>,
    pub is_error: bool,
    pub session_id: Option<String>,
}

/// What the result of a query says.
#[verifier::ext_equal]
pub struct ResultView {
    pub result: Option<Seq<char>>,
    pub cost_usd: Option<Seq<char>>,
    pub duration_ms: Option<u64>,
    pub is_error: bool,
    pub session_id: Option<Seq<char>>,
}

impl View for HeadlessResult {
    type V = ResultView;

    open spec fn view(&self) -> ResultView {
        ResultView {
            result: opt(self.result),
            cost_usd: opt(self.cost_usd),
            duration_ms: self.duration_ms,
            is_error: self.is_error,
            session_id: opt(self.session_id),
        }
    }
}

/// What is known of a query before any event.
pub open spec fn nothing_yet() -> ResultView {
    ResultView { result: None, cost_usd: None, duration_ms: None, is_error: false, session_id: None }
}

/// What is known of a query after an event, and whether that was its result. `session_id` is
/// the session's identifier once it has taken the event in.
pub open spec fn after_event(
    before: ResultView,
    event: EventView,
    session_id: Option<Seq<char>>,
) -> (ResultView, bool) {
    match event {
        EventView::System { subtype, .. } => if subtype == "init"@ {
            (ResultView { session_id, ..before }, false)
        } else {
            (before, false)
        },
        EventView::Result {
            is_error,
            result,
            duration_ms,
            total_cost_usd,
            session_id: own,
            ..
        } => (
            ResultView {
                result,
                cost_usd: total_cost_usd,
                duration_ms,
                is_error,
                session_id: if before.session_id is None {
                    own
                } else {
                    before.session_id
                },
            },
            true,
        ),
        _ => (before, false),
    }
}

/// What is known of a query once the events have come in this order, each with the session's
/// identifier after it: the events behind the result do not count.
pub open spec fn gathered(events: Seq<(EventView, Option<Seq<char>>)>) -> (ResultView, bool)
    decreases events.len(),
{
    if events.len() == 0 {
        (nothing_yet(), false)
    } else {
        let (before, done) = gathered(events.drop_last());
        if done {
            (before, true)
        } else {
            after_event(before, events.last().0, events.last().1)
        }
    }
}

impl HeadlessResult {
    /// What is known of a query before any event.
    pub fn new() -> (r: HeadlessResult)
        ensures
            r@ == nothing_yet(),
    {
        HeadlessResult {
            result: None,
            cost_usd: None,
            duration_ms: None,
            is_error: false,
            session_id: None,
        }
    }

    /// Takes in an event; says whether it was the result.
    pub fn take_in(&mut self, event: StreamEvent, session_id: Option<&str>) -> (done: bool)
        ensures
            (final(self)@, done) == after_event(old(self)@, event@, opt_str(session_id)),
    {
        match event {
            StreamEvent::System { subtype, .. } => {
                if same(subtype.as_str(), "init") {
                    self.session_id = match session_id {
                        Some(id) => Some(id.to_owned()),
                        None => None,
                    };
                }
                false
            },
            StreamEvent::Result {
                is_error,
                result,
                duration_ms,
                total_cost_usd,
                session_id: own,
                ..
            } => {
                self.result = result;
                self.cost_usd = total_cost_usd;
                self.duration_ms = duration_ms;
                self.is_error = is_error;
                if self.session_id.is_none() {
                    self.session_id = own;
                }
                true
            },
            _ => false,
        }
    }
}

/// What is done to a session before its events are awaited, and after.
#[derive(Debug, Clone, Copy, PartialEq, Eq, Structural)]
pub struct QueryManners {
    /// Close the input once the prompt is sent.
    pub close_input: bool,
    /// Wait for the process to end once the result is there; else end the session.
    pub wait_for_exit: bool,
}

/// How a single query treats its session.
pub fn query_manners(session: &HeadlessSession) -> (r: QueryManners)
    ensures
        r.close_input == (session.backend is Claude),
        r.wait_for_exit == (session.backend is Claude),
{
    let own_process = session.should_wait_for_exit_on_result();
    QueryManners { close_input: own_process, wait_for_exit: own_process }
}

/// The result of a single query, from the events of its session, each with the session's
/// identifier after it.
pub fn execute(events: Vec<(StreamEvent, Option<String>)>) -> (r: HeadlessResult)
    ensures
        r@ == gathered(event_views(events@)).0,
{
    let ghost all = event_views(events@);
    let mut result = HeadlessResult::new();
    let mut done = false;
    assert(all.take(0) =~= Seq::<(EventView, Option<Seq<char>>)>::empty());
    for pair in it: events
        invariant
            event_views(it.seq()) == all,
            (result@, done) == gathered(all.take(it.index() as int)),
    {
        proof {
            let i = it.index() as int;
            assert(all.take(i + 1).drop_last() =~= all.take(i));
            assert(all.take(i + 1).last() == (pair.0@, opt(pair.1)));
        }
        if !done {
            let (event, id) = pair;
            let id_text = match &id {
                Some(s) => Some(s.as_str()),
                None => None,
            };
            done = result.take_in(event, id_text);
        }
    }
    assert(all.take(all.len() as int) =~= all);
    result
}

pub open spec fn event_views(s: Seq<(StreamEvent, Option<String>)>) -> Seq<
    (EventView, Option<Seq<char>>),
> {
    s.map_values(|e: (StreamEvent, Option<String>)| (e.0@, opt(e.1)))
}

/// What is said when no result came in time.
pub fn timeout_message(secs: u64) -> (r: String)
    ensures
        r@ == "headless session timed out after "@ + decimal(secs as nat) + "s"@,
{
    concat3("headless session timed out after ", to_decimal(secs).as_str(), "s")
}

/// Nothing that comes behind the result of a query changes it.
pub proof fn events_behind_the_result_do_not_count(
    events: Seq<(EventView, Option<Seq<char>>)>,
    more: (EventView, Option<Seq<char>>),
)
    requires
        gathered(events).1,
    ensures
        gathered(events.push(more)) == gathered(events),
{
    assert(events.push(more).drop_last() =~= events);
}

/// The identifier that the first event tells stands, whatever the result says of it.
pub proof fn identifier_of_the_first_event_stands(
    before: ResultView,
    event: EventView,
    id: Option<Seq<char>>,
    session_id: Seq<char>,
)
    requires
        before.session_id == Some(session_id),
        event is Result,
    ensures
        after_event(before, event, id).0.session_id == Some(session_id),
{
}

/// Adds a line of error output to those that were read, unless it is blank.
pub fn keep_stderr_line(lines: &mut Vec<String>, line: &str)
    ensures
        texts(final(lines)@) == (if trim(line@).len() == 0 {
            texts(old(lines)@)
        } else {
            texts(old(lines)@).push(trim(line@))
        }),
{
    let body = trimmed(line);
    if !body.as_str().is_empty() {
        lines.push(body);
    }
    assert(texts(lines@) =~= (if trim(line@).len() == 0 {
        texts(old(lines)@)
    } else {
        texts(old(lines)@).push(trim(line@))
    }));
}

/// A message of a user tells that it is one, and what the user says.
pub proof fn user_messages_carry_their_content(content: Seq<char>)
    ensures
        user_message(content).field("type"@) == Some(JsonView::Str("user"@)),
        user_message(content).field("message"@) matches Some(m) && m.field("role"@) == Some(
            JsonView::Str("user"@),
        ) && m.field("content"@) == Some(JsonView::Str(content)),
{
    reveal_strlit("type");
    reveal_strlit("message");
    reveal_strlit("role");
    reveal_strlit("content");
    assert("type"@.len() == 4);
    assert("message"@.len() == 7);
    assert("role"@.len() == 4);
    assert("content"@.len() == 7);
    assert("role"@[0] == 'r');
    assert("type"@[0] == 't');
    assert("content"@[0] == 'c');
    assert("message"@[0] == 'm');
}

/// Each directory is bound to itself, in their order.
pub proof fn directories_are_bound_to_themselves(dirs: Seq<Seq<char>>, i: int)
    ensures
        binds(dirs).len() == 3 * dirs.len(),
        0 <= i < dirs.len() ==> binds(dirs)[3 * i] == "--bind"@,
        0 <= i < dirs.len() ==> binds(dirs)[3 * i + 1] == dirs[i],
        0 <= i < dirs.len() ==> binds(dirs)[3 * i + 2] == dirs[i],
    decreases dirs.len(),
{
    if dirs.len() > 0 {
        let init = dirs.drop_last();
        directories_are_bound_to_themselves(init, i);
        let r = binds(dirs);
        let before = binds(init);
        assert(r == before + seq!["--bind"@, dirs.last(), dirs.last()]);
        if 0 <= i < init.len() {
            assert(r[3 * i] == before[3 * i]);
            assert(r[3 * i + 1] == before[3 * i + 1]);
            assert(r[3 * i + 2] == before[3 * i + 2]);
            assert(init[i] == dirs[i]);
        } else if i == init.len() {
            assert(r[3 * i] == "--bind"@);
            assert(r[3 * i + 1] == dirs.last());
            assert(r[3 * i + 2] == dirs.last());
        }
    }
}

/// Whatever the sandbox, the program runs with its own arguments, which come last, right behind
/// its name. `bwrap` binds the root so that it can be read only, and the given directories so
/// that they can be written.
pub proof fn sandboxes_run_the_program_with_its_arguments(
    prefix: Vec<String>,
    dirs: Vec<String>,
    binary: Seq<char>,
    args: Seq<Seq<char>>,
)
    ensures
        sandboxed(Sandbox::Open, binary, args) == (binary, args),
        sandboxed(Sandbox::SandboxExec(prefix), binary, args).0 == "sandbox-exec"@,
        sandboxed(Sandbox::SandboxExec(prefix), binary, args).1 == texts(prefix@) + seq![binary]
            + args,
        sandboxed(Sandbox::Bubblewrap(dirs), binary, args).0 == "bwrap"@,
        sandboxed(Sandbox::Bubblewrap(dirs), binary, args).1 == seq!["--ro-bind"@, "/"@, "/"@]
            + binds(texts(dirs@)) + seq!["--dev"@, "/dev"@, "--proc"@, "/proc"@, "--"@, binary]
            + args,
{
}

/// A process gets every variable of its configuration, as that sets it. Besides those it gets
/// one that keeps it from updating itself, and, as a member of a team of Anthropic's program,
/// one that switches teams on.
pub proof fn processes_get_the_variables_of_their_configuration(c: HeadlessConfig, k: Seq<char>)
    ensures
        c.env@.contains_key(k) ==> claude_spawn_env(c).contains_key(k) && claude_spawn_env(c)[k]
            == c.env@[k],
        claude_spawn_env(c).contains_key(k) && !c.env@.contains_key(k) ==> (k
            == "DISABLE_AUTOUPDATER"@ || (k == "CLAUDE_CODE_EXPERIMENTAL_AGENT_TEAMS"@
            && c.team_name is Some && c.auth_provider is Claude)) && claude_spawn_env(c)[k] == "1"@,
        claude_spawn_env(c).contains_key("DISABLE_AUTOUPDATER"@),
        c.team_name is Some && c.auth_provider is Claude ==> claude_spawn_env(c).contains_key(
            "CLAUDE_CODE_EXPERIMENTAL_AGENT_TEAMS"@,
        ),
{
}

/// An event changes what is known of a query only where it opens the session or is the result.
pub proof fn only_the_opening_and_the_result_count(
    before: ResultView,
    event: EventView,
    id: Option<Seq<char>>,
)
    ensures
        after_event(before, event, id).1 <==> event is Result,
        event matches EventView::System { subtype, .. } && subtype == "init"@ ==> after_event(
            before,
            event,
            id,
        ).0 == (ResultView { session_id: id, ..before }),
        event matches EventView::System { subtype, .. } && subtype != "init"@ ==> after_event(
            before,
            event,
            id,
        ).0 == before,
        event is Assistant || event is User || event is Progress || event is Unknown ==> after_event(
            before,
            event,
            id,
        ).0 == before,
{
}

/// The result of a query tells what it came to, its cost, its duration, whether it failed, and
/// its session where that was not known yet.
pub proof fn results_are_told_as_they_came(
    before: ResultView,
    subtype: Seq<char>,
    is_error: bool,
    result: Option<Seq<char>>,
    duration_ms: Option<u64>,
    total_cost_usd: Option<Seq<char>>,
    own: Option<Seq<char>>,
    usage: Option<TokenUsage>,
    extra: JsonView,
    id: Option<Seq<char>>,
)
    ensures
        ({
            let event = EventView::Result {
                subtype,
                is_error,
                result,
                duration_ms,
                total_cost_usd,
                session_id: own,
                usage,
                extra,
            };
            let after = after_event(before, event, id).0;
            &&& after.result == result
            &&& after.cost_usd == total_cost_usd
            &&& after.duration_ms == duration_ms
            &&& after.is_error == is_error
            &&& before.session_id is Some ==> after.session_id == before.session_id
            &&& before.session_id is None ==> after.session_id == own
        }),
{
}

/// As long as no result has come, a query has none, is no failure, and is not done.
pub proof fn queries_without_a_result_are_not_done(events: Seq<(EventView, Option<Seq<char>>)>)
    requires
        forall|i: int| 0 <= i < events.len() ==> !((#[trigger] events[i]).0 is Result),
    ensures
        !gathered(events).1,
        gathered(events).0.result is None,
        gathered(events).0.cost_usd is None,
        gathered(events).0.duration_ms is None,
        !gathered(events).0.is_error,
        (forall|i: int|
            0 <= i < events.len() ==> !((#[trigger] events[i]).0 matches EventView::System {
                subtype,
                ..
            } && subtype == "init"@)) ==> gathered(events).0.session_id is None,
    decreases events.len(),
{
    if events.len() > 0 {
        let init = events.drop_last();
        assert forall|i: int| 0 <= i < init.len() implies !((#[trigger] init[i]).0 is Result) by {
            assert(init[i] == events[i]);
        }
        queries_without_a_result_are_not_done(init);
        assert(!(events[events.len() - 1].0 is Result));
        if forall|i: int|
            0 <= i < events.len() ==> !((#[trigger] events[i]).0 matches EventView::System {
                subtype,
                ..
            } && subtype == "init"@) {
            assert forall|i: int| 0 <= i < init.len() implies !((#[trigger] init[i]).0 matches EventView::System {
                subtype,
                ..
            } && subtype == "init"@) by {
                assert(init[i] == events[i]);
            }
            assert(!(events[events.len() - 1].0 matches EventView::System { subtype, .. } && subtype
                == "init"@));
        }
    }
}

/// The first result is that of the query, whatever comes behind it: `before` are the events
/// before it, and `behind` those behind it.
pub proof fn the_first_result_is_that_of_the_query(
    before: Seq<(EventView, Option<Seq<char>>)>,
    first: (EventView, Option<Seq<char>>),
    behind: Seq<(EventView, Option<Seq<char>>)>,
)
    requires
        forall|i: int| 0 <= i < before.len() ==> !((#[trigger] before[i]).0 is Result),
        first.0 is Result,
    ensures
        gathered(before.push(first) + behind).1,
        gathered(before.push(first) + behind).0 == after_event(
            gathered(before).0,
            first.0,
            first.1,
        ).0,
        first.0 matches EventView::Result { is_error, result, total_cost_usd, duration_ms, .. } ==> {
            &&& gathered(before.push(first) + behind).0.is_error == is_error
            &&& gathered(before.push(first) + behind).0.result == result
            &&& gathered(before.push(first) + behind).0.cost_usd == total_cost_usd
            &&& gathered(before.push(first) + behind).0.duration_ms == duration_ms
        },
    decreases behind.len(),
{
    let all = before.push(first) + behind;
    if behind.len() == 0 {
        assert(all =~= before.push(first));
        assert(all.drop_last() =~= before);
        queries_without_a_result_are_not_done(before);
    } else {
        the_first_result_is_that_of_the_query(before, first, behind.drop_last());
        assert(all.drop_last() =~= before.push(first) + behind.drop_last());
    }
}

/// A session is known by the identifier that the event that opened it told last.
pub proof fn sessions_are_known_by_what_opened_them(
    events: Seq<(EventView, Option<Seq<char>>)>,
    opening: (EventView, Option<Seq<char>>),
)
    requires
        forall|i: int| 0 <= i < events.len() ==> !((#[trigger] events[i]).0 is Result),
        opening.0 matches EventView::System { subtype, .. } && subtype == "init"@,
    ensures
        gathered(events.push(opening)).0.session_id == opening.1,
{
    queries_without_a_result_are_not_done(events);
    assert(events.push(opening).drop_last() =~= events);
}

/// Every field of an event is told as it is.
pub proof fn events_are_told_as_they_are(e: StreamEvent)
    ensures
        e matches StreamEvent::Result {
            subtype,
            is_error,
            result,
            duration_ms,
            total_cost_usd,
            session_id,
            usage,
            extra,
        } ==> (e@ matches EventView::Result {
            subtype: s,
            is_error: failed,
            result: r,
            duration_ms: d,
            total_cost_usd: c,
            session_id: id,
            usage: u,
            extra: x,
        } && s == subtype@ && failed == is_error && r == opt(result) && d == duration_ms && c == opt(
            total_cost_usd,
        ) && id == opt(session_id) && u == usage && x == extra.jv()),
        e matches StreamEvent::System { subtype, session_id, model, extra } ==> (
        e@ matches EventView::System { subtype: s, session_id: id, model: m, extra: x } && s
            == subtype@ && id == opt(session_id) && m == opt(model) && x == extra.jv()),
        e matches StreamEvent::Assistant { message, session_id, extra } ==> (
        e@ matches EventView::Assistant { message: m, session_id: id, extra: x } && m == message.jv()
            && id == opt(session_id) && x == extra.jv()),
        e matches StreamEvent::User { message, extra } ==> (e@ matches EventView::User {
            message: m,
            extra: x,
        } && m == message.jv() && x == extra.jv()),
        e is Progress <==> e@ is Progress,
        e is Unknown <==> e@ is Unknown,
{
}

/// What the thread of a session does to it leaves everything else alone.
pub proof fn threads_change_nothing_else(after: HeadlessSession, before: HeadlessSession)
    requires
        after.only_thread_differs(before),
    ensures
        after.backend == before.backend,
        after.stdin_open == before.stdin_open,
        after.detach_on_drop == before.detach_on_drop,
{
}

/// Events keep their order, each with the identifier that belongs to it.
pub proof fn events_keep_their_order(s: Seq<(StreamEvent, Option<String>)>, e: StreamEvent)
    ensures
        event_views(s).len() == s.len(),
        forall|i: int|
            0 <= i < s.len() ==> #[trigger] event_views(s)[i] == (s[i].0@, opt(s[i].1)),
        opt_event(Some(e)) == Some(e@),
        opt_event(None) is None,
        nothing_yet().result is None,
        nothing_yet().session_id is None,
        !nothing_yet().is_error,
{
}

} // verus!
