//! The command lines of the agents' programs, for headless sessions and for terminals.

use vstd::prelude::*;

use crate::args::{
    add_all, add_flag, add_pair, add_pair_when, add_repeated, add_when, flag, no_args,
    repeated, only_if,
};
use crate::auth::AuthProvider;
use crate::headless::HeadlessConfig;
use crate::json::Json;
use crate::json_text::{print, printed_text};
use crate::launch::{LaunchConfig, SessionMode};
use crate::names::Names;
use crate::stamp::{is_uuid, new_uuid};
use crate::text::{concat2, concat3, join, joined, opt, opt_str, texts};

verus! {

/// The program that runs a session.
#[derive(Debug, Clone, Copy, PartialEq, Eq, Structural)]
pub enum Platform {
    Claude,
    Codex,
}

impl Platform {
    /// The platform of a provider. z.ai runs the program of Anthropic.
    pub open spec fn of(provider: AuthProvider) -> Platform {
        match provider {
            AuthProvider::Codex => Platform::Codex,
            _ => Platform::Claude,
        }
    }

    pub open spec fn program(self, names: Names) -> Seq<char> {
        match self {
            Platform::Claude => names.program@,
            Platform::Codex => "codex"@,
        }
    }

    pub fn from_provider(provider: AuthProvider) -> (r: Platform)
        ensures
            r == Platform::of(provider),
    {
        match provider {
            AuthProvider::Codex => Platform::Codex,
            _ => Platform::Claude,
        }
    }

    pub fn binary_name<'a>(&self, names: &'a Names) -> (r: &'a str)
        ensures
            r@ == self.program(*names),
    {
        match self {
            Platform::Claude => names.program.as_str(),
            Platform::Codex => "codex",
        }
    }
}

/// The arguments of every session of Anthropic's program.
pub open spec fn claude_common_args(model: Seq<char>, dirs: Seq<Seq<char>>) -> Seq<Seq<char>> {
    seq!["--dangerously-skip-permissions"@] + repeated("--add-dir"@, dirs) + seq!["--model"@, model]
}

/// The arguments of every terminal session of Codex.
pub open spec fn codex_common_args(model: Option<Seq<char>>, dirs: Seq<Seq<char>>) -> Seq<
    Seq<char>,
> {
    seq!["--dangerously-bypass-approvals-and-sandbox"@] + repeated("--add-dir"@, dirs) + flag(
        "--model"@,
        model,
    )
}

pub fn build_claude_common_args(model: &str, additional_dirs: &Vec<String>) -> (r: Vec<String>)
    ensures
        texts(r@) == claude_common_args(model@, texts(additional_dirs@)),
{
    let mut args = no_args();
    start(&mut args, "--dangerously-skip-permissions");
    add_repeated(&mut args, "--add-dir", additional_dirs);
    add_pair(&mut args, "--model", model);
    args
}

fn start(args: &mut Vec<String>, first: &str)
    requires
        texts(old(args)@).len() == 0,
    ensures
        texts(final(args)@) == seq![first@],
{
    crate::args::add_one(args, first);
    assert(texts(args@) =~= seq![first@]);
}

pub fn build_codex_common_args(model: Option<&str>, additional_dirs: &Vec<String>) -> (r: Vec<
    String,
>)
    ensures
        texts(r@) == codex_common_args(opt_str(model), texts(additional_dirs@)),
{
    let mut args = no_args();
    start(&mut args, "--dangerously-bypass-approvals-and-sandbox");
    add_repeated(&mut args, "--add-dir", additional_dirs);
    let model = match model {
        Some(m) => Some(m.to_owned()),
        None => None,
    };
    add_flag(&mut args, "--model", &model);
    args
}

/// The part of the arguments that starts a headless session or resumes one.
pub open spec fn session_args(c: HeadlessConfig) -> Seq<Seq<char>> {
    match opt(c.resume_session_id) {
        Some(id) => seq!["--resume"@, id] + only_if(
            c.fork_session,
            seq!["--fork-session"@] + flag("--session-id"@, opt(c.session_id)),
        ),
        None => seq!["-p"@] + seq!["--append-system-prompt"@, c.system_prompt@] + flag(
            "--json-schema"@,
            schema_text(c.json_schema),
        ) + flag("--session-id"@, opt(c.session_id)),
    }
}

/// The schema in the form in which it is passed.
pub open spec fn schema_text(schema: Option<Json>) -> Option<Seq<char>> {
    match schema {
        Some(j) => Some(printed_text(j.jv())),
        None => None,
    }
}

/// The flags of a headless session that is a member of a team.
pub open spec fn member_args(c: HeadlessConfig) -> Seq<Seq<char>> {
    flag("--agent-id"@, opt(c.agent_id)) + flag("--agent-name"@, opt(c.agent_name)) + flag(
        "--team-name"@,
        opt(c.team_name),
    )
}

/// The arguments of a headless session of Anthropic's program, behind the program's name.
pub open spec fn claude_headless_args(c: HeadlessConfig) -> Seq<Seq<char>> {
    let resumes = c.resume_session_id is Some;
    claude_common_args(c.model@, texts(c.additional_dirs@)) + only_if(
        !(resumes && c.fork_session),
        seq!["--setting-sources"@, "project,local"@],
    ) + flag("--agent"@, opt(c.agent_name)) + session_args(c) + member_args(c) + seq!["--verbose"@] + seq![
        "--output-format"@,
        "stream-json"@,
    ] + seq!["--input-format"@, "stream-json"@] + only_if(
        !c.persist_session,
        seq!["--no-session-persistence"@],
    ) + flag("--max-budget-usd"@, opt(c.max_budget_usd)) + only_if(
        !c.allow_tools,
        seq!["--tools"@, ""@],
    ) + only_if(
        c.disallowed_tools@.len() > 0,
        seq!["--disallowedTools"@, join(texts(c.disallowed_tools@), ","@)],
    ) + only_if(!resumes, flag("--settings"@, opt(c.settings_path)))
}

fn build_session_args(config: &HeadlessConfig) -> (r: Vec<String>)
    ensures
        texts(r@) == session_args(*config),
{
    let mut args = no_args();
    match &config.resume_session_id {
        Some(id) => {
            add_pair(&mut args, "--resume", id.as_str());
            assert(texts(args@) =~= seq!["--resume"@, id@]);
            let ghost head = texts(args@);
            if config.fork_session {
                crate::args::add_one(&mut args, "--fork-session");
                add_flag(&mut args, "--session-id", &config.session_id);
            }
            assert(texts(args@) =~= head + only_if(
                config.fork_session,
                seq!["--fork-session"@] + flag("--session-id"@, opt(config.session_id)),
            ));
        },
        None => {
            start(&mut args, "-p");
            add_pair(&mut args, "--append-system-prompt", config.system_prompt.as_str());
            let schema = match &config.json_schema {
                Some(j) => Some(print(j)),
                None => None,
            };
            add_flag(&mut args, "--json-schema", &schema);
            add_flag(&mut args, "--session-id", &config.session_id);
        },
    }
    args
}

fn build_member_args(config: &HeadlessConfig) -> (r: Vec<String>)
    ensures
        texts(r@) == member_args(*config),
{
    let mut args = no_args();
    add_flag(&mut args, "--agent-id", &config.agent_id);
    assert(texts(args@) =~= flag("--agent-id"@, opt(config.agent_id)));
    add_flag(&mut args, "--agent-name", &config.agent_name);
    add_flag(&mut args, "--team-name", &config.team_name);
    args
}

/// The arguments of a headless session of Anthropic's program, behind the program's name.
pub fn build_claude_headless_args(config: &HeadlessConfig) -> (r: Vec<String>)
    ensures
        texts(r@) == claude_headless_args(*config),
{
    let resumes = config.resume_session_id.is_some();
    let mut args = build_claude_common_args(config.model.as_str(), &config.additional_dirs);
    add_pair_when(
        &mut args,
        !(resumes && config.fork_session),
        "--setting-sources",
        "project,local",
    );
    add_flag(&mut args, "--agent", &config.agent_name);
    add_all(&mut args, &build_session_args(config));
    add_all(&mut args, &build_member_args(config));
    crate::args::add_one(&mut args, "--verbose");
    add_pair(&mut args, "--output-format", "stream-json");
    add_pair(&mut args, "--input-format", "stream-json");
    add_when(&mut args, !config.persist_session, "--no-session-persistence");
    add_flag(&mut args, "--max-budget-usd", &config.max_budget_usd);
    add_pair_when(&mut args, !config.allow_tools, "--tools", "");
    add_pair_when(
        &mut args,
        config.disallowed_tools.len() > 0,
        "--disallowedTools",
        joined(&config.disallowed_tools, ",").as_str(),
    );
    let ghost before = texts(args@);
    if !resumes {
        add_flag(&mut args, "--settings", &config.settings_path);
    }
    assert(texts(args@) =~= before + only_if(!resumes, flag("--settings"@, opt(config.settings_path))));
    args
}

/// A file whose content the shell puts in its place.
pub open spec fn cat_file(path: Seq<char>) -> Seq<char> {
    "\"$(cat "@ + path + ")\""@
}

fn cat_file_text(path: &str) -> (r: String)
    ensures
        r@ == cat_file(path@),
{
    concat3("\"$(cat ", path, ")\"")
}

/// The part of the arguments that says which session a terminal shows.
pub open spec fn terminal_session_args(mode: SessionMode, fresh_id: Option<Seq<char>>) -> Seq<
    Seq<char>,
> {
    match mode {
        SessionMode::Fresh => flag("--session-id"@, fresh_id),
        SessionMode::Resume => seq!["--continue"@],
        SessionMode::ResumeSession(id) => seq!["--resume"@, id@],
    }
}

/// The flags of a member of a team.
pub open spec fn team_args(c: LaunchConfig) -> Seq<Seq<char>> {
    match opt(c.team_name) {
        Some(team) => seq!["--agent-id"@, c.name@ + "@"@ + team] + seq!["--agent-name"@, c.name@]
            + seq!["--team-name"@, team],
        None => Seq::empty(),
    }
}

/// The arguments of a terminal session of Anthropic's program, with the program's name before
/// them. The prompt to begin with, where there is one, is the last.
pub open spec fn claude_interactive_args(
    c: LaunchConfig,
    settings_file: Seq<char>,
    prompt_file: Seq<char>,
    initial_prompt_file: Option<Seq<char>>,
    fresh_id: Option<Seq<char>>,
    names: Names,
) -> Seq<Seq<char>> {
    seq![names.program@] + claude_common_args(c.model@, texts(c.additional_dirs@)) + seq![
        "--setting-sources"@,
        "project,local"@,
    ] + terminal_session_args(c.session_mode, fresh_id) + team_args(c) + seq![
        "--settings"@,
        settings_file,
    ] + seq!["--append-system-prompt"@, cat_file(prompt_file)] + (match initial_prompt_file {
        Some(path) => seq![cat_file(path)],
        None => Seq::empty(),
    })
}

fn build_team_args(config: &LaunchConfig) -> (r: Vec<String>)
    ensures
        texts(r@) == team_args(*config),
{
    let mut args = no_args();
    if let Some(team) = &config.team_name {
        let id = crate::mailbox::agent_id(config.name.as_str(), team.as_str());
        add_pair(&mut args, "--agent-id", id.as_str());
        assert(texts(args@) =~= seq!["--agent-id"@, id@]);
        add_pair(&mut args, "--agent-name", config.name.as_str());
        add_pair(&mut args, "--team-name", team.as_str());
    }
    args
}

/// The arguments of a terminal session of Anthropic's program, where a fresh session gets the
/// identifier `fresh_id`.
pub fn claude_args_with_id(
    config: &LaunchConfig,
    settings_file: &str,
    prompt_file: &str,
    initial_prompt_file: Option<&str>,
    fresh_id: &Option<String>,
    names: &Names,
) -> (r: Vec<String>)
    ensures
        texts(r@) == claude_interactive_args(
            *config,
            settings_file@,
            prompt_file@,
            opt_str(initial_prompt_file),
            opt(*fresh_id),
            *names,
        ),
{
    let mut args = no_args();
    start(&mut args, names.program.as_str());
    add_all(
        &mut args,
        &build_claude_common_args(config.model.as_str(), &config.additional_dirs),
    );
    add_pair(&mut args, "--setting-sources", "project,local");
    match &config.session_mode {
        SessionMode::Fresh => {
            add_flag(&mut args, "--session-id", fresh_id);
        },
        SessionMode::Resume => {
            crate::args::add_one(&mut args, "--continue");
        },
        SessionMode::ResumeSession(id) => {
            add_pair(&mut args, "--resume", id.as_str());
        },
    }
    add_all(&mut args, &build_team_args(config));
    add_pair(&mut args, "--settings", settings_file);
    add_pair(&mut args, "--append-system-prompt", cat_file_text(prompt_file).as_str());
    let ghost before = texts(args@);
    if let Some(path) = initial_prompt_file {
        crate::args::add_one(&mut args, cat_file_text(path).as_str());
    }
    assert(texts(args@) =~= before + (match opt_str(initial_prompt_file) {
        Some(path) => seq![cat_file(path)],
        None => Seq::empty(),
    }));
    args
}

/// The arguments of a terminal session of Anthropic's program, and the identifier of a fresh
/// session, which is made up here.
pub fn build_claude_interactive_args(
    config: &LaunchConfig,
    settings_file: &str,
    prompt_file: &str,
    initial_prompt_file: Option<&str>,
    names: &Names,
) -> (r: (Vec<String>, Option<String>))
    ensures
        r.1 is Some <==> config.session_mode is Fresh,
        r.1 matches Some(id) ==> is_uuid(id@),
        texts(r.0@) == claude_interactive_args(
            *config,
            settings_file@,
            prompt_file@,
            opt_str(initial_prompt_file),
            opt(r.1),
            *names,
        ),
{
    let fresh_id = match config.session_mode {
        SessionMode::Fresh => Some(new_uuid()),
        _ => None,
    };
    let args = claude_args_with_id(
        config,
        settings_file,
        prompt_file,
        initial_prompt_file,
        &fresh_id,
        names,
    );
    (args, fresh_id)
}

/// The arguments of the shared server of all headless Codex sessions.
pub fn build_codex_headless_args() -> (r: Vec<String>)
    ensures
        texts(r@) == seq!["app-server"@],
{
    let mut args = no_args();
    start(&mut args, "app-server");
    args
}

/// The text that `toml` writes for a string.
pub uninterp spec fn toml_text(s: Seq<char>) -> Seq<char>;

/// `to_string` of `toml::Value::String`: the string as a TOML value, a function of the string.
#[verifier::external_body]
fn toml_string(s: &str) -> (r: String)
    ensures
        r@ == toml_text(s@),
{
    toml::Value::String(s.to_string()).to_string()
}

/// The arguments of a terminal session of Codex, with the program's name before them, where
/// `instructions` is the system prompt as a TOML value. Only a fresh session names a model:
/// an old one keeps its own.
pub open spec fn codex_interactive_args(
    c: LaunchConfig,
    instructions: Option<Seq<char>>,
    initial_prompt: Option<Seq<char>>,
) -> Seq<Seq<char>> {
    let model = match c.session_mode {
        SessionMode::Fresh => Some(c.model@),
        _ => None,
    };
    seq!["codex"@] + codex_common_args(model, texts(c.additional_dirs@)) + (match instructions {
        Some(t) => seq!["-c"@, "developer_instructions="@ + t],
        None => Seq::empty(),
    }) + (match c.session_mode {
        SessionMode::Fresh => Seq::empty(),
        SessionMode::Resume => seq!["resume"@, "--last"@],
        SessionMode::ResumeSession(id) => seq!["resume"@, id@],
    }) + (match initial_prompt {
        Some(p) => seq![p],
        None => Seq::empty(),
    })
}

/// The arguments of a terminal session of Codex, with the system prompt as a TOML value.
pub fn codex_args_with_instructions(
    config: &LaunchConfig,
    instructions: Option<&str>,
    initial_prompt: Option<&str>,
) -> (r: Vec<String>)
    ensures
        texts(r@) == codex_interactive_args(
            *config,
            opt_str(instructions),
            opt_str(initial_prompt),
        ),
{
    let mut args = no_args();
    start(&mut args, "codex");
    let model = match &config.session_mode {
        SessionMode::Fresh => Some(config.model.as_str()),
        _ => None,
    };
    add_all(&mut args, &build_codex_common_args(model, &config.additional_dirs));
    let ghost one = texts(args@);
    if let Some(t) = instructions {
        add_pair(&mut args, "-c", concat2("developer_instructions=", t).as_str());
    }
    assert(texts(args@) =~= one + (match opt_str(instructions) {
        Some(t) => seq!["-c"@, "developer_instructions="@ + t],
        None => Seq::empty(),
    }));
    let ghost two = texts(args@);
    match &config.session_mode {
        SessionMode::Fresh => {},
        SessionMode::Resume => {
            add_pair(&mut args, "resume", "--last");
        },
        SessionMode::ResumeSession(id) => {
            add_pair(&mut args, "resume", id.as_str());
        },
    }
    assert(texts(args@) =~= two + (match config.session_mode {
        SessionMode::Fresh => Seq::empty(),
        SessionMode::Resume => seq!["resume"@, "--last"@],
        SessionMode::ResumeSession(id) => seq!["resume"@, id@],
    }));
    let ghost three = texts(args@);
    if let Some(p) = initial_prompt {
        crate::args::add_one(&mut args, p);
    }
    assert(texts(args@) =~= three + (match opt_str(initial_prompt) {
        Some(p) => seq![p],
        None => Seq::empty(),
    }));
    args
}

/// The system prompt as a TOML value; an empty one is left out.
pub open spec fn instructions_of(system_prompt: Seq<char>) -> Option<Seq<char>> {
    if system_prompt.len() == 0 {
        None
    } else {
        Some(toml_text(system_prompt))
    }
}

/// The arguments of a terminal session of Codex. The identifier of the session cannot be
/// chosen beforehand.
pub fn build_codex_interactive_args(
    config: &LaunchConfig,
    system_prompt: &str,
    initial_prompt: Option<&str>,
) -> (r: (Vec<String>, Option<String>))
    ensures
        r.1 is None,
        texts(r.0@) == codex_interactive_args(
            *config,
            instructions_of(system_prompt@),
            opt_str(initial_prompt),
        ),
{
    if system_prompt.is_empty() {
        (codex_args_with_instructions(config, None, initial_prompt), None)
    } else {
        let t = toml_string(system_prompt);
        (codex_args_with_instructions(config, Some(t.as_str()), initial_prompt), None)
    }
}

/// A resumed session is launched without regard to the prompt, the schema and the settings
/// of a fresh one.
pub proof fn resumed_session_ignores_fresh_settings(a: HeadlessConfig, b: HeadlessConfig)
    requires
        a.resume_session_id is Some,
        b == (HeadlessConfig {
            system_prompt: b.system_prompt,
            json_schema: b.json_schema,
            settings_path: b.settings_path,
            ..a
        }),
    ensures
        claude_headless_args(a) == claude_headless_args(b),
{
}

/// A session that is resumed without a fork keeps its identifier: one chosen beforehand is
/// not passed.
pub proof fn resumed_session_ignores_new_id(a: HeadlessConfig, b: HeadlessConfig)
    requires
        a.resume_session_id is Some,
        !a.fork_session,
        b == (HeadlessConfig { session_id: b.session_id, ..a }),
    ensures
        claude_headless_args(a) == claude_headless_args(b),
{
}

/// A fork is of a resumed session only.
pub proof fn fresh_session_ignores_fork(a: HeadlessConfig, b: HeadlessConfig)
    requires
        a.resume_session_id is None,
        b == (HeadlessConfig { fork_session: b.fork_session, ..a }),
    ensures
        claude_headless_args(a) == claude_headless_args(b),
{
}

/// The sources of settings are the same whatever the configuration says.
pub proof fn setting_sources_are_fixed(a: HeadlessConfig, b: HeadlessConfig)
    requires
        b == (HeadlessConfig { setting_sources: b.setting_sources, ..a }),
    ensures
        claude_headless_args(a) == claude_headless_args(b),
{
}

/// The prompt to begin with is the last argument of a terminal session of Anthropic's program.
pub proof fn initial_prompt_is_last(
    c: LaunchConfig,
    settings_file: Seq<char>,
    prompt_file: Seq<char>,
    initial: Seq<char>,
    fresh_id: Option<Seq<char>>,
    names: Names,
)
    ensures
        claude_interactive_args(c, settings_file, prompt_file, Some(initial), fresh_id, names).last()
            == cat_file(initial),
{
}

/// A resumed Codex session keeps the model of its thread: the configured one is not passed.
pub proof fn resumed_codex_session_keeps_its_model(
    a: LaunchConfig,
    b: LaunchConfig,
    instructions: Option<Seq<char>>,
    initial: Option<Seq<char>>,
)
    requires
        !(a.session_mode is Fresh),
        b == (LaunchConfig { model: b.model, ..a }),
    ensures
        codex_interactive_args(a, instructions, initial) == codex_interactive_args(
            b,
            instructions,
            initial,
        ),
{
}

/// Codex runs its own program; Anthropic and z.ai run that of Anthropic.
pub proof fn providers_run_their_program(names: Names)
    ensures
        Platform::of(AuthProvider::Codex) is Codex,
        Platform::of(AuthProvider::Claude) is Claude,
        Platform::of(AuthProvider::Zai) is Claude,
        Platform::Codex.program(names) == "codex"@,
        Platform::Claude.program(names) == names.program@,
{
}

/// Every session of Anthropic's program works without asking, with all its directories, and
/// with its model; one of Codex too, with a model where one is given.
pub proof fn sessions_get_their_directories_and_their_model(
    model: Seq<char>,
    dirs: Seq<Seq<char>>,
)
    ensures
        claude_common_args(model, dirs) == seq!["--dangerously-skip-permissions"@] + repeated(
            "--add-dir"@,
            dirs,
        ) + seq!["--model"@, model],
        codex_common_args(Some(model), dirs) == seq!["--dangerously-bypass-approvals-and-sandbox"@]
            + repeated("--add-dir"@, dirs) + seq!["--model"@, model],
        codex_common_args(None, dirs) == seq!["--dangerously-bypass-approvals-and-sandbox"@]
            + repeated("--add-dir"@, dirs),
{
}

/// Whether a session is fresh, resumed or forked decides how it begins: a fresh one with its
/// prompt, its schema and its identifier, a resumed one with the identifier of the old session
/// alone, and a fork with that and its own.
pub proof fn sessions_begin_as_they_came_about(c: HeadlessConfig, old_id: Seq<char>, id: Seq<char>)
    ensures
        opt(c.resume_session_id) == Some(old_id) && !c.fork_session ==> session_args(c) == seq![
            "--resume"@,
            old_id,
        ],
        opt(c.resume_session_id) == Some(old_id) && c.fork_session && opt(c.session_id) == Some(id)
            ==> session_args(c) == seq!["--resume"@, old_id, "--fork-session"@, "--session-id"@, id],
        opt(c.resume_session_id) == Some(old_id) && c.fork_session && c.session_id is None
            ==> session_args(c) == seq!["--resume"@, old_id, "--fork-session"@],
        c.resume_session_id is None && c.json_schema is None && opt(c.session_id) == Some(id)
            ==> session_args(c) == seq![
            "-p"@,
            "--append-system-prompt"@,
            c.system_prompt@,
            "--session-id"@,
            id,
        ],
        c.resume_session_id is None && c.json_schema is None && c.session_id is None
            ==> session_args(c) == seq!["-p"@, "--append-system-prompt"@, c.system_prompt@],
        c.resume_session_id is None && c.json_schema is Some && opt(c.session_id) == Some(id)
            ==> session_args(c) == seq![
            "-p"@,
            "--append-system-prompt"@,
            c.system_prompt@,
            "--json-schema"@,
            printed_text(c.json_schema->0.jv()),
            "--session-id"@,
            id,
        ],
        c.resume_session_id is None && c.json_schema is Some && c.session_id is None
            ==> session_args(c) == seq![
            "-p"@,
            "--append-system-prompt"@,
            c.system_prompt@,
            "--json-schema"@,
            printed_text(c.json_schema->0.jv()),
        ],
{
}

/// A member of a team is told its identifier, its name and its team.
pub proof fn members_are_told_who_they_are(
    c: HeadlessConfig,
    id: Seq<char>,
    name: Seq<char>,
    team: Seq<char>,
)
    ensures
        opt(c.agent_id) == Some(id) && opt(c.agent_name) == Some(name) && opt(c.team_name) == Some(
            team,
        ) ==> member_args(c) == seq![
            "--agent-id"@,
            id,
            "--agent-name"@,
            name,
            "--team-name"@,
            team,
        ],
        c.agent_id is None && c.agent_name is None && c.team_name is None ==> member_args(c).len()
            == 0,
        opt(c.agent_id) == Some(id) && c.agent_name is None && opt(c.team_name) == Some(team)
            ==> member_args(c) == seq!["--agent-id"@, id, "--team-name"@, team],
        c.agent_id is None && opt(c.agent_name) == Some(name) && c.team_name is None
            ==> member_args(c) == seq!["--agent-name"@, name],
{
}

/// A headless session speaks JSON line by line in both directions. Everything else that it is
/// told depends on its settings: an agent, a budget and settings where there are any, that
/// nothing is to be kept, that it has no tools, and the tools that it may not use.
pub proof fn headless_sessions_are_told_their_settings(c: HeadlessConfig)
    ensures
        claude_headless_args(c) == claude_common_args(c.model@, texts(c.additional_dirs@)) + (
        if c.resume_session_id is Some && c.fork_session {
            Seq::<Seq<char>>::empty()
        } else {
            seq!["--setting-sources"@, "project,local"@]
        }) + (match c.agent_name {
            Some(agent) => seq!["--agent"@, agent@],
            None => Seq::<Seq<char>>::empty(),
        }) + session_args(c) + member_args(c) + seq![
            "--verbose"@,
            "--output-format"@,
            "stream-json"@,
            "--input-format"@,
            "stream-json"@,
        ] + (if c.persist_session {
            Seq::<Seq<char>>::empty()
        } else {
            seq!["--no-session-persistence"@]
        }) + (match c.max_budget_usd {
            Some(budget) => seq!["--max-budget-usd"@, budget@],
            None => Seq::<Seq<char>>::empty(),
        }) + (if c.allow_tools {
            Seq::<Seq<char>>::empty()
        } else {
            seq!["--tools"@, ""@]
        }) + (if c.disallowed_tools@.len() == 0 {
            Seq::<Seq<char>>::empty()
        } else {
            seq!["--disallowedTools"@, join(texts(c.disallowed_tools@), ","@)]
        }) + (match c.settings_path {
            Some(path) => if c.resume_session_id is Some {
                Seq::<Seq<char>>::empty()
            } else {
                seq!["--settings"@, path@]
            },
            None => Seq::<Seq<char>>::empty(),
        }),
{
    let a = claude_common_args(c.model@, texts(c.additional_dirs@)) + (if c.resume_session_id is Some
        && c.fork_session {
        Seq::<Seq<char>>::empty()
    } else {
        seq!["--setting-sources"@, "project,local"@]
    }) + flag("--agent"@, opt(c.agent_name)) + session_args(c) + member_args(c);
    assert(a + seq!["--verbose"@] + seq!["--output-format"@, "stream-json"@] + seq![
        "--input-format"@,
        "stream-json"@,
    ] =~= a + seq![
        "--verbose"@,
        "--output-format"@,
        "stream-json"@,
        "--input-format"@,
        "stream-json"@,
    ]);
}

/// A terminal shows the session that it is meant to show: a fresh one under its identifier, the
/// most recent one, or the one of the given identifier.
pub proof fn terminals_show_the_session_that_is_meant(
    session: String,
    fresh_id: Seq<char>,
    other: Option<Seq<char>>,
)
    ensures
        terminal_session_args(SessionMode::Fresh, Some(fresh_id)) == seq!["--session-id"@, fresh_id],
        terminal_session_args(SessionMode::Fresh, None).len() == 0,
        terminal_session_args(SessionMode::Resume, other) == seq!["--continue"@],
        terminal_session_args(SessionMode::ResumeSession(session), other) == seq![
            "--resume"@,
            session@,
        ],
{
}

/// A member of a team has an identifier made of its name and its team; who has no team is told
/// nothing of the kind.
pub proof fn members_in_terminals_are_told_who_they_are(c: LaunchConfig)
    ensures
        c.team_name matches Some(team) ==> team_args(c) == seq![
            "--agent-id"@,
            c.name@ + "@"@ + team@,
            "--agent-name"@,
            c.name@,
            "--team-name"@,
            team@,
        ],
        c.team_name is None ==> team_args(c).len() == 0,
{
}

/// A terminal session of Anthropic's program is told, in this order, its directories and its
/// model, where settings come from, its session, its team, its settings, its system prompt and
/// what to begin with.
pub proof fn terminal_sessions_are_told_their_settings(
    c: LaunchConfig,
    settings_file: Seq<char>,
    prompt_file: Seq<char>,
    initial: Seq<char>,
    fresh_id: Option<Seq<char>>,
    names: Names,
)
    ensures
        ({
            let args = seq![names.program@] + claude_common_args(c.model@, texts(c.additional_dirs@))
                + seq!["--setting-sources"@, "project,local"@] + terminal_session_args(
                c.session_mode,
                fresh_id,
            ) + team_args(c) + seq![
                "--settings"@,
                settings_file,
                "--append-system-prompt"@,
                "\"$(cat "@ + prompt_file + ")\""@,
            ];
            &&& claude_interactive_args(c, settings_file, prompt_file, None, fresh_id, names) == args
            &&& claude_interactive_args(
                c,
                settings_file,
                prompt_file,
                Some(initial),
                fresh_id,
                names,
            ) == args.push("\"$(cat "@ + initial + ")\""@)
        }),
{
    let front = seq![names.program@] + claude_common_args(c.model@, texts(c.additional_dirs@)) + seq![
        "--setting-sources"@,
        "project,local"@,
    ] + terminal_session_args(c.session_mode, fresh_id) + team_args(c);
    let none = claude_interactive_args(c, settings_file, prompt_file, None, fresh_id, names);
    let args = front + seq![
        "--settings"@,
        settings_file,
        "--append-system-prompt"@,
        "\"$(cat "@ + prompt_file + ")\""@,
    ];
    assert(none =~= args);
    let some = claude_interactive_args(
        c,
        settings_file,
        prompt_file,
        Some(initial),
        fresh_id,
        names,
    );
    assert(some =~= args.push("\"$(cat "@ + initial + ")\""@));
}

/// A Codex session in a terminal is told its model only where it is fresh, its instructions
/// where it has any, which old session to go on with, and what to begin with.
pub proof fn codex_sessions_are_told_their_settings(
    c: LaunchConfig,
    instructions: Option<Seq<char>>,
    initial: Option<Seq<char>>,
)
    ensures
        codex_interactive_args(c, instructions, initial) == seq![
            "codex"@,
            "--dangerously-bypass-approvals-and-sandbox"@,
        ] + repeated("--add-dir"@, texts(c.additional_dirs@)) + (match c.session_mode {
            SessionMode::Fresh => seq!["--model"@, c.model@],
            SessionMode::Resume => Seq::<Seq<char>>::empty(),
            SessionMode::ResumeSession(_) => Seq::<Seq<char>>::empty(),
        }) + (match instructions {
            Some(t) => seq!["-c"@, "developer_instructions="@ + t],
            None => Seq::<Seq<char>>::empty(),
        }) + (match c.session_mode {
            SessionMode::Fresh => Seq::<Seq<char>>::empty(),
            SessionMode::Resume => seq!["resume"@, "--last"@],
            SessionMode::ResumeSession(id) => seq!["resume"@, id@],
        }) + (match initial {
            Some(p) => seq![p],
            None => Seq::<Seq<char>>::empty(),
        }),
{
    let dirs = repeated("--add-dir"@, texts(c.additional_dirs@));
    let model = match c.session_mode {
        SessionMode::Fresh => seq!["--model"@, c.model@],
        _ => Seq::<Seq<char>>::empty(),
    };
    let before = match c.session_mode {
        SessionMode::Fresh => Some(c.model@),
        _ => None,
    };
    assert(seq!["codex"@] + codex_common_args(before, texts(c.additional_dirs@)) =~= seq![
        "codex"@,
        "--dangerously-bypass-approvals-and-sandbox"@,
    ] + dirs + model);
}

/// A system prompt is passed as a TOML value exactly where it is not empty.
pub proof fn only_an_empty_prompt_is_left_out(prompt: Seq<char>)
    ensures
        prompt.len() == 0 <==> instructions_of(prompt) is None,
        prompt.len() > 0 ==> instructions_of(prompt) == Some(toml_text(prompt)),
{
}

} // verus!
