//! How sessions are launched: one configuration for every kind of session, and what it comes
//! to for a headless session and for a terminal.

use vstd::prelude::*;

use crate::auth::AuthProvider;
use crate::config::{ExecutionRole, RoleSettings};
use crate::headless::HeadlessConfig;
use crate::mailbox::{agent_id, team_name, team_name_for_repo};
use crate::names::Names;
use crate::platform::{
    build_claude_interactive_args, build_codex_interactive_args, claude_interactive_args,
    codex_interactive_args, instructions_of,
};
use crate::stamp::is_uuid;
use crate::text::{
    concat4, copied, cut, cutting_drops_the_first_separator, decimal, join, joined, opt, opt_str, replace_all, replaced, split_once,
    texts, to_decimal, trim, trimmed,
};
use crate::text_map::{entries_are_a_listing, is_listing, pair_texts, TextMap};

verus! {

/// How a session comes about.
#[derive(Debug, PartialEq)]
pub enum SessionMode {
    /// A new session.
    Fresh,
    /// The most recent session of the worktree.
    Resume,
    /// The saved session of this identifier.
    ResumeSession(String),
}

/// What a coworker is for, which decides its system prompt.
#[derive(Debug, PartialEq)]
pub enum CoworkerRole {
    Coworker,
    Reviewer,
    Lead,
    /// The lead of a topic channel.
    ChannelLead { channel_name: String, domain_context: String },
}

impl Default for CoworkerRole {
    fn default() -> (r: CoworkerRole)
        ensures
            r is Coworker,
    {
        CoworkerRole::Coworker
    }
}

impl SessionMode {
    pub fn duplicate(&self) -> (r: SessionMode)
        ensures
            r == *self,
    {
        match self {
            SessionMode::Fresh => SessionMode::Fresh,
            SessionMode::Resume => SessionMode::Resume,
            SessionMode::ResumeSession(id) => SessionMode::ResumeSession(id.clone()),
        }
    }
}

impl CoworkerRole {
    /// The role under which the configuration knows it.
    pub open spec fn role(self) -> ExecutionRole {
        match self {
            CoworkerRole::Lead => ExecutionRole::Lead,
            CoworkerRole::Reviewer => ExecutionRole::Reviewer,
            CoworkerRole::ChannelLead { .. } => ExecutionRole::ChannelLead,
            CoworkerRole::Coworker => ExecutionRole::Coworker,
        }
    }

    pub fn execution_role(&self) -> (r: ExecutionRole)
        ensures
            r == self.role(),
    {
        match self {
            CoworkerRole::Lead => ExecutionRole::Lead,
            CoworkerRole::Reviewer => ExecutionRole::Reviewer,
            CoworkerRole::ChannelLead { .. } => ExecutionRole::ChannelLead,
            CoworkerRole::Coworker => ExecutionRole::Coworker,
        }
    }

    pub fn duplicate(&self) -> (r: CoworkerRole)
        ensures
            r == *self,
    {
        match self {
            CoworkerRole::Lead => CoworkerRole::Lead,
            CoworkerRole::Reviewer => CoworkerRole::Reviewer,
            CoworkerRole::Coworker => CoworkerRole::Coworker,
            CoworkerRole::ChannelLead { channel_name, domain_context } => CoworkerRole::ChannelLead {
                channel_name: channel_name.clone(),
                domain_context: domain_context.clone(),
            },
        }
    }
}

/// What a session is launched with.
#[derive(Debug)]
pub struct LaunchConfig {
    pub name: String,
    pub session_mode: SessionMode,
    pub role: CoworkerRole,
    /// The prompt to begin with.
    pub initial_prompt: Option<String>,
    /// Directories of further repositories.
    pub additional_dirs: Vec<String>,
    /// The pull request that the session is about.
    pub pr_number: Option<u64>,
    pub team_name: Option<String>,
    /// The directory to work in, in place of the coworker's own worktree.
    pub working_dir: Option<String>,
    pub model: String,
    /// The channel to which the session posts.
    pub channel: Option<String>,
    /// The directory of the profile to authenticate with.
    pub auth_profile_dir: Option<String>,
    pub auth_provider: AuthProvider,
    /// The prompt to keep on record, in place of the initial prompt.
    pub persisted_initial_prompt: Option<String>,
    /// The directory below the working directory to start in.
    pub cwd_subdir: Option<String>,
}

/// A shell command, and the identifier of the session that it starts afresh.
#[derive(Debug)]
pub struct LaunchCommand {
    pub shell_command: String,
    pub session_id: Option<String>,
}

/// The key and the base address of a z.ai profile.
#[derive(Debug)]
pub struct ZaiCredentials {
    pub api_key: String,
    pub base_url: String,
}

/// The credentials that the files of a z.ai profile hold, without the white space around
/// them. The address has a default for a profile without one.
pub fn zai_env_vars(api_key_file: &str, base_url_file: Option<&str>) -> (r: ZaiCredentials)
    ensures
        r.api_key@ == trim(api_key_file@),
        r.base_url@ == (match opt_str(base_url_file) {
            Some(url) => trim(url),
            None => "https://api.z.ai/api/anthropic"@,
        }),
{
    ZaiCredentials {
        api_key: trimmed(api_key_file),
        base_url: match base_url_file {
            Some(url) => trimmed(url),
            None => "https://api.z.ai/api/anthropic".to_owned(),
        },
    }
}

/// The variables of a z.ai session.
pub open spec fn with_zai(
    env: Map<Seq<char>, Seq<char>>,
    zai: Option<ZaiCredentials>,
) -> Map<Seq<char>, Seq<char>> {
    match zai {
        Some(c) => env.insert("ANTHROPIC_AUTH_TOKEN"@, c.api_key@).insert(
            "ANTHROPIC_BASE_URL"@,
            c.base_url@,
        ).insert("ANTHROPIC_DEFAULT_HAIKU_MODEL"@, "GLM-4.5-Air"@).insert(
            "ANTHROPIC_DEFAULT_SONNET_MODEL"@,
            "GLM-4.7"@,
        ).insert("ANTHROPIC_DEFAULT_OPUS_MODEL"@, "GLM-5"@),
        None => env,
    }
}

/// The variables of an agent's session.
pub open spec fn agent_env(
    name: Seq<char>,
    role: CoworkerRole,
    team: Option<Seq<char>>,
    channel: Option<Seq<char>>,
    provider: AuthProvider,
    profile_dir: Seq<char>,
    zai: Option<ZaiCredentials>,
) -> Map<Seq<char>, Seq<char>> {
    let named = Map::<Seq<char>, Seq<char>>::empty().insert("MIDTOWN_AGENT"@, name).insert(
        "DISABLE_AUTOUPDATER"@,
        "1"@,
    );
    let authed = match provider {
        AuthProvider::Zai => with_zai(named, zai),
        _ => named.insert(provider.profile_variable(), profile_dir),
    };
    let routed = match channel {
        Some(c) => authed.insert("MIDTOWN_CHANNEL"@, c),
        None => authed,
    };
    match team {
        Some(t) => {
            let teamed = routed.insert("CLAUDE_CODE_EXPERIMENTAL_AGENT_TEAMS"@, "1"@);
            if role is Lead {
                teamed.insert("CLAUDE_CODE_TASK_LIST_ID"@, t)
            } else {
                teamed
            }
        },
        None => routed,
    }
}

/// The variables that every session of an agent is started with. Without its credentials a
/// z.ai session gets none of the provider's variables.
pub fn build_agent_env_vars(
    name: &str,
    role: &CoworkerRole,
    team_name: &Option<String>,
    channel: &Option<String>,
    auth_provider: AuthProvider,
    auth_profile_dir: &str,
    zai: &Option<ZaiCredentials>,
) -> (r: TextMap)
    ensures
        r@ == agent_env(
            name@,
            *role,
            opt(*team_name),
            opt(*channel),
            auth_provider,
            auth_profile_dir@,
            *zai,
        ),
        r@.contains_key("CLAUDE_CODE_TASK_LIST_ID"@) <==> *role is Lead && team_name is Some,
        *role is Lead && team_name is Some ==> Some(r@["CLAUDE_CODE_TASK_LIST_ID"@]) == opt(
            *team_name,
        ),
{
    let mut env = TextMap::new();
    env.insert("MIDTOWN_AGENT", name);
    env.insert("DISABLE_AUTOUPDATER", "1");
    match auth_provider {
        AuthProvider::Zai => {
            if let Some(c) = zai {
                env.insert("ANTHROPIC_AUTH_TOKEN", c.api_key.as_str());
                env.insert("ANTHROPIC_BASE_URL", c.base_url.as_str());
                env.insert("ANTHROPIC_DEFAULT_HAIKU_MODEL", "GLM-4.5-Air");
                env.insert("ANTHROPIC_DEFAULT_SONNET_MODEL", "GLM-4.7");
                env.insert("ANTHROPIC_DEFAULT_OPUS_MODEL", "GLM-5");
            }
        },
        _ => {
            env.insert(auth_provider.env_var(), auth_profile_dir);
        },
    }
    if let Some(c) = channel {
        env.insert("MIDTOWN_CHANNEL", c.as_str());
    }
    if let Some(team) = team_name {
        env.insert("CLAUDE_CODE_EXPERIMENTAL_AGENT_TEAMS", "1");
        match role {
            CoworkerRole::Lead => {
                env.insert("CLAUDE_CODE_TASK_LIST_ID", team.as_str());
            },
            _ => {},
        }
    }
    proof {
        the_lead_of_a_team_alone_gets_its_task_list(
            name@,
            *role,
            opt(*team_name),
            opt(*channel),
            auth_provider,
            auth_profile_dir@,
            *zai,
        );
    }
    env
}

/// Sets the variable that tells a coworker its own session.
pub fn inject_session_id_env(env: &mut TextMap, session_id: &str)
    ensures
        final(env)@ == old(env)@.insert("MIDTOWN_SESSION_ID"@, session_id@),
{
    env.insert("MIDTOWN_SESSION_ID", session_id);
}

/// A prompt with the session's identifier in the place of the variable that stands for it.
pub fn expand_session_id_in_prompt(prompt: &str, session_id: &str) -> (r: String)
    ensures
        r@ == replaced(prompt@, "$MIDTOWN_SESSION_ID"@, session_id@),
{
    proof {
        reveal_strlit("$MIDTOWN_SESSION_ID");
    }
    replace_all(prompt, "$MIDTOWN_SESSION_ID", session_id)
}

/// The name of the session of a channel's lead: that of the channel.
pub fn channel_lead_session_name(channel_name: &str) -> (r: String)
    ensures
        r@ == channel_name@,
{
    channel_name.to_owned()
}

/// The tools that a channel's lead may not use. It may edit its notes, and run commands to
/// coordinate the work.
pub fn channel_lead_disallowed_tools() -> (r: Vec<String>)
    ensures
        texts(r@) == seq!["Write"@, "NotebookEdit"@],
{
    let mut tools = crate::args::no_args();
    push_tool(&mut tools, "Write");
    push_tool(&mut tools, "NotebookEdit");
    assert(texts(tools@) =~= seq!["Write"@, "NotebookEdit"@]);
    tools
}

fn push_tool(tools: &mut Vec<String>, tool: &str)
    ensures
        texts(final(tools)@) == texts(old(tools)@) + seq![tool@],
{
    crate::args::add_one(tools, tool);
}

/// The tools that a fork of a channel's lead may not use: those of the lead, and editing.
pub fn channel_lead_fork_disallowed_tools() -> (r: Vec<String>)
    ensures
        texts(r@) == seq!["Edit"@, "Write"@, "NotebookEdit"@],
{
    let mut tools = crate::args::no_args();
    push_tool(&mut tools, "Edit");
    push_tool(&mut tools, "Write");
    push_tool(&mut tools, "NotebookEdit");
    assert(texts(tools@) =~= seq!["Edit"@, "Write"@, "NotebookEdit"@]);
    tools
}

/// The model that the configuration sets, or else the given one.
pub open spec fn model_or(settings: RoleSettings, fallback: Seq<char>) -> Seq<char> {
    match opt(settings.model) {
        Some(model) => model,
        None => fallback,
    }
}

fn model_or_else(settings: &RoleSettings, fallback: &str) -> (r: String)
    ensures
        r@ == model_or(*settings, fallback@),
{
    match &settings.model {
        Some(model) => model.clone(),
        None => fallback.to_owned(),
    }
}

/// What every new configuration leaves unset.
pub open spec fn plain(c: LaunchConfig) -> bool {
    &&& c.additional_dirs@.len() == 0
    &&& c.working_dir is None
    &&& c.auth_profile_dir is None
    &&& c.persisted_initial_prompt is None
    &&& c.cwd_subdir is None
}

/// The prompt for a coworker who takes over a pull request.
pub open spec fn handoff_prompt(pr: nat, branch: Seq<char>, author: Seq<char>) -> Seq<char> {
    "You're taking over PR #"@ + decimal(pr) + " from "@ + author
        + ".\n\nFirst, checkout the branch:\n```bash\ngit fetch origin "@ + branch
        + "\ngit checkout "@ + branch + "\n```\n\nThen continue where "@ + author
        + " left off. This is their PR, so you have their full context from the resumed session. Address any review feedback, fix any issues, and push your changes to the branch.\n\nWhen done, post to the channel that you've addressed the feedback on PR #"@
        + decimal(pr) + "."@
}

fn handoff_prompt_text(pr_number: u64, branch: &str, author: &str) -> (r: String)
    ensures
        r@ == handoff_prompt(pr_number as nat, branch@, author@),
{
    let pr = to_decimal(pr_number);
    let mut s = concat4("You're taking over PR #", pr.as_str(), " from ", author);
    s.append(".\n\nFirst, checkout the branch:\n```bash\ngit fetch origin ");
    s.append(branch);
    s.append("\ngit checkout ");
    s.append(branch);
    s.append("\n```\n\nThen continue where ");
    s.append(author);
    s.append(
        " left off. This is their PR, so you have their full context from the resumed session. Address any review feedback, fix any issues, and push your changes to the branch.\n\nWhen done, post to the channel that you've addressed the feedback on PR #",
    );
    s.append(pr.as_str());
    s.append(".");
    s
}

/// The prompts of a Codex session in a terminal: the system prompt, and what the file with
/// the prompt to begin with holds.
pub struct CodexPrompts {
    pub system_prompt: String,
    pub initial_prompt: Option<String>,
}

/// A variable with its value, as the shell takes it.
pub open spec fn export_text(e: (Seq<char>, Seq<char>)) -> Seq<char> {
    e.0 + "='"@ + e.1 + "'"@
}

pub open spec fn exports(env: Seq<(Seq<char>, Seq<char>)>) -> Seq<Seq<char>> {
    env.map_values(|e: (Seq<char>, Seq<char>)| export_text(e))
}

/// The command that sets the variables and then runs the program.
pub open spec fn shell_command_text(
    env: Seq<(Seq<char>, Seq<char>)>,
    args: Seq<Seq<char>>,
) -> Seq<char> {
    "export "@ + join(exports(env), " "@) + "; exec "@ + join(args, " "@)
}

fn export_list(entries: &Vec<(String, String)>) -> (r: Vec<String>)
    ensures
        texts(r@) == exports(pair_texts(entries@)),
{
    let mut r: Vec<String> = Vec::new();
    let mut i: usize = 0;
    let ghost all = exports(pair_texts(entries@));
    while i < entries.len()
        invariant
            i <= entries.len(),
            all == exports(pair_texts(entries@)),
            texts(r@) == all.take(i as int),
        decreases entries.len() - i,
    {
        let ghost before = texts(r@);
        let s = concat4(entries[i].0.as_str(), "='", entries[i].1.as_str(), "'");
        r.push(s);
        assert(texts(r@) =~= before.push(s@));
        assert(all.take(i + 1) =~= all.take(i as int).push(all[i as int]));
        i += 1;
    }
    assert(all.take(i as int) =~= all);
    r
}

/// Which system prompt a session gets.
pub enum PromptRequest {
    Reviewer { name: String, project: String, provider: AuthProvider, pr_number: Option<u64> },
    Lead { project: String },
    Coworker { name: String, project: String },
    ChannelLead { channel_name: String, domain_context: String, project: String },
}

impl LaunchConfig {
    /// A coworker's session.
    pub fn coworker(
        name: &str,
        repo_name: &str,
        session_mode: SessionMode,
        initial_prompt: Option<String>,
        settings: &RoleSettings,
    ) -> (r: LaunchConfig)
        ensures
            r.name@ == name@,
            r.session_mode == session_mode,
            r.role is Coworker,
            r.initial_prompt == initial_prompt,
            r.pr_number is None,
            opt(r.team_name) == Some(team_name(repo_name@)),
            r.model@ == model_or(*settings, "sonnet"@),
            r.channel is None,
            r.auth_provider == settings.auth_provider,
            plain(r),
    {
        LaunchConfig {
            name: name.to_owned(),
            session_mode,
            role: CoworkerRole::Coworker,
            initial_prompt,
            additional_dirs: Vec::new(),
            pr_number: None,
            team_name: Some(team_name_for_repo(repo_name)),
            working_dir: None,
            model: model_or_else(settings, "sonnet"),
            channel: None,
            auth_profile_dir: None,
            auth_provider: settings.auth_provider,
            persisted_initial_prompt: None,
            cwd_subdir: None,
        }
    }

    /// A session that reads a pull request. It is short, and belongs to no team.
    pub fn reviewer(
        name: &str,
        pr_number: u64,
        launch_prompt: String,
        auth_provider: AuthProvider,
        settings: &RoleSettings,
    ) -> (r: LaunchConfig)
        ensures
            r.name@ == name@,
            r.session_mode is Fresh,
            r.role is Reviewer,
            r.initial_prompt == Some(launch_prompt),
            r.pr_number == Some(pr_number),
            r.team_name is None,
            r.model@ == model_or(*settings, "opus"@),
            r.channel is None,
            r.auth_provider == auth_provider,
            plain(r),
    {
        LaunchConfig {
            name: name.to_owned(),
            session_mode: SessionMode::Fresh,
            role: CoworkerRole::Reviewer,
            initial_prompt: Some(launch_prompt),
            additional_dirs: Vec::new(),
            pr_number: Some(pr_number),
            team_name: None,
            working_dir: None,
            model: model_or_else(settings, "opus"),
            channel: None,
            auth_profile_dir: None,
            auth_provider,
            persisted_initial_prompt: None,
            cwd_subdir: None,
        }
    }

    /// The session of the project's lead, which bears the repository's name, or that of the
    /// lead of the given channel, without notes on its domain.
    pub fn lead(
        repo_name: &str,
        channel: Option<&str>,
        initial_prompt: String,
        settings: &RoleSettings,
    ) -> (r: LaunchConfig)
        ensures
            r.session_mode is Fresh,
            r.initial_prompt == Some(initial_prompt),
            r.pr_number is None,
            opt(r.team_name) == Some(team_name(repo_name@)),
            opt(r.channel) == opt_str(channel),
            r.auth_provider == settings.auth_provider,
            match channel {
                None => r.name@ == repo_name@ && r.role is Lead && r.model@ == model_or(
                    *settings,
                    "opus"@,
                ),
                Some(c) => r.name@ == c@ && r.model@ == model_or(*settings, "sonnet"@) && (
                r.role matches CoworkerRole::ChannelLead { channel_name, domain_context }
                    && channel_name@ == c@ && domain_context@ == ""@),
            },
            plain(r),
    {
        if let Some(c) = channel {
            let model = model_or_else(settings, "sonnet");
            return LaunchConfig::channel_lead(
                c,
                repo_name,
                SessionMode::Fresh,
                "",
                initial_prompt,
                model,
                settings.auth_provider,
            );
        }
        LaunchConfig {
            name: repo_name.to_owned(),
            session_mode: SessionMode::Fresh,
            role: CoworkerRole::Lead,
            initial_prompt: Some(initial_prompt),
            additional_dirs: Vec::new(),
            pr_number: None,
            team_name: Some(team_name_for_repo(repo_name)),
            working_dir: None,
            model: model_or_else(settings, "opus"),
            channel: None,
            auth_profile_dir: None,
            auth_provider: settings.auth_provider,
            persisted_initial_prompt: None,
            cwd_subdir: None,
        }
    }

    /// The session of a coworker who takes over a pull request, on the session of its author.
    pub fn pr_handoff(
        name: &str,
        repo_name: &str,
        session_id: String,
        pr_number: u64,
        branch: &str,
        original_author: &str,
        settings: &RoleSettings,
    ) -> (r: LaunchConfig)
        ensures
            r.name@ == name@,
            r.session_mode == SessionMode::ResumeSession(session_id),
            r.role is Coworker,
            opt(r.initial_prompt) == Some(
                handoff_prompt(pr_number as nat, branch@, original_author@),
            ),
            r.pr_number is None,
            opt(r.team_name) == Some(team_name(repo_name@)),
            r.model@ == model_or(*settings, "opus"@),
            r.channel is None,
            r.auth_provider == settings.auth_provider,
            plain(r),
    {
        LaunchConfig {
            name: name.to_owned(),
            session_mode: SessionMode::ResumeSession(session_id),
            role: CoworkerRole::Coworker,
            initial_prompt: Some(handoff_prompt_text(pr_number, branch, original_author)),
            additional_dirs: Vec::new(),
            pr_number: None,
            team_name: Some(team_name_for_repo(repo_name)),
            working_dir: None,
            model: model_or_else(settings, "opus"),
            channel: None,
            auth_profile_dir: None,
            auth_provider: settings.auth_provider,
            persisted_initial_prompt: None,
            cwd_subdir: None,
        }
    }

    /// The session of a channel's lead. It bears the channel's name and posts to it.
    pub fn channel_lead(
        channel_name: &str,
        repo_name: &str,
        session_mode: SessionMode,
        domain_context: &str,
        initial_prompt: String,
        model: String,
        auth_provider: AuthProvider,
    ) -> (r: LaunchConfig)
        ensures
            r.name@ == channel_name@,
            r.session_mode == session_mode,
            r.role matches CoworkerRole::ChannelLead { channel_name: c, domain_context: d } && c@
                == channel_name@ && d@ == domain_context@,
            r.initial_prompt == Some(initial_prompt),
            r.pr_number is None,
            opt(r.team_name) == Some(team_name(repo_name@)),
            r.model == model,
            opt(r.channel) == Some(channel_name@),
            r.auth_provider == auth_provider,
            plain(r),
    {
        LaunchConfig {
            name: channel_lead_session_name(channel_name),
            session_mode,
            role: CoworkerRole::ChannelLead {
                channel_name: channel_name.to_owned(),
                domain_context: domain_context.to_owned(),
            },
            initial_prompt: Some(initial_prompt),
            additional_dirs: Vec::new(),
            pr_number: None,
            team_name: Some(team_name_for_repo(repo_name)),
            working_dir: None,
            model,
            channel: Some(channel_name.to_owned()),
            auth_profile_dir: None,
            auth_provider,
            persisted_initial_prompt: None,
            cwd_subdir: None,
        }
    }

    /// The system prompt that the session gets in a project.
    pub fn prompt_request(&self, project_name: &str) -> (r: PromptRequest)
        ensures
            match self.role {
                CoworkerRole::Reviewer => r matches PromptRequest::Reviewer {
                    name,
                    project,
                    provider,
                    pr_number,
                } && name@ == self.name@ && project@ == project_name@ && provider
                    == self.auth_provider && pr_number == self.pr_number,
                CoworkerRole::Lead => r matches PromptRequest::Lead { project } && project@
                    == project_name@,
                CoworkerRole::Coworker => r matches PromptRequest::Coworker { name, project }
                    && name@ == self.name@ && project@ == project_name@,
                CoworkerRole::ChannelLead { channel_name: c, domain_context: d } => r matches PromptRequest::ChannelLead {
                    channel_name,
                    domain_context,
                    project,
                } && channel_name@ == c@ && domain_context@ == d@ && project@ == project_name@,
            },
    {
        match &self.role {
            CoworkerRole::Reviewer => PromptRequest::Reviewer {
                name: self.name.clone(),
                project: project_name.to_owned(),
                provider: self.auth_provider,
                pr_number: self.pr_number,
            },
            CoworkerRole::Lead => PromptRequest::Lead { project: project_name.to_owned() },
            CoworkerRole::Coworker => PromptRequest::Coworker {
                name: self.name.clone(),
                project: project_name.to_owned(),
            },
            CoworkerRole::ChannelLead { channel_name, domain_context } => PromptRequest::ChannelLead {
                channel_name: channel_name.clone(),
                domain_context: domain_context.clone(),
                project: project_name.to_owned(),
            },
        }
    }

    /// Whether the system prompt is kept on disk, to be used again when someone attaches to
    /// the session.
    pub fn keeps_system_prompt(&self) -> (r: bool)
        ensures
            r == (self.role is Lead),
    {
        match self.role {
            CoworkerRole::Lead => true,
            _ => false,
        }
    }

    /// The directory of the profile: the session's own, or else the given one.
    pub open spec fn profile(self, default_profile: Seq<char>) -> Seq<char> {
        match opt(self.auth_profile_dir) {
            Some(dir) => dir,
            None => default_profile,
        }
    }

    fn profile_dir<'a>(&'a self, default_profile: &'a str) -> (r: &'a str)
        ensures
            r@ == self.profile(default_profile@),
    {
        match &self.auth_profile_dir {
            Some(dir) => dir.as_str(),
            None => default_profile,
        }
    }

    /// The variables that the session is started with.
    pub open spec fn env(self, default_profile: Seq<char>, zai: Option<ZaiCredentials>) -> Map<
        Seq<char>,
        Seq<char>,
    > {
        agent_env(
            self.name@,
            self.role,
            opt(self.team_name),
            opt(self.channel),
            self.auth_provider,
            self.profile(default_profile),
            zai,
        )
    }

    /// What the session is launched with as a headless one. The working directory, the
    /// settings and the identifier of a fresh session are left to the caller.
    pub fn to_headless_config(
        &self,
        project_name: &str,
        system_prompt: String,
        default_profile: &str,
        zai: &Option<ZaiCredentials>,
    ) -> (r: HeadlessConfig)
        ensures
            r.model@ == self.model@,
            r.system_prompt == system_prompt,
            r.json_schema is None,
            r.cwd is None,
            opt(r.project_name) == Some(project_name@),
            r.max_budget_usd is None,
            r.allow_tools,
            r.persist_session,
            opt(r.resume_session_id) == (match self.session_mode {
                SessionMode::ResumeSession(id) => Some(id@),
                _ => None,
            }),
            r.session_id is None,
            r.inactivity_timeout is None,
            opt(r.team_name) == opt(self.team_name),
            opt(r.agent_id) == (match opt(self.team_name) {
                Some(team) => Some(self.name@ + "@"@ + team),
                None => None,
            }),
            opt(r.agent_name) == (if self.auth_provider is Codex {
                None
            } else if self.role is ChannelLead {
                Some("midtown-channel-lead"@)
            } else {
                match opt(self.team_name) {
                    Some(_) => Some(self.name@),
                    None => None,
                }
            }),
            r.settings_path is None,
            r.setting_sources is None,
            r.auth_provider == self.auth_provider,
            r.env@ == self.env(default_profile@, *zai),
            !r.fork_session,
            texts(r.disallowed_tools@) == (if self.role is ChannelLead
                && !(self.auth_provider is Codex) {
                seq!["Write"@, "NotebookEdit"@]
            } else {
                Seq::<Seq<char>>::empty()
            }),
            r.additional_dirs@ == self.additional_dirs@,
    {
        let resume_session_id = match &self.session_mode {
            SessionMode::ResumeSession(id) => Some(id.clone()),
            _ => None,
        };
        let agent = match &self.team_name {
            Some(team) => Some(agent_id(self.name.as_str(), team.as_str())),
            None => None,
        };
        let is_channel_lead = match self.role {
            CoworkerRole::ChannelLead { .. } => true,
            _ => false,
        };
        let agent_name = if self.auth_provider.is_codex() {
            None
        } else if is_channel_lead {
            Some("midtown-channel-lead".to_owned())
        } else {
            match &self.team_name {
                Some(_) => Some(self.name.clone()),
                None => None,
            }
        };
        let disallowed_tools = if is_channel_lead && !self.auth_provider.is_codex() {
            channel_lead_disallowed_tools()
        } else {
            crate::args::no_args()
        };
        let env = build_agent_env_vars(
            self.name.as_str(),
            &self.role,
            &self.team_name,
            &self.channel,
            self.auth_provider,
            self.profile_dir(default_profile),
            zai,
        );
        HeadlessConfig {
            model: self.model.clone(),
            system_prompt,
            json_schema: None,
            cwd: None,
            project_name: Some(project_name.to_owned()),
            max_budget_usd: None,
            allow_tools: true,
            persist_session: true,
            resume_session_id,
            inactivity_timeout: None,
            team_name: self.team_name.clone(),
            agent_id: agent,
            agent_name,
            settings_path: None,
            setting_sources: None,
            auth_provider: self.auth_provider,
            session_id: None,
            env,
            fork_session: false,
            disallowed_tools,
            additional_dirs: copied(&self.additional_dirs),
        }
    }

    /// The arguments of a terminal session, and the identifier of a fresh session.
    pub fn to_cli_args(
        &self,
        settings_file: &str,
        prompt_file: &str,
        initial_prompt_file: Option<&str>,
        names: &Names,
    ) -> (r: (Vec<String>, Option<String>))
        ensures
            r.1 is Some <==> self.session_mode is Fresh,
            r.1 matches Some(id) ==> is_uuid(id@),
            texts(r.0@) == claude_interactive_args(
                *self,
                settings_file@,
                prompt_file@,
                opt_str(initial_prompt_file),
                opt(r.1),
                *names,
            ),
    {
        build_claude_interactive_args(self, settings_file, prompt_file, initial_prompt_file, names)
    }

    /// The arguments of the session in a terminal, by its provider. Codex begins with the
    /// prompt of the file, or else with the session's own.
    fn terminal_args(
        &self,
        settings_file: &str,
        prompt_file: &str,
        initial_prompt_file: Option<&str>,
        codex: &CodexPrompts,
        names: &Names,
    ) -> (r: (Vec<String>, Option<String>))
        ensures
            r.1 is Some <==> self.session_mode is Fresh && !(self.auth_provider is Codex),
            r.1 matches Some(id) ==> is_uuid(id@),
            texts(r.0@) == self.program_args(
                settings_file@,
                prompt_file@,
                opt_str(initial_prompt_file),
                *codex,
                opt(r.1),
                *names,
            ),
    {
        if self.auth_provider.is_codex() {
            let prompt = match &codex.initial_prompt {
                Some(p) => Some(p.as_str()),
                None => match &self.initial_prompt {
                    Some(p) => Some(p.as_str()),
                    None => None,
                },
            };
            build_codex_interactive_args(self, codex.system_prompt.as_str(), prompt)
        } else {
            self.to_cli_args(settings_file, prompt_file, initial_prompt_file, names)
        }
    }

    /// The arguments of the session in a terminal, with the program's name before them.
    pub open spec fn program_args(
        self,
        settings_file: Seq<char>,
        prompt_file: Seq<char>,
        initial_prompt_file: Option<Seq<char>>,
        codex: CodexPrompts,
        fresh_id: Option<Seq<char>>,
        names: Names,
    ) -> Seq<Seq<char>> {
        if self.auth_provider is Codex {
            codex_interactive_args(
                self,
                instructions_of(codex.system_prompt@),
                if codex.initial_prompt is Some {
                    opt(codex.initial_prompt)
                } else {
                    opt(self.initial_prompt)
                },
            )
        } else {
            claude_interactive_args(
                self,
                settings_file,
                prompt_file,
                initial_prompt_file,
                fresh_id,
                names,
            )
        }
    }

    /// The shell command that launches the session in a terminal: the variables, in the order
    /// of their names, then the program behind the sandbox's prefix.
    pub fn to_shell_command(
        &self,
        settings_file: &str,
        prompt_file: &str,
        initial_prompt_file: Option<&str>,
        codex: &CodexPrompts,
        sandbox_prefix: &Vec<String>,
        default_profile: &str,
        zai: &Option<ZaiCredentials>,
        names: &Names,
    ) -> (r: LaunchCommand)
        ensures
            r.session_id is Some <==> self.session_mode is Fresh && !(self.auth_provider is Codex),
            r.session_id matches Some(id) ==> is_uuid(id@),
            exists|l: Seq<(Seq<char>, Seq<char>)>| #[trigger]
                is_listing(l, self.env(default_profile@, *zai)) && r.shell_command@
                    == shell_command_text(
                    l,
                    texts(sandbox_prefix@) + self.program_args(
                        settings_file@,
                        prompt_file@,
                        opt_str(initial_prompt_file),
                        *codex,
                        opt(r.session_id),
                        *names,
                    ),
                ),
    {
        let env = build_agent_env_vars(
            self.name.as_str(),
            &self.role,
            &self.team_name,
            &self.channel,
            self.auth_provider,
            self.profile_dir(default_profile),
            zai,
        );
        let entries = env.entries();
        proof {
            entries_are_a_listing(entries@);
        }
        let exports = export_list(entries);
        let (cli_args, session_id) = self.terminal_args(
            settings_file,
            prompt_file,
            initial_prompt_file,
            codex,
            names,
        );
        let mut all_args = copied(sandbox_prefix);
        crate::args::add_all(&mut all_args, &cli_args);
        let ghost l = pair_texts(entries@);
        assert(is_listing(l, self.env(default_profile@, *zai)));
        let shell_command = concat4(
            "export ",
            joined(&exports, " ").as_str(),
            "; exec ",
            joined(&all_args, " ").as_str(),
        );
        LaunchCommand { shell_command, session_id }
    }

    /// A copy that starts a new session.
    pub fn as_fresh_retry(&self) -> (r: LaunchConfig)
        ensures
            r.session_mode is Fresh,
            r.additional_dirs@ == self.additional_dirs@,
            r == (LaunchConfig {
                session_mode: r.session_mode,
                additional_dirs: r.additional_dirs,
                ..*self
            }),
    {
        LaunchConfig {
            name: self.name.clone(),
            session_mode: SessionMode::Fresh,
            role: self.role.duplicate(),
            initial_prompt: self.initial_prompt.clone(),
            additional_dirs: copied(&self.additional_dirs),
            pr_number: self.pr_number,
            team_name: self.team_name.clone(),
            working_dir: self.working_dir.clone(),
            model: self.model.clone(),
            channel: self.channel.clone(),
            auth_profile_dir: self.auth_profile_dir.clone(),
            auth_provider: self.auth_provider,
            persisted_initial_prompt: self.persisted_initial_prompt.clone(),
            cwd_subdir: self.cwd_subdir.clone(),
        }
    }

    /// Takes over the provider and the model that are set for a task.
    pub fn apply_task_model(&mut self, task_model_map: &TextMap, task_id: &str, names: &Names)
        ensures
            match task_model(task_model_map@, task_id@, *names) {
                Some((provider, model)) => {
                    &&& final(self).model@ == model
                    &&& final(self).auth_provider == provider
                    &&& *final(self) == (LaunchConfig {
                        model: final(self).model,
                        auth_provider: provider,
                        ..*old(self)
                    })
                },
                None => *final(self) == *old(self),
            },
    {
        if let Some(full) = task_model_map.get(task_id) {
            if let Some((provider, model)) = parse_task_model(full.as_str(), names) {
                self.model = model;
                self.auth_provider = provider;
            }
        }
    }
}

/// The provider and the model that a text of the form `provider/model` names. Neither part
/// may be empty.
pub open spec fn parsed_task_model(full: Seq<char>, names: Names) -> Option<
    (AuthProvider, Seq<char>),
> {
    match cut(full, '/') {
        Some((provider, model)) => if provider.len() == 0 || model.len() == 0 {
            None
        } else {
            match AuthProvider::named(provider, names) {
                Some(p) => Some((p, model)),
                None => None,
            }
        },
        None => None,
    }
}

/// The provider and the model that are set for a task.
pub open spec fn task_model(
    models: Map<Seq<char>, Seq<char>>,
    task: Seq<char>,
    names: Names,
) -> Option<(AuthProvider, Seq<char>)> {
    if models.contains_key(task) {
        parsed_task_model(models[task], names)
    } else {
        None
    }
}

/// The provider and the model that a text of the form `provider/model` names.
pub fn parse_task_model(full_model: &str, names: &Names) -> (r: Option<(AuthProvider, String)>)
    ensures
        match r {
            Some((p, model)) => parsed_task_model(full_model@, *names) == Some((p, model@)),
            None => parsed_task_model(full_model@, *names) is None,
        },
{
    match split_once(full_model, '/') {
        Some((provider, model)) => {
            if provider.as_str().is_empty() || model.as_str().is_empty() {
                return None;
            }
            match AuthProvider::parse(provider.as_str(), names) {
                Some(p) => Some((p, model)),
                None => None,
            }
        },
        None => None,
    }
}

/// The list of a team's tasks is told to the lead of the team and to nobody else: the variable
/// is there exactly for a lead with a team, and holds the name of that team.
pub proof fn the_lead_of_a_team_alone_gets_its_task_list(
    name: Seq<char>,
    role: CoworkerRole,
    team: Option<Seq<char>>,
    channel: Option<Seq<char>>,
    provider: AuthProvider,
    profile_dir: Seq<char>,
    zai: Option<ZaiCredentials>,
)
    ensures
        agent_env(name, role, team, channel, provider, profile_dir, zai).contains_key(
            "CLAUDE_CODE_TASK_LIST_ID"@,
        ) <==> role is Lead && team is Some,
        role is Lead && team is Some ==> agent_env(name, role, team, channel, provider, profile_dir, zai)["CLAUDE_CODE_TASK_LIST_ID"@] == team->0,
{
    reveal_strlit("MIDTOWN_AGENT");
    reveal_strlit("DISABLE_AUTOUPDATER");
    reveal_strlit("CLAUDE_CONFIG_DIR");
    reveal_strlit("CODEX_HOME");
    reveal_strlit("ANTHROPIC_AUTH_TOKEN");
    reveal_strlit("ANTHROPIC_BASE_URL");
    reveal_strlit("ANTHROPIC_DEFAULT_HAIKU_MODEL");
    reveal_strlit("ANTHROPIC_DEFAULT_SONNET_MODEL");
    reveal_strlit("ANTHROPIC_DEFAULT_OPUS_MODEL");
    reveal_strlit("MIDTOWN_CHANNEL");
    reveal_strlit("CLAUDE_CODE_EXPERIMENTAL_AGENT_TEAMS");
    reveal_strlit("CLAUDE_CODE_TASK_LIST_ID");
    assert("MIDTOWN_AGENT"@.len() == 13);
    assert("DISABLE_AUTOUPDATER"@.len() == 19);
    assert("CLAUDE_CONFIG_DIR"@.len() == 17);
    assert("CODEX_HOME"@.len() == 10);
    assert("ANTHROPIC_AUTH_TOKEN"@.len() == 20);
    assert("ANTHROPIC_BASE_URL"@.len() == 18);
    assert("ANTHROPIC_DEFAULT_HAIKU_MODEL"@.len() == 29);
    assert("ANTHROPIC_DEFAULT_SONNET_MODEL"@.len() == 30);
    assert("ANTHROPIC_DEFAULT_OPUS_MODEL"@.len() == 28);
    assert("MIDTOWN_CHANNEL"@.len() == 15);
    assert("CLAUDE_CODE_EXPERIMENTAL_AGENT_TEAMS"@.len() == 36);
    assert("CLAUDE_CODE_TASK_LIST_ID"@.len() == 24);
}

/// Each variable of an agent's session is there exactly where it has a value to hold, and holds
/// it. There are no others.
pub proof fn agents_get_their_variables(
    name: Seq<char>,
    role: CoworkerRole,
    team: Option<Seq<char>>,
    channel: Option<Seq<char>>,
    provider: AuthProvider,
    profile_dir: Seq<char>,
    zai: Option<ZaiCredentials>,
)
    ensures
        ({
            let e = agent_env(name, role, team, channel, provider, profile_dir, zai);
            &&& e.contains_key("MIDTOWN_AGENT"@) && e["MIDTOWN_AGENT"@] == name
            &&& e.contains_key("DISABLE_AUTOUPDATER"@) && e["DISABLE_AUTOUPDATER"@] == "1"@
            &&& e.contains_key("CLAUDE_CONFIG_DIR"@) <==> provider is Claude
            &&& provider is Claude ==> e["CLAUDE_CONFIG_DIR"@] == profile_dir
            &&& e.contains_key("CODEX_HOME"@) <==> provider is Codex
            &&& provider is Codex ==> e["CODEX_HOME"@] == profile_dir
            &&& e.contains_key("ANTHROPIC_AUTH_TOKEN"@) <==> provider is Zai && zai is Some
            &&& provider is Zai && zai is Some ==> e["ANTHROPIC_AUTH_TOKEN"@] == zai->0.api_key@
            &&& e.contains_key("ANTHROPIC_BASE_URL"@) <==> provider is Zai && zai is Some
            &&& provider is Zai && zai is Some ==> e["ANTHROPIC_BASE_URL"@] == zai->0.base_url@
            &&& e.contains_key("ANTHROPIC_DEFAULT_HAIKU_MODEL"@) <==> provider is Zai && zai is Some
            &&& provider is Zai && zai is Some ==> e["ANTHROPIC_DEFAULT_HAIKU_MODEL"@] == "GLM-4.5-Air"@
            &&& e.contains_key("ANTHROPIC_DEFAULT_SONNET_MODEL"@) <==> provider is Zai && zai is Some
            &&& provider is Zai && zai is Some ==> e["ANTHROPIC_DEFAULT_SONNET_MODEL"@] == "GLM-4.7"@
            &&& e.contains_key("ANTHROPIC_DEFAULT_OPUS_MODEL"@) <==> provider is Zai && zai is Some
            &&& provider is Zai && zai is Some ==> e["ANTHROPIC_DEFAULT_OPUS_MODEL"@] == "GLM-5"@
            &&& e.contains_key("MIDTOWN_CHANNEL"@) <==> channel is Some
            &&& channel is Some ==> e["MIDTOWN_CHANNEL"@] == channel->0
            &&& e.contains_key("CLAUDE_CODE_EXPERIMENTAL_AGENT_TEAMS"@) <==> team is Some
            &&& team is Some ==> e["CLAUDE_CODE_EXPERIMENTAL_AGENT_TEAMS"@] == "1"@
            &&& forall|k: Seq<char>| #[trigger]
                e.contains_key(k) ==> {
                    ||| k == "MIDTOWN_AGENT"@
                    ||| k == "DISABLE_AUTOUPDATER"@
                    ||| k == "CLAUDE_CONFIG_DIR"@
                    ||| k == "CODEX_HOME"@
                    ||| k == "ANTHROPIC_AUTH_TOKEN"@
                    ||| k == "ANTHROPIC_BASE_URL"@
                    ||| k == "ANTHROPIC_DEFAULT_HAIKU_MODEL"@
                    ||| k == "ANTHROPIC_DEFAULT_SONNET_MODEL"@
                    ||| k == "ANTHROPIC_DEFAULT_OPUS_MODEL"@
                    ||| k == "MIDTOWN_CHANNEL"@
                    ||| k == "CLAUDE_CODE_EXPERIMENTAL_AGENT_TEAMS"@
                    ||| k == "CLAUDE_CODE_TASK_LIST_ID"@
                }
        }),
{
    reveal_strlit("MIDTOWN_AGENT");
    reveal_strlit("DISABLE_AUTOUPDATER");
    reveal_strlit("CLAUDE_CONFIG_DIR");
    reveal_strlit("CODEX_HOME");
    reveal_strlit("ANTHROPIC_AUTH_TOKEN");
    reveal_strlit("ANTHROPIC_BASE_URL");
    reveal_strlit("ANTHROPIC_DEFAULT_HAIKU_MODEL");
    reveal_strlit("ANTHROPIC_DEFAULT_SONNET_MODEL");
    reveal_strlit("ANTHROPIC_DEFAULT_OPUS_MODEL");
    reveal_strlit("MIDTOWN_CHANNEL");
    reveal_strlit("CLAUDE_CODE_EXPERIMENTAL_AGENT_TEAMS");
    reveal_strlit("CLAUDE_CODE_TASK_LIST_ID");
    assert("MIDTOWN_AGENT"@.len() == 13);
    assert("DISABLE_AUTOUPDATER"@.len() == 19);
    assert("CLAUDE_CONFIG_DIR"@.len() == 17);
    assert("CODEX_HOME"@.len() == 10);
    assert("ANTHROPIC_AUTH_TOKEN"@.len() == 20);
    assert("ANTHROPIC_BASE_URL"@.len() == 18);
    assert("ANTHROPIC_DEFAULT_HAIKU_MODEL"@.len() == 29);
    assert("ANTHROPIC_DEFAULT_SONNET_MODEL"@.len() == 30);
    assert("ANTHROPIC_DEFAULT_OPUS_MODEL"@.len() == 28);
    assert("MIDTOWN_CHANNEL"@.len() == 15);
    assert("CLAUDE_CODE_EXPERIMENTAL_AGENT_TEAMS"@.len() == 36);
    assert("CLAUDE_CODE_TASK_LIST_ID"@.len() == 24);
}

/// A session authenticates with its own profile where it has one, and else with the one that
/// is given, and its variables tell its own name, channel and team.
pub proof fn sessions_have_the_variables_of_their_settings(
    c: LaunchConfig,
    default_profile: Seq<char>,
    zai: Option<ZaiCredentials>,
)
    ensures
        ({
            let e = c.env(default_profile, zai);
            &&& e.contains_key("MIDTOWN_AGENT"@) && e["MIDTOWN_AGENT"@] == c.name@
            &&& c.channel matches Some(channel) ==> e.contains_key("MIDTOWN_CHANNEL"@)
                && e["MIDTOWN_CHANNEL"@] == channel@
            &&& c.channel is None ==> !e.contains_key("MIDTOWN_CHANNEL"@)
            &&& e.contains_key("CLAUDE_CODE_TASK_LIST_ID"@) <==> c.role is Lead && c.team_name is Some
            &&& (c.role is Lead && c.team_name is Some) ==> e["CLAUDE_CODE_TASK_LIST_ID"@]
                == c.team_name->0@
            &&& e.contains_key("CLAUDE_CODE_EXPERIMENTAL_AGENT_TEAMS"@) <==> c.team_name is Some
            &&& c.auth_provider is Claude ==> e["CLAUDE_CONFIG_DIR"@] == (match c.auth_profile_dir {
                Some(own) => own@,
                None => default_profile,
            })
            &&& c.auth_provider is Codex ==> e["CODEX_HOME"@] == (match c.auth_profile_dir {
                Some(own) => own@,
                None => default_profile,
            })
        }),
{
    agents_get_their_variables(
        c.name@,
        c.role,
        opt(c.team_name),
        opt(c.channel),
        c.auth_provider,
        c.profile(default_profile),
        zai,
    );
    the_lead_of_a_team_alone_gets_its_task_list(
        c.name@,
        c.role,
        opt(c.team_name),
        opt(c.channel),
        c.auth_provider,
        c.profile(default_profile),
        zai,
    );
}

/// Each kind of coworker has the role of its name, and no two the same.
pub proof fn coworkers_have_the_role_of_their_name(a: CoworkerRole)
    ensures
        a.role() is Lead <==> a is Lead,
        a.role() is Reviewer <==> a is Reviewer,
        a.role() is ChannelLead <==> a is ChannelLead,
        a.role() is Coworker <==> a is Coworker,
{
}

/// The model that is set comes first; the fallback counts only without one.
pub proof fn a_set_model_comes_first(settings: RoleSettings, fallback: Seq<char>)
    ensures
        settings.model matches Some(model) ==> model_or(settings, fallback) == model@,
        settings.model is None ==> model_or(settings, fallback) == fallback,
{
}

/// A text names a provider and a model exactly where it is the name of the provider, a slash
/// and the model, which is not empty.
pub proof fn tasks_name_provider_and_model(
    full: Seq<char>,
    names: Names,
    p: AuthProvider,
    model: Seq<char>,
)
    requires
        names.program@ != "codex"@,
        names.program@ != "zai"@,
        names.program@.len() > 0,
        !names.program@.contains('/'),
    ensures
        parsed_task_model(full, names) == Some((p, model)) <==> model.len() > 0 && full == p.name(
            names,
        ) + seq!['/'] + model,
{
    cutting_drops_the_first_separator(full, '/');
    reveal_strlit("codex");
    reveal_strlit("zai");
    assert("codex"@.len() == 5);
    assert("zai"@.len() == 3);
    assert("codex"@[0] == 'c' && "codex"@[1] == 'o' && "codex"@[2] == 'd' && "codex"@[3] == 'e'
        && "codex"@[4] == 'x');
    assert("zai"@[0] == 'z' && "zai"@[1] == 'a' && "zai"@[2] == 'i');
    let name = p.name(names);
    assert(name.len() > 0 && !name.contains('/'));
    if model.len() > 0 && full == name + seq!['/'] + model {
        assert(full[name.len() as int] == '/');
        let (a, b) = cut(full, '/')->0;
        assert(full[a.len() as int] == '/');
        if a.len() < name.len() {
            assert(name[a.len() as int] == '/');
        }
        if name.len() < a.len() {
            assert(a[name.len() as int] == '/');
        }
        assert(a =~= name) by {
            assert forall|i: int| 0 <= i < a.len() implies a[i] == name[i] by {
                assert(full[i] == a[i]);
            }
        }
        assert(b =~= model) by {
            assert forall|i: int| 0 <= i < b.len() implies b[i] == model[i] by {
                assert(full[a.len() + 1 + i] == b[i]);
            }
        }
        crate::auth::provider_names_round_trip(p, names);
    }
}

/// A task has a model exactly where one is set for it that names a provider.
pub proof fn tasks_have_the_model_that_is_set(
    models: Map<Seq<char>, Seq<char>>,
    task: Seq<char>,
    names: Names,
)
    ensures
        models.contains_key(task) ==> task_model(models, task, names) == parsed_task_model(
            models[task],
            names,
        ),
        !models.contains_key(task) ==> task_model(models, task, names) is None,
{
}

/// The prompt of a coworker who takes over a pull request tells its number and its author, and
/// how to fetch and check out its branch.
pub proof fn handoffs_tell_the_request_the_author_and_the_branch(
    pr: nat,
    branch: Seq<char>,
    author: Seq<char>,
)
    ensures
        handoff_prompt(pr, branch, author) == "You're taking over PR #"@ + decimal(pr) + " from "@
            + author + ".\n\nFirst, checkout the branch:\n```bash\ngit fetch origin "@ + branch
            + "\ngit checkout "@ + branch + "\n```\n\nThen continue where "@ + author
            + " left off. This is their PR, so you have their full context from the resumed session. Address any review feedback, fix any issues, and push your changes to the branch.\n\nWhen done, post to the channel that you've addressed the feedback on PR #"@
            + decimal(pr) + "."@,
{
}

/// The shell command exports every variable once, its value in quotes, in the order in which
/// they are listed, and then runs the arguments with a space between each two.
pub proof fn commands_export_every_variable_first(
    env: Seq<(Seq<char>, Seq<char>)>,
    args: Seq<Seq<char>>,
)
    ensures
        exports(env).len() == env.len(),
        forall|i: int|
            0 <= i < env.len() ==> #[trigger] exports(env)[i] == env[i].0 + "='"@ + env[i].1 + "'"@,
        shell_command_text(env, args) == "export "@ + join(exports(env), " "@) + "; exec "@ + join(
            args,
            " "@,
        ),
{
}

/// The sessions of Codex run its program, and all others that of Anthropic; Codex begins with
/// the prompt of the file, and without one with the session's own.
pub proof fn providers_decide_the_program(
    c: LaunchConfig,
    settings_file: Seq<char>,
    prompt_file: Seq<char>,
    initial_prompt_file: Option<Seq<char>>,
    codex: CodexPrompts,
    fresh_id: Option<Seq<char>>,
    names: Names,
)
    ensures
        ({
            let args = c.program_args(
                settings_file,
                prompt_file,
                initial_prompt_file,
                codex,
                fresh_id,
                names,
            );
            &&& args.len() > 0
            &&& c.auth_provider is Codex ==> args[0] == "codex"@
            &&& !(c.auth_provider is Codex) ==> args[0] == names.program@
            &&& (c.auth_provider is Codex && codex.initial_prompt is Some) ==> args.last()
                == codex.initial_prompt->0@
            &&& (c.auth_provider is Codex && codex.initial_prompt is None && c.initial_prompt is Some)
                ==> args.last() == c.initial_prompt->0@
            &&& (!(c.auth_provider is Codex) && initial_prompt_file is Some) ==> args.last()
                == "\"$(cat "@ + initial_prompt_file->0 + ")\""@
        }),
{
}

/// A new configuration has no further directories, no place or profile of its own, and nothing to
/// keep on record but its prompt.
pub proof fn new_configurations_are_plain(c: LaunchConfig)
    ensures
        plain(c) <==> c.additional_dirs@.len() == 0 && c.working_dir is None && c.auth_profile_dir is None
            && c.persisted_initial_prompt is None && c.cwd_subdir is None,
{
}

} // verus!
