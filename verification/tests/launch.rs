use midtown::names::Names;
use midtown::auth::AuthProvider;
use midtown::config::{execution_role_for_agent_type, ExecutionRole, RoleSettings};
use midtown::headless::HeadlessConfig;
use midtown::launch::{
    channel_lead_disallowed_tools, channel_lead_fork_disallowed_tools, channel_lead_session_name,
    expand_session_id_in_prompt, inject_session_id_env, parse_task_model, zai_env_vars,
    CodexPrompts, CoworkerRole, LaunchCommand, LaunchConfig, PromptRequest, SessionMode,
};
use midtown::paths::ProjectPaths;
use midtown::text_map::TextMap;

fn names() -> Names {
    Names {
        program: format!("{:?}", AuthProvider::Claude).to_lowercase(),
        reader_agent: format!("midtown-code-{:?}", ExecutionRole::Reviewer).to_lowercase(),
    }
}

fn settings() -> RoleSettings {
    RoleSettings { auth_provider: AuthProvider::Claude, model: None }
}

fn coworker(name: &str, mode: SessionMode, prompt: Option<&str>) -> LaunchConfig {
    LaunchConfig::coworker(name, "myrepo", mode, prompt.map(str::to_string), &settings())
}

fn lead() -> LaunchConfig {
    LaunchConfig::lead("myrepo", None, "Start.".to_string(), &settings())
}

fn reviewer() -> LaunchConfig {
    LaunchConfig::reviewer("york", 42, "Review.".to_string(), AuthProvider::Claude, &settings())
}

fn channel_lead(channel: &str) -> LaunchConfig {
    LaunchConfig::channel_lead(
        channel,
        "myrepo",
        SessionMode::Fresh,
        "",
        "Start.".to_string(),
        "sonnet".to_string(),
        AuthProvider::Claude,
    )
}

fn headless(config: &LaunchConfig) -> HeadlessConfig {
    config.to_headless_config("midtown", "You work on midtown.".to_string(), "/profile", &None)
}

fn shell(config: &LaunchConfig, initial_prompt: Option<&str>) -> LaunchCommand {
    let codex = CodexPrompts {
        system_prompt: "You work on midtown.".to_string(),
        initial_prompt: initial_prompt.map(str::to_string),
    };
    config.to_shell_command(
        "/tmp/settings.json",
        "/tmp/prompt.md",
        None,
        &codex,
        &vec![],
        "/profile",
        &None,
        &names(),
    )
}

#[test]
fn test_to_headless_config_fresh_coworker() {
    let config = coworker("park", SessionMode::Fresh, None);
    let headless = headless(&config);

    assert!(headless.persist_session);
    assert!(headless.resume_session_id.is_none());
    assert!(headless.allow_tools);
    assert_eq!(headless.team_name, Some("midtown-myrepo".to_string()));
    assert_eq!(headless.agent_id, Some("park@midtown-myrepo".to_string()));
    assert_eq!(headless.agent_name, Some("park".to_string()));
    assert!(!headless.system_prompt.is_empty());
    assert_eq!(headless.model, "sonnet");
}

#[test]
fn test_to_headless_config_resume_session() {
    let config = LaunchConfig {
        session_mode: SessionMode::ResumeSession("abc-123".to_string()),
        ..coworker("park", SessionMode::Fresh, None)
    };
    let headless = headless(&config);

    assert!(headless.persist_session);
    assert_eq!(headless.resume_session_id, Some("abc-123".to_string()));
}

#[test]
fn test_to_headless_config_reviewer_has_no_teams() {
    let headless = headless(&reviewer());

    assert!(headless.team_name.is_none());
    assert!(headless.agent_id.is_none());
    assert!(headless.agent_name.is_none());
    assert_eq!(headless.model, "opus");
}

#[test]
fn test_to_headless_config_reviewer_has_tools() {
    assert!(headless(&reviewer()).allow_tools);
}

#[test]
fn test_to_headless_config_setting_sources_handled_by_platform() {
    let config = coworker("park", SessionMode::Fresh, None);
    assert_eq!(headless(&config).setting_sources, None);
    assert_eq!(headless(&reviewer()).setting_sources, None);
    assert_eq!(headless(&lead()).setting_sources, None);
}

#[test]
fn test_launch_config_coworker_factory() {
    let config = coworker("park", SessionMode::Fresh, Some("Do the thing"));
    assert_eq!(config.name, "park");
    assert!(config.session_mode == SessionMode::Fresh);
    assert!(config.role == CoworkerRole::Coworker);
    assert_eq!(config.initial_prompt, Some("Do the thing".to_string()));
    assert!(config.pr_number.is_none());
    assert_eq!(config.team_name, Some("midtown-myrepo".to_string()));
    assert_eq!(config.model, "sonnet");
    let chosen = RoleSettings {
        auth_provider: AuthProvider::Codex,
        model: Some("gpt-5.3-codex".to_string()),
    };
    let config = LaunchConfig::coworker("park", "myrepo", SessionMode::Fresh, None, &chosen);
    assert_eq!(config.model, "gpt-5.3-codex");
    assert_eq!(config.auth_provider, AuthProvider::Codex);
}

#[test]
fn test_launch_config_reviewer_factory() {
    let config = reviewer();
    assert_eq!(config.name, "york");
    assert_eq!(config.pr_number, Some(42));
    assert!(config.role == CoworkerRole::Reviewer);
    assert!(config.team_name.is_none());
    assert_eq!(config.model, "opus");
}

#[test]
fn test_launch_config_pr_handoff_factory() {
    let config = LaunchConfig::pr_handoff(
        "york",
        "myrepo",
        "session-123".to_string(),
        42,
        "feature/branch",
        "original-author",
        &settings(),
    );
    assert_eq!(config.name, "york");
    assert!(config.session_mode == SessionMode::ResumeSession("session-123".to_string()));
    assert!(config.initial_prompt.is_some());
    assert_eq!(config.team_name, Some("midtown-myrepo".to_string()));
    assert!(config.pr_number.is_none());
    assert_eq!(config.model, "opus");
    let prompt = config.initial_prompt.unwrap();
    assert!(prompt.contains("42"));
    assert!(prompt.contains("feature/branch"));
    assert!(prompt.contains("original-author"));
}

#[test]
fn test_launch_config_as_fresh_retry() {
    let config = coworker("park", SessionMode::Resume, Some("task prompt"));
    let retry = config.as_fresh_retry();
    assert!(retry.session_mode == SessionMode::Fresh);
    assert_eq!(retry.name, "park");
    assert_eq!(retry.initial_prompt, Some("task prompt".to_string()));
}

#[test]
fn test_shell_command_fresh_session() {
    let config = coworker("park", SessionMode::Fresh, None);
    let result = shell(&config, None);
    assert!(result.shell_command.contains("--session-id "));
    assert!(!result.shell_command.contains("--continue"));
    assert!(!result.shell_command.contains("--resume "));
    assert!(result.session_id.is_some());
    assert!(result.shell_command.contains(&result.session_id.unwrap()));
}

#[test]
fn test_shell_command_resume_session() {
    let config = LaunchConfig {
        session_mode: SessionMode::ResumeSession("abc-123".to_string()),
        ..coworker("park", SessionMode::Fresh, None)
    };
    let result = shell(&config, None);
    assert!(result.shell_command.contains("--resume abc-123"));
    assert!(result.session_id.is_none());
}

#[test]
fn test_shell_command_agent_teams_flags() {
    let config = coworker("lexington", SessionMode::Fresh, None);
    let result = shell(&config, None);
    assert!(result.shell_command.contains("--agent-id lexington@midtown-myrepo"));
    assert!(result.shell_command.contains("--agent-name lexington"));
    assert!(result.shell_command.contains("--team-name midtown-myrepo"));
    assert!(
        result.shell_command.contains("CLAUDE_CODE_EXPERIMENTAL_AGENT_TEAMS='1'"),
        "{}",
        result.shell_command
    );
}

#[test]
fn test_shell_command_no_agent_teams_without_team() {
    let config = LaunchConfig { team_name: None, ..coworker("park", SessionMode::Fresh, None) };
    let result = shell(&config, None);
    assert!(!result.shell_command.contains("--agent-id"));
    assert!(!result.shell_command.contains("CLAUDE_CODE_EXPERIMENTAL_AGENT_TEAMS"));
}

#[test]
fn test_channel_routing_env_var() {
    let mut config = coworker("park", SessionMode::Fresh, None);
    config.channel = Some("task-42".to_string());
    let headless = headless(&config);

    assert_eq!(headless.env.get("MIDTOWN_CHANNEL"), Some(&"task-42".to_string()));
}

#[test]
fn test_no_channel_routing_when_none() {
    let config = coworker("park", SessionMode::Fresh, None);
    assert!(!headless(&config).env.contains_key("MIDTOWN_CHANNEL"));
}

#[test]
fn test_to_headless_config_uses_codex_home_for_codex_provider() {
    let mut config = coworker("park", SessionMode::Fresh, None);
    config.auth_provider = AuthProvider::Codex;
    config.auth_profile_dir = Some("/tmp/midtown-codex-profile".to_string());

    let headless = headless(&config);

    assert_eq!(
        headless.env.get("CODEX_HOME"),
        Some(&"/tmp/midtown-codex-profile".to_string())
    );
    assert_eq!(headless.auth_provider, AuthProvider::Codex);
    assert!(!headless.env.contains_key("CLAUDE_CONFIG_DIR"));
}

#[test]
fn test_to_headless_config_uses_zai_env_model_defaults() {
    let zai = Some(zai_env_vars("test-key\n", Some("https://api.z.ai/api/anthropic\n")));

    let mut config = coworker("park", SessionMode::Fresh, None);
    config.auth_provider = AuthProvider::Zai;
    config.auth_profile_dir = Some("/tmp/profile".to_string());
    config.model = "haiku".to_string();

    let headless = config.to_headless_config("midtown", "Work.".to_string(), "/profile", &zai);

    assert_eq!(
        headless.env.get("ANTHROPIC_DEFAULT_HAIKU_MODEL"),
        Some(&"GLM-4.5-Air".to_string())
    );
    assert_eq!(
        headless.env.get("ANTHROPIC_DEFAULT_SONNET_MODEL"),
        Some(&"GLM-4.7".to_string())
    );
    assert_eq!(headless.env.get("ANTHROPIC_DEFAULT_OPUS_MODEL"), Some(&"GLM-5".to_string()));
    assert_eq!(headless.model, "haiku");
    assert_eq!(headless.env.get("ANTHROPIC_AUTH_TOKEN"), Some(&"test-key".to_string()));
    assert_eq!(
        headless.env.get("ANTHROPIC_BASE_URL"),
        Some(&"https://api.z.ai/api/anthropic".to_string())
    );
}

#[test]
fn test_parse_task_model_valid_claude() {
    let result = parse_task_model(&format!("{}/opus", names().program), &names());
    assert_eq!(result, Some((AuthProvider::Claude, "opus".to_string())));
}

#[test]
fn test_parse_task_model_valid_codex() {
    let result = parse_task_model("codex/o3", &names());
    assert_eq!(result, Some((AuthProvider::Codex, "o3".to_string())));
}

#[test]
fn test_parse_task_model_empty_model_returns_none() {
    assert_eq!(parse_task_model(&format!("{}/", names().program), &names()), None);
}

#[test]
fn test_parse_task_model_empty_provider_returns_none() {
    assert_eq!(parse_task_model("/opus", &names()), None);
}

#[test]
fn test_parse_task_model_no_slash_returns_none() {
    assert_eq!(parse_task_model(&format!("{}-opus", names().program), &names()), None);
}

#[test]
fn test_parse_task_model_unknown_provider_returns_none() {
    assert_eq!(parse_task_model("unknown/opus", &names()), None);
}

#[test]
fn test_parse_task_model_whitespace_in_model() {
    let result = parse_task_model(&format!("{}/ opus", names().program), &names());
    assert_eq!(result, Some((AuthProvider::Claude, " opus".to_string())));
}

#[test]
fn test_apply_task_model_sets_both_model_and_provider() {
    let mut config = coworker("park", SessionMode::Fresh, None);
    let mut map = TextMap::new();
    map.insert("42", "codex/o3");

    config.apply_task_model(&map, "42", &names());

    assert_eq!(config.model, "o3");
    assert_eq!(config.auth_provider, AuthProvider::Codex);
}

#[test]
fn test_apply_task_model_no_change_when_task_not_in_map() {
    let mut config = coworker("park", SessionMode::Fresh, None);
    let original_model = config.model.clone();
    let original_provider = config.auth_provider;
    let map = TextMap::new();

    config.apply_task_model(&map, "42", &names());

    assert_eq!(config.model, original_model);
    assert_eq!(config.auth_provider, original_provider);
}

#[test]
fn test_apply_task_model_no_change_on_invalid_format() {
    let mut config = coworker("park", SessionMode::Fresh, None);
    let original_model = config.model.clone();
    let original_provider = config.auth_provider;
    let mut map = TextMap::new();
    map.insert("42", "invalid-format");

    config.apply_task_model(&map, "42", &names());

    assert_eq!(config.model, original_model);
    assert_eq!(config.auth_provider, original_provider);
}

#[test]
fn test_apply_task_model_no_change_on_empty_model_string() {
    let mut config = coworker("park", SessionMode::Fresh, None);
    let original_model = config.model.clone();
    let original_provider = config.auth_provider;
    let mut map = TextMap::new();
    map.insert("42", &format!("{}/", names().program));

    config.apply_task_model(&map, "42", &names());

    assert_eq!(config.model, original_model);
    assert_eq!(config.auth_provider, original_provider);
}

#[test]
fn test_headless_config_lead_role_uses_lead_prompt() {
    let config = lead();
    assert!(matches!(config.prompt_request("midtown"), PromptRequest::Lead { .. }));
    assert!(!headless(&config).system_prompt.is_empty());
    assert!(config.role == CoworkerRole::Lead);
}

#[test]
fn test_lead_config_setting_sources_handled_by_platform_builder() {
    assert_eq!(headless(&lead()).setting_sources, None);
}

#[test]
fn test_launch_config_lead_factory() {
    let config = lead();
    assert_eq!(config.name, "myrepo");
    assert!(config.role == CoworkerRole::Lead);
    assert!(config.initial_prompt.is_some());
    assert!(config.pr_number.is_none());
    assert_eq!(config.team_name, Some("midtown-myrepo".to_string()));
    assert_eq!(config.model, "opus");
}

#[test]
fn test_lead_config_has_team_name() {
    let headless = headless(&lead());

    assert_eq!(headless.team_name, Some("midtown-myrepo".to_string()));
    assert_eq!(headless.agent_id, Some("myrepo@midtown-myrepo".to_string()));
    assert_eq!(headless.agent_name, Some("myrepo".to_string()));
}

#[test]
fn test_launch_config_channel_lead_factory() {
    let config = channel_lead("daemon-architecture");
    assert_eq!(config.name, "daemon-architecture");
    assert!(
        config.role
            == CoworkerRole::ChannelLead {
                channel_name: "daemon-architecture".to_string(),
                domain_context: "".to_string(),
            }
    );
    assert_eq!(config.model, "sonnet");
    assert_eq!(config.channel, Some("daemon-architecture".to_string()));
    assert_eq!(config.team_name, Some("midtown-myrepo".to_string()));
    assert!(config.initial_prompt.is_some());
    assert!(config.pr_number.is_none());
}

#[test]
fn test_channel_lead_session_name() {
    assert_eq!(channel_lead_session_name("auth"), "auth");
    assert_eq!(channel_lead_session_name("web-interface"), "web-interface");
    assert_eq!(channel_lead_session_name("park"), "park");
}

#[test]
fn channel_leads_have_a_prompt_of_their_own() {
    let config = channel_lead("tui");
    match config.prompt_request("midtown") {
        PromptRequest::ChannelLead { channel_name, project, .. } => {
            assert_eq!(channel_name, "tui");
            assert_eq!(project, "midtown");
        }
        _ => panic!("expected the prompt of a channel lead"),
    }
}

#[test]
fn test_launch_config_ops_channel_lead_model() {
    assert_eq!(channel_lead("ops").model, "sonnet");
    let chosen = RoleSettings {
        auth_provider: AuthProvider::Claude,
        model: Some("haiku".to_string()),
    };
    let config = LaunchConfig::lead("myrepo", Some("ops"), "Start.".to_string(), &chosen);
    assert_eq!(config.model, "haiku");
}

#[test]
fn only_leads_keep_their_system_prompt() {
    assert!(lead().keeps_system_prompt());
    assert!(!coworker("park", SessionMode::Fresh, None).keeps_system_prompt());
}

#[test]
fn test_lead_system_prompt_file_path() {
    let paths = ProjectPaths::below("myrepo", "myrepo", "/base", "/state");
    assert_eq!(paths.lead_system_prompt_file(), "/base/projects/myrepo/lead-system-prompt.txt");
}

#[test]
fn test_inject_session_id_env_sets_midtown_session_id() {
    let mut env = TextMap::new();
    assert!(!env.contains_key("MIDTOWN_SESSION_ID"));
    inject_session_id_env(&mut env, "test-uuid-abc123");
    assert_eq!(env.get("MIDTOWN_SESSION_ID").map(String::as_str), Some("test-uuid-abc123"));
}

#[test]
fn test_inject_session_id_env_overwrites_existing_value() {
    let mut env = TextMap::new();
    env.insert("MIDTOWN_SESSION_ID", "old-uuid");
    inject_session_id_env(&mut env, "new-uuid-xyz");
    assert_eq!(env.get("MIDTOWN_SESSION_ID").map(String::as_str), Some("new-uuid-xyz"));
}

#[test]
fn test_shell_command_codex_fresh_uses_codex_binary() {
    let mut config = coworker("park", SessionMode::Fresh, Some("Investigate failing tests"));
    config.auth_provider = AuthProvider::Codex;
    config.model = "gpt-5.3-codex".to_string();
    let result = shell(&config, Some("Investigate failing tests"));
    assert!(result.shell_command.contains(" codex "));
    assert!(!result.shell_command.contains(&format!(" {} ", names().program)));
    assert!(result.shell_command.contains("--dangerously-bypass-approvals-and-sandbox"));
    assert!(result.shell_command.contains("--model"));
    assert!(result.shell_command.contains("gpt-5.3-codex"));
    assert!(result.shell_command.contains("Investigate failing tests"));
    assert!(result.session_id.is_none());
}

#[test]
fn test_shell_command_codex_fresh_reads_initial_prompt_file() {
    let mut config = coworker("park", SessionMode::Fresh, None);
    config.auth_provider = AuthProvider::Codex;
    config.model = "gpt-5.3-codex".to_string();
    let result = shell(&config, Some("Prompt from file"));
    assert!(result.shell_command.contains("Prompt from file"), "{}", result.shell_command);
}

#[test]
fn test_shell_command_codex_resume_uses_resume_subcommand() {
    let mut config = lead();
    config.auth_provider = AuthProvider::Codex;
    config.model = "gpt-5.3-codex".to_string();
    config.session_mode = SessionMode::ResumeSession("thread-123".to_string());
    let result = shell(&config, None);
    assert!(result.shell_command.contains(" codex "));
    assert!(result.shell_command.contains(" resume "));
    assert!(result.shell_command.contains("thread-123"));
    assert!(result.shell_command.contains("developer_instructions="));
    assert!(!result.shell_command.contains(" --model "), "{}", result.shell_command);
    assert!(result.session_id.is_none());
}

#[test]
fn test_channel_lead_disallowed_tools_contains_code_modification_tools() {
    let tools = channel_lead_disallowed_tools();
    assert!(tools.contains(&"Write".to_string()));
    assert!(tools.contains(&"NotebookEdit".to_string()));
    assert!(!tools.contains(&"Edit".to_string()));
    assert!(!tools.contains(&"Bash".to_string()));
}

#[test]
fn test_channel_lead_fork_disallowed_tools_includes_edit() {
    let tools = channel_lead_fork_disallowed_tools();
    assert!(tools.contains(&"Edit".to_string()));
    assert!(tools.contains(&"Write".to_string()));
    assert!(tools.contains(&"NotebookEdit".to_string()));
    assert!(!tools.contains(&"Bash".to_string()));
}

#[test]
fn test_channel_lead_headless_config_has_disallowed_tools() {
    let headless = headless(&channel_lead("auth"));
    assert!(!headless.disallowed_tools.is_empty());
    assert!(!headless.disallowed_tools.contains(&"Edit".to_string()));
    assert!(headless.disallowed_tools.contains(&"Write".to_string()));
    assert!(!headless.disallowed_tools.contains(&"Bash".to_string()));
    assert!(headless.disallowed_tools.contains(&"NotebookEdit".to_string()));
}

#[test]
fn test_coworker_headless_config_has_no_disallowed_tools() {
    let config = coworker("park", SessionMode::Fresh, None);
    assert!(headless(&config).disallowed_tools.is_empty());
}

#[test]
fn test_reviewer_headless_config_has_no_disallowed_tools() {
    assert!(headless(&reviewer()).disallowed_tools.is_empty());
}

#[test]
fn test_lead_headless_config_has_no_disallowed_tools() {
    assert!(headless(&lead()).disallowed_tools.is_empty());
}

#[test]
fn test_codex_channel_lead_skips_disallowed_tools() {
    let mut config = channel_lead("ops");
    config.auth_provider = AuthProvider::Codex;
    assert!(headless(&config).disallowed_tools.is_empty());
}

#[test]
fn test_claude_channel_lead_still_has_disallowed_tools() {
    let headless = headless(&channel_lead("ops"));
    assert!(!headless.disallowed_tools.is_empty());
    assert!(!headless.disallowed_tools.contains(&"Edit".to_string()));
    assert!(headless.disallowed_tools.contains(&"Write".to_string()));
}

#[test]
fn test_channel_lead_cwd_subdir_defaults_to_none() {
    assert!(channel_lead("auth").cwd_subdir.is_none());
}

#[test]
fn test_channel_lead_cwd_subdir_can_be_set() {
    let mut config = channel_lead("auth");
    config.cwd_subdir = Some("packages/auth".to_string());
    assert_eq!(config.cwd_subdir.as_deref(), Some("packages/auth"));
}

#[test]
fn test_execution_role_for_code_author() {
    assert_eq!(execution_role_for_agent_type("midtown-code-author", &names()), ExecutionRole::Coworker);
}

#[test]
fn test_execution_role_for_code_reviewer() {
    assert_eq!(execution_role_for_agent_type(&names().reader_agent, &names()), ExecutionRole::Reviewer);
}

#[test]
fn test_execution_role_for_project_lead() {
    assert_eq!(execution_role_for_agent_type("midtown-project-lead", &names()), ExecutionRole::Lead);
}

#[test]
fn test_execution_role_for_channel_lead() {
    assert_eq!(execution_role_for_agent_type("midtown-channel-lead", &names()), ExecutionRole::ChannelLead);
}

#[test]
fn test_expand_session_id_replaces_env_var_in_prompt() {
    let prompt = "<!-- midtown session:$MIDTOWN_SESSION_ID --> some text $MIDTOWN_SESSION_ID end";
    let expanded = expand_session_id_in_prompt(prompt, "abc-123-def");
    assert_eq!(expanded, "<!-- midtown session:abc-123-def --> some text abc-123-def end");
}

#[test]
fn test_expand_session_id_noop_when_no_placeholder() {
    let prompt = "no env var references here";
    let expanded = expand_session_id_in_prompt(prompt, "abc-123");
    assert_eq!(expanded, prompt);
}

#[test]
fn shell_command_exports_before_it_runs() {
    let config = LaunchConfig {
        session_mode: SessionMode::Resume,
        team_name: None,
        ..coworker("park", SessionMode::Fresh, None)
    };
    let text = shell(&config, None).shell_command;
    assert!(
        text.starts_with(&format!(
            "export CLAUDE_CONFIG_DIR='/profile' DISABLE_AUTOUPDATER='1' MIDTOWN_AGENT='park'; exec {} ",
            names().program
        )),
        "{text}"
    );
}

#[test]
fn roles_of_sessions_are_those_of_the_configuration() {
    assert_eq!(lead().role.execution_role(), ExecutionRole::Lead);
    assert_eq!(reviewer().role.execution_role(), ExecutionRole::Reviewer);
    assert_eq!(channel_lead("web").role.execution_role(), ExecutionRole::ChannelLead);
    let config = coworker("park", SessionMode::Fresh, None);
    assert_eq!(config.role.execution_role(), ExecutionRole::Coworker);
    let (args, id) = config.to_cli_args("/s.json", "/p.md", Some("/i.md"), &names());
    assert_eq!(args[0], names().program);
    assert!(args.contains(&id.unwrap()));
    assert_eq!(args.last().unwrap(), "\"$(cat /i.md)\"");
}

#[test]
fn test_to_headless_config_sets_agent_name_for_channel_lead() {
    let headless = headless(&channel_lead("ops"));
    assert_eq!(
        headless.agent_name.as_deref(),
        Some("midtown-channel-lead"),
        "Channel lead headless config should have agent_name set"
    );
}

#[test]
fn test_to_headless_config_codex_uses_full_prompt_no_agent_name() {
    let mut config = coworker("park", SessionMode::Fresh, None);
    config.auth_provider = AuthProvider::Codex;

    let full_prompt = "You work on midtown.".to_string();
    let headless =
        config.to_headless_config("midtown", full_prompt.clone(), "/profile", &None);

    assert!(headless.agent_name.is_none(), "Codex headless config must not set agent_name");
    assert_eq!(
        headless.system_prompt, full_prompt,
        "Codex system_prompt should include all layers (full prompt)"
    );
}

#[test]
fn a_channel_lead_has_no_agent_definition_with_codex() {
    let mut config = channel_lead("ops");
    config.auth_provider = AuthProvider::Codex;
    assert!(headless(&config).agent_name.is_none());
    let mut config = channel_lead("ops");
    config.team_name = None;
    let headless = headless(&config);
    assert_eq!(headless.agent_name.as_deref(), Some("midtown-channel-lead"));
    assert!(headless.agent_id.is_none());
}

#[test]
fn a_fresh_terminal_session_has_a_random_identifier() {
    let config = coworker("park", SessionMode::Fresh, None);
    let (one, two) = (shell(&config, None).session_id, shell(&config, None).session_id);
    assert_ne!(one, two);
    let id = one.unwrap();
    assert_eq!(id.len(), 36);
    assert_eq!(uuid::Uuid::parse_str(&id).unwrap().get_version_num(), 4);
}
