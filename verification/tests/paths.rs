use midtown::paths::migrate::{
    auto_migrate, do_migrate_lead_to_project, do_migrate_worktree_paths,
    migrate_directory_structure, migrate_headless_transcripts_to_sessions,
    migrate_legacy_coworker_worktrees, moves_something, FsAction, MigrationLog,
};
use midtown::paths::plugins::{
    agents_md_for_channel, collect_skill_md_bodies, discover_plugin_dirs,
    parse_skill_md_name_and_body, workflow_script_for_channel, PluginDir, PluginEntry, SkillFile,
};
use midtown::paths::workflows::{
    discover_workflows, merge_workflow_agents_md, parse_agents_md_frontmatter,
    workflow_agents_md_content, WorkflowEntry,
};
use midtown::paths::{
    assets_dir_for_repo, base_dir_below, channel_file_for_repo, cursors_dir_for_repo,
    daemon_log_dir, daemon_log_dir_for_repo, daemon_log_file, daemon_log_file_for_repo,
    daemon_pid_file, daemon_pid_file_for_repo, daemon_socket, daemon_socket_for_repo,
    daemon_state_file_for_repo, detect_project_name, detect_repo_name, detect_repo_name_from_dir,
    enumerate_daemon_sockets, github_state_file_for_repo, headless_output_file, hooks_log_file,
    hooks_log_file_for_repo, lead_dir_for_repo, lead_session_file, lead_session_file_for_repo,
    lead_system_prompt_file, lead_worktree_path, legacy_coworkers_dir_for_repo, midtown_base_dir,
    midtown_data_dir, project_name_for_dir_key, projects_dir_for_repo, reminders_file_for_repo,
    repo_name_of_toplevel, resolve_python_sdk_dir, sanitize_project_name,
    screenshots_dir_for_repo, state_dir, task_list_id, task_list_id_for_repo, workflow_state_file,
    worktrees_dir_for_repo, ProjectPaths, RepoQuery, StateEntry,
};
use midtown::text_map::TextMap;

fn strings(items: &[&str]) -> Vec<String> {
    items.iter().map(|s| s.to_string()).collect()
}

#[test]
fn test_daemon_socket_for_repo() {
    let path = daemon_socket_for_repo("myproject", None);
    assert!(path.contains("midtown"));
    assert!(path.contains("myproject"));
    assert!(path.ends_with("daemon.sock"));
}

#[test]
fn test_daemon_socket_different_repos() {
    let path1 = daemon_socket_for_repo("project-a", None);
    let path2 = daemon_socket_for_repo("project-b", None);
    assert_ne!(path1, path2);
}

#[test]
fn test_daemon_pid_file_for_repo() {
    let path = daemon_pid_file_for_repo("myproject");
    assert!(path.contains(".midtown"));
    assert!(path.contains("projects"));
    assert!(path.contains("myproject"));
    assert!(path.ends_with("daemon.pid"));
}

#[test]
fn test_daemon_pid_file_different_repos() {
    let path1 = daemon_pid_file_for_repo("project-a");
    let path2 = daemon_pid_file_for_repo("project-b");
    assert_ne!(path1, path2);
}

#[test]
fn test_projects_dir_for_repo() {
    let path = projects_dir_for_repo("myproject");
    assert!(path.contains(".midtown"));
    assert!(path.contains("projects"));
    assert!(path.ends_with("myproject"));
}

#[test]
fn test_legacy_coworkers_dir_for_repo() {
    let s = legacy_coworkers_dir_for_repo("myproject");
    assert!(s.contains(".midtown"), "should be under .midtown: {s}");
    assert!(
        s.contains("projects/myproject"),
        "should be under projects/<repo>: {s}"
    );
    assert!(s.ends_with("coworkers"), "should end with coworkers: {s}");
}

#[test]
fn test_lead_dir_for_repo() {
    let s = lead_dir_for_repo("myproject");
    assert!(s.contains(".midtown"), "should be under .midtown: {s}");
    assert!(
        s.contains("projects/myproject"),
        "should be under projects/<repo>: {s}"
    );
}

#[test]
fn test_lead_session_file_for_repo() {
    let s = lead_session_file_for_repo("myproject");
    assert!(s.contains(".midtown"), "should be under .midtown: {s}");
    assert!(
        s.contains("projects/myproject"),
        "should be under projects/<repo>: {s}"
    );
    assert!(
        s.ends_with("lead-session-id"),
        "should end with lead-session-id: {s}"
    );
}

#[test]
fn test_lead_session_file_not_under_lead_dir() {
    let s = lead_session_file_for_repo("myproject");
    assert!(
        !s.contains("/lead/myproject"),
        "should NOT be under old lead/<repo> path: {s}"
    );
}

#[test]
fn test_task_list_id_for_repo() {
    let id = task_list_id_for_repo("myproject");
    assert_eq!(id, "midtown-myproject");
}

#[test]
fn test_channel_file_for_repo() {
    let path = channel_file_for_repo("myproject");
    assert!(path.contains(".midtown"));
    assert!(path.contains("projects"));
    assert!(path.contains("myproject"));
    assert!(path.ends_with("current.jsonl"));
}

#[test]
fn test_channel_file_for_repo_uses_repo_as_channel_name() {
    let path = channel_file_for_repo("myproject");
    assert!(
        path.contains("channels/myproject/"),
        "Expected channel dir to be 'myproject', got: {}",
        path
    );
}

#[test]
fn test_cursors_dir_for_repo() {
    let path = cursors_dir_for_repo("myproject");
    assert!(path.contains(".midtown"));
    assert!(path.contains("projects"));
    assert!(path.contains("myproject"));
    assert!(path.ends_with("cursors"));
}

#[test]
fn test_daemon_log_dir_for_repo() {
    let path = daemon_log_dir_for_repo("myproject");
    assert!(path.contains(".midtown"));
    assert!(path.contains("projects"));
    assert!(path.contains("myproject"));
    assert!(path.ends_with("logs"));
}

#[test]
fn test_lead_worktree_path() {
    let s = lead_worktree_path("myrepo");
    assert!(
        s.ends_with("projects/myrepo/worktrees/lead"),
        "expected projects/<repo>/worktrees/lead, got: {s}"
    );
    assert_eq!(s, format!("{}/lead", worktrees_dir_for_repo("myrepo")));
}

#[test]
fn test_worktrees_dir_for_repo_new_path() {
    let s = worktrees_dir_for_repo("myproject");
    assert!(s.contains(".midtown"), "should be under .midtown: {s}");
    assert!(
        s.contains("projects/myproject/worktrees"),
        "should be under projects/<repo>/worktrees: {s}"
    );
    assert!(s.ends_with("worktrees"), "should end with worktrees: {s}");
}

#[test]
fn test_assets_dir_for_repo_path_structure() {
    let s = assets_dir_for_repo("myproject");
    assert!(s.contains(".midtown"), "should be under .midtown: {s}");
    assert!(s.contains("projects"), "should be under projects/: {s}");
    assert!(s.contains("myproject"), "should include repo name: {s}");
    assert!(s.ends_with("assets"), "should end with 'assets': {s}");
}

#[test]
fn test_assets_dir_for_repo_is_under_projects_dir() {
    let assets = assets_dir_for_repo("myproject");
    let projects = projects_dir_for_repo("myproject");
    assert_eq!(assets, format!("{projects}/assets"));
}

#[test]
fn test_assets_dir_different_repos_differ() {
    let path_a = assets_dir_for_repo("repo-a");
    let path_b = assets_dir_for_repo("repo-b");
    assert_ne!(path_a, path_b);
}

#[test]
fn test_workflow_state_file_path_structure() {
    let s = workflow_state_file("my-channel", "myrepo");
    assert!(s.contains(".midtown"), "should be under .midtown: {s}");
    assert!(s.contains("projects"), "should be under projects/: {s}");
    assert!(s.contains("myrepo"), "should include repo name: {s}");
    assert!(s.contains("channels"), "should be under channels/: {s}");
    assert!(s.contains("my-channel"), "should include channel name: {s}");
    assert!(
        s.ends_with("workflow-state.json"),
        "should end with workflow-state.json: {s}"
    );
}

#[test]
fn test_workflow_state_file_different_channels_differ() {
    let path_a = workflow_state_file("channel-a", "myrepo");
    let path_b = workflow_state_file("channel-b", "myrepo");
    assert_ne!(path_a, path_b);
}

#[test]
fn test_workflow_state_file_different_repos_differ() {
    let path_a = workflow_state_file("my-channel", "repo-a");
    let path_b = workflow_state_file("my-channel", "repo-b");
    assert_ne!(path_a, path_b);
}

#[test]
fn test_headless_output_file_in_sessions_dir() {
    let s = headless_output_file("myproject", "york");
    assert!(
        s.contains("projects/myproject/sessions/"),
        "should be under projects/<repo>/sessions/: {s}"
    );
    assert!(
        s.ends_with("headless-york.jsonl"),
        "should end with headless-<name>.jsonl: {s}"
    );
}

#[test]
fn test_headless_output_method_in_sessions_dir() {
    let paths = ProjectPaths::below("myproject", "myproject", "/tmp/base", "/tmp/state");
    let s = paths.headless_output("york");
    assert!(
        s.contains("sessions/headless-york.jsonl"),
        "should be under sessions/: {s}"
    );
}

#[test]
fn test_project_paths_workflows_dir() {
    let paths = ProjectPaths::below("myproject", "myproject", "/tmp/base", "/tmp/state");
    let s = paths.workflows_dir();
    assert!(
        s.ends_with("projects/myproject/workflows"),
        "expected projects/<repo>/workflows, got: {s}"
    );
}

#[test]
fn files_of_a_project_have_their_places() {
    let p = ProjectPaths::below("my.proj", "my-proj", "/h/.midtown", "/h/.local/state");
    assert_eq!(p.dir_key(), "my.proj");
    assert_eq!(p.project_name(), "my-proj");
    assert_eq!(p.base_dir(), "/h/.midtown/projects/my.proj");
    assert_eq!(p.assets_dir(), "/h/.midtown/projects/my.proj/assets");
    assert_eq!(p.screenshots_dir(), "/h/.midtown/projects/my.proj/screenshots");
    assert_eq!(p.worktrees_dir(), "/h/.midtown/projects/my.proj/worktrees");
    assert_eq!(p.lead_worktree(), "/h/.midtown/projects/my.proj/worktrees/lead");
    assert_eq!(p.daemon_state_file(), "/h/.midtown/projects/my.proj/daemon-state.json");
    assert_eq!(p.daemon_socket(), "/h/.local/state/midtown/my.proj/daemon.sock");
    assert_eq!(
        p.plugin_daemon_socket(),
        "/h/.local/state/midtown/my.proj/plugin-daemon.sock"
    );
    assert_eq!(p.daemon_log_file(), "/h/.midtown/projects/my.proj/logs/daemon.log");
    assert_eq!(p.hooks_log_file(), "/h/.midtown/projects/my.proj/logs/hooks.log");
    assert_eq!(p.daemon_pid_file(), "/h/.midtown/projects/my.proj/daemon.pid");
    assert_eq!(p.lead_session_file(), "/h/.midtown/projects/my.proj/lead-session-id");
    assert_eq!(
        p.lead_system_prompt_file(),
        "/h/.midtown/projects/my.proj/lead-system-prompt.txt"
    );
    assert_eq!(p.github_state_file(), "/h/.midtown/projects/my.proj/github-state.json");
    assert_eq!(p.reminders_file(), "/h/.midtown/projects/my.proj/reminders.json");
    assert_eq!(p.cursors_dir(), "/h/.midtown/projects/my.proj/cursors");
    assert_eq!(
        p.channel_file("web"),
        "/h/.midtown/projects/my.proj/channels/web/history/current.jsonl"
    );
    assert_eq!(p.task_list_id(), "midtown-my.proj");
    assert_eq!(p.team_name(), "midtown-my-proj");
}

#[test]
fn places_follow_the_home_directory() {
    let home = dirs::home_dir().map(|p| p.to_string_lossy().into_owned());
    let base = base_dir_below(home);
    assert_eq!(midtown_base_dir(), base);
    assert_eq!(base_dir_below(None), "./.midtown");
    assert_eq!(projects_dir_for_repo("r"), format!("{base}/projects/r"));
    assert_eq!(screenshots_dir_for_repo("r"), format!("{base}/projects/r/screenshots"));
    assert_eq!(lead_system_prompt_file("r"), format!("{base}/projects/r/lead-system-prompt.txt"));
    assert_eq!(github_state_file_for_repo("r"), format!("{base}/projects/r/github-state.json"));
    assert_eq!(reminders_file_for_repo("r"), format!("{base}/projects/r/reminders.json"));
    assert_eq!(daemon_state_file_for_repo("r"), format!("{base}/projects/r/daemon-state.json"));
    assert_eq!(daemon_log_file_for_repo("r"), format!("{base}/projects/r/logs/daemon.log"));
    assert_eq!(hooks_log_file_for_repo("r"), format!("{base}/projects/r/logs/hooks.log"));
    assert_eq!(lead_session_file(None), format!("{base}/projects/default/lead-session-id"));
    assert_eq!(daemon_pid_file(Some("r")), format!("{base}/projects/r/daemon.pid"));
    assert_eq!(daemon_log_dir(None), format!("{base}/projects/default/logs"));
    assert_eq!(daemon_log_file(Some("r")), format!("{base}/projects/r/logs/daemon.log"));
    assert_eq!(hooks_log_file(Some("r")), format!("{base}/projects/r/logs/hooks.log"));
    let paths = ProjectPaths::new("a.b", None, Some("/state"));
    assert_eq!(paths.base_dir(), format!("{base}/projects/a.b"));
    assert_eq!(paths.project_name(), "a-b");
    let named = ProjectPaths::with_project_name("a.b", "ab", Some("/state"));
    assert_eq!(named.daemon_socket(), "/state/midtown/a.b/daemon.sock");
}

#[test]
fn environment_names_the_directories() {
    assert_eq!(state_dir(Some("/x/state")), "/x/state");
    assert_eq!(midtown_data_dir(Some("/x/share")), "/x/share/midtown");
    assert_eq!(
        daemon_socket(None, Some("/x/state")),
        "/x/state/midtown/default/daemon.sock"
    );
    assert!(state_dir(None).ends_with("/.local/state"));
    assert!(midtown_data_dir(None).ends_with("/.local/share/midtown"));
    assert_eq!(task_list_id(None), "midtown-default");
}

#[test]
fn sdk_is_looked_for_in_three_places() {
    assert_eq!(
        resolve_python_sdk_dir(Some(("/bin", true)), ("/src", true), "/data"),
        "/bin/sdk/python"
    );
    assert_eq!(
        resolve_python_sdk_dir(Some(("/bin", false)), ("/src", true), "/data"),
        "/src/sdk/python"
    );
    assert_eq!(resolve_python_sdk_dir(None, ("/src", false), "/data"), "/data/sdk/python");
}

#[test]
fn project_names_hold_no_dots() {
    assert_eq!(sanitize_project_name("midtown.nosync"), "midtown-nosync");
    assert_eq!(sanitize_project_name(&sanitize_project_name("a.b.c")), "a-b-c");
    assert_eq!(project_name_for_dir_key("a.b", Some("given")), "given");
    assert_eq!(detect_project_name(Some("a.b"), None).as_deref(), Some("a-b"));
    assert_eq!(detect_project_name(None, Some("given")), None);
}

#[test]
fn test_detect_repo_name_uses_midtown_dir_key_env_var() {
    let result = detect_repo_name(Some("pinned-project"), Some("repo".to_string()));
    assert_eq!(result, Some("pinned-project".to_string()));
}

#[test]
fn test_detect_repo_name_ignores_empty_midtown_dir_key() {
    let result = detect_repo_name(Some(""), Some("repo".to_string()));
    assert_ne!(result, Some(String::new()));
    assert_eq!(result, Some("repo".to_string()));
}

#[test]
fn test_detect_repo_name_falls_back_to_cwd_without_env_var() {
    let result = detect_repo_name(None, Some("repo".to_string()));
    assert!(result.is_some());
    assert!(!result.unwrap().is_empty());
}

#[test]
fn test_detect_repo_name_rejects_path_traversal_in_midtown_dir_key() {
    let malicious_values = vec!["../other", "foo/bar", "foo\\bar", "..", "."];
    for val in malicious_values {
        let result = detect_repo_name(Some(val), Some("repo".to_string()));
        assert_ne!(
            result,
            Some(val.to_string()),
            "MIDTOWN_DIR_KEY={val:?} should have been rejected"
        );
    }
}

#[test]
fn repository_is_named_by_its_directory() {
    match detect_repo_name_from_dir(Some("/home/me/midtown/.git\n")) {
        RepoQuery::Name(name) => assert_eq!(name.as_deref(), Some("midtown")),
        RepoQuery::AskToplevel => panic!("the common directory tells"),
    }
    for out in [Some(".git\n"), Some("\n"), Some("/\n"), None] {
        assert!(matches!(detect_repo_name_from_dir(out), RepoQuery::AskToplevel));
    }
    assert!(matches!(detect_repo_name_from_dir(Some(".")), RepoQuery::Name(None)));
    assert_eq!(repo_name_of_toplevel(Some("/home/me/app/\n")).as_deref(), Some("app"));
    assert_eq!(repo_name_of_toplevel(Some("/home/..")), None);
    assert_eq!(repo_name_of_toplevel(None), None);
}

// Sockets.

fn entry(name: &str, is_dir: bool, has_socket: bool) -> StateEntry {
    StateEntry { name: name.to_string(), is_dir, has_socket }
}

#[test]
fn test_enumerate_daemon_sockets_empty_when_dir_missing() {
    assert!(enumerate_daemon_sockets("/nonexistent", &vec![]).is_empty());
}

#[test]
fn test_enumerate_daemon_sockets_finds_sockets() {
    let entries = vec![entry("project-a", true, true), entry("project-b", true, true)];
    let result = enumerate_daemon_sockets("/state", &entries);
    assert_eq!(result.len(), 2);
    assert_eq!(result[0].0, "project-a");
    assert_eq!(result[0].1, "/state/project-a/daemon.sock");
    assert_eq!(result[1].0, "project-b");
    assert_eq!(result[1].1, "/state/project-b/daemon.sock");
}

#[test]
fn test_enumerate_daemon_sockets_skips_dirs_without_socket() {
    let entries = vec![entry("has-daemon", true, true), entry("no-daemon", true, false)];
    let result = enumerate_daemon_sockets("/state", &entries);
    assert_eq!(result.len(), 1);
    assert_eq!(result[0].0, "has-daemon");
}

#[test]
fn test_enumerate_daemon_sockets_skips_files_not_dirs() {
    let entries = vec![entry("not-a-dir", false, false), entry("real-project", true, true)];
    let result = enumerate_daemon_sockets("/state", &entries);
    assert_eq!(result.len(), 1);
    assert_eq!(result[0].0, "real-project");
}

// Migrations, run on a list of the paths that exist.

fn apply(existing: &mut Vec<String>, actions: &[FsAction]) {
    for action in actions {
        match action {
            FsAction::CreateDir(p) => existing.push(p.clone()),
            FsAction::Move { from, to } | FsAction::TryMove { from, to } => {
                let below = format!("{from}/");
                for path in existing.iter_mut() {
                    if path == from {
                        *path = to.clone();
                    } else if let Some(rest) = path.strip_prefix(&below) {
                        *path = format!("{to}/{rest}");
                    }
                }
            }
            FsAction::Repair(_) => {}
            FsAction::RemoveIfEmpty(p) => {
                let below = format!("{p}/");
                if !existing.iter().any(|x| x.starts_with(&below)) {
                    existing.retain(|x| x != p);
                }
            }
        }
    }
}

#[test]
fn test_migrate_returns_false_when_nothing_to_migrate() {
    let result = migrate_directory_structure(
        "/base",
        "nonexistent-test-repo-xyz123",
        &vec![],
        &vec![],
    );
    assert!(result.is_none());
}

#[test]
fn test_migrate_directory_structure_moves_old_layout_without_recursion() {
    let repo = "test-recursive-migration-repo";
    let old = format!("/base/{repo}");
    let mut existing = vec![
        old.clone(),
        format!("{old}/logs"),
        format!("{old}/worktrees"),
        format!("{old}/worktrees/task-42"),
        format!("{old}/worktrees/task-42/README.md"),
        format!("{old}/channel.jsonl"),
        format!("{old}/lead-session-id"),
    ];
    let actions =
        migrate_directory_structure("/base", repo, &existing, &strings(&["task-42"])).unwrap();
    apply(&mut existing, &actions);
    let new = format!("/base/projects/{repo}");
    for path in [
        "channel.jsonl",
        "worktrees/task-42/README.md",
        "logs",
        "lead-session-id",
    ] {
        assert!(existing.contains(&format!("{new}/{path}")), "{path} should move");
    }
    assert!(!existing.contains(&old));
    assert!(actions.iter().any(
        |a| matches!(a, FsAction::Repair(p) if *p == format!("{new}/worktrees/task-42"))
    ));
    // What has been brought over is left alone.
    existing.push(old.clone());
    assert!(migrate_directory_structure("/base", repo, &existing, &vec![]).is_none());
}

#[test]
fn test_migrate_worktree_paths_moves_worktrees_dir() {
    let mut existing = strings(&[
        "/base/worktrees",
        "/base/worktrees/test-repo",
        "/base/worktrees/test-repo/task-42",
        "/base/worktrees/test-repo/task-42/README",
    ]);
    let actions = do_migrate_worktree_paths("/base", "test-repo", &existing);
    assert!(moves_something(&actions), "should have migrated");
    apply(&mut existing, &actions);
    let new = "/base/projects/test-repo/worktrees".to_string();
    assert!(existing.contains(&new), "new worktrees dir should exist");
    assert!(existing.contains(&format!("{new}/task-42/README")));
    assert!(!existing.contains(&"/base/worktrees/test-repo".to_string()));
    assert!(!existing.contains(&"/base/worktrees".to_string()));
    assert!(do_migrate_worktree_paths("/base", "test-repo", &existing).is_empty());
}

#[test]
fn test_migrate_worktree_paths_moves_coworkers_dir() {
    let mut existing = strings(&[
        "/base/coworkers",
        "/base/coworkers/test-repo",
        "/base/coworkers/test-repo/alice",
        "/base/coworkers/test-repo/alice/Cargo.toml",
    ]);
    let actions = do_migrate_worktree_paths("/base", "test-repo", &existing);
    assert!(moves_something(&actions), "should have migrated");
    apply(&mut existing, &actions);
    let new = "/base/projects/test-repo/coworkers".to_string();
    assert!(existing.contains(&new), "new coworkers dir should exist");
    assert!(existing.contains(&format!("{new}/alice/Cargo.toml")));
    assert!(!existing.contains(&"/base/coworkers/test-repo".to_string()));
}

#[test]
fn test_migrate_worktree_paths_idempotent() {
    let existing = strings(&[
        "/base/projects/test-repo/worktrees",
        "/base/projects/test-repo/worktrees/task-99",
    ]);
    let actions = do_migrate_worktree_paths("/base", "test-repo", &existing);
    assert!(!moves_something(&actions));
    assert!(actions.is_empty());
}

#[test]
fn test_migrate_worktree_paths_skips_if_new_exists() {
    let existing = strings(&[
        "/base/worktrees/test-repo",
        "/base/worktrees/test-repo/old-task",
        "/base/projects/test-repo/worktrees",
        "/base/projects/test-repo/worktrees/new-task",
    ]);
    assert!(do_migrate_worktree_paths("/base", "test-repo", &existing).is_empty());
}

#[test]
fn test_migrate_worktree_paths_propagates_rename_error() {
    let existing = strings(&[
        "/base/worktrees/test-repo",
        "/base/worktrees/test-repo/some-task",
        "/base/projects/test-repo",
        "/base/projects/test-repo/worktrees",
    ]);
    let actions = do_migrate_worktree_paths("/base", "test-repo", &existing);
    assert!(!moves_something(&actions));
}

#[test]
fn test_migrate_lead_to_project_moves_files() {
    let mut existing = strings(&[
        "/base/lead",
        "/base/lead/test-repo",
        "/base/lead/test-repo/session-id",
        "/base/lead/test-repo/system-prompt.txt",
        "/base/lead/test-repo/lead-initialized",
        "/base/projects/test-repo",
    ]);
    let actions = do_migrate_lead_to_project("/base", "test-repo", &existing).unwrap();
    assert!(moves_something(&actions), "should have migrated");
    apply(&mut existing, &actions);
    for name in ["lead-session-id", "lead-system-prompt.txt", "lead-initialized"] {
        assert!(existing.contains(&format!("/base/projects/test-repo/{name}")));
    }
    assert!(!existing.contains(&"/base/lead/test-repo".to_string()));
    assert!(do_migrate_lead_to_project("/base", "test-repo", &existing).is_none());
}

#[test]
fn test_migrate_lead_to_project_idempotent() {
    assert!(do_migrate_lead_to_project("/base", "test-repo", &vec![]).is_none());
}

#[test]
fn test_migrate_lead_to_project_skips_if_target_exists() {
    let existing = strings(&[
        "/base/lead/test-repo",
        "/base/lead/test-repo/session-id",
        "/base/projects/test-repo",
        "/base/projects/test-repo/lead-session-id",
    ]);
    let actions = do_migrate_lead_to_project("/base", "test-repo", &existing).unwrap();
    assert!(!moves_something(&actions), "existing file should not be overwritten");
}

#[test]
fn coworker_worktrees_join_the_others() {
    let mut existing = strings(&[
        "/base/projects/r/coworkers",
        "/base/projects/r/coworkers/alice",
        "/base/projects/r/coworkers/bob",
        "/base/projects/r/worktrees/bob",
    ]);
    let names = strings(&["alice", "bob"]);
    let actions = migrate_legacy_coworker_worktrees("/base", "r", &existing, &names).unwrap();
    apply(&mut existing, &actions);
    assert!(existing.contains(&"/base/projects/r/worktrees/alice".to_string()));
    assert!(existing.contains(&"/base/projects/r/coworkers/bob".to_string()));
    assert!(migrate_legacy_coworker_worktrees("/base", "q", &existing, &vec![]).is_none());
}

#[test]
fn test_migrate_headless_transcripts_moves_files() {
    let mut existing = strings(&[
        "/base/projects/test-repo",
        "/base/projects/test-repo/headless-york.jsonl",
        "/base/projects/test-repo/headless-park.jsonl",
        "/base/projects/test-repo/daemon.pid",
    ]);
    let names = strings(&["headless-york.jsonl", "headless-park.jsonl", "daemon.pid"]);
    let actions =
        migrate_headless_transcripts_to_sessions("/base", "test-repo", &existing, &names).unwrap();
    assert!(moves_something(&actions), "should have migrated");
    apply(&mut existing, &actions);
    let sessions = "/base/projects/test-repo/sessions";
    assert!(existing.contains(&format!("{sessions}/headless-york.jsonl")));
    assert!(existing.contains(&format!("{sessions}/headless-park.jsonl")));
    assert!(!existing.contains(&"/base/projects/test-repo/headless-york.jsonl".to_string()));
    assert!(existing.contains(&"/base/projects/test-repo/daemon.pid".to_string()));
}

#[test]
fn test_migrate_headless_transcripts_noop_when_no_files() {
    let existing = strings(&["/base/projects/test-repo"]);
    let actions =
        migrate_headless_transcripts_to_sessions("/base", "test-repo", &existing, &vec![]);
    assert!(actions.is_none(), "nothing to migrate");
}

#[test]
fn test_migrate_headless_transcripts_skips_existing_target() {
    let existing = strings(&[
        "/base/projects/test-repo/headless-york.jsonl",
        "/base/projects/test-repo/sessions/headless-york.jsonl",
    ]);
    let names = strings(&["headless-york.jsonl"]);
    let actions =
        migrate_headless_transcripts_to_sessions("/base", "test-repo", &existing, &names).unwrap();
    assert!(!moves_something(&actions));
}

#[test]
fn failed_migrations_are_tried_again() {
    let mut log = MigrationLog::new();
    assert!(!log.is_migrated("r"));
    auto_migrate(&mut log, "r", false);
    assert!(!log.is_migrated("r"));
    auto_migrate(&mut log, "r", true);
    assert!(log.is_migrated("r"));
    assert!(!log.is_migrated("q"));
}

// Workflow scripts.

const ROOT: &str = "/project";
const HOME: &str = "/home";

fn script(channel: &str, repo: &str, existing: &[&str]) -> Option<String> {
    workflow_script_for_channel(channel, ROOT, HOME, repo, &strings(existing))
}

#[test]
fn test_workflow_script_none_when_no_files_exist() {
    assert!(script("my-channel", "myrepo", &[]).is_none());
}

#[test]
fn test_workflow_script_channel_specific_repo() {
    let path = "/project/.midtown/channels/my-channel/workflow.py";
    assert_eq!(script("my-channel", "myrepo", &[path]).as_deref(), Some(path));
}

#[test]
fn test_workflow_script_channel_specific_local() {
    let path = "/home/projects/myrepo/channels/my-channel/workflow.py";
    assert_eq!(script("my-channel", "myrepo", &[path]).as_deref(), Some(path));
}

#[test]
fn test_workflow_script_project_default_repo() {
    let path = "/project/.midtown/workflow.py";
    assert_eq!(script("my-channel", "myrepo", &[path]).as_deref(), Some(path));
}

#[test]
fn test_workflow_script_project_default_local() {
    let path = "/home/projects/myrepo/workflow.py";
    assert_eq!(script("my-channel", "myrepo", &[path]).as_deref(), Some(path));
}

const CANDIDATES: [&str; 4] = [
    "/project/.midtown/channels/ch/workflow.py",
    "/home/projects/repo/channels/ch/workflow.py",
    "/project/.midtown/workflow.py",
    "/home/projects/repo/workflow.py",
];

#[test]
fn test_workflow_script_priority_channel_specific_repo_wins() {
    assert_eq!(script("ch", "repo", &CANDIDATES).as_deref(), Some(CANDIDATES[0]));
}

#[test]
fn test_workflow_script_priority_channel_specific_local_over_project_defaults() {
    assert_eq!(script("ch", "repo", &CANDIDATES[1..]).as_deref(), Some(CANDIDATES[1]));
}

#[test]
fn test_workflow_script_project_default_repo_over_local() {
    assert_eq!(script("ch", "repo", &CANDIDATES[2..]).as_deref(), Some(CANDIDATES[2]));
}

// Plugins.

fn plugin_dir(path: &str, entries: &[(&str, bool)]) -> PluginDir {
    PluginDir {
        path: path.to_string(),
        entries: entries
            .iter()
            .map(|(name, has_skill)| PluginEntry {
                name: name.to_string(),
                is_dir: !name.ends_with(".py"),
                has_skill: *has_skill,
            })
            .collect(),
    }
}

fn discover(channel: Option<&str>, dirs: Vec<PluginDir>) -> Vec<String> {
    discover_plugin_dirs(ROOT, HOME, "nonexistent-repo-discover-test", channel, &dirs)
}

#[test]
fn a_directory_is_a_plugin_by_its_skill_alone() {
    let named = |has_skill| PluginDir {
        path: "/project/.midtown/plugins".to_string(),
        entries: vec![PluginEntry { name: "tool.py".to_string(), is_dir: true, has_skill }],
    };
    assert!(discover(None, vec![named(false)]).is_empty());
    assert_eq!(discover(None, vec![named(true)]).len(), 1);
}

#[test]
fn test_discover_plugin_dirs_empty_when_no_dirs() {
    assert!(discover(None, vec![]).is_empty());
}

#[test]
fn test_discover_plugin_dirs_finds_repo_plugins() {
    let dirs = discover(
        None,
        vec![plugin_dir("/project/.midtown/plugins", &[("my_plugin.py", false)])],
    );
    assert_eq!(dirs.len(), 1);
    assert_eq!(dirs[0], "/project/.midtown/plugins");
}

#[test]
fn test_discover_plugin_dirs_skips_empty_dir() {
    assert!(discover(None, vec![plugin_dir("/project/.midtown/plugins", &[])]).is_empty());
}

#[test]
fn test_discover_plugin_dirs_skips_underscore_files() {
    let dir = plugin_dir("/project/.midtown/plugins", &[("__init__.py", false)]);
    assert!(discover(None, vec![dir]).is_empty());
}

#[test]
fn test_discover_plugin_dirs_finds_non_underscore_py() {
    let dir = plugin_dir(
        "/project/.midtown/plugins",
        &[("__init__.py", false), ("hooks.py", false)],
    );
    assert_eq!(discover(None, vec![dir]).len(), 1);
}

#[test]
fn test_discover_plugin_dirs_channel_specific() {
    let channel_dir = "/project/.midtown/channels/proj-auth/plugins";
    let project_dir = "/project/.midtown/plugins";
    let dirs = || {
        vec![
            plugin_dir(project_dir, &[("default.py", false)]),
            plugin_dir(channel_dir, &[("review.py", false)]),
        ]
    };
    let found = discover(Some("proj-auth"), dirs());
    assert_eq!(found, vec![channel_dir, project_dir]);
    let found = discover(None, dirs());
    assert_eq!(found, vec![project_dir]);
}

#[test]
fn test_discover_plugin_dirs_agentskills_format() {
    let dir = plugin_dir("/project/.midtown/plugins", &[("tdw", true)]);
    assert_eq!(discover(None, vec![dir]), vec!["/project/.midtown/plugins"]);
}

#[test]
fn test_discover_plugin_dirs_skips_dir_without_skill_md() {
    let dir = plugin_dir("/project/.midtown/plugins", &[("not-a-plugin", false)]);
    assert!(discover(None, vec![dir]).is_empty());
}

// Instructions for agents.

fn files(entries: &[(&str, &str)]) -> TextMap {
    let mut map = TextMap::new();
    for (path, content) in entries {
        map.insert(path, content);
    }
    map
}

fn agents(channel: &str, entries: &[(&str, &str)]) -> Option<String> {
    agents_md_for_channel(channel, ROOT, HOME, "nonexistent-repo-agents-test", &files(entries))
}

#[test]
fn test_agents_md_for_channel_none_when_no_files() {
    assert!(agents("web", &[]).is_none());
}

#[test]
fn test_agents_md_for_channel_finds_channel_specific_in_repo() {
    let result = agents(
        "web",
        &[("/project/.midtown/channels/web/AGENTS.md", "# Web Workflow")],
    );
    assert_eq!(result.as_deref(), Some("# Web Workflow"));
}

#[test]
fn test_agents_md_for_channel_finds_project_wide_in_repo() {
    let result = agents("web", &[("/project/.midtown/AGENTS.md", "# Project Workflow")]);
    assert_eq!(result.as_deref(), Some("# Project Workflow"));
}

#[test]
fn test_agents_md_for_channel_channel_specific_wins_over_project() {
    let result = agents(
        "auth",
        &[
            ("/project/.midtown/channels/auth/AGENTS.md", "# Auth Channel"),
            ("/project/.midtown/AGENTS.md", "# Project Wide"),
        ],
    );
    assert_eq!(result.as_deref(), Some("# Auth Channel"));
}

#[test]
fn test_agents_md_for_channel_skips_empty_files() {
    let result = agents("web", &[("/project/.midtown/channels/web/AGENTS.md", "   \n  ")]);
    assert!(result.is_none());
}

// Skills.

fn skill(dir_name: &str, content: &str) -> SkillFile {
    SkillFile { dir_name: dir_name.to_string(), content: content.to_string() }
}

#[test]
fn test_collect_skill_md_bodies_empty_dirs() {
    assert!(collect_skill_md_bodies(&vec![]).is_empty());
}

#[test]
fn test_collect_skill_md_bodies_extracts_body_and_name() {
    let results = collect_skill_md_bodies(&vec![skill(
        "tdw",
        "---\nname: tdw\ndescription: Test-Driven Writing\n---\n# TDW\n\nTDW is great.",
    )]);
    assert_eq!(results.len(), 1);
    assert_eq!(results[0].0, "tdw");
    assert!(results[0].1.contains("# TDW"));
    assert!(results[0].1.contains("TDW is great."));
    assert!(!results[0].1.contains("---"));
}

#[test]
fn test_collect_skill_md_bodies_falls_back_to_dir_name() {
    let results = collect_skill_md_bodies(&vec![skill(
        "my-plugin",
        "---\ndescription: A plugin\n---\n# My Plugin Body",
    )]);
    assert_eq!(results.len(), 1);
    assert_eq!(results[0].0, "my-plugin");
    assert!(results[0].1.contains("# My Plugin Body"));
}

#[test]
fn test_collect_skill_md_bodies_skips_empty_body() {
    assert!(collect_skill_md_bodies(&vec![skill("empty", "---\nname: empty\n---\n")]).is_empty());
}

#[test]
fn test_collect_skill_md_bodies_no_frontmatter() {
    let results =
        collect_skill_md_bodies(&vec![skill("plain", "# Plain Plugin\n\nJust content.")]);
    assert_eq!(results.len(), 1);
    assert_eq!(results[0].0, "plain");
    assert!(results[0].1.contains("# Plain Plugin"));
}

#[test]
fn test_collect_skill_md_bodies_multiple_plugins() {
    let results = collect_skill_md_bodies(&vec![
        skill("alpha", "---\nname: alpha\n---\n# Alpha Plugin"),
        skill("beta", "---\nname: beta\n---\n# Beta Plugin"),
    ]);
    assert_eq!(results.len(), 2);
    let names: Vec<&str> = results.iter().map(|(n, _)| n.as_str()).collect();
    assert!(names.contains(&"alpha"));
    assert!(names.contains(&"beta"));
}

#[test]
fn test_collect_skill_md_bodies_skips_bare_py_files() {
    // Files without a SKILL.md hand over nothing to read.
    assert!(collect_skill_md_bodies(&vec![]).is_empty());
}

#[test]
fn skill_headers_may_be_cut_short() {
    let (name, body) = parse_skill_md_name_and_body("---\nname: x", "dir");
    assert_eq!((name.as_str(), body.as_str()), ("dir", "---\nname: x"));
    let (name, body) = parse_skill_md_name_and_body("---\nname:  \n---\n\nText", "dir");
    assert_eq!((name.as_str(), body.as_str()), ("dir", "Text"));
}

// Workflows.

fn workflow(name: &str, has_script: bool, agents_md: Option<&str>) -> WorkflowEntry {
    WorkflowEntry {
        name: name.to_string(),
        is_dir: true,
        has_script,
        agents_md: agents_md.map(|s| s.to_string()),
    }
}

#[test]
fn test_discover_workflows_finds_valid_workflows() {
    let entries = vec![
        workflow("tdw", true, Some("# TDW")),
        workflow("spec-review", true, None),
    ];
    let result = discover_workflows(&entries);
    assert_eq!(result.len(), 2);
    assert!(result.iter().any(|w| w.name == "tdw"));
    assert!(result.iter().any(|w| w.name == "spec-review"));

    let tdw = result.iter().find(|w| w.name == "tdw").unwrap();
    assert!(tdw.agents_md.is_some());
    let spec = result.iter().find(|w| w.name == "spec-review").unwrap();
    assert!(spec.agents_md.is_none());
}

#[test]
fn test_discover_workflows_empty_when_dir_missing() {
    assert!(discover_workflows(&vec![]).is_empty());
}

#[test]
fn test_discover_workflows_skips_dirs_without_workflow_py() {
    assert!(discover_workflows(&vec![workflow("incomplete", false, Some("# Incomplete"))])
        .is_empty());
}

#[test]
fn test_discover_workflows_skips_files_not_dirs() {
    let file = WorkflowEntry {
        name: "not-a-workflow.txt".to_string(),
        is_dir: false,
        has_script: false,
        agents_md: None,
    };
    assert!(discover_workflows(&vec![file]).is_empty());
}

#[test]
fn test_discover_workflows_sorted_by_name() {
    let entries = vec![
        workflow("zebra", true, None),
        workflow("alpha", true, None),
        workflow("middle", true, None),
    ];
    let result = discover_workflows(&entries);
    let names: Vec<&str> = result.iter().map(|w| w.name.as_str()).collect();
    assert_eq!(names, vec!["alpha", "middle", "zebra"]);
}

#[test]
fn test_discover_workflows_populates_metadata() {
    let agents_md = "\
---
name: tdw
description: Test-Driven Writing
states: [study, do]
transitions:
  study: [do]
  do: [study]
---
# Body
";
    let entries = vec![workflow("tdw", true, Some(agents_md)), workflow("plain", true, None)];
    let result = discover_workflows(&entries);
    assert_eq!(result.len(), 2);

    let tdw = result.iter().find(|w| w.name == "tdw").unwrap();
    let meta = tdw.metadata.as_ref().unwrap();
    assert_eq!(meta.name.as_deref(), Some("tdw"));
    assert_eq!(meta.states, vec!["study", "do"]);
    assert_eq!(meta.transitions.len(), 2);

    let plain = result.iter().find(|w| w.name == "plain").unwrap();
    assert!(plain.metadata.is_none());
}

#[test]
fn test_discover_workflows_bad_frontmatter_gives_none_metadata() {
    let entries = vec![workflow(
        "bad",
        true,
        Some("# No frontmatter here\nJust regular markdown."),
    )];
    let result = discover_workflows(&entries);
    assert_eq!(result.len(), 1);
    assert!(result[0].metadata.is_none());
}

#[test]
fn workflow_agents_md_content_reads_existing_file() {
    let files = files(&[("/wf/my-workflow/AGENTS.md", "# Workflow Instructions\nDo stuff.")]);
    let result = workflow_agents_md_content("/wf", "my-workflow", &files);
    assert_eq!(
        result,
        Some("# Workflow Instructions\nDo stuff.".to_string())
    );
}

#[test]
fn workflow_agents_md_content_returns_none_for_missing_file() {
    assert_eq!(workflow_agents_md_content("/wf", "nonexistent", &files(&[])), None);
}

#[test]
fn workflow_agents_md_content_returns_none_for_empty_file() {
    let files = files(&[("/wf/empty-wf/AGENTS.md", "   \n  ")]);
    assert_eq!(workflow_agents_md_content("/wf", "empty-wf", &files), None);
}

#[test]
fn workflow_agents_md_content_rejects_path_traversal() {
    let files = files(&[
        ("/wf/../secret/AGENTS.md", "SECRET CONTENT"),
        ("/wf/foo/../../secret/AGENTS.md", "SECRET CONTENT"),
        ("/tmp/x/AGENTS.md", "SECRET CONTENT"),
    ]);
    assert_eq!(
        workflow_agents_md_content("/wf", "../secret", &files),
        None,
        "path traversal with ../ should be rejected"
    );
    assert_eq!(
        workflow_agents_md_content("/wf", "foo/../../secret", &files),
        None,
        "nested path traversal should be rejected"
    );
    assert_eq!(
        workflow_agents_md_content("/wf", "/tmp/x", &files),
        None,
        "absolute path should be rejected"
    );
}

#[test]
fn merge_workflow_agents_md_both_present() {
    let existing = Some("Existing agents instructions".to_string());
    let workflow = Some("Workflow specific instructions".to_string());
    let state_summary = Some("- Task !42: phase = observe".to_string());

    let result = merge_workflow_agents_md(existing, workflow.as_deref(), state_summary.as_deref());
    let result = result.unwrap();
    assert!(result.contains("Existing agents instructions"));
    assert!(result.contains("## Assigned Workflow Instructions"));
    assert!(result.contains("Workflow specific instructions"));
    assert!(result.contains("## Current Workflow State"));
    assert!(result.contains("Task !42: phase = observe"));
}

#[test]
fn merge_workflow_agents_md_only_existing() {
    let existing = Some("Existing agents".to_string());
    let result = merge_workflow_agents_md(existing, None, None);
    assert_eq!(result, Some("Existing agents".to_string()));
}

#[test]
fn merge_workflow_agents_md_only_workflow() {
    let workflow = Some("Workflow instructions".to_string());
    let result = merge_workflow_agents_md(None, workflow.as_deref(), None);
    let result = result.unwrap();
    assert!(result.contains("## Assigned Workflow Instructions"));
    assert!(result.contains("Workflow instructions"));
}

#[test]
fn merge_workflow_agents_md_none() {
    let result = merge_workflow_agents_md(None, None, None);
    assert_eq!(result, None);
}

#[test]
fn merge_workflow_agents_md_state_without_workflow() {
    let existing = Some("Base agents".to_string());
    let result = merge_workflow_agents_md(existing, None, Some("- Task !1: phase = study"));
    let result = result.unwrap();
    assert!(result.contains("Base agents"));
    assert!(result.contains("## Current Workflow State"));
    assert!(result.contains("Task !1: phase = study"));
}

#[test]
fn test_parse_frontmatter_full() {
    let content = "\
---
name: tdw
description: Test-Driven Writing
states: [study, do, observe, hone]
transitions:
  study: [do]
  do: [observe]
  observe: [hone, do]
  hone: [study]
---
# Body content here
";
    let meta = parse_agents_md_frontmatter(content).unwrap();
    assert_eq!(meta.name.as_deref(), Some("tdw"));
    assert_eq!(meta.description.as_deref(), Some("Test-Driven Writing"));
    assert_eq!(meta.states, vec!["study", "do", "observe", "hone"]);
    assert_eq!(meta.transitions_from("study").unwrap(), &vec!["do"]);
    assert_eq!(meta.transitions_from("do").unwrap(), &vec!["observe"]);
    assert_eq!(
        meta.transitions_from("observe").unwrap(),
        &vec!["hone", "do"]
    );
    assert_eq!(meta.transitions_from("hone").unwrap(), &vec!["study"]);
}

#[test]
fn test_parse_frontmatter_no_transitions() {
    let content = "\
---
name: simple
description: A simple workflow
states: [a, b, c]
---
";
    let meta = parse_agents_md_frontmatter(content).unwrap();
    assert_eq!(meta.name.as_deref(), Some("simple"));
    assert_eq!(meta.states, vec!["a", "b", "c"]);
    assert!(meta.transitions.is_empty());
}

#[test]
fn test_parse_frontmatter_no_frontmatter() {
    let content = "# Just a regular markdown file\nNo frontmatter here.";
    assert!(parse_agents_md_frontmatter(content).is_none());
}

#[test]
fn test_parse_frontmatter_unclosed() {
    let content = "\
---
name: broken
description: Missing closing marker
";
    assert!(parse_agents_md_frontmatter(content).is_none());
}

#[test]
fn test_parse_frontmatter_empty() {
    let content = "\
---
---
";
    let meta = parse_agents_md_frontmatter(content).unwrap();
    assert!(meta.name.is_none());
    assert!(meta.description.is_none());
    assert!(meta.states.is_empty());
    assert!(meta.transitions.is_empty());
}

#[test]
fn test_parse_frontmatter_name_and_description_only() {
    let content = "\
---
name: spec-review
description: Spec-driven review
---
";
    let meta = parse_agents_md_frontmatter(content).unwrap();
    assert_eq!(meta.name.as_deref(), Some("spec-review"));
    assert_eq!(meta.description.as_deref(), Some("Spec-driven review"));
    assert!(meta.states.is_empty());
}
