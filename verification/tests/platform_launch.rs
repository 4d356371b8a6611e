use std::collections::HashSet;

use midtown::config::ExecutionRole;
use midtown::names::Names;
use midtown::auth::AuthProvider;
use midtown::json::Json;
use midtown::json_text::parse;
use midtown::platform_launch::sync::{
    sync_directory_with_cleanup, DestEntry, SourceEntry, SyncAction, SyncStep,
};
use midtown::platform_launch::{
    codex_destination_skills_dir, filter_healthy_plugins, get_installed_plugins,
    marketplace_is_missing, missing_plugins, official_marketplace, plugin_marks, required_claude_plugins,
    run_platform_prelaunch_hook, skills_to_sync, PluginListError, PrelaunchStep,
};

fn names() -> Names {
    Names {
        program: format!("{:?}", AuthProvider::Claude).to_lowercase(),
        reader_agent: format!("midtown-code-{:?}", ExecutionRole::Reviewer).to_lowercase(),
    }
}

fn manifest(dir: &str) -> String {
    format!("{dir}/.{}-plugin/plugin.json", names().program)
}

fn file(name: &str) -> SourceEntry {
    SourceEntry { name: name.to_string(), dir: None }
}

fn dir(name: &str, entries: Vec<SourceEntry>) -> SourceEntry {
    SourceEntry { name: name.to_string(), dir: Some(entries) }
}

fn old_file(name: &str) -> DestEntry {
    DestEntry { name: name.to_string(), dir: None, is_source: false }
}

fn old_dir(name: &str, entries: Vec<DestEntry>) -> DestEntry {
    DestEntry { name: name.to_string(), dir: Some(entries), is_source: false }
}

fn step<'a>(steps: &'a [SyncStep], name: &str) -> &'a SyncAction {
    &steps.iter().find(|s| s.name == name).unwrap().action
}

fn inner<'a>(steps: &'a [SyncStep], name: &str) -> &'a [SyncStep] {
    match step(steps, name) {
        SyncAction::Enter { steps, .. } => steps,
        _ => panic!("{name} is not entered"),
    }
}

#[test]
fn test_sync_directory_with_cleanup_copies_and_removes_stale_entries() {
    let source = vec![dir(
        ".system",
        vec![
            dir("skill-a", vec![file("SKILL.md")]),
            dir("skill-b", vec![file("SKILL.md")]),
        ],
    )];
    let destination = vec![old_dir(
        ".system",
        vec![
            old_dir("skill-a", vec![old_file("SKILL.md")]),
            old_dir("stale", vec![old_file("SKILL.md")]),
        ],
    )];

    let steps = sync_directory_with_cleanup(false, &source, &destination);

    let system = inner(&steps, ".system");
    assert!(matches!(
        step(inner(system, "skill-a"), "SKILL.md"),
        SyncAction::Copy { remove_first: true }
    ));
    assert!(matches!(
        step(inner(system, "skill-b"), "SKILL.md"),
        SyncAction::Copy { remove_first: false }
    ));
    assert!(matches!(step(system, "stale"), SyncAction::Remove));
}

#[test]
fn test_sync_directory_with_cleanup_replaces_type_mismatch_entries() {
    let source = vec![file("flat"), dir("tree", vec![file("item.txt")])];
    let destination = vec![old_dir("flat", vec![old_dir("nested", vec![])]), old_file("tree")];

    let steps = sync_directory_with_cleanup(false, &source, &destination);

    assert!(matches!(step(&steps, "flat"), SyncAction::Copy { remove_first: true }));
    match step(&steps, "tree") {
        SyncAction::Enter { remove_first, steps } => {
            assert!(*remove_first);
            assert!(matches!(
                step(steps, "item.txt"),
                SyncAction::Copy { remove_first: false }
            ));
        }
        _ => panic!("the directory is not entered"),
    }
}

#[test]
fn test_sync_directory_with_cleanup_noop_when_paths_match() {
    let source = vec![dir("skill", vec![file("SKILL.md")])];
    let destination = vec![old_dir("skill", vec![old_file("SKILL.md")])];
    assert!(sync_directory_with_cleanup(true, &source, &destination).is_empty());
}

fn plugin(id: &str, path: &str) -> Json {
    parse(&format!(r#"{{"id": "{id}", "installPath": "{path}"}}"#)).unwrap()
}

fn healthy(plugins: Vec<Json>, existing: &[&str]) -> HashSet<String> {
    let existing = existing.iter().map(|p| p.to_string()).collect();
    filter_healthy_plugins(&plugins, &existing, &names()).into_iter().collect()
}

#[test]
fn test_filter_healthy_plugins_accepts_valid_claude_plugin() {
    let result = healthy(
        vec![plugin("superpowers@official", "/p/superpowers/1.0.0")],
        &[manifest("/p/superpowers/1.0.0").as_str()],
    );
    assert_eq!(result, HashSet::from(["superpowers@official".to_string()]));
}

#[test]
fn test_filter_healthy_plugins_accepts_root_plugin_json() {
    let result = healthy(
        vec![plugin("my-plugin@mp", "/p/my-plugin/1.0.0")],
        &["/p/my-plugin/1.0.0/plugin.json"],
    );
    assert_eq!(result, HashSet::from(["my-plugin@mp".to_string()]));
}

#[test]
fn test_filter_healthy_plugins_rejects_orphaned_installation() {
    let result = healthy(
        vec![plugin("superpowers@official", "/p/superpowers/4.3.1")],
        &[
            manifest("/p/superpowers/4.3.1").as_str(),
            "/p/superpowers/4.3.1/.orphaned_at",
        ],
    );
    assert!(result.is_empty(), "Orphaned plugin should be excluded: {:?}", result);
}

#[test]
fn test_filter_healthy_plugins_rejects_missing_manifest() {
    let result = healthy(
        vec![plugin("superpowers@official", "/p/superpowers/4.3.1")],
        &["/p/superpowers/4.3.1/LICENSE"],
    );
    assert!(result.is_empty(), "Plugin without manifest should be excluded: {:?}", result);
}

#[test]
fn test_filter_healthy_plugins_skips_entries_without_install_path() {
    let plugins = vec![parse(r#"{"id": "no-path@official"}"#).unwrap()];
    assert!(healthy(plugins, &[]).is_empty());
}

#[test]
fn test_filter_healthy_plugins_mixed_healthy_and_orphaned() {
    let result = healthy(
        vec![
            plugin("code-review@official", "/p/code-review/1.0.0"),
            plugin("superpowers@official", "/p/superpowers/4.3.1"),
        ],
        &[
            manifest("/p/code-review/1.0.0").as_str(),
            "/p/superpowers/4.3.1/LICENSE",
            "/p/superpowers/4.3.1/.orphaned_at",
        ],
    );
    assert_eq!(result, HashSet::from(["code-review@official".to_string()]));
}

#[test]
fn marks_of_plugins_are_looked_for_where_they_are_installed() {
    let mut marks = plugin_marks(&vec![plugin("a@b", "/p/a")], &names());
    marks.sort();
    let expected = [manifest("/p/a").as_str(), "/p/a/.orphaned_at", "/p/a/plugin.json"].map(str::to_string);
    assert_eq!(marks, expected);
}

#[test]
fn what_claude_lists_is_read() {
    let listed = get_installed_plugins(true, r#" [{"id": "a@b"}] "#, "", &names()).ok().unwrap();
    assert_eq!(listed.len(), 1);
    assert_eq!(get_installed_plugins(true, " \n", "", &names()).ok().unwrap().len(), 0);
    match get_installed_plugins(false, "", " no such command\n", &names()) {
        Err(PluginListError::CommandFailed(message)) => {
            assert_eq!(
                message,
                format!("{} plugin list failed: no such command", names().program)
            );
        }
        _ => panic!("a failed command lists nothing"),
    }
    assert!(matches!(get_installed_plugins(true, "{}", "", &names()), Err(PluginListError::NotAList)));
    assert!(matches!(get_installed_plugins(true, "x", "", &names()), Err(PluginListError::NotAList)));
}

#[test]
fn missing_plugins_are_the_required_ones_that_are_not_there() {
    let required = required_claude_plugins(&vec![], &names());
    assert_eq!(required.len(), 7);
    assert_eq!(required[0], format!("superpowers@{}-plugins-official", names().program));
    assert!(missing_plugins(&required, &required).is_empty());
    assert_eq!(missing_plugins(&required, &required[1..].to_vec()), required[..1]);
    let configured = vec!["extra@mine".to_string()];
    assert_eq!(required_claude_plugins(&configured, &names()), configured);
    let (source, place) = official_marketplace(&names());
    assert_eq!(source, format!("anthropics/{place}"));
    assert!(marketplace_is_missing("other", &names()));
    assert!(!marketplace_is_missing(&format!("- {place}"), &names()));
}

#[test]
fn platforms_prepare_in_their_own_way() {
    let step = |provider, installed| run_platform_prelaunch_hook(provider, installed);
    assert!(matches!(step(AuthProvider::Claude, false), PrelaunchStep::InstallPlugins));
    assert!(matches!(step(AuthProvider::Claude, true), PrelaunchStep::Nothing));
    assert!(matches!(step(AuthProvider::Zai, false), PrelaunchStep::InstallPlugins));
    assert!(matches!(step(AuthProvider::Codex, false), PrelaunchStep::SyncSkills));
}

#[test]
fn skills_go_from_home_to_the_profile() {
    assert_eq!(codex_destination_skills_dir(Some("/profile"), "/current"), "/profile/skills");
    assert_eq!(codex_destination_skills_dir(None, "/current"), "/current/skills");
    assert_eq!(
        skills_to_sync(Some("/home/me".to_string()), None, "/current"),
        Some(("/home/me/.codex/skills".to_string(), "/current/skills".to_string()))
    );
    assert_eq!(skills_to_sync(None, None, "/current"), None);
}
