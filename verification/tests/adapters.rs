use midtown::config::ExecutionRole;
use midtown::names::Names;
use midtown::auth::AuthProvider;
use midtown::headed_adapter::{adapter_for, HeadedAgentAdapter};
use midtown::web_dir::{resolve_web_dir, WebDirCandidate};

fn names() -> Names {
    Names {
        program: format!("{:?}", AuthProvider::Claude).to_lowercase(),
        reader_agent: format!("midtown-code-{:?}", ExecutionRole::Reviewer).to_lowercase(),
    }
}

#[test]
fn adapter_factory_returns_matching_provider() {
    assert_eq!(
        adapter_for(AuthProvider::Claude).provider(),
        AuthProvider::Claude
    );
    assert_eq!(
        adapter_for(AuthProvider::Codex).provider(),
        AuthProvider::Codex
    );
    assert_eq!(adapter_for(AuthProvider::Zai).provider(), AuthProvider::Zai);
}

#[test]
fn codex_and_claude_currently_preserve_message_text() {
    let msg = "system: please review this";
    assert_eq!(
        adapter_for(AuthProvider::Claude).format_system_message(msg),
        msg
    );
    assert_eq!(
        adapter_for(AuthProvider::Codex).format_system_message(msg),
        msg
    );
}

#[test]
fn provider_names_read_back() {
    for provider in [AuthProvider::Claude, AuthProvider::Codex, AuthProvider::Zai] {
        assert_eq!(AuthProvider::parse(provider.as_str(&names()), &names()), Some(provider));
    }
    assert_eq!(AuthProvider::parse("other", &names()), None);
}

#[test]
fn resolve_web_dir_prefers_midtown_base_dir_when_exe_relative_absent() {
    let resolved = resolve_web_dir(
        Some(WebDirCandidate { dir: "/opt/bin", exists: false }),
        WebDirCandidate { dir: "/tmp/base", exists: true },
        "/src/midtown",
    );
    assert_eq!(resolved, "/tmp/base/web-app/dist");
}

#[test]
fn resolve_web_dir_falls_back_to_cargo_manifest_dir_when_midtown_absent() {
    let resolved = resolve_web_dir(
        Some(WebDirCandidate { dir: "/opt/bin", exists: false }),
        WebDirCandidate { dir: "/tmp/base", exists: false },
        "/src/midtown",
    );
    assert_eq!(resolved, "/src/midtown/web-app/dist");
}
