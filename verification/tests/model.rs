use midtown::auth::AuthProvider;
use midtown::config::ExecutionRole;
use midtown::model::{
    default_model_for_provider_role, normalize_model_for_provider_role, provider_for_model_alias,
    resolve_model_for_role,
};
use midtown::names::Names;

fn names() -> Names {
    Names {
        program: format!("{:?}", AuthProvider::Claude).to_lowercase(),
        reader_agent: format!("midtown-code-{:?}", ExecutionRole::Reviewer).to_lowercase(),
    }
}

#[test]
fn default_model_for_provider_role_uses_codex_model_for_all_roles() {
    let provider = AuthProvider::Codex;
    assert_eq!(
        default_model_for_provider_role(provider, "midtown-project-lead", &names()),
        "gpt-5.4"
    );
    assert_eq!(
        default_model_for_provider_role(provider, "midtown-code-author", &names()),
        "gpt-5.4"
    );
}

#[test]
fn default_model_for_provider_role_uses_claude_tiers() {
    let provider = AuthProvider::Claude;
    assert_eq!(
        default_model_for_provider_role(provider, "midtown-project-lead", &names()),
        "opus"
    );
    assert_eq!(
        default_model_for_provider_role(provider, "midtown-code-author", &names()),
        "sonnet"
    );
}

#[test]
fn normalize_model_for_provider_role_rewrites_claude_alias_for_codex() {
    let normalized = normalize_model_for_provider_role(
        "sonnet",
        AuthProvider::Codex,
        "midtown-channel-lead",
        &names(),
    );
    assert_eq!(normalized, "gpt-5.4");
}

#[test]
fn normalize_model_for_provider_role_keeps_codex_alias_for_codex() {
    let normalized = normalize_model_for_provider_role(
        "gpt-5.4",
        AuthProvider::Codex,
        "midtown-code-author",
        &names(),
    );
    assert_eq!(normalized, "gpt-5.4");
}

#[test]
fn normalize_model_for_provider_role_rewrites_codex_alias_for_claude() {
    let normalized = normalize_model_for_provider_role(
        "gpt-5.4",
        AuthProvider::Claude,
        "midtown-project-lead",
        &names(),
    );
    assert_eq!(normalized, "opus");
}

#[test]
fn normalize_model_for_provider_role_maps_size_aliases_for_claude() {
    let small = normalize_model_for_provider_role(
        "small",
        AuthProvider::Claude,
        "midtown-code-author",
        &names(),
    );
    let medium = normalize_model_for_provider_role(
        "medium",
        AuthProvider::Claude,
        "midtown-project-lead",
        &names(),
    );
    assert_eq!(small, "haiku");
    assert_eq!(medium, "sonnet");
}

#[test]
fn normalize_model_for_provider_role_maps_size_aliases_for_codex() {
    let small = normalize_model_for_provider_role(
        "small",
        AuthProvider::Codex,
        "midtown-code-author",
        &names(),
    );
    let medium = normalize_model_for_provider_role(
        "medium",
        AuthProvider::Codex,
        "midtown-project-lead",
        &names(),
    );
    let large = normalize_model_for_provider_role(
        "large",
        AuthProvider::Codex,
        &names().reader_agent,
        &names(),
    );
    assert_eq!(small, "gpt-5.1-codex-mini");
    assert_eq!(medium, "gpt-5.3-codex-spark");
    assert_eq!(large, "gpt-5.4");
}

#[test]
fn sessions_that_read_pull_requests_get_the_large_model() {
    let default = |agent: &str| {
        default_model_for_provider_role(AuthProvider::Zai, agent, &names())
    };
    assert_eq!(default(&names().reader_agent), "opus");
    assert_eq!(default("anything"), "sonnet");
}

#[test]
fn normalizing_twice_is_normalizing_once() {
    for model in ["  Opus ", "large", "", "o3", "custom"] {
        for provider in [AuthProvider::Claude, AuthProvider::Codex] {
            let once = normalize_model_for_provider_role(model, provider, "x", &names());
            let twice = normalize_model_for_provider_role(&once, provider, "x", &names());
            assert_eq!(once, twice);
        }
    }
}

#[test]
fn configured_models_are_made_to_fit() {
    let resolve = |model: Option<&str>, provider| {
        resolve_model_for_role(&model.map(str::to_string), provider, "x", &names())
    };
    assert_eq!(resolve(None, AuthProvider::Claude), "sonnet");
    assert_eq!(resolve(Some("o3"), AuthProvider::Claude), "sonnet");
    assert_eq!(resolve(Some("o3"), AuthProvider::Codex), "o3");
    assert_eq!(provider_for_model_alias("Opus"), Some(AuthProvider::Claude));
    assert_eq!(provider_for_model_alias("o3"), Some(AuthProvider::Codex));
    assert_eq!(provider_for_model_alias("small"), None);
    assert_eq!(provider_for_model_alias("custom"), None);
}
