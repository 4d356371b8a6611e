//! The services that a session can authenticate with.

use vstd::prelude::*;

use crate::names::Names;
use crate::text::same;

verus! {

/// How a session authenticates.
#[derive(Debug, Clone, Copy, PartialEq, Eq, Structural)]
pub enum AuthProvider {
    Claude,
    Codex,
    Zai,
}

impl AuthProvider {
    pub open spec fn name(self, names: Names) -> Seq<char> {
        match self {
            AuthProvider::Claude => names.program@,
            AuthProvider::Codex => "codex"@,
            AuthProvider::Zai => "zai"@,
        }
    }

    /// The provider with the given name.
    pub open spec fn named(name: Seq<char>, names: Names) -> Option<AuthProvider> {
        if name == names.program@ {
            Some(AuthProvider::Claude)
        } else if name == "codex"@ {
            Some(AuthProvider::Codex)
        } else if name == "zai"@ {
            Some(AuthProvider::Zai)
        } else {
            None
        }
    }

    /// The variable that points the provider's program at its profile directory; z.ai has
    /// none.
    pub open spec fn profile_variable(self) -> Seq<char> {
        match self {
            AuthProvider::Claude => "CLAUDE_CONFIG_DIR"@,
            AuthProvider::Codex => "CODEX_HOME"@,
            AuthProvider::Zai => ""@,
        }
    }

    pub fn as_str<'a>(self, names: &'a Names) -> (r: &'a str)
        ensures
            r@ == self.name(*names),
    {
        match self {
            AuthProvider::Claude => names.program.as_str(),
            AuthProvider::Codex => "codex",
            AuthProvider::Zai => "zai",
        }
    }

    pub fn parse(name: &str, names: &Names) -> (r: Option<AuthProvider>)
        ensures
            r == AuthProvider::named(name@, *names),
    {
        if same(name, names.program.as_str()) {
            Some(AuthProvider::Claude)
        } else if same(name, "codex") {
            Some(AuthProvider::Codex)
        } else if same(name, "zai") {
            Some(AuthProvider::Zai)
        } else {
            None
        }
    }

    pub fn env_var(self) -> (r: &'static str)
        ensures
            r@ == self.profile_variable(),
    {
        match self {
            AuthProvider::Claude => "CLAUDE_CONFIG_DIR",
            AuthProvider::Codex => "CODEX_HOME",
            AuthProvider::Zai => "",
        }
    }

    /// Whether the provider's sessions run the Codex program.
    pub fn is_codex(self) -> (r: bool)
        ensures
            r == (self is Codex),
    {
        match self {
            AuthProvider::Codex => true,
            _ => false,
        }
    }
}

/// The name of each provider leads back to it, where no two have the same.
pub proof fn provider_names_round_trip(p: AuthProvider, names: Names)
    requires
        names.program@ != "codex"@,
        names.program@ != "zai"@,
    ensures
        AuthProvider::named(p.name(names), names) == Some(p),
{
    reveal_strlit("codex");
    reveal_strlit("zai");
    assert("codex"@.len() == 5);
    assert("zai"@.len() == 3);
}

/// A provider is found by its own name and by no other.
pub proof fn providers_are_found_by_their_own_name(name: Seq<char>, names: Names)
    ensures
        name == names.program@ ==> AuthProvider::named(name, names) == Some(AuthProvider::Claude),
        name == "codex"@ && name != names.program@ ==> AuthProvider::named(name, names) == Some(
            AuthProvider::Codex,
        ),
        name == "zai"@ && name != names.program@ ==> AuthProvider::named(name, names) == Some(
            AuthProvider::Zai,
        ),
        name != names.program@ && name != "codex"@ && name != "zai"@ ==> AuthProvider::named(
            name,
            names,
        ) is None,
        AuthProvider::named(name, names) matches Some(p) ==> p.name(names) == name,
{
    reveal_strlit("codex");
    reveal_strlit("zai");
    assert("codex"@.len() == 5);
    assert("zai"@.len() == 3);
}

/// Each program finds its profile by a variable of its own; z.ai has none.
pub proof fn programs_find_their_profile_by_their_own_variable()
    ensures
        AuthProvider::Claude.profile_variable() == "CLAUDE_CONFIG_DIR"@,
        AuthProvider::Codex.profile_variable() == "CODEX_HOME"@,
        AuthProvider::Zai.profile_variable().len() == 0,
        AuthProvider::Claude.profile_variable() != AuthProvider::Codex.profile_variable(),
{
    reveal_strlit("");
    reveal_strlit("CLAUDE_CONFIG_DIR");
    reveal_strlit("CODEX_HOME");
    assert("CLAUDE_CONFIG_DIR"@.len() == 17);
    assert("CODEX_HOME"@.len() == 10);
}

} // verus!
