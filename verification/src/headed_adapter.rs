//! How a control message is put to an agent that runs in a terminal, by provider.

use vstd::prelude::*;

use crate::auth::AuthProvider;

verus! {

/// What messages to a headed agent go through.
pub trait HeadedAgentAdapter {
    /// The provider that the adapter is for.
    spec fn target(&self) -> AuthProvider;

    /// The text that a message becomes.
    spec fn shaped(&self, message: Seq<char>) -> Seq<char>;

    fn provider(&self) -> (r: AuthProvider)
        ensures
            r == self.target(),
    ;

    fn format_system_message(&self, message: &str) -> (r: String)
        ensures
            r@ == self.shaped(message@),
    ;
}

pub struct ClaudeHeadedAdapter;

pub struct CodexHeadedAdapter;

pub struct ZaiHeadedAdapter;

impl HeadedAgentAdapter for ClaudeHeadedAdapter {
    open spec fn target(&self) -> AuthProvider {
        AuthProvider::Claude
    }

    open spec fn shaped(&self, message: Seq<char>) -> Seq<char> {
        message
    }

    fn provider(&self) -> (r: AuthProvider) {
        AuthProvider::Claude
    }

    fn format_system_message(&self, message: &str) -> (r: String) {
        message.to_owned()
    }
}

impl HeadedAgentAdapter for CodexHeadedAdapter {
    open spec fn target(&self) -> AuthProvider {
        AuthProvider::Codex
    }

    open spec fn shaped(&self, message: Seq<char>) -> Seq<char> {
        message
    }

    fn provider(&self) -> (r: AuthProvider) {
        AuthProvider::Codex
    }

    fn format_system_message(&self, message: &str) -> (r: String) {
        message.to_owned()
    }
}

impl HeadedAgentAdapter for ZaiHeadedAdapter {
    open spec fn target(&self) -> AuthProvider {
        AuthProvider::Zai
    }

    open spec fn shaped(&self, message: Seq<char>) -> Seq<char> {
        message
    }

    fn provider(&self) -> (r: AuthProvider) {
        AuthProvider::Zai
    }

    fn format_system_message(&self, message: &str) -> (r: String) {
        message.to_owned()
    }
}

/// One of the adapters.
pub enum HeadedAdapter {
    Claude(ClaudeHeadedAdapter),
    Codex(CodexHeadedAdapter),
    Zai(ZaiHeadedAdapter),
}

impl HeadedAgentAdapter for HeadedAdapter {
    open spec fn target(&self) -> AuthProvider {
        match *self {
            HeadedAdapter::Claude(a) => a.target(),
            HeadedAdapter::Codex(a) => a.target(),
            HeadedAdapter::Zai(a) => a.target(),
        }
    }

    open spec fn shaped(&self, message: Seq<char>) -> Seq<char> {
        match *self {
            HeadedAdapter::Claude(a) => a.shaped(message),
            HeadedAdapter::Codex(a) => a.shaped(message),
            HeadedAdapter::Zai(a) => a.shaped(message),
        }
    }

    fn provider(&self) -> (r: AuthProvider) {
        match self {
            HeadedAdapter::Claude(a) => a.provider(),
            HeadedAdapter::Codex(a) => a.provider(),
            HeadedAdapter::Zai(a) => a.provider(),
        }
    }

    fn format_system_message(&self, message: &str) -> (r: String) {
        match self {
            HeadedAdapter::Claude(a) => a.format_system_message(message),
            HeadedAdapter::Codex(a) => a.format_system_message(message),
            HeadedAdapter::Zai(a) => a.format_system_message(message),
        }
    }
}

/// The adapter for a provider. Every adapter hands a message on as it is.
pub fn adapter_for(provider: AuthProvider) -> (r: HeadedAdapter)
    ensures
        r.target() == provider,
        forall|m: Seq<char>| #[trigger] r.shaped(m) == m,
{
    match provider {
        AuthProvider::Claude => HeadedAdapter::Claude(ClaudeHeadedAdapter),
        AuthProvider::Codex => HeadedAdapter::Codex(CodexHeadedAdapter),
        AuthProvider::Zai => HeadedAdapter::Zai(ZaiHeadedAdapter),
    }
}

/// Every adapter hands a message on as it is, and each is for the provider of its name.
pub proof fn adapters_leave_messages_as_they_are(message: Seq<char>)
    ensures
        ClaudeHeadedAdapter.shaped(message) == message,
        CodexHeadedAdapter.shaped(message) == message,
        ZaiHeadedAdapter.shaped(message) == message,
        HeadedAdapter::Claude(ClaudeHeadedAdapter).shaped(message) == message,
        HeadedAdapter::Codex(CodexHeadedAdapter).shaped(message) == message,
        HeadedAdapter::Zai(ZaiHeadedAdapter).shaped(message) == message,
        ClaudeHeadedAdapter.target() is Claude,
        CodexHeadedAdapter.target() is Codex,
        ZaiHeadedAdapter.target() is Zai,
        HeadedAdapter::Claude(ClaudeHeadedAdapter).target() is Claude,
        HeadedAdapter::Codex(CodexHeadedAdapter).target() is Codex,
        HeadedAdapter::Zai(ZaiHeadedAdapter).target() is Zai,
{
}

} // verus!
