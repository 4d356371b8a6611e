//! The parts of a project's configuration that decisions depend on.

use vstd::prelude::*;

use crate::auth::AuthProvider;
use crate::names::Names;
use crate::text::same;

verus! {

/// The kinds of session that the configuration tells apart.
#[derive(Debug, Clone, Copy, PartialEq, Eq, Structural)]
pub enum ExecutionRole {
    Lead,
    Reviewer,
    ChannelLead,
    Coworker,
}

/// What the configuration says of one role: the provider, and the model where one is set.
pub struct RoleSettings {
    pub auth_provider: AuthProvider,
    pub model: Option<String>,
}

/// The role that an agent definition plays. A definition of another name is a coworker's.
pub open spec fn role_of_agent_type(agent_type: Seq<char>, names: Names) -> ExecutionRole {
    if agent_type == "midtown-project-lead"@ {
        ExecutionRole::Lead
    } else if agent_type == names.reader_agent@ {
        ExecutionRole::Reviewer
    } else if agent_type == "midtown-channel-lead"@ {
        ExecutionRole::ChannelLead
    } else {
        ExecutionRole::Coworker
    }
}

pub fn execution_role_for_agent_type(agent_type: &str, names: &Names) -> (r: ExecutionRole)
    ensures
        r == role_of_agent_type(agent_type@, *names),
{
    if same(agent_type, "midtown-project-lead") {
        ExecutionRole::Lead
    } else if same(agent_type, names.reader_agent.as_str()) {
        ExecutionRole::Reviewer
    } else if same(agent_type, "midtown-channel-lead") {
        ExecutionRole::ChannelLead
    } else {
        ExecutionRole::Coworker
    }
}

/// An agent definition plays the role of its name, and one of an unknown name that of a
/// coworker.
pub proof fn agents_play_the_role_of_their_definition(agent_type: Seq<char>, names: Names)
    requires
        names.reader_agent@ != "midtown-project-lead"@,
        names.reader_agent@ != "midtown-channel-lead"@,
    ensures
        role_of_agent_type(agent_type, names) is Lead <==> agent_type == "midtown-project-lead"@,
        role_of_agent_type(agent_type, names) is Reviewer <==> agent_type == names.reader_agent@,
        role_of_agent_type(agent_type, names) is ChannelLead <==> agent_type
            == "midtown-channel-lead"@,
{
    reveal_strlit("midtown-project-lead");
    reveal_strlit("midtown-channel-lead");
    assert("midtown-project-lead"@[8] == 'p');
    assert("midtown-channel-lead"@[8] == 'c');
}

} // verus!
