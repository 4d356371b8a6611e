//! The names of things outside of this library that whoever uses it has to tell.

use vstd::prelude::*;

verus! {

/// The names that are handed in.
pub struct Names {
    /// The program of Anthropic. Its provider, its directories and its plugins are named
    /// after it.
    pub program: String,
    /// The agent definition of sessions that read pull requests.
    pub reader_agent: String,
}

impl Names {
    /// The directory that the program keeps below the home directory.
    pub open spec fn directory(self) -> Seq<char> {
        "."@ + self.program@
    }

    /// The place from which the program's plugins come.
    pub open spec fn marketplace(self) -> Seq<char> {
        self.program@ + "-plugins-official"@
    }
}

/// The directory of the program is hidden, and bears its name; its plugins come from a place
/// that is named after it.
pub proof fn things_are_named_after_the_program(n: Names)
    ensures
        n.directory() == seq!['.'] + n.program@,
        n.marketplace() == n.program@ + "-plugins-official"@,
{
    reveal_strlit(".");
    assert("."@ =~= seq!['.']);
}

} // verus!
