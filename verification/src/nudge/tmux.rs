//! Reminders typed into the windows of a terminal multiplexer.

use vstd::prelude::*;

use crate::args::{add_one, add_pair, no_args};
use crate::selection::{choosing_goes_item_by_item, chosen, nothing_is_chosen_from_nothing};
use crate::text::{concat2, concat3, lines, lines_of, texts, trim, trimmed};

verus! {

/// Why a reminder could not be sent.
#[derive(Debug)]
pub enum NudgeError {
    TmuxError(String),
    TmuxNotFound,
    SessionNotFound(String),
    WindowNotFound(String),
    /// The key that ends the input was refused each time.
    EnterFailed,
    /// The command could not be run.
    Io(String),
}

impl NudgeError {
    pub open spec fn says(self) -> Seq<char> {
        match self {
            NudgeError::TmuxError(e) => "tmux command failed: "@ + e@,
            NudgeError::TmuxNotFound => "tmux not found in PATH"@,
            NudgeError::SessionNotFound(s) => "tmux session not found: "@ + s@,
            NudgeError::WindowNotFound(w) => "tmux window not found: "@ + w@,
            NudgeError::EnterFailed => "failed to send Enter key after retries"@,
            NudgeError::Io(e) => "I/O error: "@ + e@,
        }
    }

    pub fn to_text(&self) -> (r: String)
        ensures
            r@ == self.says(),
    {
        match self {
            NudgeError::TmuxError(e) => concat2("tmux command failed: ", e.as_str()),
            NudgeError::TmuxNotFound => "tmux not found in PATH".to_owned(),
            NudgeError::SessionNotFound(s) => concat2("tmux session not found: ", s.as_str()),
            NudgeError::WindowNotFound(w) => concat2("tmux window not found: ", w.as_str()),
            NudgeError::EnterFailed => "failed to send Enter key after retries".to_owned(),
            NudgeError::Io(e) => concat2("I/O error: ", e.as_str()),
        }
    }
}

/// Where a reminder is typed.
pub struct NudgeTarget {
    pub session: String,
    pub target: String,
}

pub open spec fn window_target(session: Seq<char>, window: Seq<char>) -> Seq<char> {
    session + ":"@ + window
}

/// A window of a session.
pub fn window_of(session: &str, window: &str) -> (r: NudgeTarget)
    ensures
        r.session@ == session@,
        r.target@ == window_target(session@, window@),
{
    NudgeTarget { session: session.to_owned(), target: concat3(session, ":", window) }
}

/// A pane of a window.
pub fn pane_of(session: &str, window: &str, pane: &str) -> (r: NudgeTarget)
    ensures
        r.session@ == session@,
        r.target@ == window_target(session@, window@) + "."@ + pane@,
{
    let window_name = concat3(session, ":", window);
    NudgeTarget {
        session: session.to_owned(),
        target: concat3(window_name.as_str(), ".", pane),
    }
}

/// The commands of a reminder, in their order: see whether the session exists, leave any
/// dialog, begin to type, type the message, and end the input, for which there are three
/// attempts.
#[derive(Debug, Clone, Copy, PartialEq, Eq, Structural)]
pub enum NudgePhase {
    Session,
    Escape,
    Insert,
    Text,
    Enter(u8),
}

/// What a command came to.
pub enum CommandOutcome {
    Succeeded,
    /// What the command wrote to its error output.
    Refused(String),
    /// The command could not be run.
    NotRun(String),
}

/// What is done after a command.
pub enum NudgeStep {
    /// Wait this many milliseconds and run the next command.
    Run { pause_ms: u64, phase: NudgePhase },
    Done,
    Fail(NudgeError),
}

/// The attempts to end the input.
pub const ENTER_ATTEMPTS: u8 = 3;

/// The arguments of the command of a phase.
pub open spec fn command_args(phase: NudgePhase, target: NudgeTarget, message: Seq<char>) -> Seq<
    Seq<char>,
> {
    let keys = seq!["send-keys"@, "-t"@, target.target@];
    match phase {
        NudgePhase::Session => seq!["has-session"@, "-t"@, target.session@],
        NudgePhase::Escape => keys + seq!["Escape"@],
        NudgePhase::Insert => keys + seq!["i"@],
        NudgePhase::Text => keys + seq!["-l"@, "# "@ + message],
        NudgePhase::Enter(_) => keys + seq!["Enter"@],
    }
}

fn has_session_args(target: &str) -> (r: Vec<String>)
    ensures
        texts(r@) == seq!["has-session"@, "-t"@, target@],
{
    let mut args = no_args();
    add_one(&mut args, "has-session");
    add_pair(&mut args, "-t", target);
    assert(texts(args@) =~= seq!["has-session"@, "-t"@, target@]);
    args
}

/// The arguments of the command of a phase.
pub fn nudge_command(phase: NudgePhase, target: &NudgeTarget, message: &str) -> (r: Vec<String>)
    ensures
        texts(r@) == command_args(phase, *target, message@),
{
    if let NudgePhase::Session = phase {
        return has_session_args(target.session.as_str());
    }
    let mut args = no_args();
    add_one(&mut args, "send-keys");
    add_pair(&mut args, "-t", target.target.as_str());
    assert(texts(args@) =~= seq!["send-keys"@, "-t"@, target.target@]);
    match phase {
        NudgePhase::Session => {},
        NudgePhase::Escape => {
            add_one(&mut args, "Escape");
        },
        NudgePhase::Insert => {
            add_one(&mut args, "i");
        },
        NudgePhase::Text => {
            add_pair(&mut args, "-l", concat2("# ", message).as_str());
        },
        NudgePhase::Enter(_) => {
            add_one(&mut args, "Enter");
        },
    }
    args
}

/// The step after a command.
pub open spec fn step_after(
    phase: NudgePhase,
    session: Seq<char>,
    outcome: CommandOutcome,
    step: NudgeStep,
) -> bool {
    match (phase, outcome) {
        (_, CommandOutcome::NotRun(e)) => step matches NudgeStep::Fail(NudgeError::Io(x)) && x@
            == e@,
        (NudgePhase::Session, CommandOutcome::Succeeded) => step == (NudgeStep::Run {
            pause_ms: 0,
            phase: NudgePhase::Escape,
        }),
        (NudgePhase::Session, CommandOutcome::Refused(_)) => step matches NudgeStep::Fail(
            NudgeError::SessionNotFound(s),
        ) && s@ == session,
        (NudgePhase::Escape, _) => step == (NudgeStep::Run {
            pause_ms: 200,
            phase: NudgePhase::Insert,
        }),
        (NudgePhase::Insert, CommandOutcome::Succeeded) => step == (NudgeStep::Run {
            pause_ms: 100,
            phase: NudgePhase::Text,
        }),
        (NudgePhase::Text, CommandOutcome::Succeeded) => step == (NudgeStep::Run {
            pause_ms: 100,
            phase: NudgePhase::Enter(0),
        }),
        (NudgePhase::Insert, CommandOutcome::Refused(e)) | (
            NudgePhase::Text,
            CommandOutcome::Refused(e),
        ) => step matches NudgeStep::Fail(NudgeError::TmuxError(x)) && x@ == e@,
        (NudgePhase::Enter(_), CommandOutcome::Succeeded) => step is Done,
        (NudgePhase::Enter(n), CommandOutcome::Refused(_)) => if n + 1 < ENTER_ATTEMPTS {
            step == (NudgeStep::Run { pause_ms: 200, phase: NudgePhase::Enter((n + 1) as u8) })
        } else {
            step matches NudgeStep::Fail(NudgeError::EnterFailed)
        },
    }
}

fn next_step(phase: NudgePhase, target: &NudgeTarget, outcome: CommandOutcome) -> (r: NudgeStep)
    ensures
        step_after(phase, target.session@, outcome, r),
{
    if let CommandOutcome::NotRun(e) = outcome {
        return NudgeStep::Fail(NudgeError::Io(e));
    }
    match phase {
        NudgePhase::Session => match outcome {
            CommandOutcome::Succeeded => NudgeStep::Run { pause_ms: 0, phase: NudgePhase::Escape },
            _ => NudgeStep::Fail(NudgeError::SessionNotFound(target.session.clone())),
        },
        NudgePhase::Escape => NudgeStep::Run { pause_ms: 200, phase: NudgePhase::Insert },
        NudgePhase::Insert => match outcome {
            CommandOutcome::Refused(e) => NudgeStep::Fail(NudgeError::TmuxError(e)),
            _ => NudgeStep::Run { pause_ms: 100, phase: NudgePhase::Text },
        },
        NudgePhase::Text => match outcome {
            CommandOutcome::Refused(e) => NudgeStep::Fail(NudgeError::TmuxError(e)),
            _ => NudgeStep::Run { pause_ms: 100, phase: NudgePhase::Enter(0) },
        },
        NudgePhase::Enter(n) => match outcome {
            CommandOutcome::Succeeded => NudgeStep::Done,
            _ => if n < ENTER_ATTEMPTS - 1 {
                NudgeStep::Run { pause_ms: 200, phase: NudgePhase::Enter(n + 1) }
            } else {
                NudgeStep::Fail(NudgeError::EnterFailed)
            },
        },
    }
}

/// The step of a reminder to a window after a command.
pub fn send_nudge(phase: NudgePhase, target: &NudgeTarget, outcome: CommandOutcome) -> (r:
    NudgeStep)
    ensures
        step_after(phase, target.session@, outcome, r),
{
    next_step(phase, target, outcome)
}

/// The step of a reminder to a pane after a command: the same as to a window.
pub fn send_nudge_to_pane(phase: NudgePhase, target: &NudgeTarget, outcome: CommandOutcome) -> (r:
    NudgeStep)
    ensures
        step_after(phase, target.session@, outcome, r),
{
    next_step(phase, target, outcome)
}

/// The arguments that ask whether a session exists.
pub fn session_exists(session: &str) -> (r: Vec<String>)
    ensures
        texts(r@) == seq!["has-session"@, "-t"@, session@],
{
    has_session_args(session)
}

/// The arguments that ask whether a window exists.
pub fn window_exists(session: &str, window: &str) -> (r: Vec<String>)
    ensures
        texts(r@) == seq!["has-session"@, "-t"@, window_target(session@, window@)],
{
    has_session_args(concat3(session, ":", window).as_str())
}

/// The arguments that ask for the names of all sessions.
pub fn list_sessions() -> (r: Vec<String>)
    ensures
        texts(r@) == seq!["list-sessions"@, "-F"@, "#{session_name}"@],
{
    let mut args = no_args();
    add_one(&mut args, "list-sessions");
    add_pair(&mut args, "-F", "#{session_name}");
    assert(texts(args@) =~= seq!["list-sessions"@, "-F"@, "#{session_name}"@]);
    args
}

/// The arguments that ask for the names of the windows of a session.
pub fn list_windows(session: &str) -> (r: Vec<String>)
    ensures
        texts(r@) == seq!["list-windows"@, "-t"@, session@, "-F"@, "#{window_name}"@],
{
    let mut args = no_args();
    add_one(&mut args, "list-windows");
    add_pair(&mut args, "-t", session);
    add_pair(&mut args, "-F", "#{window_name}");
    assert(texts(args@) =~= seq!["list-windows"@, "-t"@, session@, "-F"@, "#{window_name}"@]);
    args
}

/// The arguments that ask for the text of a window.
pub fn capture_pane(session: &str, window: &str) -> (r: Vec<String>)
    ensures
        texts(r@) == seq!["capture-pane"@, "-t"@, window_target(session@, window@), "-p"@],
{
    let mut args = no_args();
    add_one(&mut args, "capture-pane");
    add_pair(&mut args, "-t", concat3(session, ":", window).as_str());
    add_one(&mut args, "-p");
    assert(texts(args@) =~= seq![
        "capture-pane"@,
        "-t"@,
        window_target(session@, window@),
        "-p"@,
    ]);
    args
}

/// The lines, without the white space around them and without the blank ones.
pub open spec fn tidy_lines(ls: Seq<Seq<char>>) -> Seq<Seq<char>>
    decreases ls.len(),
{
    if ls.len() == 0 {
        Seq::empty()
    } else if trim(ls.last()).len() == 0 {
        tidy_lines(ls.drop_last())
    } else {
        tidy_lines(ls.drop_last()).push(trim(ls.last()))
    }
}

/// The names that a list holds, one on each line. A command that failed has listed none.
pub fn listed_names(succeeded: bool, stdout: &str) -> (r: Vec<String>)
    ensures
        texts(r@) == (if succeeded {
            tidy_lines(lines(stdout@))
        } else {
            Seq::<Seq<char>>::empty()
        }),
{
    let mut r = no_args();
    if !succeeded {
        return r;
    }
    let ls = lines_of(stdout);
    let ghost all = lines(stdout@);
    let mut i: usize = 0;
    assert(texts(r@) =~= tidy_lines(all.take(0)));
    while i < ls.len()
        invariant
            i <= ls.len(),
            all == texts(ls@),
            texts(r@) == tidy_lines(all.take(i as int)),
        decreases ls.len() - i,
    {
        proof {
            assert(all.take(i + 1).drop_last() =~= all.take(i as int));
            assert(all.take(i + 1).last() == ls@[i as int]@);
        }
        let name = trimmed(ls[i].as_str());
        if !name.as_str().is_empty() {
            let ghost before = texts(r@);
            r.push(name);
            assert(texts(r@) =~= before.push(name@));
        }
        i += 1;
    }
    assert(all.take(i as int) =~= all);
    r
}

/// How far a reminder is from its end, at most.
pub open spec fn commands_left(phase: NudgePhase) -> nat {
    match phase {
        NudgePhase::Session => 7,
        NudgePhase::Escape => 6,
        NudgePhase::Insert => 5,
        NudgePhase::Text => 4,
        NudgePhase::Enter(n) => if n < 3 {
            (3 - n) as nat
        } else {
            1
        },
    }
}

/// Each command brings a reminder nearer to its end, whatever comes of it: no reminder takes
/// more than seven commands.
pub proof fn reminders_come_to_an_end(
    phase: NudgePhase,
    session: Seq<char>,
    outcome: CommandOutcome,
    step: NudgeStep,
)
    requires
        step_after(phase, session, outcome, step),
    ensures
        step matches NudgeStep::Run { phase: next, .. } ==> commands_left(next) < commands_left(
            phase,
        ),
{
}

/// A reminder succeeds only by the key that ends its input.
pub proof fn only_the_last_key_ends_a_reminder(
    phase: NudgePhase,
    session: Seq<char>,
    outcome: CommandOutcome,
    step: NudgeStep,
)
    requires
        step_after(phase, session, outcome, step),
        step is Done,
    ensures
        phase is Enter && outcome is Succeeded,
{
}

/// Each failure is told in its own words.
pub proof fn failures_are_told(what: String)
    ensures
        NudgeError::TmuxError(what).says() == "tmux command failed: "@ + what@,
        NudgeError::TmuxNotFound.says() == "tmux not found in PATH"@,
        NudgeError::SessionNotFound(what).says() == "tmux session not found: "@ + what@,
        NudgeError::WindowNotFound(what).says() == "tmux window not found: "@ + what@,
        NudgeError::EnterFailed.says() == "failed to send Enter key after retries"@,
        NudgeError::Io(what).says() == "I/O error: "@ + what@,
{
}

/// A window is named behind its session and a colon.
pub proof fn windows_are_named_behind_their_session(session: Seq<char>, window: Seq<char>)
    ensures
        window_target(session, window) == session + seq![':'] + window,
{
    reveal_strlit(":");
    assert(":"@ =~= seq![':']);
}

/// Only the first command asks about the session; all others type into the target: escape, an
/// `i`, the message behind a sign that makes it a comment, and the key that ends the input.
pub proof fn commands_type_into_the_target(target: NudgeTarget, message: Seq<char>, n: u8)
    ensures
        command_args(NudgePhase::Session, target, message) == seq![
            "has-session"@,
            "-t"@,
            target.session@,
        ],
        command_args(NudgePhase::Escape, target, message) == seq![
            "send-keys"@,
            "-t"@,
            target.target@,
            "Escape"@,
        ],
        command_args(NudgePhase::Insert, target, message) == seq![
            "send-keys"@,
            "-t"@,
            target.target@,
            "i"@,
        ],
        command_args(NudgePhase::Text, target, message) == seq![
            "send-keys"@,
            "-t"@,
            target.target@,
            "-l"@,
            "# "@ + message,
        ],
        command_args(NudgePhase::Enter(n), target, message) == seq![
            "send-keys"@,
            "-t"@,
            target.target@,
            "Enter"@,
        ],
{
}

/// A command that could be carried out leads to the next one: the session is found, escape is
/// typed, then an `i`, then the message, then the last key.
pub proof fn reminders_go_command_by_command(
    session: Seq<char>,
    done: CommandOutcome,
    step: NudgeStep,
    n: u8,
)
    requires
        done is Succeeded,
    ensures
        step_after(NudgePhase::Session, session, done, step) <==> step == (NudgeStep::Run {
            pause_ms: 0,
            phase: NudgePhase::Escape,
        }),
        step_after(NudgePhase::Escape, session, done, step) <==> step == (NudgeStep::Run {
            pause_ms: 200,
            phase: NudgePhase::Insert,
        }),
        step_after(NudgePhase::Insert, session, done, step) <==> step == (NudgeStep::Run {
            pause_ms: 100,
            phase: NudgePhase::Text,
        }),
        step_after(NudgePhase::Text, session, done, step) <==> step == (NudgeStep::Run {
            pause_ms: 100,
            phase: NudgePhase::Enter(0),
        }),
        step_after(NudgePhase::Enter(n), session, done, step) <==> step is Done,
{
}

/// A command that was refused ends the reminder, but for escape, which may be refused, and the
/// last key, for which there are three attempts.
pub proof fn refused_commands_end_the_reminder(
    session: Seq<char>,
    why: String,
    step: NudgeStep,
    n: u8,
)
    ensures
        step_after(NudgePhase::Session, session, CommandOutcome::Refused(why), step) <==> (
        step matches NudgeStep::Fail(NudgeError::SessionNotFound(s)) && s@ == session),
        step_after(NudgePhase::Escape, session, CommandOutcome::Refused(why), step) <==> step == (
        NudgeStep::Run { pause_ms: 200, phase: NudgePhase::Insert }),
        step_after(NudgePhase::Insert, session, CommandOutcome::Refused(why), step) <==> (
        step matches NudgeStep::Fail(NudgeError::TmuxError(x)) && x@ == why@),
        step_after(NudgePhase::Text, session, CommandOutcome::Refused(why), step) <==> (
        step matches NudgeStep::Fail(NudgeError::TmuxError(x)) && x@ == why@),
        n < 2 ==> (step_after(NudgePhase::Enter(n), session, CommandOutcome::Refused(why), step)
            <==> step == (NudgeStep::Run { pause_ms: 200, phase: NudgePhase::Enter((n + 1) as u8) })),
        n >= 2 ==> (step_after(NudgePhase::Enter(n), session, CommandOutcome::Refused(why), step)
            <==> (step matches NudgeStep::Fail(NudgeError::EnterFailed))),
{
}

/// A command that could not be run ends the reminder, whichever it is.
pub proof fn commands_that_do_not_run_end_the_reminder(
    phase: NudgePhase,
    session: Seq<char>,
    why: String,
    step: NudgeStep,
)
    ensures
        step_after(phase, session, CommandOutcome::NotRun(why), step) <==> (
        step matches NudgeStep::Fail(NudgeError::Io(x)) && x@ == why@),
{
}

/// The names that are listed are the lines that are not blank, in their order, without the white
/// space around them.
pub proof fn names_are_the_lines_that_are_not_blank(ls: Seq<Seq<char>>)
    ensures
        exists|picked: Seq<Seq<char>>| #![trigger picked.len()]
            chosen(ls, |line: Seq<char>| trim(line).len() > 0, picked) && tidy_lines(ls)
                == picked.map_values(|line: Seq<char>| trim(line)),
    decreases ls.len(),
{
    let wanted = |line: Seq<char>| trim(line).len() > 0;
    let told = |line: Seq<char>| trim(line);
    if ls.len() == 0 {
        let none = Seq::<Seq<char>>::empty();
        nothing_is_chosen_from_nothing(wanted);
        assert(ls =~= none);
        assert(tidy_lines(ls) =~= none.map_values(told));
        assert(none.len() == 0);
    } else {
        let init = ls.drop_last();
        names_are_the_lines_that_are_not_blank(init);
        let picked = choose|picked: Seq<Seq<char>>| #![trigger picked.len()]
            chosen(init, wanted, picked) && tidy_lines(init) == picked.map_values(told);
        assert(ls =~= init.push(ls.last()));
        choosing_goes_item_by_item(init, ls.last(), wanted, picked);
        if trim(ls.last()).len() > 0 {
            let more = picked.push(ls.last());
            assert(tidy_lines(ls) =~= more.map_values(told));
            assert(more.len() == picked.len() + 1);
        } else {
            assert(picked.len() >= 0);
        }
    }
}

} // verus!
