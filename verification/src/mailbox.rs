//! Messages to coworkers by way of the inboxes of their team.

use vstd::prelude::*;

use crate::names::Names;
use crate::path::{join_path, joined_path};
use crate::stamp::{is_utc_time, now_rfc3339};
use crate::text::{concat2, concat3, opt, same, to_decimal};

verus! {

/// A message in an inbox.
#[derive(Debug)]
pub struct MailboxMessage {
    pub text: String,
    /// The name of the sender.
    pub from: String,
    pub color: Option<String>,
    /// The time of writing, in the form of RFC 3339.
    pub timestamp: String,
    pub read: bool,
    pub summary: Option<String>,
}

impl MailboxMessage {
    /// An unread message written now.
    pub fn new(text: &str, from: &str) -> (r: MailboxMessage)
        ensures
            r.text@ == text@,
            r.from@ == from@,
            r.color is None,
            is_utc_time(r.timestamp@),
            !r.read,
            r.summary is None,
    {
        MailboxMessage::written_at(text, from, now_rfc3339())
    }

    /// An unread message written at the given time.
    pub fn written_at(text: &str, from: &str, timestamp: String) -> (r: MailboxMessage)
        ensures
            r.text@ == text@,
            r.from@ == from@,
            r.color is None,
            r.timestamp@ == timestamp@,
            !r.read,
            r.summary is None,
    {
        MailboxMessage {
            text: text.to_owned(),
            from: from.to_owned(),
            color: None,
            timestamp,
            read: false,
            summary: None,
        }
    }

    pub fn with_color(self, color: &str) -> (r: MailboxMessage)
        ensures
            opt(r.color) == Some(color@),
            r == (MailboxMessage { color: r.color, ..self }),
    {
        MailboxMessage { color: Some(color.to_owned()), ..self }
    }

    pub fn with_summary(self, summary: &str) -> (r: MailboxMessage)
        ensures
            opt(r.summary) == Some(summary@),
            r == (MailboxMessage { summary: r.summary, ..self }),
    {
        MailboxMessage { summary: Some(summary.to_owned()), ..self }
    }
}

/// The directory of a team, below the home directory `home`.
pub open spec fn team_dir(home: Seq<char>, team: Seq<char>, names: Names) -> Seq<char> {
    join_path(join_path(join_path(home, names.directory()), "teams"@), team)
}

/// The file of an agent's inbox.
pub open spec fn inbox_file(
    home: Seq<char>,
    team: Seq<char>,
    agent: Seq<char>,
    names: Names,
) -> Seq<char> {
    join_path(join_path(team_dir(home, team, names), "inboxes"@), agent + ".json"@)
}

pub fn teams_dir(home: &str, team_name: &str, names: &Names) -> (r: String)
    ensures
        r@ == team_dir(home@, team_name@, *names),
{
    let dir = joined_path(home, concat2(".", names.program.as_str()).as_str());
    let teams = joined_path(dir.as_str(), "teams");
    joined_path(teams.as_str(), team_name)
}

pub fn inbox_path(home: &str, team_name: &str, agent_name: &str, names: &Names) -> (r: String)
    ensures
        r@ == inbox_file(home@, team_name@, agent_name@, *names),
{
    let dir = joined_path(teams_dir(home, team_name, names).as_str(), "inboxes");
    joined_path(dir.as_str(), concat2(agent_name, ".json").as_str())
}

/// The directory that locks an agent's inbox while it exists.
pub fn lock_path(home: &str, team_name: &str, agent_name: &str, names: &Names) -> (r: String)
    ensures
        r@ == join_path(
            join_path(team_dir(home@, team_name@, *names), "inboxes"@),
            agent_name@ + ".json.lock"@,
        ),
{
    let dir = joined_path(teams_dir(home, team_name, names).as_str(), "inboxes");
    joined_path(dir.as_str(), concat2(agent_name, ".json.lock").as_str())
}

/// The age, in milliseconds, beyond which a lock counts as left behind.
pub const STALE_LOCK_MS: u64 = 30_000;

/// The pause between two attempts to take a lock, in milliseconds.
pub const LOCK_RETRY_MS: u64 = 50;

/// The number of attempts to take the lock of an inbox or of a team's configuration.
pub const LOCK_ATTEMPTS: u32 = 20;

/// What creating the directory of a lock came to.
pub enum MkdirOutcome {
    Created,
    /// The directory exists; its age in milliseconds, where that can be told.
    Exists(Option<u64>),
    /// Any other failure.
    Failed,
}

/// What to do next to take a lock.
#[derive(Debug, Clone, Copy, PartialEq, Eq, Structural)]
pub enum LockStep {
    /// The lock is taken.
    Acquired,
    /// Remove the directory and create it again at once, and see what comes of that.
    RemoveStale,
    /// Try again after the pause.
    SleepAndRetry,
    /// No attempt is left.
    GiveUp,
    /// The directory could not be created.
    Fail,
}

/// The step after attempt number `attempt`, counted from zero, of `max_retries`.
pub open spec fn step_after_mkdir(outcome: MkdirOutcome, attempt: nat, max_retries: nat) -> LockStep {
    match outcome {
        MkdirOutcome::Created => LockStep::Acquired,
        MkdirOutcome::Failed => LockStep::Fail,
        MkdirOutcome::Exists(Some(age)) => if age > STALE_LOCK_MS {
            LockStep::RemoveStale
        } else {
            step_after_busy(attempt, max_retries)
        },
        MkdirOutcome::Exists(None) => step_after_busy(attempt, max_retries),
    }
}

/// The step after an attempt that found the lock taken.
pub open spec fn step_after_busy(attempt: nat, max_retries: nat) -> LockStep {
    if attempt + 1 < max_retries {
        LockStep::SleepAndRetry
    } else {
        LockStep::GiveUp
    }
}

/// A lock that is made by creating a directory, and released by removing it.
pub struct MkdirLock {
    pub path: String,
}

impl MkdirLock {
    /// The step after an attempt to create the directory.
    pub fn acquire(outcome: MkdirOutcome, attempt: u32, max_retries: u32) -> (r: LockStep)
        requires
            attempt < max_retries,
        ensures
            r == step_after_mkdir(outcome, attempt as nat, max_retries as nat),
    {
        match outcome {
            MkdirOutcome::Created => LockStep::Acquired,
            MkdirOutcome::Failed => LockStep::Fail,
            MkdirOutcome::Exists(Some(age)) => if age > STALE_LOCK_MS {
                LockStep::RemoveStale
            } else {
                MkdirLock::after_busy(attempt, max_retries)
            },
            MkdirOutcome::Exists(None) => MkdirLock::after_busy(attempt, max_retries),
        }
    }

    /// The step after a stale lock was removed and the directory created again, or not.
    pub fn removed_stale(created: bool, attempt: u32, max_retries: u32) -> (r: LockStep)
        requires
            attempt < max_retries,
        ensures
            r == (if created {
                LockStep::Acquired
            } else {
                step_after_busy(attempt as nat, max_retries as nat)
            }),
    {
        if created {
            LockStep::Acquired
        } else {
            MkdirLock::after_busy(attempt, max_retries)
        }
    }

    fn after_busy(attempt: u32, max_retries: u32) -> (r: LockStep)
        requires
            attempt < max_retries,
        ensures
            r == step_after_busy(attempt as nat, max_retries as nat),
    {
        if attempt < max_retries - 1 {
            LockStep::SleepAndRetry
        } else {
            LockStep::GiveUp
        }
    }

    /// What is said when no attempt was left.
    pub fn refusal(path: &str, max_retries: u32) -> (r: String)
        ensures
            r@ == "Failed to acquire lock at "@ + path@ + " after "@ + crate::text::decimal(
                max_retries as nat,
            ) + " retries"@,
    {
        let s = concat3("Failed to acquire lock at ", path, " after ");
        concat3(s.as_str(), to_decimal(max_retries as u64).as_str(), " retries")
    }
}

/// The inbox with the message at its end. An inbox that could not be read counts as empty.
pub fn write_to_inbox(existing: Option<Vec<MailboxMessage>>, message: MailboxMessage) -> (r: Vec<
    MailboxMessage,
>)
    ensures
        r@ == (match existing {
            Some(messages) => messages@,
            None => Seq::empty(),
        }).push(message),
{
    let mut messages = match existing {
        Some(messages) => messages,
        None => Vec::new(),
    };
    messages.push(message);
    messages
}

pub open spec fn team_name(repo: Seq<char>) -> Seq<char> {
    "midtown-"@ + repo
}

/// The name of the team of a repository.
pub fn team_name_for_repo(repo_name: &str) -> (r: String)
    ensures
        r@ == team_name(repo_name@),
{
    concat2("midtown-", repo_name)
}

/// The identifier of an agent in a team.
pub fn agent_id(name: &str, team_name: &str) -> (r: String)
    ensures
        r@ == name@ + "@"@ + team_name@,
{
    concat3(name, "@", team_name)
}

/// A member of a team.
#[derive(Debug)]
pub struct TeamMember {
    pub name: String,
    pub agent_id: String,
    pub agent_type: String,
}

/// The members of a team.
#[derive(Debug)]
pub struct TeamConfig {
    pub members: Vec<TeamMember>,
}

/// The configuration of a team with the given members, whatever it held before.
pub fn ensure_team_config(members: Vec<TeamMember>) -> (r: TeamConfig)
    ensures
        r.members@ == members@,
{
    TeamConfig { members }
}

/// The position of the first member of the given name.
pub open spec fn first_named(s: Seq<TeamMember>, name: Seq<char>) -> Option<int>
    decreases s.len(),
{
    if s.len() == 0 {
        None
    } else {
        match first_named(s.drop_last(), name) {
            Some(i) => Some(i),
            None => if s.last().name@ == name {
                Some(s.len() - 1)
            } else {
                None
            },
        }
    }
}

/// The members with `member` in the place of the first of its name, or at the end.
pub open spec fn upserted(s: Seq<TeamMember>, member: TeamMember) -> Seq<TeamMember> {
    match first_named(s, member.name@) {
        Some(i) => s.update(i, member),
        None => s.push(member),
    }
}

/// No two members have one name.
pub open spec fn names_differ(s: Seq<TeamMember>) -> bool {
    forall|i: int, j: int|
        0 <= i < j < s.len() ==> (#[trigger] s[i]).name@ != (#[trigger] s[j]).name@
}

proof fn lemma_first_named(s: Seq<TeamMember>, name: Seq<char>)
    ensures
        match first_named(s, name) {
            Some(i) => 0 <= i < s.len() && s[i].name@ == name && forall|k: int|
                0 <= k < i ==> (#[trigger] s[k]).name@ != name,
            None => forall|k: int| 0 <= k < s.len() ==> (#[trigger] s[k]).name@ != name,
        },
    decreases s.len(),
{
    if s.len() > 0 {
        let init = s.drop_last();
        lemma_first_named(init, name);
        match first_named(init, name) {
            Some(i) => {
                assert forall|k: int| 0 <= k < i implies (#[trigger] s[k]).name@ != name by {
                    assert(init[k] == s[k]);
                }
                assert(s[i] == init[i]);
            },
            None => {
                assert forall|k: int| 0 <= k < s.len() - 1 implies (#[trigger] s[k]).name@
                    != name by {
                    assert(init[k] == s[k]);
                }
            },
        }
    }
}

/// Puts a member into a team's configuration: in the place of the first of the same name, or
/// at the end. A configuration that could not be read counts as empty.
pub fn upsert_team_member(existing: Option<TeamConfig>, member: TeamMember) -> (r: TeamConfig)
    ensures
        r.members@ == upserted(
            match existing {
                Some(config) => config.members@,
                None => Seq::empty(),
            },
            member,
        ),
{
    let mut members = match existing {
        Some(config) => config.members,
        None => Vec::new(),
    };
    let ghost before = members@;
    proof {
        lemma_first_named(before, member.name@);
    }
    let mut i: usize = 0;
    while i < members.len()
        invariant
            i <= members.len(),
            members@ == before,
            before == (match existing {
                Some(config) => config.members@,
                None => Seq::empty(),
            }),
            forall|k: int| 0 <= k < i ==> (#[trigger] before[k]).name@ != member.name@,
            match first_named(before, member.name@) {
                Some(n) => 0 <= n < before.len() && before[n].name@ == member.name@ && forall|
                    k: int,
                |
                    0 <= k < n ==> (#[trigger] before[k]).name@ != member.name@,
                None => forall|k: int|
                    0 <= k < before.len() ==> (#[trigger] before[k]).name@ != member.name@,
            },
        decreases members.len() - i,
    {
        if same(members[i].name.as_str(), member.name.as_str()) {
            assert(before[i as int].name@ == member.name@);
            assert(first_named(before, member.name@) == Some(i as int));
            members.set(i, member);
            return TeamConfig { members };
        }
        i += 1;
    }
    members.push(member);
    TeamConfig { members }
}

/// Putting a member in keeps the names different.
pub proof fn upsert_keeps_names_different(s: Seq<TeamMember>, member: TeamMember)
    requires
        names_differ(s),
    ensures
        names_differ(upserted(s, member)),
{
    lemma_first_named(s, member.name@);
    let t = upserted(s, member);
    assert forall|i: int, j: int| 0 <= i < j < t.len() implies (#[trigger] t[i]).name@ != (
    #[trigger] t[j]).name@ by {
        match first_named(s, member.name@) {
            Some(n) => {
                if i == n {
                    assert(s[n].name@ != s[j].name@);
                } else if j == n {
                    assert(s[i].name@ != s[n].name@);
                } else {
                    assert(t[i] == s[i] && t[j] == s[j]);
                }
            },
            None => {
                assert(t[i] == s[i]);
                if j < s.len() {
                    assert(t[j] == s[j]);
                }
            },
        }
    }
}

/// Putting a member in leaves it in, loses no other name, and adds one member at most.
pub proof fn upsert_loses_no_member(s: Seq<TeamMember>, member: TeamMember)
    ensures
        upserted(s, member).contains(member),
        forall|i: int|
            0 <= i < s.len() && (#[trigger] s[i]).name@ != member.name@ ==> upserted(
                s,
                member,
            ).contains(s[i]),
        s.len() <= upserted(s, member).len() <= s.len() + 1,
{
    lemma_first_named(s, member.name@);
    let t = upserted(s, member);
    match first_named(s, member.name@) {
        Some(n) => {
            assert(t[n] == member);
        },
        None => {
            assert(t[s.len() as int] == member);
        },
    }
    assert forall|i: int| 0 <= i < s.len() && (#[trigger] s[i]).name@ != member.name@ implies t.contains(
        s[i],
    ) by {
        assert(t[i] == s[i]);
    }
}

/// The inboxes of a team lie below its directory, which lies in the home directory of the
/// program; each agent has a file of its own.
pub proof fn inboxes_lie_below_the_team(
    home: Seq<char>,
    team: Seq<char>,
    agent: Seq<char>,
    names: Names,
)
    ensures
        team_dir(home, team, names) == join_path(
            join_path(join_path(home, "."@ + names.program@), "teams"@),
            team,
        ),
        inbox_file(home, team, agent, names) == join_path(
            join_path(team_dir(home, team, names), "inboxes"@),
            agent + ".json"@,
        ),
{
}

/// A lock that is taken is removed only where it is older than thirty seconds; else it is
/// waited for, as long as an attempt is left.
pub proof fn locks_are_waited_for_until_they_are_stale(age: u64, attempt: nat, attempts: nat)
    requires
        attempt < attempts,
    ensures
        step_after_mkdir(MkdirOutcome::Created, attempt, attempts) is Acquired,
        step_after_mkdir(MkdirOutcome::Failed, attempt, attempts) is Fail,
        step_after_mkdir(MkdirOutcome::Exists(Some(age)), attempt, attempts) is RemoveStale <==> age
            > 30_000,
        age <= 30_000 && attempt < attempts - 1 ==> step_after_mkdir(
            MkdirOutcome::Exists(Some(age)),
            attempt,
            attempts,
        ) is SleepAndRetry,
        age <= 30_000 && attempt == attempts - 1 ==> step_after_mkdir(
            MkdirOutcome::Exists(Some(age)),
            attempt,
            attempts,
        ) is GiveUp,
        attempt < attempts - 1 ==> step_after_mkdir(MkdirOutcome::Exists(None), attempt, attempts) is SleepAndRetry,
        attempt == attempts - 1 ==> step_after_mkdir(
            MkdirOutcome::Exists(None),
            attempt,
            attempts,
        ) is GiveUp,
        attempt < attempts - 1 ==> step_after_busy(attempt, attempts) is SleepAndRetry,
        attempt == attempts - 1 ==> step_after_busy(attempt, attempts) is GiveUp,
{
}

/// There are twenty attempts to take a lock, with fifty milliseconds between them.
pub proof fn locks_are_tried_for_a_second()
    ensures
        LOCK_ATTEMPTS == 20,
        LOCK_RETRY_MS == 50,
        STALE_LOCK_MS == 30_000,
{
}

/// A team is called after its repository, and so two repositories have two teams.
pub proof fn teams_are_called_after_their_repository(a: Seq<char>, b: Seq<char>)
    ensures
        team_name(a) == "midtown-"@ + a,
        team_name(a) == team_name(b) ==> a == b,
{
    if team_name(a) == team_name(b) {
        let n = "midtown-"@.len() as int;
        assert(team_name(a).skip(n) =~= a);
        assert(team_name(b).skip(n) =~= b);
    }
}

/// A member takes the place of the first of its name; where nobody has its name, it comes last.
/// Everyone else stays in place.
pub proof fn members_take_the_place_of_their_namesake(s: Seq<TeamMember>, member: TeamMember, i: int)
    requires
        0 <= i < s.len(),
    ensures
        s[i].name@ == member.name@ && (forall|k: int|
            0 <= k < i ==> (#[trigger] s[k]).name@ != member.name@) ==> upserted(s, member)
            == s.update(i, member),
        (forall|k: int| 0 <= k < s.len() ==> (#[trigger] s[k]).name@ != member.name@) ==> upserted(
            s,
            member,
        ) == s.push(member),
        s[i].name@ != member.name@ ==> upserted(s, member)[i] == s[i],
{
    lemma_first_named(s, member.name@);
}

} // verus!
