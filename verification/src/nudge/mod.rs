//! Reminders to coworkers, at intervals or when something has happened.

pub mod config;
pub mod state;
pub mod tmux;

use vstd::prelude::*;

use crate::nudge::config::NudgeConfig;
use crate::nudge::state::{now_nanos, time_between, NudgeTracker, StateView};
use crate::nudge::tmux::NudgeError;
use crate::text::{concat2, concat3, decimal, opt, opt_str, replace_all, replaced, to_decimal};

verus! {

/// The time between two reminders, in seconds.
pub const DEFAULT_NUDGE_INTERVAL_SECS: u64 = 300;

/// What a reminder says; `{task}` stands for the task.
pub const DEFAULT_NUDGE_TEMPLATE: &'static str =
    "Reminder: You are working on {task}. Check channel for updates: midtown channel read";

/// Why a coworker is reminded.
#[derive(Debug, PartialEq, Eq)]
pub enum NudgeReason {
    Heartbeat,
    NewReview { pr_number: u64 },
    BlockerResolved { blocker_id: String },
    Manual { from: String },
}

impl NudgeReason {
    pub open spec fn described(self) -> Seq<char> {
        match self {
            NudgeReason::Heartbeat => "periodic check-in"@,
            NudgeReason::NewReview { pr_number } => "new review on PR #"@ + decimal(
                pr_number as nat,
            ),
            NudgeReason::BlockerResolved { blocker_id } => "blocker "@ + blocker_id@
                + " resolved"@,
            NudgeReason::Manual { from } => "nudge from "@ + from@,
        }
    }

    pub fn description(&self) -> (r: String)
        ensures
            r@ == self.described(),
    {
        match self {
            NudgeReason::Heartbeat => "periodic check-in".to_owned(),
            NudgeReason::NewReview { pr_number } => concat2(
                "new review on PR #",
                to_decimal(*pr_number).as_str(),
            ),
            NudgeReason::BlockerResolved { blocker_id } => concat3(
                "blocker ",
                blocker_id.as_str(),
                " resolved",
            ),
            NudgeReason::Manual { from } => concat2("nudge from ", from.as_str()),
        }
    }
}

/// A reminder.
#[derive(Debug)]
pub struct Nudge {
    pub coworker: String,
    pub task: Option<String>,
    pub reason: NudgeReason,
    pub message: String,
}

/// The message that a template comes to.
pub open spec fn nudge_message(template: Seq<char>, task: Option<Seq<char>>) -> Seq<char> {
    replaced(
        template,
        "{task}"@,
        match task {
            Some(t) => t,
            None => "your current task"@,
        },
    )
}

pub fn format_nudge_message(template: &str, task: Option<&str>) -> (r: String)
    ensures
        r@ == nudge_message(template@, opt_str(task)),
{
    proof {
        reveal_strlit("{task}");
    }
    let task_text = match task {
        Some(t) => t,
        None => "your current task",
    };
    replace_all(template, "{task}", task_text)
}

impl Nudge {
    /// A reminder in the usual words.
    pub fn new(coworker: &str, task: Option<String>, reason: NudgeReason) -> (r: Nudge)
        ensures
            r.coworker@ == coworker@,
            r.task == task,
            r.reason == reason,
            r.message@ == nudge_message(DEFAULT_NUDGE_TEMPLATE@, opt(task)),
    {
        Nudge::with_template(coworker, task, reason, DEFAULT_NUDGE_TEMPLATE)
    }

    /// A reminder in the words of a template.
    pub fn with_template(
        coworker: &str,
        task: Option<String>,
        reason: NudgeReason,
        template: &str,
    ) -> (r: Nudge)
        ensures
            r.coworker@ == coworker@,
            r.task == task,
            r.reason == reason,
            r.message@ == nudge_message(template@, opt(task)),
    {
        let task_text = match &task {
            Some(t) => Some(t.as_str()),
            None => None,
        };
        let message = format_nudge_message(template, task_text);
        Nudge { coworker: coworker.to_owned(), task, reason, message }
    }
}

/// Reminds coworkers, each no more often than the interval says.
pub struct NudgeService {
    pub config: NudgeConfig,
    pub tracker: NudgeTracker,
}

/// A coworker is to be reminded: it never was, or the interval has passed.
pub open spec fn due(
    states: Map<Seq<char>, StateView>,
    coworker: Seq<char>,
    interval: u128,
    now: u128,
) -> bool {
    states.contains_key(coworker) ==> time_between(states[coworker].last_nudge, now) >= interval
}

impl NudgeService {
    pub fn new() -> (r: NudgeService)
        ensures
            r.config.is_default(),
            r.tracker@ == Map::<Seq<char>, StateView>::empty(),
    {
        NudgeService { config: NudgeConfig::default(), tracker: NudgeTracker::new() }
    }

    pub fn with_config(config: NudgeConfig) -> (r: NudgeService)
        ensures
            r.config == config,
            r.tracker@ == Map::<Seq<char>, StateView>::empty(),
    {
        NudgeService { config, tracker: NudgeTracker::new() }
    }

    /// A coworker is to be reminded by this service: reminders are switched on, and one is due.
    pub open spec fn reminds(self, coworker: Seq<char>, now: u128) -> bool {
        self.config.enabled && due(self.tracker@, coworker, self.config.interval, now)
    }

    /// Whether a coworker is to be reminded at the time `now`.
    pub fn should_nudge_at(&self, coworker: &str, now: u128) -> (r: bool)
        ensures
            r == self.reminds(coworker@, now),
    {
        if !self.config.enabled {
            return false;
        }
        match self.tracker.get(coworker) {
            Some(state) => state.time_since(now) >= self.config.interval,
            None => true,
        }
    }

    /// Whether a coworker is to be reminded now. One that never was is, unless reminders are
    /// switched off.
    pub fn should_nudge(&self, coworker: &str) -> (r: bool)
        ensures
            exists|now: u128| r == #[trigger] self.reminds(coworker@, now),
            !self.config.enabled ==> !r,
            self.config.enabled && !self.tracker@.contains_key(coworker@) ==> r,
            self.config.enabled && self.config.interval == 0 ==> r,
    {
        let now = now_nanos();
        let r = self.should_nudge_at(coworker, now);
        assert(r == self.reminds(coworker@, now));
        r
    }

    /// The reminder that is to be sent to a coworker at the time `now`, where one is.
    pub fn nudge_if_due(&self, coworker: &str, task: Option<&str>, now: u128) -> (r: Option<Nudge>)
        ensures
            r is Some <==> self.reminds(coworker@, now),
            r matches Some(n) ==> n.coworker@ == coworker@ && opt(n.task) == opt_str(task)
                && n.reason is Heartbeat && n.message@ == nudge_message(
                self.config.message_template@,
                opt_str(task),
            ),
    {
        if !self.should_nudge_at(coworker, now) {
            return None;
        }
        let task_text = match task {
            Some(t) => Some(t.to_owned()),
            None => None,
        };
        Some(
            Nudge::with_template(
                coworker,
                task_text,
                NudgeReason::Heartbeat,
                self.config.message_template.as_str(),
            ),
        )
    }

    /// Records what sending a reminder at the time `now` came to: one that was sent counts.
    pub fn send_nudge(&mut self, nudge: &Nudge, sent: Result<(), NudgeError>, now: u128) -> (r:
        Result<(), NudgeError>)
        requires
            old(self).tracker.can_record(nudge.coworker@),
        ensures
            r == sent,
            final(self).config == old(self).config,
            final(self).tracker@ == (if sent is Ok {
                crate::nudge::state::recorded(old(self).tracker@, nudge.coworker@, now)
            } else {
                old(self).tracker@
            }),
    {
        if sent.is_ok() {
            self.tracker.record_nudge_at(nudge.coworker.as_str(), now);
        }
        sent
    }

    pub fn config(&self) -> (r: &NudgeConfig)
        ensures
            *r == self.config,
    {
        &self.config
    }

    pub fn config_mut(&mut self) -> (r: &mut NudgeConfig)
        ensures
            *r == old(self).config,
            *final(self) == (NudgeService { config: *final(r), ..*old(self) }),
    {
        &mut self.config
    }

    pub fn tracker(&self) -> (r: &NudgeTracker)
        ensures
            *r == self.tracker,
    {
        &self.tracker
    }
}

impl Default for NudgeService {
    fn default() -> (r: NudgeService)
        ensures
            r.config.is_default(),
            r.tracker@ == Map::<Seq<char>, StateView>::empty(),
    {
        NudgeService::new()
    }
}

/// Right after a reminder no other is due, until the interval has passed.
pub proof fn reminders_keep_their_distance(
    states: Map<Seq<char>, StateView>,
    coworker: Seq<char>,
    interval: u128,
    sent: u128,
    now: u128,
)
    requires
        sent <= now,
    ensures
        due(crate::nudge::state::recorded(states, coworker, sent), coworker, interval, now)
            <==> now - sent >= interval,
{
}

/// A reminder to one coworker changes nothing for another.
pub proof fn reminders_do_not_interfere(
    states: Map<Seq<char>, StateView>,
    a: Seq<char>,
    b: Seq<char>,
    interval: u128,
    sent: u128,
    now: u128,
)
    requires
        a != b,
    ensures
        due(crate::nudge::state::recorded(states, a, sent), b, interval, now) == due(
            states,
            b,
            interval,
            now,
        ),
{
}

/// A coworker is due who was never reminded, or whose last reminder is at least the interval
/// ago; a service that is switched off reminds nobody.
pub proof fn reminders_are_due_after_the_interval(
    s: NudgeService,
    coworker: Seq<char>,
    interval: u128,
    now: u128,
)
    ensures
        !s.tracker@.contains_key(coworker) ==> due(s.tracker@, coworker, interval, now),
        s.tracker@.contains_key(coworker) && s.tracker@[coworker].last_nudge <= now ==> (due(
            s.tracker@,
            coworker,
            interval,
            now,
        ) <==> now - s.tracker@[coworker].last_nudge >= interval),
        s.tracker@.contains_key(coworker) && s.tracker@[coworker].last_nudge > now ==> (due(
            s.tracker@,
            coworker,
            interval,
            now,
        ) <==> interval == 0),
        s.reminds(coworker, now) <==> s.config.enabled && due(
            s.tracker@,
            coworker,
            s.config.interval,
            now,
        ),
{
}

/// A reminder names the task wherever its words leave a place for it.
pub proof fn reminders_name_the_task(template: Seq<char>, task: Seq<char>)
    ensures
        nudge_message(template, Some(task)) == replaced(template, "{task}"@, task),
        nudge_message(template, None) == replaced(template, "{task}"@, "your current task"@),
        !crate::text::occurs(template, "{task}"@) ==> nudge_message(template, Some(task)) == template,
        !crate::text::occurs(template, "{task}"@) ==> nudge_message(template, None) == template,
        DEFAULT_NUDGE_INTERVAL_SECS == 300,
        DEFAULT_NUDGE_TEMPLATE@
            == "Reminder: You are working on {task}. Check channel for updates: midtown channel read"@,
{
    reveal_strlit("{task}");
    crate::text::replacing_goes_from_the_left(template, "{task}"@, task, 0);
    crate::text::replacing_goes_from_the_left(template, "{task}"@, "your current task"@, 0);
}

/// Each reason is told in its own words.
pub proof fn reasons_are_told(pr_number: u64, who: String)
    ensures
        NudgeReason::Heartbeat.described() == "periodic check-in"@,
        (NudgeReason::NewReview { pr_number }).described() == "new review on PR #"@ + decimal(
            pr_number as nat,
        ),
        (NudgeReason::BlockerResolved { blocker_id: who }).described() == "blocker "@ + who@
            + " resolved"@,
        (NudgeReason::Manual { from: who }).described() == "nudge from "@ + who@,
{
}

} // verus!
