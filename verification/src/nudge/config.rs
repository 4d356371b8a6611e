//! The settings of reminders.

use vstd::prelude::*;

use crate::nudge::{DEFAULT_NUDGE_INTERVAL_SECS, DEFAULT_NUDGE_TEMPLATE};

verus! {

/// The settings of reminders.
#[derive(Debug)]
pub struct NudgeConfig {
    /// The time between two reminders, in nanoseconds.
    pub interval: u128,
    pub message_template: String,
    pub enabled: bool,
}

pub const NANOS_PER_SEC: u128 = 1_000_000_000;

/// Seconds in nanoseconds.
pub open spec fn secs(n: u64) -> int {
    n * NANOS_PER_SEC
}

pub fn nanos_of_secs(n: u64) -> (r: u128)
    ensures
        r == secs(n),
{
    assert(n * 1_000_000_000 <= 0xffff_ffff_ffff_ffff * 1_000_000_000) by (nonlinear_arith)
        requires
            n <= 0xffff_ffff_ffff_ffff,
    ;
    (n as u128) * NANOS_PER_SEC
}

impl NudgeConfig {
    pub open spec fn is_default(self) -> bool {
        &&& self.interval == secs(DEFAULT_NUDGE_INTERVAL_SECS)
        &&& self.message_template@ == DEFAULT_NUDGE_TEMPLATE@
        &&& self.enabled
    }

    pub fn new(interval_secs: u64, template: &str) -> (r: NudgeConfig)
        ensures
            r.interval == secs(interval_secs),
            r.message_template@ == template@,
            r.enabled,
    {
        NudgeConfig {
            interval: nanos_of_secs(interval_secs),
            message_template: template.to_owned(),
            enabled: true,
        }
    }

    /// The usual settings, with reminders switched off.
    pub fn disabled() -> (r: NudgeConfig)
        ensures
            !r.enabled,
            (NudgeConfig { enabled: true, ..r }).is_default(),
    {
        NudgeConfig {
            interval: nanos_of_secs(DEFAULT_NUDGE_INTERVAL_SECS),
            message_template: DEFAULT_NUDGE_TEMPLATE.to_owned(),
            enabled: false,
        }
    }

    pub fn with_interval_secs(self, interval_secs: u64) -> (r: NudgeConfig)
        ensures
            r.interval == secs(interval_secs),
            r == (NudgeConfig { interval: r.interval, ..self }),
    {
        NudgeConfig { interval: nanos_of_secs(interval_secs), ..self }
    }

    pub fn with_template(self, template: &str) -> (r: NudgeConfig)
        ensures
            r.message_template@ == template@,
            r == (NudgeConfig { message_template: r.message_template, ..self }),
    {
        NudgeConfig { message_template: template.to_owned(), ..self }
    }

    pub fn with_enabled(self, enabled: bool) -> (r: NudgeConfig)
        ensures
            r == (NudgeConfig { enabled, ..self }),
    {
        NudgeConfig { enabled, ..self }
    }
}

impl Default for NudgeConfig {
    fn default() -> (r: NudgeConfig)
        ensures
            r.is_default(),
    {
        NudgeConfig {
            interval: nanos_of_secs(DEFAULT_NUDGE_INTERVAL_SECS),
            message_template: DEFAULT_NUDGE_TEMPLATE.to_owned(),
            enabled: true,
        }
    }
}

/// A second has a thousand million nanoseconds.
pub proof fn seconds_are_counted_in_nanoseconds(n: u64)
    ensures
        secs(n) == 1_000_000_000 * n,
        NANOS_PER_SEC == 1_000_000_000,
{
}

/// The usual settings remind every five minutes, in the usual words.
pub proof fn reminders_come_every_five_minutes(c: NudgeConfig)
    ensures
        c.is_default() <==> c.interval == 300_000_000_000 && c.enabled && c.message_template@
            == "Reminder: You are working on {task}. Check channel for updates: midtown channel read"@,
{
}

} // verus!
