//! When each coworker was last reminded.

use vstd::prelude::*;

use crate::text::{same, texts};

verus! {

/// The reminders to one coworker.
#[derive(Debug)]
pub struct CoworkerNudgeState {
    pub coworker: String,
    /// The time of the last reminder, in nanoseconds since the start of 1970.
    pub last_nudge: u128,
    pub nudge_count: u64,
}

/// What is known of the reminders to a coworker.
#[verifier::ext_equal]
pub struct StateView {
    pub last_nudge: u128,
    pub nudge_count: u64,
}

/// `std::time::SystemTime::elapsed` of the start of 1970, in nanoseconds; none where the clock
/// stands before that. Nothing is claimed of the result, which is the time of the call.
#[verifier::external_body]
fn nanos_since_1970() -> Option<u128> {
    std::time::UNIX_EPOCH.elapsed().ok().map(|d| d.as_nanos())
}

/// The time, in nanoseconds since the start of 1970; zero where the clock stands before that.
pub(crate) fn now_nanos() -> u128 {
    match nanos_since_1970() {
        Some(n) => n,
        None => 0,
    }
}

/// The time from `earlier` to `later`: none where the clock has gone back.
pub open spec fn time_between(earlier: u128, later: u128) -> int {
    if later >= earlier {
        later - earlier
    } else {
        0
    }
}

impl CoworkerNudgeState {
    pub open spec fn state(self) -> StateView {
        StateView { last_nudge: self.last_nudge, nudge_count: self.nudge_count }
    }

    /// A first reminder at the time `now`.
    pub fn at(coworker: &str, now: u128) -> (r: CoworkerNudgeState)
        ensures
            r.coworker@ == coworker@,
            r.last_nudge == now,
            r.nudge_count == 1,
    {
        CoworkerNudgeState { coworker: coworker.to_owned(), last_nudge: now, nudge_count: 1 }
    }

    /// A first reminder now.
    pub fn new(coworker: &str) -> (r: CoworkerNudgeState)
        ensures
            r.coworker@ == coworker@,
            r.nudge_count == 1,
    {
        CoworkerNudgeState::at(coworker, now_nanos())
    }

    /// One more reminder at the time `now`.
    pub fn record_nudge_at(&mut self, now: u128)
        requires
            old(self).nudge_count < u64::MAX,
        ensures
            *final(self) == (CoworkerNudgeState {
                last_nudge: now,
                nudge_count: (old(self).nudge_count + 1) as u64,
                ..*old(self)
            }),
    {
        self.last_nudge = now;
        self.nudge_count = self.nudge_count + 1;
    }

    /// One more reminder now.
    pub fn record_nudge(&mut self)
        requires
            old(self).nudge_count < u64::MAX,
        ensures
            final(self).nudge_count == old(self).nudge_count + 1,
            final(self).coworker == old(self).coworker,
    {
        self.record_nudge_at(now_nanos());
    }

    /// The time from the last reminder to `now`.
    pub fn time_since(&self, now: u128) -> (r: u128)
        ensures
            r == time_between(self.last_nudge, now),
    {
        if now >= self.last_nudge {
            now - self.last_nudge
        } else {
            0
        }
    }

    /// The time since the last reminder, in nanoseconds.
    pub fn time_since_last_nudge(&self) -> (r: u128)
        ensures
            exists|now: u128| r == #[trigger] time_between(self.last_nudge, now),
    {
        let now = now_nanos();
        self.time_since(now)
    }
}

/// The reminders to all coworkers. No coworker occurs twice.
pub struct NudgeTracker {
    states: Vec<CoworkerNudgeState>,
}

/// Who has been reminded, and when.
pub open spec fn states_map(s: Seq<CoworkerNudgeState>) -> Map<Seq<char>, StateView>
    decreases s.len(),
{
    if s.len() == 0 {
        Map::empty()
    } else {
        states_map(s.drop_last()).insert(s.last().coworker@, s.last().state())
    }
}

/// The reminders after one more to `coworker` at the time `now`.
pub open spec fn recorded(
    states: Map<Seq<char>, StateView>,
    coworker: Seq<char>,
    now: u128,
) -> Map<Seq<char>, StateView> {
    let count = if states.contains_key(coworker) {
        (states[coworker].nudge_count + 1) as u64
    } else {
        1
    };
    states.insert(coworker, StateView { last_nudge: now, nudge_count: count })
}

spec fn coworkers_differ(s: Seq<CoworkerNudgeState>) -> bool {
    forall|i: int, j: int|
        0 <= i < j < s.len() ==> (#[trigger] s[i]).coworker@ != (#[trigger] s[j]).coworker@
}

proof fn lemma_states(s: Seq<CoworkerNudgeState>)
    requires
        coworkers_differ(s),
    ensures
        forall|k: Seq<char>|
            states_map(s).contains_key(k) <==> exists|i: int|
                0 <= i < s.len() && (#[trigger] s[i]).coworker@ == k,
        forall|i: int|
            0 <= i < s.len() ==> states_map(s)[(#[trigger] s[i]).coworker@] == s[i].state(),
        states_map(s).dom().finite(),
        states_map(s).dom().len() == s.len(),
    decreases s.len(),
{
    if s.len() > 0 {
        let init = s.drop_last();
        let rest = states_map(init);
        assert forall|i: int, j: int| 0 <= i < j < init.len() implies (#[trigger] init[i]).coworker@
            != (#[trigger] init[j]).coworker@ by {
            assert(init[i] == s[i] && init[j] == s[j]);
        }
        lemma_states(init);
        assert(states_map(s) == rest.insert(s.last().coworker@, s.last().state()));
        assert(!rest.contains_key(s.last().coworker@)) by {
            if rest.contains_key(s.last().coworker@) {
                let i = choose|i: int|
                    0 <= i < init.len() && (#[trigger] init[i]).coworker@ == s.last().coworker@;
                assert(s[i].coworker@ != s[s.len() - 1].coworker@);
            }
        }
        assert(states_map(s).dom() =~= rest.dom().insert(s.last().coworker@));
        assert forall|k: Seq<char>|
            states_map(s).contains_key(k) <==> exists|i: int|
                0 <= i < s.len() && (#[trigger] s[i]).coworker@ == k by {
            if states_map(s).contains_key(k) {
                if k == s.last().coworker@ {
                    assert(s[s.len() - 1].coworker@ == k);
                } else {
                    assert(rest.contains_key(k));
                    let i = choose|i: int|
                        0 <= i < init.len() && (#[trigger] init[i]).coworker@ == k;
                    assert(s[i].coworker@ == k);
                }
            }
            if exists|i: int| 0 <= i < s.len() && (#[trigger] s[i]).coworker@ == k {
                let i = choose|i: int| 0 <= i < s.len() && (#[trigger] s[i]).coworker@ == k;
                if i < s.len() - 1 {
                    assert(init[i].coworker@ == k);
                    assert(rest.contains_key(k));
                }
            }
        }
        assert forall|i: int| 0 <= i < s.len() implies states_map(
            s,
        )[(#[trigger] s[i]).coworker@] == s[i].state() by {
            if i < s.len() - 1 {
                assert(init[i] == s[i]);
                assert(s[i].coworker@ != s[s.len() - 1].coworker@);
            }
        }
    }
}

/// Two lists of coworkers who differ, with the same entries but for one, make up maps that
/// differ there alone.
proof fn lemma_replaced_state(s: Seq<CoworkerNudgeState>, i: int, e: CoworkerNudgeState)
    requires
        coworkers_differ(s),
        0 <= i < s.len(),
        e.coworker@ == s[i].coworker@,
    ensures
        coworkers_differ(s.update(i, e)),
        states_map(s.update(i, e)) == states_map(s).insert(e.coworker@, e.state()),
{
    let t = s.update(i, e);
    assert forall|a: int, b: int| 0 <= a < b < t.len() implies (#[trigger] t[a]).coworker@ != (
    #[trigger] t[b]).coworker@ by {
        assert(s[a].coworker@ != s[b].coworker@);
    }
    lemma_states(s);
    lemma_states(t);
    let want = states_map(s).insert(e.coworker@, e.state());
    assert forall|k: Seq<char>| states_map(t).contains_key(k) <==> want.contains_key(k) by {
        if states_map(t).contains_key(k) {
            let a = choose|a: int| 0 <= a < t.len() && (#[trigger] t[a]).coworker@ == k;
            assert(s[a].coworker@ == k);
        }
        if states_map(s).contains_key(k) {
            let a = choose|a: int| 0 <= a < s.len() && (#[trigger] s[a]).coworker@ == k;
            assert(t[a].coworker@ == k);
        }
        assert(t[i].coworker@ == e.coworker@);
    }
    assert forall|k: Seq<char>| states_map(t).contains_key(k) implies states_map(t)[k] == want[k] by {
        let a = choose|a: int| 0 <= a < t.len() && (#[trigger] t[a]).coworker@ == k;
        if a != i {
            assert(t[a] == s[a]);
            if a < i {
                assert(s[a].coworker@ != s[i].coworker@);
            } else {
                assert(s[i].coworker@ != s[a].coworker@);
            }
        }
    }
    assert(states_map(t) =~= want);
}

proof fn lemma_removed_state(s: Seq<CoworkerNudgeState>, i: int)
    requires
        coworkers_differ(s),
        0 <= i < s.len(),
    ensures
        coworkers_differ(s.remove(i)),
        states_map(s.remove(i)) == states_map(s).remove(s[i].coworker@),
{
    let t = s.remove(i);
    assert forall|a: int, b: int| 0 <= a < b < t.len() implies (#[trigger] t[a]).coworker@ != (
    #[trigger] t[b]).coworker@ by {
        let x = if a < i {
            a
        } else {
            a + 1
        };
        let y = if b < i {
            b
        } else {
            b + 1
        };
        assert(s[x].coworker@ != s[y].coworker@);
    }
    lemma_states(s);
    lemma_states(t);
    let want = states_map(s).remove(s[i].coworker@);
    assert forall|k: Seq<char>| states_map(t).contains_key(k) <==> want.contains_key(k) by {
        if states_map(t).contains_key(k) {
            let a = choose|a: int| 0 <= a < t.len() && (#[trigger] t[a]).coworker@ == k;
            let x = if a < i {
                a
            } else {
                a + 1
            };
            assert(s[x].coworker@ == k);
            if x < i {
                assert(s[x].coworker@ != s[i].coworker@);
            } else {
                assert(s[i].coworker@ != s[x].coworker@);
            }
        }
        if want.contains_key(k) {
            let x = choose|x: int| 0 <= x < s.len() && (#[trigger] s[x]).coworker@ == k;
            let a = if x < i {
                x
            } else {
                x - 1
            };
            assert(t[a].coworker@ == k);
        }
    }
    assert forall|k: Seq<char>| states_map(t).contains_key(k) implies states_map(t)[k] == want[k] by {
        let a = choose|a: int| 0 <= a < t.len() && (#[trigger] t[a]).coworker@ == k;
        let x = if a < i {
            a
        } else {
            a + 1
        };
        assert(t[a] == s[x]);
    }
    assert(states_map(t) =~= want);
}

impl View for NudgeTracker {
    type V = Map<Seq<char>, StateView>;

    closed spec fn view(&self) -> Map<Seq<char>, StateView> {
        states_map(self.states@)
    }
}

impl NudgeTracker {
    #[verifier::type_invariant]
    spec fn no_twins(&self) -> bool {
        coworkers_differ(self.states@)
    }

    /// The count of reminders to a coworker can go up by one.
    pub open spec fn can_record(self, coworker: Seq<char>) -> bool {
        self@.contains_key(coworker) ==> self@[coworker].nudge_count < u64::MAX
    }

    pub fn new() -> (r: NudgeTracker)
        ensures
            r@ == Map::<Seq<char>, StateView>::empty(),
    {
        NudgeTracker { states: Vec::new() }
    }

    fn find(&self, coworker: &str) -> (r: Option<usize>)
        ensures
            match r {
                Some(i) => i < self.states@.len() && self.states@[i as int].coworker@ == coworker@
                    && self@.contains_key(coworker@) && self@[coworker@]
                    == self.states@[i as int].state(),
                None => !self@.contains_key(coworker@),
            },
    {
        proof {
            use_type_invariant(self);
            lemma_states(self.states@);
        }
        let mut i: usize = 0;
        while i < self.states.len()
            invariant
                i <= self.states.len(),
                forall|k: int| 0 <= k < i ==> (#[trigger] self.states@[k]).coworker@ != coworker@,
                forall|k: Seq<char>|
                    self@.contains_key(k) <==> exists|i: int|
                        0 <= i < self.states@.len() && (#[trigger] self.states@[i]).coworker@ == k,
                forall|i: int|
                    0 <= i < self.states@.len() ==> self@[(#[trigger] self.states@[i]).coworker@]
                        == self.states@[i].state(),
            decreases self.states.len() - i,
        {
            if same(self.states[i].coworker.as_str(), coworker) {
                assert(self.states@[i as int].coworker@ == coworker@);
                return Some(i);
            }
            i += 1;
        }
        None
    }

    /// The reminders to a coworker.
    pub fn get(&self, coworker: &str) -> (r: Option<&CoworkerNudgeState>)
        ensures
            match r {
                Some(s) => self@.contains_key(coworker@) && s.coworker@ == coworker@ && s.state()
                    == self@[coworker@],
                None => !self@.contains_key(coworker@),
            },
    {
        match self.find(coworker) {
            Some(i) => Some(&self.states[i]),
            None => None,
        }
    }

    /// Records a reminder to a coworker at the time `now`.
    pub fn record_nudge_at(&mut self, coworker: &str, now: u128)
        requires
            old(self).can_record(coworker@),
        ensures
            final(self)@ == recorded(old(self)@, coworker@, now),
    {
        let at = self.find(coworker);
        proof {
            use_type_invariant(&*self);
            lemma_states(self.states@);
        }
        let ghost before = self.states@;
        let mut states: Vec<CoworkerNudgeState> = Vec::new();
        std::mem::swap(&mut states, &mut self.states);
        match at {
            Some(i) => {
                let count = states[i].nudge_count + 1;
                let entry = CoworkerNudgeState {
                    coworker: coworker.to_owned(),
                    last_nudge: now,
                    nudge_count: count,
                };
                proof {
                    lemma_replaced_state(before, i as int, entry);
                }
                states.set(i, entry);
            },
            None => {
                states.push(CoworkerNudgeState::at(coworker, now));
                assert(states@.drop_last() == before);
                assert forall|a: int, b: int| 0 <= a < b < states@.len() implies (
                #[trigger] states@[a]).coworker@ != (#[trigger] states@[b]).coworker@ by {
                    assert(states@[a] == before[a]);
                    if b < before.len() {
                        assert(states@[b] == before[b]);
                    } else {
                        assert(states_map(before).contains_key(before[a].coworker@));
                    }
                }
            },
        }
        self.states = states;
    }

    /// Records a reminder to a coworker now.
    pub fn record_nudge(&mut self, coworker: &str)
        requires
            old(self).can_record(coworker@),
        ensures
            exists|now: u128| final(self)@ == #[trigger] recorded(old(self)@, coworker@, now),
    {
        let now = now_nanos();
        self.record_nudge_at(coworker, now);
        assert(self@ == recorded(old(self)@, coworker@, now));
    }

    /// The coworkers that have been reminded, each once.
    pub fn coworkers(&self) -> (r: Vec<String>)
        ensures
            texts(r@).no_duplicates(),
            forall|k: Seq<char>| #[trigger] texts(r@).contains(k) <==> self@.contains_key(k),
    {
        proof {
            use_type_invariant(self);
            lemma_states(self.states@);
        }
        let mut r: Vec<String> = Vec::new();
        let mut i: usize = 0;
        while i < self.states.len()
            invariant
                i <= self.states.len(),
                r@.len() == i,
                forall|k: int| 0 <= k < i ==> (#[trigger] r@[k])@ == self.states@[k].coworker@,
            decreases self.states.len() - i,
        {
            r.push(self.states[i].coworker.clone());
            i += 1;
        }
        proof {
            let t = texts(r@);
            assert forall|a: int, b: int| 0 <= a < t.len() && 0 <= b < t.len() && a != b implies t[a]
                != t[b] by {
                assert(t[a] == self.states@[a].coworker@);
                assert(t[b] == self.states@[b].coworker@);
                if a < b {
                    assert(self.states@[a].coworker@ != self.states@[b].coworker@);
                } else {
                    assert(self.states@[b].coworker@ != self.states@[a].coworker@);
                }
            }
            assert forall|k: Seq<char>| #[trigger] t.contains(k) <==> self@.contains_key(k) by {
                if t.contains(k) {
                    let a = choose|a: int| 0 <= a < t.len() && t[a] == k;
                    assert(self.states@[a].coworker@ == k);
                }
                if self@.contains_key(k) {
                    let a = choose|a: int|
                        0 <= a < self.states@.len() && (#[trigger] self.states@[a]).coworker@ == k;
                    assert(t[a] == r@[a]@);
                }
            }
        }
        r
    }

    pub fn len(&self) -> (r: usize)
        ensures
            r == self@.dom().len(),
    {
        proof {
            use_type_invariant(self);
            lemma_states(self.states@);
        }
        self.states.len()
    }

    pub fn is_empty(&self) -> (r: bool)
        ensures
            r == (self@.dom().len() == 0),
    {
        proof {
            use_type_invariant(self);
            lemma_states(self.states@);
        }
        self.states.len() == 0
    }

    /// Forgets the reminders to a coworker.
    pub fn remove(&mut self, coworker: &str) -> (r: Option<CoworkerNudgeState>)
        ensures
            final(self)@ == old(self)@.remove(coworker@),
            match r {
                Some(s) => old(self)@.contains_key(coworker@) && s.coworker@ == coworker@
                    && s.state() == old(self)@[coworker@],
                None => !old(self)@.contains_key(coworker@),
            },
    {
        let at = self.find(coworker);
        proof {
            use_type_invariant(&*self);
        }
        match at {
            Some(i) => {
                proof {
                    lemma_removed_state(self.states@, i as int);
                }
                let mut states: Vec<CoworkerNudgeState> = Vec::new();
                std::mem::swap(&mut states, &mut self.states);
                let removed = states.remove(i);
                self.states = states;
                Some(removed)
            },
            None => {
                assert(self@ =~= self@.remove(coworker@));
                None
            },
        }
    }

    /// Forgets all reminders.
    pub fn clear(&mut self)
        ensures
            final(self)@ == Map::<Seq<char>, StateView>::empty(),
    {
        self.states = Vec::new();
    }
}

impl Default for NudgeTracker {
    fn default() -> (r: NudgeTracker)
        ensures
            r@ == Map::<Seq<char>, StateView>::empty(),
    {
        NudgeTracker::new()
    }
}

/// The time between two points is what lies between them, and none where the clock went back.
pub proof fn time_does_not_run_backwards(earlier: u128, later: u128)
    ensures
        earlier <= later ==> time_between(earlier, later) == later - earlier,
        earlier > later ==> time_between(earlier, later) == 0,
{
}

/// A reminder counts one more, tells its time, and leaves the reminders to everyone else alone.
pub proof fn reminders_are_counted(
    states: Map<Seq<char>, StateView>,
    coworker: Seq<char>,
    now: u128,
    other: Seq<char>,
)
    requires
        states.contains_key(coworker) ==> states[coworker].nudge_count < u64::MAX,
    ensures
        recorded(states, coworker, now).contains_key(coworker),
        recorded(states, coworker, now)[coworker].last_nudge == now,
        states.contains_key(coworker) ==> recorded(states, coworker, now)[coworker].nudge_count
            == states[coworker].nudge_count + 1,
        !states.contains_key(coworker) ==> recorded(states, coworker, now)[coworker].nudge_count
            == 1,
        other != coworker ==> (recorded(states, coworker, now).contains_key(other)
            <==> states.contains_key(other)),
        other != coworker && states.contains_key(other) ==> recorded(states, coworker, now)[other]
            == states[other],
{
}

/// What is known of a coworker is what the last entry of that name holds.
pub proof fn entries_tell_when_and_how_often(
    s: Seq<CoworkerNudgeState>,
    e: CoworkerNudgeState,
    other: Seq<char>,
)
    ensures
        e.state().last_nudge == e.last_nudge,
        e.state().nudge_count == e.nudge_count,
        states_map(Seq::<CoworkerNudgeState>::empty()) == Map::<Seq<char>, StateView>::empty(),
        states_map(s.push(e)).contains_key(e.coworker@),
        states_map(s.push(e))[e.coworker@] == e.state(),
        other != e.coworker@ ==> (states_map(s.push(e)).contains_key(other) <==> states_map(
            s,
        ).contains_key(other)),
        other != e.coworker@ && states_map(s).contains_key(other) ==> states_map(s.push(e))[other]
            == states_map(s)[other],
{
    assert(s.push(e).drop_last() =~= s);
}

} // verus!
