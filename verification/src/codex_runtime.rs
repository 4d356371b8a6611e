//! The Codex app server that all Codex sessions share: which session a message is for, and
//! what the server writes to its error output.

use std::collections::{HashMap, VecDeque};

use vstd::prelude::*;

use crate::codex::{codex_thread_id, thread_in};
use crate::json::{Json, JsonView};
use crate::selection::{choosing_goes_item_by_item, chosen, nothing_is_chosen_from_nothing};
use crate::text::{list_has, same, texts, trim, trimmed};
use crate::text_map::{without_value, TextMap};

verus! {

/// The most lines of error output that are kept.
pub const STDERR_LINES: usize = 500;

/// Requests that wait for their answer, each with the session that sent it.
pub struct RequestMap {
    entries: HashMap<u64, String>,
}

/// The map without the requests of `token`.
pub open spec fn without_token(m: Map<u64, Seq<char>>, token: Seq<char>) -> Map<u64, Seq<char>> {
    Map::new(|k: u64| m.contains_key(k) && m[k] != token, |k: u64| m[k])
}

impl View for RequestMap {
    type V = Map<u64, Seq<char>>;

    closed spec fn view(&self) -> Map<u64, Seq<char>> {
        Map::new(|k: u64| self.entries@.contains_key(k), |k: u64| self.entries@[k]@)
    }
}

impl RequestMap {
    pub fn new() -> (r: RequestMap)
        ensures
            r@ == Map::<u64, Seq<char>>::empty(),
    {
        let r = RequestMap { entries: HashMap::new() };
        assert(r@ =~= Map::<u64, Seq<char>>::empty());
        r
    }

    /// The session that sent request `id`.
    pub fn get(&self, id: u64) -> (r: Option<&String>)
        ensures
            match r {
                Some(token) => self@.contains_key(id) && self@[id] == token@,
                None => !self@.contains_key(id),
            },
    {
        self.entries.get(&id)
    }

    /// Forgets request `id`.
    pub fn remove(&mut self, id: u64)
        ensures
            final(self)@ == old(self)@.remove(id),
    {
        self.entries.remove(&id);
        assert(self@ =~= old(self)@.remove(id));
    }

    /// Records that the session `token` sent request `id`.
    pub fn insert(&mut self, id: u64, token: &str)
        ensures
            final(self)@ == old(self)@.insert(id, token@),
    {
        self.entries.insert(id, token.to_owned());
        assert(self@ =~= old(self)@.insert(id, token@));
    }

    /// The requests of the session `token`.
    fn requests_of(&self, token: &str) -> (r: Vec<u64>)
        ensures
            forall|k: u64| #[trigger]
                r@.contains(k) <==> self@.contains_key(k) && self@[k] == token@,
    {
        let mut found: Vec<u64> = Vec::new();
        for id in it: self.entries.keys()
            invariant
                it.seq().unref().to_set() == self.entries@.dom(),
                forall|k: u64| #[trigger]
                    found@.contains(k) <==> it.seq().unref().take(it.index()).contains(k)
                        && self.entries@[k]@ == token@,
                it.index() == it.seq().len() ==> it.seq().unref().take(it.index())
                    =~= it.seq().unref(),
        {
            let ghost keys = it.seq().unref();
            let ghost seen = keys.take(it.index());
            let ghost before = found@;
            proof {
                assert(keys[it.index()] == *id);
                assert(keys.to_set().contains(*id));
                assert(keys.take(it.index() + 1) =~= seen.push(*id));
            }
            if let Some(sender) = self.entries.get(id) {
                if same(sender.as_str(), token) {
                    found.push(*id);
                }
            }
            proof {
                assert forall|k: u64| #[trigger]
                    found@.contains(k) <==> seen.push(*id).contains(k) && self.entries@[k]@
                        == token@ by {
                    lemma_pushed(before, *id, k);
                    lemma_pushed(seen, *id, k);
                }
            }
        }
        found
    }

    /// Forgets the requests of the session `token`.
    pub fn remove_token(&mut self, token: &str)
        ensures
            final(self)@ == without_token(old(self)@, token@),
    {
        let ids = self.requests_of(token);
        let mut i: usize = 0;
        while i < ids.len()
            invariant
                i <= ids.len(),
                forall|k: u64| #[trigger]
                    ids@.contains(k) <==> old(self)@.contains_key(k) && old(self)@[k] == token@,
                forall|k: u64| #[trigger]
                    self@.contains_key(k) <==> old(self)@.contains_key(k) && !ids@.take(
                        i as int,
                    ).contains(k),
                forall|k: u64| #[trigger] self@.contains_key(k) ==> self@[k] == old(self)@[k],
            decreases ids.len() - i,
        {
            assert(ids@.take(i + 1) =~= ids@.take(i as int).push(ids@[i as int]));
            assert forall|k: u64| #[trigger]
                ids@.take(i + 1).contains(k) <==> ids@.take(i as int).contains(k) || k
                    == ids@[i as int] by {
                lemma_pushed(ids@.take(i as int), ids@[i as int], k);
            }
            self.remove(ids[i]);
            i += 1;
        }
        assert(ids@.take(i as int) =~= ids@);
        assert(self@ =~= without_token(old(self)@, token@));
    }
}

proof fn lemma_pushed(s: Seq<u64>, last: u64, k: u64)
    ensures
        s.push(last).contains(k) <==> s.contains(k) || k == last,
{
    let t = s.push(last);
    assert(t[s.len() as int] == last);
    if s.contains(k) {
        let i = choose|i: int| 0 <= i < s.len() && s[i] == k;
        assert(t[i] == k);
    }
}

/// Who the messages of the shared server are for, and what it wrote to its error output.
pub struct CodexRouter {
    /// The sessions that can still be reached.
    pub sessions: Vec<String>,
    pub active_sessions: usize,
    pub next_request_id: u64,
    pub requests: RequestMap,
    /// The session on each thread.
    pub threads: TextMap,
    /// The session that asked for each old thread and has not got it yet.
    pub resumes: TextMap,
    pub stderr_lines: VecDeque<(u64, String)>,
    pub next_stderr_seq: u64,
}

/// What a router says.
#[verifier::ext_equal]
pub struct RouterView {
    pub sessions: Set<Seq<char>>,
    pub active_sessions: usize,
    pub next_request_id: u64,
    pub requests: Map<u64, Seq<char>>,
    pub threads: Map<Seq<char>, Seq<char>>,
    pub resumes: Map<Seq<char>, Seq<char>>,
    pub stderr_lines: Seq<(u64, Seq<char>)>,
    pub next_stderr_seq: u64,
}

/// The lines of error output, each with its number.
pub open spec fn numbered(s: Seq<(u64, String)>) -> Seq<(u64, Seq<char>)> {
    s.map_values(|e: (u64, String)| (e.0, e.1@))
}

impl View for CodexRouter {
    type V = RouterView;

    open spec fn view(&self) -> RouterView {
        RouterView {
            sessions: texts(self.sessions@).to_set(),
            active_sessions: self.active_sessions,
            next_request_id: self.next_request_id,
            requests: self.requests@,
            threads: self.threads@,
            resumes: self.resumes@,
            stderr_lines: numbered(self.stderr_lines@),
            next_stderr_seq: self.next_stderr_seq,
        }
    }
}

impl RouterView {
    /// The kept lines have rising numbers, all below the next one.
    pub open spec fn lines_in_order(self) -> bool {
        &&& self.stderr_lines.len() <= STDERR_LINES
        &&& forall|i: int, j: int|
            0 <= i < j < self.stderr_lines.len() ==> (#[trigger] self.stderr_lines[i]).0 < (
            #[trigger] self.stderr_lines[j]).0
        &&& forall|i: int|
            0 <= i < self.stderr_lines.len() ==> (#[trigger] self.stderr_lines[i]).0
                < self.next_stderr_seq
    }
}

/// The router after a session has been added, with the old thread that it asks for.
pub open spec fn registered(r: RouterView, token: Seq<char>, resume: Option<Seq<char>>) -> RouterView {
    RouterView {
        sessions: r.sessions.insert(token),
        active_sessions: if r.active_sessions == usize::MAX {
            0
        } else {
            (r.active_sessions + 1) as usize
        },
        resumes: match resume {
            Some(thread) => r.resumes.insert(thread, token),
            None => r.resumes,
        },
        ..r
    }
}

/// The router after a session has been removed: nothing leads to it any more.
pub open spec fn unregistered(r: RouterView, token: Seq<char>) -> RouterView {
    RouterView {
        sessions: r.sessions.remove(token),
        active_sessions: if r.active_sessions == 0 {
            usize::MAX
        } else {
            (r.active_sessions - 1) as usize
        },
        requests: without_token(r.requests, token),
        threads: without_value(r.threads, token),
        resumes: without_value(r.resumes, token),
        ..r
    }
}

/// The session that a thread leads to: the one on it, or else the one that asked for it.
pub open spec fn session_of_thread(r: RouterView, thread: Seq<char>) -> Option<Seq<char>> {
    if r.threads.contains_key(thread) {
        Some(r.threads[thread])
    } else if r.resumes.contains_key(thread) {
        Some(r.resumes[thread])
    } else {
        None
    }
}

/// The number of the request that a message answers.
pub open spec fn answered(parsed: JsonView) -> Option<u64> {
    match parsed.field("id"@) {
        Some(j) => j.uint(),
        None => None,
    }
}

/// The session that a message is for, whether or not it can still be reached.
pub open spec fn addressee(r: RouterView, parsed: JsonView) -> Option<Seq<char>> {
    match answered(parsed) {
        Some(id) => if r.requests.contains_key(id) {
            Some(r.requests[id])
        } else {
            None
        },
        None => match thread_in(parsed) {
            Some(thread) => session_of_thread(r, thread),
            None => None,
        },
    }
}

/// The router after a message: an answer uses its request up, and puts the session that sent
/// it on the thread that the answer names.
pub open spec fn after_message(r: RouterView, parsed: JsonView) -> RouterView {
    match answered(parsed) {
        Some(id) => {
            let used = RouterView { requests: r.requests.remove(id), ..r };
            match thread_in(parsed) {
                Some(thread) => if r.requests.contains_key(id) {
                    RouterView {
                        threads: r.threads.insert(thread, r.requests[id]),
                        resumes: without_value(r.resumes, r.requests[id]),
                        ..used
                    }
                } else {
                    used
                },
                None => used,
            }
        },
        None => r,
    }
}

/// The last lines, as many as are kept.
pub open spec fn newest(lines: Seq<(u64, Seq<char>)>) -> Seq<(u64, Seq<char>)> {
    if lines.len() > STDERR_LINES {
        lines.skip(lines.len() - STDERR_LINES)
    } else {
        lines
    }
}

/// The router after a line of error output; a blank line is dropped.
pub open spec fn after_stderr(r: RouterView, line: Seq<char>) -> RouterView {
    if trim(line).len() == 0 {
        r
    } else {
        RouterView {
            stderr_lines: newest(r.stderr_lines.push((r.next_stderr_seq, trim(line)))),
            next_stderr_seq: (r.next_stderr_seq + 1) as u64,
            ..r
        }
    }
}

/// The lines from number `start` on.
pub open spec fn lines_from(lines: Seq<(u64, Seq<char>)>, start: u64) -> Seq<Seq<char>>
    decreases lines.len(),
{
    if lines.len() == 0 {
        Seq::empty()
    } else if lines.last().0 >= start {
        lines_from(lines.drop_last(), start).push(lines.last().1)
    } else {
        lines_from(lines.drop_last(), start)
    }
}

/// The number behind the last line from number `start` on, or `start` where there is none.
pub open spec fn cursor_after(lines: Seq<(u64, Seq<char>)>, start: u64) -> int
    decreases lines.len(),
{
    if lines.len() == 0 {
        start as int
    } else if lines.last().0 >= start {
        lines.last().0 + 1
    } else {
        cursor_after(lines.drop_last(), start)
    }
}

impl CodexRouter {
    pub fn new() -> (r: CodexRouter)
        ensures
            r@ == (RouterView {
                sessions: Set::empty(),
                active_sessions: 0,
                next_request_id: 1,
                requests: Map::empty(),
                threads: Map::empty(),
                resumes: Map::empty(),
                stderr_lines: Seq::empty(),
                next_stderr_seq: 0,
            }),
            r@.lines_in_order(),
    {
        let sessions: Vec<String> = Vec::new();
        let stderr_lines: VecDeque<(u64, String)> = VecDeque::new();
        assert(texts(sessions@).to_set() =~= Set::<Seq<char>>::empty());
        assert(numbered(stderr_lines@) =~= Seq::<(u64, Seq<char>)>::empty());
        CodexRouter {
            sessions,
            active_sessions: 0,
            next_request_id: 1,
            requests: RequestMap::new(),
            threads: TextMap::new(),
            resumes: TextMap::new(),
            stderr_lines,
            next_stderr_seq: 0,
        }
    }

    /// Adds the session `token`, with the old thread that it asks for. Gives the number from
    /// which on lines of error output are new to it.
    pub fn register_session(&mut self, token: &str, resume_thread_id: Option<&str>) -> (cursor: u64)
        ensures
            final(self)@ == registered(
                old(self)@,
                token@,
                crate::text::opt_str(resume_thread_id),
            ),
            cursor == old(self)@.next_stderr_seq,
    {
        let ghost before = texts(self.sessions@);
        self.sessions.push(token.to_owned());
        proof {
            assert(texts(self.sessions@) =~= before.push(token@));
            let grown = before.push(token@);
            assert forall|t: Seq<char>|
                grown.to_set().contains(t) <==> before.to_set().insert(token@).contains(t) by {
                if before.contains(t) {
                    let i = choose|i: int| 0 <= i < before.len() && before[i] == t;
                    assert(grown[i] == t);
                }
                if grown.contains(t) {
                    let i = choose|i: int| 0 <= i < grown.len() && grown[i] == t;
                    if i < before.len() {
                        assert(before[i] == t);
                    }
                }
                assert(grown[before.len() as int] == token@);
            }
            assert(grown.to_set() =~= before.to_set().insert(token@));
        }
        if let Some(thread) = resume_thread_id {
            self.resumes.insert(thread, token);
        }
        self.active_sessions = if self.active_sessions == usize::MAX {
            0
        } else {
            self.active_sessions + 1
        };
        self.next_stderr_seq
    }

    /// Removes the session `token`.
    pub fn unregister_session(&mut self, token: &str)
        ensures
            final(self)@ == unregistered(old(self)@, token@),
    {
        self.active_sessions = if self.active_sessions == 0 {
            usize::MAX
        } else {
            self.active_sessions - 1
        };
        self.sessions = without_text(&self.sessions, token);
        self.requests.remove_token(token);
        self.threads.remove_value(token);
        self.resumes.remove_value(token);
    }

    /// Records that no session can be reached any more.
    pub fn close(&mut self)
        ensures
            final(self)@ == (RouterView { sessions: Set::empty(), ..old(self)@ }),
    {
        self.sessions = Vec::new();
        assert(texts(self.sessions@).to_set() =~= Set::<Seq<char>>::empty());
    }

    /// The number of a new request, recorded as sent by the session `token`.
    pub fn open_request(&mut self, token: &str) -> (id: u64)
        ensures
            id == old(self)@.next_request_id,
            final(self)@ == (RouterView {
                next_request_id: if id == u64::MAX {
                    0
                } else {
                    (id + 1) as u64
                },
                requests: old(self)@.requests.insert(id, token@),
                ..old(self)@
            }),
    {
        let id = self.next_request_id;
        self.next_request_id = if id == u64::MAX {
            0
        } else {
            id + 1
        };
        self.requests.insert(id, token);
        id
    }

    /// Forgets a request that could not be sent.
    pub fn clear_request(&mut self, id: u64)
        ensures
            final(self)@ == (RouterView { requests: old(self)@.requests.remove(id), ..old(self)@ }),
    {
        self.requests.remove(id);
    }

    /// The session that a thread leads to.
    pub fn route_token_for_thread(&self, thread: &str) -> (r: Option<String>)
        ensures
            crate::text::opt(r) == session_of_thread(self@, thread@),
    {
        match self.threads.get(thread) {
            Some(token) => Some(token.clone()),
            None => match self.resumes.get(thread) {
                Some(token) => Some(token.clone()),
                None => None,
            },
        }
    }

    /// Takes in a message of the server and gives the session to hand it to: the one it is
    /// for, where that can still be reached.
    pub fn dispatch_event(&mut self, parsed: &Json) -> (r: Option<String>)
        ensures
            final(self)@ == after_message(old(self)@, parsed.jv()),
            crate::text::opt(r) == (match addressee(old(self)@, parsed.jv()) {
                Some(token) => if old(self)@.sessions.contains(token) {
                    Some(token)
                } else {
                    None
                },
                None => None,
            }),
    {
        let id = match parsed.get("id") {
            Some(j) => j.as_u64(),
            None => None,
        };
        let thread = codex_thread_id(parsed);
        let token = match id {
            Some(id) => {
                let token = match self.requests.get(id) {
                    Some(token) => Some(token.clone()),
                    None => None,
                };
                self.requests.remove(id);
                if let Some(token) = &token {
                    if let Some(thread) = &thread {
                        self.threads.insert(thread.as_str(), token.as_str());
                        self.resumes.remove_value(token.as_str());
                    }
                }
                token
            },
            None => match &thread {
                Some(thread) => self.route_token_for_thread(thread.as_str()),
                None => None,
            },
        };
        match token {
            Some(token) => if list_has(&self.sessions, token.as_str()) {
                Some(token)
            } else {
                None
            },
            None => None,
        }
    }

    /// Keeps a line of error output.
    pub fn push_stderr(&mut self, line: &str)
        requires
            old(self)@.lines_in_order(),
            old(self)@.next_stderr_seq < u64::MAX,
        ensures
            final(self)@ == after_stderr(old(self)@, line@),
            final(self)@.lines_in_order(),
    {
        let body = trimmed(line);
        if body.as_str().is_empty() {
            return;
        }
        let ghost before = self@.stderr_lines;
        let ghost grown = before.push((self.next_stderr_seq, trim(line@)));
        self.stderr_lines.push_back((self.next_stderr_seq, body));
        self.next_stderr_seq = self.next_stderr_seq + 1;
        assert(numbered(self.stderr_lines@) =~= grown);
        if self.stderr_lines.len() > STDERR_LINES {
            let dropped = self.stderr_lines.pop_front();
            assert(numbered(self.stderr_lines@) =~= grown.skip(1));
        }
        proof {
            let after = self@.stderr_lines;
            assert(after == newest(grown));
            let d = grown.len() - after.len();
            assert forall|i: int, j: int| 0 <= i < j < after.len() implies (#[trigger] after[i]).0
                < (#[trigger] after[j]).0 by {
                assert(after[i] == grown[i + d] && after[j] == grown[j + d]);
                if j + d < before.len() {
                    assert(grown[i + d] == before[i + d] && grown[j + d] == before[j + d]);
                } else {
                    assert(grown[i + d] == before[i + d]);
                }
            }
            assert forall|i: int| 0 <= i < after.len() implies (#[trigger] after[i]).0
                < self.next_stderr_seq by {
                assert(after[i] == grown[i + d]);
                if i + d < before.len() {
                    assert(grown[i + d] == before[i + d]);
                }
            }
        }
    }

    /// The lines of error output from number `start` on, and the number behind the last.
    pub fn drain_stderr(&self, start: u64) -> (r: (u64, Vec<String>))
        requires
            self@.lines_in_order(),
        ensures
            texts(r.1@) == lines_from(self@.stderr_lines, start),
            r.0 == cursor_after(self@.stderr_lines, start),
    {
        let mut end: u64 = start;
        let mut out: Vec<String> = Vec::new();
        let ghost all = self@.stderr_lines;
        let mut i: usize = 0;
        assert(texts(out@) =~= lines_from(all.take(0), start));
        while i < self.stderr_lines.len()
            invariant
                i <= self.stderr_lines@.len(),
                self@.lines_in_order(),
                all == self@.stderr_lines,
                texts(out@) == lines_from(all.take(i as int), start),
                end == cursor_after(all.take(i as int), start),
            decreases self.stderr_lines@.len() - i,
        {
            let entry = &self.stderr_lines[i];
            proof {
                assert(all.take(i + 1).drop_last() == all.take(i as int));
                assert(all.take(i + 1).last() == (entry.0, entry.1@));
                assert(all[i as int].0 < self.next_stderr_seq);
            }
            if entry.0 >= start {
                let ghost old_out = texts(out@);
                out.push(entry.1.clone());
                assert(texts(out@) =~= old_out.push(entry.1@));
                end = entry.0 + 1;
            }
            i += 1;
        }
        assert(all.take(i as int) == all);
        (end, out)
    }
}

fn without_text(v: &Vec<String>, gone: &str) -> (r: Vec<String>)
    ensures
        texts(r@).to_set() == texts(v@).to_set().remove(gone@),
{
    let mut r: Vec<String> = Vec::new();
    let mut i: usize = 0;
    while i < v.len()
        invariant
            i <= v.len(),
            forall|t: Seq<char>|
                texts(r@).contains(t) <==> t != gone@ && exists|k: int|
                    0 <= k < i && (#[trigger] v@[k])@ == t,
        decreases v.len() - i,
    {
        let ghost before = texts(r@);
        if !same(v[i].as_str(), gone) {
            r.push(v[i].clone());
            assert(texts(r@) =~= before.push(v@[i as int]@));
            assert forall|t: Seq<char>|
                texts(r@).contains(t) <==> t != gone@ && exists|k: int|
                    0 <= k < i + 1 && (#[trigger] v@[k])@ == t by {
                if texts(r@).contains(t) {
                    let n = choose|n: int| 0 <= n < texts(r@).len() && texts(r@)[n] == t;
                    if n < before.len() {
                        assert(before[n] == t);
                        assert(before.contains(t));
                        let k = choose|k: int| 0 <= k < i && (#[trigger] v@[k])@ == t;
                        assert(v@[k]@ == t);
                    } else {
                        assert(v@[i as int]@ == t);
                    }
                }
                if t != gone@ && exists|k: int| 0 <= k < i + 1 && (#[trigger] v@[k])@ == t {
                    let k = choose|k: int| 0 <= k < i + 1 && (#[trigger] v@[k])@ == t;
                    if k < i {
                        assert(before.contains(t));
                        let n = choose|n: int| 0 <= n < before.len() && before[n] == t;
                        assert(texts(r@)[n] == t);
                    } else {
                        assert(texts(r@)[before.len() as int] == t);
                    }
                }
            }
        } else {
            assert forall|t: Seq<char>|
                texts(r@).contains(t) <==> t != gone@ && exists|k: int|
                    0 <= k < i + 1 && (#[trigger] v@[k])@ == t by {
                if t != gone@ && exists|k: int| 0 <= k < i + 1 && (#[trigger] v@[k])@ == t {
                    let k = choose|k: int| 0 <= k < i + 1 && (#[trigger] v@[k])@ == t;
                    assert(k < i);
                }
                if texts(r@).contains(t) {
                    let k = choose|k: int| 0 <= k < i && (#[trigger] v@[k])@ == t;
                    assert(v@[k]@ == t);
                }
            }
        }
        i += 1;
    }
    assert forall|t: Seq<char>|
        texts(r@).to_set().contains(t) <==> texts(v@).to_set().remove(gone@).contains(t) by {
        if texts(v@).contains(t) {
            let k = choose|k: int| 0 <= k < texts(v@).len() && texts(v@)[k] == t;
            assert(v@[k]@ == t);
        }
        if texts(r@).contains(t) {
            let k = choose|k: int| 0 <= k < v@.len() && (#[trigger] v@[k])@ == t;
            assert(texts(v@)[k] == t);
        }
    }
    assert(texts(r@).to_set() =~= texts(v@).to_set().remove(gone@));
    r
}

/// The answer to a request goes to the session that sent it, whatever else it says.
pub proof fn answers_go_to_the_asker(r: RouterView, token: Seq<char>, parsed: JsonView)
    requires
        answered(parsed) == Some(r.next_request_id),
    ensures
        ({
            let asked = RouterView { requests: r.requests.insert(r.next_request_id, token), ..r };
            addressee(asked, parsed) == Some(token)
        }),
{
}

/// Once a session has been told its thread, notifications on that thread go to it.
pub proof fn threads_lead_to_their_session(
    r: RouterView,
    answer: JsonView,
    notice: JsonView,
    id: u64,
    thread: Seq<char>,
)
    requires
        answered(answer) == Some(id),
        r.requests.contains_key(id),
        thread_in(answer) == Some(thread),
        answered(notice) is None,
        thread_in(notice) == Some(thread),
    ensures
        addressee(after_message(r, answer), notice) == Some(r.requests[id]),
{
}

/// Nothing leads to a session that has been removed.
pub proof fn removed_sessions_get_nothing(r: RouterView, token: Seq<char>, parsed: JsonView)
    ensures
        addressee(unregistered(r, token), parsed) != Some(token),
        !unregistered(r, token).sessions.contains(token),
{
}

proof fn lemma_none_from(lines: Seq<(u64, Seq<char>)>, start: int, from: u64)
    requires
        forall|i: int| 0 <= i < lines.len() ==> (#[trigger] lines[i]).0 < start,
        start <= from,
    ensures
        lines_from(lines, from).len() == 0,
    decreases lines.len(),
{
    if lines.len() > 0 {
        assert(lines[lines.len() - 1].0 < start);
        assert forall|i: int| 0 <= i < lines.drop_last().len() implies (#[trigger] lines.drop_last()[i]).0
            < start by {
            assert(lines[i].0 < start);
        }
        lemma_none_from(lines.drop_last(), start, from);
    }
}

proof fn lemma_cursor_bound(lines: Seq<(u64, Seq<char>)>, start: u64)
    requires
        forall|i: int, j: int|
            0 <= i < j < lines.len() ==> (#[trigger] lines[i]).0 < (#[trigger] lines[j]).0,
    ensures
        cursor_after(lines, start) >= start,
        forall|i: int|
            0 <= i < lines.len() ==> (#[trigger] lines[i]).0 < cursor_after(lines, start),
    decreases lines.len(),
{
    if lines.len() > 0 {
        let init = lines.drop_last();
        assert forall|i: int, j: int| 0 <= i < j < init.len() implies (#[trigger] init[i]).0 < (
        #[trigger] init[j]).0 by {
            assert(lines[i].0 < lines[j].0);
        }
        lemma_cursor_bound(init, start);
        assert forall|i: int| 0 <= i < lines.len() implies (#[trigger] lines[i]).0 < cursor_after(
            lines,
            start,
        ) by {
            if i < init.len() {
                assert(init[i] == lines[i]);
                assert(lines[i].0 < lines[lines.len() - 1].0);
            }
        }
    }
}

/// What has been drained is not drained again: from the number that a drain gives, no kept
/// line is left.
pub proof fn drained_lines_do_not_come_again(r: RouterView, start: u64, next: u64)
    requires
        r.lines_in_order(),
        next == cursor_after(r.stderr_lines, start),
    ensures
        lines_from(r.stderr_lines, next).len() == 0,
{
    lemma_cursor_bound(r.stderr_lines, start);
    lemma_none_from(r.stderr_lines, next as int, next);
}

/// A session that has just been added sees none of the lines that came before it.
pub proof fn new_sessions_see_no_old_lines(r: RouterView)
    requires
        r.lines_in_order(),
    ensures
        lines_from(r.stderr_lines, r.next_stderr_seq).len() == 0,
{
    lemma_none_from(r.stderr_lines, r.next_stderr_seq as int, r.next_stderr_seq);
}

/// A session that is added can be reached, beside all others, and an old thread that it asks
/// for leads to it unless another is on that thread. Nothing else changes.
pub proof fn added_sessions_can_be_reached(
    r: RouterView,
    token: Seq<char>,
    resume: Option<Seq<char>>,
    other: Seq<char>,
)
    ensures
        ({
            let after = registered(r, token, resume);
            &&& after.sessions.contains(token)
            &&& other != token ==> (after.sessions.contains(other) <==> r.sessions.contains(other))
            &&& r.active_sessions < usize::MAX ==> after.active_sessions == r.active_sessions + 1
            &&& r.active_sessions == usize::MAX ==> after.active_sessions == 0
            &&& resume matches Some(thread) ==> after.resumes.contains_key(thread)
                && after.resumes[thread] == token
            &&& resume != Some(other) ==> (after.resumes.contains_key(other)
                <==> r.resumes.contains_key(other))
            &&& resume != Some(other) && r.resumes.contains_key(other) ==> after.resumes[other]
                == r.resumes[other]
            &&& after.requests == r.requests
            &&& after.threads == r.threads
            &&& after.next_request_id == r.next_request_id
            &&& after.stderr_lines == r.stderr_lines
            &&& after.next_stderr_seq == r.next_stderr_seq
        }),
{
}

/// A session that is removed takes everything with it that leads to it, and nothing that leads
/// to another.
pub proof fn removed_sessions_leave_the_others(
    r: RouterView,
    token: Seq<char>,
    other: Seq<char>,
    id: u64,
    thread: Seq<char>,
)
    ensures
        ({
            let after = unregistered(r, token);
            &&& !after.sessions.contains(token)
            &&& other != token ==> (after.sessions.contains(other) <==> r.sessions.contains(other))
            &&& r.active_sessions > 0 ==> after.active_sessions == r.active_sessions - 1
            &&& r.active_sessions == 0 ==> after.active_sessions == usize::MAX
            &&& after.requests.contains_key(id) <==> r.requests.contains_key(id) && r.requests[id]
                != token
            &&& after.requests.contains_key(id) ==> after.requests[id] == r.requests[id]
            &&& after.threads.contains_key(thread) <==> r.threads.contains_key(thread)
                && r.threads[thread] != token
            &&& after.threads.contains_key(thread) ==> after.threads[thread] == r.threads[thread]
            &&& after.resumes.contains_key(thread) <==> r.resumes.contains_key(thread)
                && r.resumes[thread] != token
            &&& after.resumes.contains_key(thread) ==> after.resumes[thread] == r.resumes[thread]
            &&& after.next_request_id == r.next_request_id
            &&& after.stderr_lines == r.stderr_lines
            &&& after.next_stderr_seq == r.next_stderr_seq
        }),
{
}

/// A thread leads to the session on it, and only where nobody is on it to the one that asked
/// for it.
pub proof fn who_is_on_a_thread_comes_before_who_asked_for_it(r: RouterView, thread: Seq<char>)
    ensures
        r.threads.contains_key(thread) ==> session_of_thread(r, thread) == Some(r.threads[thread]),
        !r.threads.contains_key(thread) && r.resumes.contains_key(thread) ==> session_of_thread(
            r,
            thread,
        ) == Some(r.resumes[thread]),
        !r.threads.contains_key(thread) && !r.resumes.contains_key(thread) ==> session_of_thread(
            r,
            thread,
        ) is None,
{
}

/// A message with a number is for whoever sent the request of that number, and for nobody where
/// none waits. One without is for the session of its thread.
pub proof fn messages_are_for_the_asker_or_the_thread(r: RouterView, parsed: JsonView, id: u64)
    ensures
        answered(parsed) == Some(id) <==> (parsed.field("id"@) matches Some(j) && j.uint() == Some(
            id,
        )),
        answered(parsed) == Some(id) && r.requests.contains_key(id) ==> addressee(r, parsed) == Some(
            r.requests[id],
        ),
        answered(parsed) == Some(id) && !r.requests.contains_key(id) ==> addressee(r, parsed) is None,
        answered(parsed) is None ==> (thread_in(parsed) matches Some(thread) ==> addressee(r, parsed)
            == session_of_thread(r, thread)),
        answered(parsed) is None && thread_in(parsed) is None ==> addressee(r, parsed) is None,
{
}

/// An answer uses its request up and no other, and puts who sent it on the thread that it
/// names. A message without a number changes nothing.
pub proof fn answers_use_up_their_request(
    r: RouterView,
    parsed: JsonView,
    id: u64,
    other: u64,
    thread: Seq<char>,
    elsewhere: Seq<char>,
)
    ensures
        answered(parsed) is None ==> after_message(r, parsed) == r,
        answered(parsed) == Some(id) ==> {
            let after = after_message(r, parsed);
            &&& !after.requests.contains_key(id)
            &&& other != id ==> (after.requests.contains_key(other) <==> r.requests.contains_key(
                other,
            ))
            &&& other != id && r.requests.contains_key(other) ==> after.requests[other]
                == r.requests[other]
            &&& thread_in(parsed) == Some(thread) && r.requests.contains_key(id)
                ==> after.threads.contains_key(thread) && after.threads[thread] == r.requests[id]
            &&& thread_in(parsed) != Some(elsewhere) ==> (after.threads.contains_key(elsewhere)
                <==> r.threads.contains_key(elsewhere))
            &&& thread_in(parsed) != Some(elsewhere) && r.threads.contains_key(elsewhere)
                ==> after.threads[elsewhere] == r.threads[elsewhere]
            &&& !r.requests.contains_key(id) || thread_in(parsed) is None ==> after.threads
                == r.threads && after.resumes == r.resumes
            &&& r.requests.contains_key(id) && thread_in(parsed) is Some ==> (
            after.resumes.contains_key(elsewhere) <==> r.resumes.contains_key(elsewhere)
                && r.resumes[elsewhere] != r.requests[id])
            &&& after.sessions == r.sessions
            &&& after.active_sessions == r.active_sessions
            &&& after.next_request_id == r.next_request_id
            &&& after.stderr_lines == r.stderr_lines
        },
{
}

/// Five hundred lines are kept: the newest. Where there are no more than that, all are.
pub proof fn the_newest_five_hundred_lines_are_kept(lines: Seq<(u64, Seq<char>)>)
    ensures
        newest(lines).len() == (if lines.len() <= 500 {
            lines.len()
        } else {
            500
        }),
        forall|i: int|
            0 <= i < newest(lines).len() ==> #[trigger] newest(lines)[i] == lines[i + lines.len()
                - newest(lines).len()],
{
}

/// A line of error output is kept behind the others, without the white space around it and
/// under the next number; a blank one is not kept and takes no number.
pub proof fn error_output_is_kept_under_rising_numbers(r: RouterView, line: Seq<char>)
    requires
        r.next_stderr_seq < u64::MAX,
    ensures
        trim(line).len() == 0 ==> after_stderr(r, line) == r,
        trim(line).len() > 0 ==> {
            let after = after_stderr(r, line);
            &&& after.stderr_lines.len() > 0
            &&& after.stderr_lines.last() == (r.next_stderr_seq, trim(line))
            &&& after.next_stderr_seq == r.next_stderr_seq + 1
            &&& r.stderr_lines.len() < 500 ==> after.stderr_lines == r.stderr_lines.push(
                (r.next_stderr_seq, trim(line)),
            )
            &&& r.stderr_lines.len() == 500 ==> after.stderr_lines == r.stderr_lines.skip(1).push(
                (r.next_stderr_seq, trim(line)),
            )
            &&& after.sessions == r.sessions
            &&& after.requests == r.requests
            &&& after.threads == r.threads
            &&& after.resumes == r.resumes
        },
{
    if trim(line).len() > 0 {
        let grown = r.stderr_lines.push((r.next_stderr_seq, trim(line)));
        the_newest_five_hundred_lines_are_kept(grown);
        let after = after_stderr(r, line).stderr_lines;
        if r.stderr_lines.len() == 500 {
            assert(after =~= r.stderr_lines.skip(1).push((r.next_stderr_seq, trim(line))));
        }
    }
}

/// The lines from a number on are all of those that have that number or a higher one, in their
/// order.
pub proof fn lines_from_a_number_on_are_all_given(lines: Seq<(u64, Seq<char>)>, start: u64)
    ensures
        exists|picked: Seq<(u64, Seq<char>)>| #![trigger picked.len()]
            chosen(lines, |line: (u64, Seq<char>)| line.0 >= start, picked) && lines_from(
                lines,
                start,
            ) == picked.map_values(|line: (u64, Seq<char>)| line.1),
    decreases lines.len(),
{
    let wanted = |line: (u64, Seq<char>)| line.0 >= start;
    let told = |line: (u64, Seq<char>)| line.1;
    if lines.len() == 0 {
        let none = Seq::<(u64, Seq<char>)>::empty();
        nothing_is_chosen_from_nothing(wanted);
        assert(lines =~= none);
        assert(lines_from(lines, start) =~= none.map_values(told));
        assert(none.len() == 0);
    } else {
        let init = lines.drop_last();
        lines_from_a_number_on_are_all_given(init, start);
        let picked = choose|picked: Seq<(u64, Seq<char>)>| #![trigger picked.len()]
            chosen(init, wanted, picked) && lines_from(init, start) == picked.map_values(told);
        assert(lines =~= init.push(lines.last()));
        choosing_goes_item_by_item(init, lines.last(), wanted, picked);
        if lines.last().0 >= start {
            let more = picked.push(lines.last());
            assert(lines_from(lines, start) =~= more.map_values(told));
            assert(more.len() == picked.len() + 1);
        } else {
            assert(picked.len() >= 0);
        }
    }
}

/// The number behind the lines from a number on is one more than that of the last of them, or
/// that number itself where there is none.
pub proof fn the_next_number_is_behind_the_last_line(
    lines: Seq<(u64, Seq<char>)>,
    line: (u64, Seq<char>),
    start: u64,
)
    ensures
        cursor_after(Seq::<(u64, Seq<char>)>::empty(), start) == start,
        line.0 >= start ==> cursor_after(lines.push(line), start) == line.0 + 1,
        line.0 < start ==> cursor_after(lines.push(line), start) == cursor_after(lines, start),
{
    assert(lines.push(line).drop_last() =~= lines);
}

/// At most five hundred lines are kept, under rising numbers, all of them below the next one.
pub proof fn kept_lines_have_rising_numbers(r: RouterView)
    ensures
        r.lines_in_order() <==> {
            &&& r.stderr_lines.len() <= 500
            &&& forall|i: int, j: int|
                0 <= i < j < r.stderr_lines.len() ==> (#[trigger] r.stderr_lines[i]).0 < (
                #[trigger] r.stderr_lines[j]).0
            &&& forall|i: int|
                0 <= i < r.stderr_lines.len() ==> (#[trigger] r.stderr_lines[i]).0
                    < r.next_stderr_seq
        },
{
}

} // verus!
