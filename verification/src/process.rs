//! What the output of other programs says, and which processes are left over.

use vstd::prelude::*;

use crate::json::Json;
use crate::json_text::{parse, parsed_text};
use crate::selection::{gathering_goes_item_by_item, gathers};
use crate::text::{
    bytes_of_char, char_bytes, chars_of, concat2, lines, lines_of, opt, parse_unsigned, slice,
    text_bytes, texts, to_decimal, decimal, trim, trimmed, unsigned_value,
};

verus! {

/// What a command wrote.
#[derive(Debug)]
pub struct CmdOutput {
    pub stdout: String,
    pub stderr: String,
}

/// What running a command came to.
pub enum CmdOutcome {
    /// It could not be run, and why.
    NotRun(String),
    Ran { success: bool, output: CmdOutput },
}

impl CmdOutcome {
    /// What a command that succeeded wrote.
    pub open spec fn written(self) -> Option<CmdOutput> {
        match self {
            CmdOutcome::Ran { success: true, output } => Some(output),
            _ => None,
        }
    }

    /// What is said of a command that failed.
    pub open spec fn complaint(self) -> Option<Seq<char>> {
        match self {
            CmdOutcome::NotRun(e) => Some(e@),
            CmdOutcome::Ran { success, output } => if success {
                None
            } else {
                Some(trim(output.stderr@))
            },
        }
    }
}

/// What a command that succeeded wrote, else nothing.
pub fn check_cmd_output(outcome: CmdOutcome) -> (r: Option<CmdOutput>)
    ensures
        r == outcome.written(),
{
    match outcome {
        CmdOutcome::Ran { success, output } => if success {
            Some(output)
        } else {
            None
        },
        CmdOutcome::NotRun(_) => None,
    }
}

/// What a command that succeeded wrote, else what is said of its failure.
pub fn check_cmd_result(outcome: CmdOutcome) -> (r: Result<CmdOutput, String>)
    ensures
        match r {
            Ok(output) => outcome.written() == Some(output),
            Err(message) => outcome.complaint() == Some(message@),
        },
{
    match outcome {
        CmdOutcome::Ran { success, output } => if success {
            Ok(output)
        } else {
            Err(trimmed(output.stderr.as_str()))
        },
        CmdOutcome::NotRun(e) => Err(e),
    }
}

/// What a command that succeeded printed, without the white space around it, where something
/// is left.
pub fn cmd_stdout(outcome: CmdOutcome) -> (r: Option<String>)
    ensures
        opt(r) == match outcome.written() {
            Some(output) => if trim(output.stdout@).len() > 0 {
                Some(trim(output.stdout@))
            } else {
                None
            },
            None => None,
        },
{
    match check_cmd_output(outcome) {
        Some(output) => {
            let s = trimmed(output.stdout.as_str());
            if s.as_str().is_empty() {
                None
            } else {
                Some(s)
            }
        },
        None => None,
    }
}

/// The value that a command printed.
pub fn parse_json_warn(stdout: &str) -> (r: Option<Json>)
    ensures
        match r {
            Some(j) => parsed_text(trim(stdout@)) == Some(j.jv()),
            None => parsed_text(trim(stdout@)) is None,
        },
{
    parse(trimmed(stdout).as_str())
}

/// The longest start of a text that takes no more than some bytes.
pub open spec fn within_bytes(s: Seq<char>, max: nat) -> Seq<char>
    decreases s.len(),
{
    if s.len() == 0 || text_bytes(s) <= max {
        s
    } else {
        within_bytes(s.drop_last(), max)
    }
}

/// The bytes of output that are shown of what could not be read.
pub const PREVIEW_BYTES: usize = 200;

/// What is shown of output that could not be read.
pub open spec fn preview(raw: Seq<char>) -> Seq<char> {
    if text_bytes(raw) > PREVIEW_BYTES {
        trim(within_bytes(raw, PREVIEW_BYTES as nat) + "..."@)
    } else {
        trim(raw)
    }
}

proof fn lemma_bytes_grow(s: Seq<char>, i: int)
    requires
        0 <= i <= s.len(),
    ensures
        text_bytes(s.take(i)) <= text_bytes(s),
    decreases s.len(),
{
    if i == s.len() {
        assert(s.take(i) =~= s);
    } else {
        lemma_bytes_grow(s.drop_last(), i);
        assert(s.drop_last().take(i) =~= s.take(i));
    }
}

proof fn lemma_within(s: Seq<char>, max: nat, i: int)
    requires
        0 <= i < s.len(),
        text_bytes(s.take(i)) <= max,
        text_bytes(s.take(i + 1)) > max,
    ensures
        within_bytes(s, max) == s.take(i),
        text_bytes(s) > max,
    decreases s.len(),
{
    lemma_bytes_grow(s, i + 1);
    if i + 1 == s.len() {
        reveal_with_fuel(within_bytes, 2);
        assert(s.take(i) =~= s.drop_last());
        assert(s.take(i + 1) =~= s);
    } else {
        let init = s.drop_last();
        assert(init.take(i) =~= s.take(i));
        assert(init.take(i + 1) =~= s.take(i + 1));
        lemma_within(init, max, i);
    }
}

/// What is shown of output that could not be read: its start, cut between two characters.
pub fn output_preview(raw: &str) -> (r: String)
    ensures
        r@ == preview(raw@),
{
    let v = chars_of(raw);
    let mut i: usize = 0;
    let mut total: usize = 0;
    assert(raw@.take(0) =~= Seq::<char>::empty());
    while i < v.len()
        invariant
            i <= v.len(),
            v@ == raw@,
            total == text_bytes(raw@.take(i as int)),
            total <= PREVIEW_BYTES,
        decreases v.len() - i,
    {
        let more = bytes_of_char(v[i]);
        assert(raw@.take(i + 1).drop_last() =~= raw@.take(i as int));
        assert(raw@.take(i + 1).last() == raw@[i as int]);
        if total + more > PREVIEW_BYTES {
            proof {
                lemma_within(raw@, PREVIEW_BYTES as nat, i as int);
            }
            let start = slice(&v, 0, i);
            assert(start@ =~= raw@.take(i as int));
            return trimmed(concat2(start.as_str(), "...").as_str());
        }
        total += more;
        i += 1;
    }
    assert(raw@.take(i as int) =~= raw@);
    trimmed(raw)
}

/// The number of a process.
pub open spec fn pid_of(s: Seq<char>) -> Option<u32> {
    match unsigned_value(trim(s), u32::MAX as nat) {
        Some(n) => Some(n as u32),
        None => None,
    }
}

fn parse_pid(s: &str) -> (r: Option<u32>)
    ensures
        r == pid_of(s@),
{
    match parse_unsigned(trimmed(s).as_str(), u32::MAX as u64) {
        Some(n) => Some(n as u32),
        None => None,
    }
}

/// The parent of a process, from what was printed of it.
pub fn get_ppid(printed: Option<&str>) -> (r: Option<u32>)
    ensures
        r == match printed {
            Some(s) => pid_of(s@),
            None => None,
        },
{
    match printed {
        Some(s) => parse_pid(s),
        None => None,
    }
}

/// The numbers among some lines.
pub open spec fn pids_among(ls: Seq<Seq<char>>) -> Seq<u32>
    decreases ls.len(),
{
    if ls.len() == 0 {
        Seq::empty()
    } else {
        match pid_of(ls.last()) {
            Some(pid) => pids_among(ls.drop_last()).push(pid),
            None => pids_among(ls.drop_last()),
        }
    }
}

/// The processes that were listed, one on each line; none where the command failed.
pub open spec fn listed_pids(printed: Option<Seq<char>>) -> Seq<u32> {
    match printed {
        Some(s) => pids_among(lines(s)),
        None => Seq::empty(),
    }
}

/// The processes that were listed, one on each line.
pub fn read_pids(printed: Option<&str>) -> (r: Vec<u32>)
    ensures
        r@ == listed_pids(crate::text::opt_str(printed)),
{
    let mut r: Vec<u32> = Vec::new();
    let s = match printed {
        Some(s) => s,
        None => {
            return r;
        },
    };
    let ls = lines_of(s);
    let ghost all = lines(s@);
    let mut i: usize = 0;
    assert(all.take(0) =~= Seq::<Seq<char>>::empty());
    while i < ls.len()
        invariant
            i <= ls.len(),
            all == texts(ls@),
            r@ == pids_among(all.take(i as int)),
        decreases ls.len() - i,
    {
        proof {
            assert(all.take(i + 1).drop_last() =~= all.take(i as int));
            assert(all.take(i + 1).last() == ls@[i as int]@);
        }
        if let Some(pid) = parse_pid(ls[i].as_str()) {
            r.push(pid);
        }
        i += 1;
    }
    assert(all.take(i as int) =~= all);
    r
}

fn has_pid(v: &Vec<u32>, pid: u32) -> (r: bool)
    ensures
        r == v@.contains(pid),
{
    let mut i: usize = 0;
    while i < v.len()
        invariant
            i <= v.len(),
            forall|k: int| 0 <= k < i ==> v@[k] != pid,
        decreases v.len() - i,
    {
        if v[i] == pid {
            return true;
        }
        i += 1;
    }
    false
}

/// The search for the processes below a process.
pub struct DescendantSearch {
    /// Those found so far.
    pub found: Vec<u32>,
    /// Those whose children are not yet known.
    pub to_check: Vec<u32>,
}

/// What the search has found and what it has still to check.
#[verifier::ext_equal]
pub struct SearchView {
    pub found: Seq<u32>,
    pub to_check: Seq<u32>,
}

/// The search after the children of a process have become known: those that are new are found,
/// and are to be checked.
pub open spec fn with_children(search: SearchView, children: Seq<u32>) -> SearchView
    decreases children.len(),
{
    if children.len() == 0 {
        search
    } else {
        let before = with_children(search, children.drop_last());
        if before.found.contains(children.last()) {
            before
        } else {
            SearchView {
                found: before.found.push(children.last()),
                to_check: before.to_check.push(children.last()),
            }
        }
    }
}

impl View for DescendantSearch {
    type V = SearchView;

    open spec fn view(&self) -> SearchView {
        SearchView { found: self.found@, to_check: self.to_check@ }
    }
}

impl DescendantSearch {
    /// A search below a process.
    pub fn below(parent_pid: u32) -> (r: DescendantSearch)
        ensures
            r@ == (SearchView { found: Seq::empty(), to_check: seq![parent_pid] }),
    {
        let mut to_check: Vec<u32> = Vec::new();
        to_check.push(parent_pid);
        let r = DescendantSearch { found: Vec::new(), to_check };
        assert(r@ =~= (SearchView { found: Seq::empty(), to_check: seq![parent_pid] }));
        r
    }

    /// The process whose children are asked for next, until there is none.
    pub fn next_pid(&mut self) -> (r: Option<u32>)
        ensures
            match r {
                Some(pid) => old(self)@.to_check.len() > 0 && pid == old(self)@.to_check.last()
                    && final(self)@ == (SearchView {
                    to_check: old(self)@.to_check.drop_last(),
                    ..old(self)@
                }),
                None => old(self)@.to_check.len() == 0 && final(self)@ == old(self)@,
            },
    {
        self.to_check.pop()
    }
}

/// Takes in the children of the process that was asked for, from what was printed of them.
pub fn get_descendant_pids(search: &mut DescendantSearch, printed: Option<&str>)
    ensures
        final(search)@ == with_children(
            old(search)@,
            listed_pids(crate::text::opt_str(printed)),
        ),
{
    let children = read_pids(printed);
    let mut i: usize = 0;
    assert(children@.take(0) =~= Seq::<u32>::empty());
    while i < children.len()
        invariant
            i <= children.len(),
            search@ == with_children(old(search)@, children@.take(i as int)),
        decreases children.len() - i,
    {
        assert(children@.take(i + 1).drop_last() =~= children@.take(i as int));
        assert(children@.take(i + 1).last() == children@[i as int]);
        if !has_pid(&search.found, children[i]) {
            search.found.push(children[i]);
            search.to_check.push(children[i]);
        }
        i += 1;
    }
    assert(children@.take(i as int) =~= children@);
}

/// Each process that the search knows has been checked, or is still to be checked; and one that
/// has been checked has all its children among those found.
pub open spec fn is_thorough(
    search: SearchView,
    parent: u32,
    children: spec_fn(u32) -> Seq<u32>,
) -> bool {
    forall|pid: u32, child: u32|
        (pid == parent || search.found.contains(pid)) && !search.to_check.contains(pid)
            && #[trigger] children(pid).contains(child) ==> search.found.contains(child)
}

proof fn lemma_with_children(search: SearchView, children: Seq<u32>)
    ensures
        forall|pid: u32| #[trigger]
            with_children(search, children).found.contains(pid) <==> search.found.contains(pid)
                || children.contains(pid),
        forall|pid: u32|
            search.to_check.contains(pid) ==> #[trigger] with_children(
                search,
                children,
            ).to_check.contains(pid),
        forall|pid: u32|
            with_children(search, children).found.contains(pid) && !search.found.contains(pid)
                ==> #[trigger] with_children(search, children).to_check.contains(pid),
    decreases children.len(),
{
    if children.len() > 0 {
        let init = children.drop_last();
        let last = children.last();
        let before = with_children(search, init);
        let after = with_children(search, children);
        lemma_with_children(search, init);
        assert forall|pid: u32| #[trigger]
            after.found.contains(pid) <==> search.found.contains(pid) || children.contains(
                pid,
            ) by {
            assert(children.contains(pid) <==> init.contains(pid) || pid == last) by {
                if children.contains(pid) {
                    let i = choose|i: int| 0 <= i < children.len() && children[i] == pid;
                    if i < init.len() {
                        assert(init[i] == pid);
                    }
                }
                if init.contains(pid) {
                    let i = choose|i: int| 0 <= i < init.len() && init[i] == pid;
                    assert(children[i] == pid);
                }
                assert(children[children.len() - 1] == last);
            }
            assert(before.found.contains(pid) <==> search.found.contains(pid) || init.contains(
                pid,
            ));
            lemma_push_contains(before.found, last, pid);
        }
        assert forall|pid: u32| search.to_check.contains(pid) implies #[trigger]
            after.to_check.contains(pid) by {
            assert(before.to_check.contains(pid));
            lemma_push_contains(before.to_check, last, pid);
        }
        assert forall|pid: u32|
            after.found.contains(pid) && !search.found.contains(pid) implies #[trigger]
            after.to_check.contains(pid) by {
            lemma_push_contains(before.found, last, pid);
            lemma_push_contains(before.to_check, last, pid);
            if before.found.contains(pid) {
                assert(before.to_check.contains(pid));
            }
        }
    }
}

proof fn lemma_push_contains(s: Seq<u32>, x: u32, y: u32)
    ensures
        s.push(x).contains(y) <==> s.contains(y) || x == y,
{
    let t = s.push(x);
    if t.contains(y) {
        let i = choose|i: int| 0 <= i < t.len() && t[i] == y;
        if i < s.len() {
            assert(s[i] == y);
        }
    }
    if s.contains(y) {
        let i = choose|i: int| 0 <= i < s.len() && s[i] == y;
        assert(t[i] == y);
    }
    assert(t[s.len() as int] == x);
}

/// A search stays thorough when the children of the process that was asked for are taken in.
pub proof fn searching_stays_thorough(
    search: SearchView,
    parent: u32,
    children: spec_fn(u32) -> Seq<u32>,
)
    requires
        search.to_check.len() > 0,
        is_thorough(search, parent, children),
    ensures
        is_thorough(
            with_children(
                SearchView { to_check: search.to_check.drop_last(), ..search },
                children(search.to_check.last()),
            ),
            parent,
            children,
        ),
{
    let asked = search.to_check.last();
    let popped = SearchView { to_check: search.to_check.drop_last(), ..search };
    let after = with_children(popped, children(asked));
    lemma_with_children(popped, children(asked));
    assert forall|pid: u32, child: u32|
        (pid == parent || after.found.contains(pid)) && !after.to_check.contains(pid)
            && #[trigger] children(pid).contains(child) implies after.found.contains(child) by {
        if pid != asked {
            if after.found.contains(pid) && !search.found.contains(pid) {
                assert(after.to_check.contains(pid));
            }
            if search.to_check.contains(pid) {
                let i = choose|i: int|
                    0 <= i < search.to_check.len() && search.to_check[i] == pid;
                assert(popped.to_check[i] == pid);
                assert(popped.to_check.contains(pid));
                assert(after.to_check.contains(pid));
            }
            assert(search.found.contains(child));
        }
    }
}

/// A search that starts is thorough, and one that has ended has found the children of the
/// process and of every process found.
pub proof fn a_finished_search_is_complete(
    search: SearchView,
    parent: u32,
    children: spec_fn(u32) -> Seq<u32>,
)
    ensures
        is_thorough(
            SearchView { found: Seq::empty(), to_check: seq![parent] },
            parent,
            children,
        ),
        is_thorough(search, parent, children) && search.to_check.len() == 0 ==> forall|
            pid: u32,
            child: u32,
        |
            (pid == parent || search.found.contains(pid)) && #[trigger] children(pid).contains(
                child,
            ) ==> search.found.contains(child),
{
    let start = SearchView { found: Seq::<u32>::empty(), to_check: seq![parent] };
    assert(start.to_check[0] == parent);
    assert(start.to_check.contains(parent));
}

/// A search finds no process twice.
pub proof fn no_process_is_found_twice(search: SearchView, children: Seq<u32>)
    requires
        search.found.no_duplicates(),
    ensures
        with_children(search, children).found.no_duplicates(),
    decreases children.len(),
{
    if children.len() > 0 {
        no_process_is_found_twice(search, children.drop_last());
        let before = with_children(search, children.drop_last()).found;
        let after = with_children(search, children).found;
        assert forall|i: int, j: int|
            0 <= i < after.len() && 0 <= j < after.len() && i != j implies after[i] != after[j] by {
            if i < before.len() {
                assert(before.contains(before[i]));
            }
            if j < before.len() {
                assert(before.contains(before[j]));
            }
        }
    }
}

/// Those of some processes that have no parent but the first process.
pub open spec fn orphans_among(pids: Seq<u32>, parents: Seq<Option<u32>>) -> Seq<u32>
    decreases pids.len(),
{
    if pids.len() == 0 {
        Seq::empty()
    } else {
        let before = orphans_among(pids.drop_last(), parents);
        if parents[pids.len() - 1] == Some(1u32) {
            before.push(pids.last())
        } else {
            before
        }
    }
}

/// The processes that are left over: those that have no parent but the first process.
pub fn find_orphaned_processes(pids: &Vec<u32>, parents: &Vec<Option<u32>>) -> (r: Vec<u32>)
    requires
        parents@.len() == pids@.len(),
    ensures
        r@ == orphans_among(pids@, parents@),
{
    let mut r: Vec<u32> = Vec::new();
    let mut i: usize = 0;
    assert(pids@.take(0) =~= Seq::<u32>::empty());
    while i < pids.len()
        invariant
            i <= pids.len(),
            parents@.len() == pids@.len(),
            r@ == orphans_among(pids@.take(i as int), parents@),
        decreases pids.len() - i,
    {
        assert(pids@.take(i + 1).drop_last() =~= pids@.take(i as int));
        assert(pids@.take(i + 1).last() == pids@[i as int]);
        let parent = parents[i];
        if let Some(p) = parent {
            if p == 1 {
                r.push(pids[i]);
            }
        }
        i += 1;
    }
    assert(pids@.take(i as int) =~= pids@);
    r
}

/// The numbers of some processes, as text.
pub open spec fn pid_texts(pids: Seq<u32>) -> Seq<Seq<char>> {
    pids.map_values(|pid: u32| decimal(pid as nat))
}

/// What left-over processes are asked to end with.
pub fn kill_orphaned_processes(orphans: &Vec<u32>) -> (r: Vec<String>)
    ensures
        texts(r@) == pid_texts(orphans@),
{
    let mut r: Vec<String> = Vec::new();
    let mut i: usize = 0;
    assert(texts(r@) =~= pid_texts(orphans@.take(0)));
    while i < orphans.len()
        invariant
            i <= orphans.len(),
            texts(r@) == pid_texts(orphans@.take(i as int)),
        decreases orphans.len() - i,
    {
        let ghost before = texts(r@);
        let text = to_decimal(orphans[i] as u64);
        r.push(text);
        assert(texts(r@) =~= before.push(text@));
        assert(pid_texts(orphans@.take(i + 1)) =~= pid_texts(orphans@.take(i as int)).push(text@));
        i += 1;
    }
    assert(orphans@.take(i as int) =~= orphans@);
    r
}

/// Those of some processes that are still alive.
pub open spec fn alive_among(pids: Seq<u32>, alive: Seq<bool>) -> Seq<u32>
    decreases pids.len(),
{
    if pids.len() == 0 {
        Seq::empty()
    } else if alive[pids.len() - 1] {
        alive_among(pids.drop_last(), alive).push(pids.last())
    } else {
        alive_among(pids.drop_last(), alive)
    }
}

/// What the processes that did not end are made to end with; nothing where there are none.
pub fn survivors_to_kill(orphans: &Vec<u32>, alive: &Vec<bool>) -> (r: Option<Vec<String>>)
    requires
        alive@.len() == orphans@.len(),
    ensures
        match r {
            Some(args) => alive_among(orphans@, alive@).len() > 0 && texts(args@) == seq!["-9"@]
                + pid_texts(alive_among(orphans@, alive@)),
            None => alive_among(orphans@, alive@).len() == 0,
        },
{
    let mut left: Vec<u32> = Vec::new();
    let mut i: usize = 0;
    assert(orphans@.take(0) =~= Seq::<u32>::empty());
    while i < orphans.len()
        invariant
            i <= orphans.len(),
            alive@.len() == orphans@.len(),
            left@ == alive_among(orphans@.take(i as int), alive@),
        decreases orphans.len() - i,
    {
        assert(orphans@.take(i + 1).drop_last() =~= orphans@.take(i as int));
        assert(orphans@.take(i + 1).last() == orphans@[i as int]);
        if alive[i] {
            left.push(orphans[i]);
        }
        i += 1;
    }
    assert(orphans@.take(i as int) =~= orphans@);
    if left.len() == 0 {
        return None;
    }
    let mut pids = kill_orphaned_processes(&left);
    let mut args: Vec<String> = Vec::new();
    args.push("-9".to_owned());
    let ghost rest = pids@;
    args.append(&mut pids);
    assert(texts(args@) =~= seq!["-9"@] + texts(rest));
    Some(args)
}

/// Only a command that ran and succeeded has written something that counts; of every other
/// there is something to say.
pub proof fn commands_have_written_or_failed(stdout: CmdOutput, why: String)
    ensures
        (CmdOutcome::Ran { success: true, output: stdout }).written() == Some(stdout),
        (CmdOutcome::Ran { success: false, output: stdout }).written() is None,
        CmdOutcome::NotRun(why).written() is None,
        (CmdOutcome::Ran { success: true, output: stdout }).complaint() is None,
        (CmdOutcome::Ran { success: false, output: stdout }).complaint() == Some(
            trim(stdout.stderr@),
        ),
        CmdOutcome::NotRun(why).complaint() == Some(why@),
{
}

/// What fits into a number of bytes is the longest start of the text that does.
pub proof fn texts_are_cut_as_late_as_possible(s: Seq<char>, max: nat)
    ensures
        exists|i: int| #![trigger s.take(i)]
            0 <= i <= s.len() && within_bytes(s, max) == s.take(i) && text_bytes(s.take(i)) <= max
                && (i < s.len() ==> text_bytes(s.take(i + 1)) > max),
    decreases s.len(),
{
    if s.len() == 0 || text_bytes(s) <= max {
        assert(s.take(s.len() as int) =~= s);
        assert(text_bytes(s) <= max);
    } else {
        let init = s.drop_last();
        texts_are_cut_as_late_as_possible(init, max);
        let i = choose|i: int| #![trigger init.take(i)]
            0 <= i <= init.len() && within_bytes(init, max) == init.take(i) && text_bytes(
                init.take(i),
            ) <= max && (i < init.len() ==> text_bytes(init.take(i + 1)) > max);
        assert(init.take(i) =~= s.take(i));
        if i < init.len() {
            assert(init.take(i + 1) =~= s.take(i + 1));
        } else {
            assert(s.take(i + 1) =~= s);
        }
    }
}

/// Output of up to two hundred bytes is shown whole; of longer output its start is shown, and
/// that something is missing.
pub proof fn two_hundred_bytes_are_shown(raw: Seq<char>)
    ensures
        text_bytes(raw) <= 200 ==> preview(raw) == trim(raw),
        text_bytes(raw) > 200 ==> preview(raw) == trim(within_bytes(raw, 200) + "..."@),
{
}

/// A process is known by a decimal number, whatever the white space around it, and by nothing
/// else.
pub proof fn processes_are_known_by_their_number(s: Seq<char>, pid: u32)
    ensures
        trim(s) == decimal(pid as nat) ==> pid_of(s) == Some(pid),
        pid_of(s) matches Some(n) ==> unsigned_value(trim(s), 0xffff_ffff) == Some(n as nat),
        unsigned_value(trim(s), 0xffff_ffff) is None ==> pid_of(s) is None,
{
    crate::text::decimal_form_is_read_back(pid as nat, 0xffff_ffff);
}

/// The processes that are listed are those of the lines that tell a number, in their order; a
/// command that failed has listed none.
pub proof fn lines_that_tell_a_number_list_a_process(ls: Seq<Seq<char>>, printed: Seq<char>)
    ensures
        gathers(
            ls,
            |line: Seq<char>| pid_of(line) is Some,
            |line: Seq<char>| pid_of(line)->0,
            pids_among(ls),
        ),
        listed_pids(None).len() == 0,
        listed_pids(Some(printed)) == pids_among(lines(printed)),
    decreases ls.len(),
{
    let wanted = |line: Seq<char>| pid_of(line) is Some;
    let told = |line: Seq<char>| pid_of(line)->0;
    if ls.len() == 0 {
        gathering_goes_item_by_item(ls, Seq::<char>::empty(), wanted, told, Seq::<u32>::empty());
        assert(ls =~= Seq::<Seq<char>>::empty());
        assert(pids_among(ls) =~= Seq::<u32>::empty());
    } else {
        let init = ls.drop_last();
        lines_that_tell_a_number_list_a_process(init, printed);
        assert(ls =~= init.push(ls.last()));
        gathering_goes_item_by_item(init, ls.last(), wanted, told, pids_among(init));
    }
}

/// A child that is new to a search is found, and is to be checked in its turn; one that is known
/// changes nothing.
pub proof fn new_children_are_found_and_checked(search: SearchView, children: Seq<u32>, child: u32)
    ensures
        with_children(search, Seq::<u32>::empty()) == search,
        !with_children(search, children).found.contains(child) ==> with_children(
            search,
            children.push(child),
        ) == (SearchView {
            found: with_children(search, children).found.push(child),
            to_check: with_children(search, children).to_check.push(child),
        }),
        with_children(search, children).found.contains(child) ==> with_children(
            search,
            children.push(child),
        ) == with_children(search, children),
        with_children(search, children).found.contains(child) <==> search.found.contains(child)
            || children.contains(child),
{
    assert(children.push(child).drop_last() =~= children);
    lemma_with_children(search, children);
}

/// The processes that are left over are those whose parent is known to be the first process, in
/// their order.
pub proof fn processes_below_the_first_are_left_over(pids: Seq<u32>, marks: Seq<Option<u32>>)
    requires
        pids.len() <= marks.len(),
    ensures
        gathers(
            Seq::new(pids.len(), |i: int| (pids[i], marks[i])),
            |p: (u32, Option<u32>)| p.1 == Some(1u32),
            |p: (u32, Option<u32>)| p.0,
            orphans_among(pids, marks),
        ),
    decreases pids.len(),
{
    let wanted = |p: (u32, Option<u32>)| p.1 == Some(1u32);
    let told = |p: (u32, Option<u32>)| p.0;
    let all = Seq::new(pids.len(), |i: int| (pids[i], marks[i]));
    if pids.len() == 0 {
        gathering_goes_item_by_item(all, (0u32, marks[0]), wanted, told, Seq::<u32>::empty());
        assert(all =~= Seq::<(u32, Option<u32>)>::empty());
        assert(orphans_among(pids, marks) =~= Seq::<u32>::empty());
    } else {
        let init = pids.drop_last();
        let before = Seq::new(init.len(), |i: int| (init[i], marks[i]));
        let last = (pids.last(), marks[pids.len() - 1]);
        processes_below_the_first_are_left_over(init, marks);
        assert(all =~= before.push(last));
        gathering_goes_item_by_item(before, last, wanted, told, orphans_among(init, marks));
    }
}

/// The processes that did not end are those that are still alive, in their order.
pub proof fn survivors_are_those_still_alive(pids: Seq<u32>, marks: Seq<bool>)
    requires
        pids.len() <= marks.len(),
    ensures
        gathers(
            Seq::new(pids.len(), |i: int| (pids[i], marks[i])),
            |p: (u32, bool)| p.1,
            |p: (u32, bool)| p.0,
            alive_among(pids, marks),
        ),
    decreases pids.len(),
{
    let wanted = |p: (u32, bool)| p.1;
    let told = |p: (u32, bool)| p.0;
    let all = Seq::new(pids.len(), |i: int| (pids[i], marks[i]));
    if pids.len() == 0 {
        gathering_goes_item_by_item(all, (0u32, marks[0]), wanted, told, Seq::<u32>::empty());
        assert(all =~= Seq::<(u32, bool)>::empty());
        assert(alive_among(pids, marks) =~= Seq::<u32>::empty());
    } else {
        let init = pids.drop_last();
        let before = Seq::new(init.len(), |i: int| (init[i], marks[i]));
        let last = (pids.last(), marks[pids.len() - 1]);
        survivors_are_those_still_alive(init, marks);
        assert(all =~= before.push(last));
        gathering_goes_item_by_item(before, last, wanted, told, alive_among(init, marks));
    }
}

/// Each process is named by its number.
pub proof fn processes_are_named_by_their_number(pids: Seq<u32>)
    ensures
        pid_texts(pids).len() == pids.len(),
        forall|i: int|
            0 <= i < pids.len() ==> #[trigger] pid_texts(pids)[i] == decimal(pids[i] as nat),
{
}

} // verus!
