//! The workflows of a project: directories with a script and, it may be, instructions for
//! agents.

use vstd::prelude::*;

use crate::path::{join_path, joined_path};
use crate::paths::is_usable_key;
use crate::selection::{counting_goes_item_by_item, counts, gathering_goes_item_by_item, gathers};
use crate::text::{
    concat2, concat3, contains, cut, is_blank, is_space, is_space_char, join, lines, lines_of, opt,
    opt_str, same, split, split_on, split_once, starts, strip_prefix, texts, trim, trimmed,
};
use crate::text_map::{
    is_before, precedes, precedes_is_strict, precedes_is_total, precedes_is_transitive, TextMap,
};

verus! {

/// What the header of the instructions of a workflow says.
#[derive(Debug)]
pub struct WorkflowMeta {
    pub name: Option<String>,
    pub description: Option<String>,
    pub states: Vec<String>,
    /// The states, with those that may follow.
    pub transitions: Vec<(String, Vec<String>)>,
}

#[verifier::ext_equal]
pub struct MetaView {
    pub name: Option<Seq<char>>,
    pub description: Option<Seq<char>>,
    pub states: Seq<Seq<char>>,
    pub transitions: Seq<(Seq<char>, Seq<Seq<char>>)>,
}

pub open spec fn transitions_view(t: Seq<(String, Vec<String>)>) -> Seq<
    (Seq<char>, Seq<Seq<char>>),
> {
    t.map_values(|e: (String, Vec<String>)| (e.0@, texts(e.1@)))
}

impl View for WorkflowMeta {
    type V = MetaView;

    open spec fn view(&self) -> MetaView {
        MetaView {
            name: opt(self.name),
            description: opt(self.description),
            states: texts(self.states@),
            transitions: transitions_view(self.transitions@),
        }
    }
}

pub open spec fn no_meta() -> MetaView {
    MetaView {
        name: None,
        description: None,
        states: Seq::empty(),
        transitions: Seq::empty(),
    }
}

/// The pieces without the white space around them and without the blank ones.
pub open spec fn tidy(pieces: Seq<Seq<char>>) -> Seq<Seq<char>>
    decreases pieces.len(),
{
    if pieces.len() == 0 {
        Seq::empty()
    } else if trim(pieces.last()).len() == 0 {
        tidy(pieces.drop_last())
    } else {
        tidy(pieces.drop_last()).push(trim(pieces.last()))
    }
}

/// The items of a list in square brackets, with commas between them.
pub open spec fn bracketed(s: Seq<char>) -> Seq<Seq<char>> {
    let t = trim(s);
    if t.len() >= 2 && t[0] == '[' && t.last() == ']' {
        tidy(split(t.subrange(1, t.len() - 1), ','))
    } else {
        Seq::empty()
    }
}

fn parse_bracketed(s: &str) -> (r: Vec<String>)
    ensures
        texts(r@) == bracketed(s@),
{
    let t = trimmed(s);
    let v = crate::text::chars_of(t.as_str());
    let mut r: Vec<String> = Vec::new();
    if !(v.len() >= 2 && v[0] == '[' && v[v.len() - 1] == ']') {
        assert(texts(r@) =~= Seq::<Seq<char>>::empty());
        return r;
    }
    let inner = crate::text::slice(&v, 1, v.len() - 1);
    let pieces = split_on(inner.as_str(), ',');
    let ghost all = split(inner@, ',');
    let mut i: usize = 0;
    assert(texts(r@) =~= tidy(all.take(0)));
    while i < pieces.len()
        invariant
            i <= pieces.len(),
            all == texts(pieces@),
            texts(r@) == tidy(all.take(i as int)),
        decreases pieces.len() - i,
    {
        proof {
            assert(all.take(i + 1).drop_last() =~= all.take(i as int));
            assert(all.take(i + 1).last() == pieces@[i as int]@);
        }
        let item = trimmed(pieces[i].as_str());
        if !item.as_str().is_empty() {
            let ghost before = texts(r@);
            r.push(item);
            assert(texts(r@) =~= before.push(item@));
        }
        i += 1;
    }
    assert(all.take(i as int) =~= all);
    r
}

/// A text without the white space around it, where something is left.
pub open spec fn some_text(s: Seq<char>) -> Option<Seq<char>> {
    if trim(s).len() > 0 {
        Some(trim(s))
    } else {
        None
    }
}

fn text_if_any(s: &str) -> (r: Option<String>)
    ensures
        opt(r) == some_text(s@),
{
    let t = trimmed(s);
    if t.as_str().is_empty() {
        None
    } else {
        Some(t)
    }
}

/// The line stands under the one that opens a section.
pub open spec fn is_indented(line: Seq<char>) -> bool {
    line.len() > 0 && is_space(line[0])
}

fn line_is_indented(line: &str) -> (r: bool)
    ensures
        r == is_indented(line@),
{
    let v = crate::text::chars_of(line);
    v.len() > 0 && is_space_char(v[0])
}

/// What is known after one more line of the header, and whether the line stands in the section
/// of transitions.
pub open spec fn after_header_line(known: (MetaView, bool), line: Seq<char>) -> (MetaView, bool) {
    let (meta, in_transitions) = known;
    let t = trim(line);
    if in_transitions && is_indented(line) {
        match cut(t, ':') {
            Some((from, to)) => (
                MetaView {
                    transitions: meta.transitions.push((trim(from), bracketed(to))),
                    ..meta
                },
                true,
            ),
            None => known,
        }
    } else if starts(t, "name:"@) {
        (MetaView { name: some_text(t.skip("name:"@.len() as int)), ..meta }, false)
    } else if starts(t, "description:"@) {
        (MetaView { description: some_text(t.skip("description:"@.len() as int)), ..meta }, false)
    } else if starts(t, "states:"@) {
        (MetaView { states: bracketed(t.skip("states:"@.len() as int)), ..meta }, false)
    } else {
        (meta, starts(t, "transitions:"@))
    }
}

pub open spec fn after_header_lines(ls: Seq<Seq<char>>) -> (MetaView, bool)
    decreases ls.len(),
{
    if ls.len() == 0 {
        (no_meta(), false)
    } else {
        after_header_line(after_header_lines(ls.drop_last()), ls.last())
    }
}

fn read_header_line(meta: &mut WorkflowMeta, in_transitions: bool, line: &str) -> (r: bool)
    ensures
        (final(meta)@, r) == after_header_line((old(meta)@, in_transitions), line@),
{
    let t = trimmed(line);
    if in_transitions && line_is_indented(line) {
        if let Some((from, to)) = split_once(t.as_str(), ':') {
            let ghost before = transitions_view(meta.transitions@);
            let state = trimmed(from.as_str());
            let next = parse_bracketed(to.as_str());
            let ghost added = (state@, texts(next@));
            meta.transitions.push((state, next));
            assert(transitions_view(meta.transitions@) =~= before.push(added));
        }
        return true;
    }
    if let Some(rest) = strip_prefix(t.as_str(), "name:") {
        meta.name = text_if_any(rest.as_str());
        return false;
    }
    if let Some(rest) = strip_prefix(t.as_str(), "description:") {
        meta.description = text_if_any(rest.as_str());
        return false;
    }
    if let Some(rest) = strip_prefix(t.as_str(), "states:") {
        meta.states = parse_bracketed(rest.as_str());
        return false;
    }
    crate::text::starts_with(t.as_str(), "transitions:")
}

/// The line marks the start or the end of a header.
pub open spec fn is_marker(line: Seq<char>) -> bool {
    trim(line) == "---"@
}

/// The number of lines before the first marker, where there is one.
pub open spec fn lines_to_marker(ls: Seq<Seq<char>>) -> Option<nat>
    decreases ls.len(),
{
    if ls.len() == 0 {
        None
    } else if is_marker(ls[0]) {
        Some(0)
    } else {
        match lines_to_marker(ls.skip(1)) {
            Some(n) => Some(n + 1),
            None => None,
        }
    }
}

/// The lines of the header: those between a marker on the first line and the next marker.
pub open spec fn header_lines(ls: Seq<Seq<char>>) -> Option<Seq<Seq<char>>> {
    if ls.len() > 0 && is_marker(ls[0]) {
        match lines_to_marker(ls.skip(1)) {
            Some(n) => Some(ls.skip(1).take(n as int)),
            None => None,
        }
    } else {
        None
    }
}

/// What the header of some instructions says, where they have one.
pub open spec fn header_of(content: Seq<char>) -> Option<MetaView> {
    match header_lines(lines(content)) {
        Some(ls) => Some(after_header_lines(ls).0),
        None => None,
    }
}

pub open spec fn meta_view(m: Option<WorkflowMeta>) -> Option<MetaView> {
    match m {
        Some(x) => Some(x@),
        None => None,
    }
}

proof fn lemma_marker_found(ls: Seq<Seq<char>>, n: int)
    requires
        0 <= n < ls.len(),
        is_marker(ls[n]),
        forall|k: int| 0 <= k < n ==> !is_marker(#[trigger] ls[k]),
    ensures
        lines_to_marker(ls) == Some(n as nat),
    decreases n,
{
    if n > 0 {
        assert(!is_marker(ls[0]));
        let rest = ls.skip(1);
        assert forall|k: int| 0 <= k < n - 1 implies !is_marker(#[trigger] rest[k]) by {
            assert(rest[k] == ls[k + 1]);
        }
        lemma_marker_found(rest, n - 1);
    }
}

proof fn lemma_marker_missing(ls: Seq<Seq<char>>)
    requires
        forall|k: int| 0 <= k < ls.len() ==> !is_marker(#[trigger] ls[k]),
    ensures
        lines_to_marker(ls) is None,
    decreases ls.len(),
{
    if ls.len() > 0 {
        assert(!is_marker(ls[0]));
        let rest = ls.skip(1);
        assert forall|k: int| 0 <= k < rest.len() implies !is_marker(#[trigger] rest[k]) by {
            assert(rest[k] == ls[k + 1]);
        }
        lemma_marker_missing(rest);
    }
}

/// What the header of some instructions says. There is none where the first line is no marker
/// or no marker follows.
pub fn parse_agents_md_frontmatter(content: &str) -> (r: Option<WorkflowMeta>)
    ensures
        meta_view(r) == header_of(content@),
{
    let ls = lines_of(content);
    let ghost all = lines(content@);
    if ls.len() == 0 {
        return None;
    }
    assert(all[0] == ls@[0]@);
    if !same(trimmed(ls[0].as_str()).as_str(), "---") {
        return None;
    }
    let ghost rest = all.skip(1);
    let mut meta = WorkflowMeta {
        name: None,
        description: None,
        states: Vec::new(),
        transitions: Vec::new(),
    };
    let mut in_transitions = false;
    let mut i: usize = 1;
    assert(meta@ =~= no_meta());
    assert(rest.take(0) =~= Seq::<Seq<char>>::empty());
    while i < ls.len()
        invariant
            1 <= i <= ls.len(),
            all == lines(content@),
            all == texts(ls@),
            is_marker(all[0]),
            rest == all.skip(1),
            forall|k: int| 0 <= k < i - 1 ==> !is_marker(#[trigger] rest[k]),
            (meta@, in_transitions) == after_header_lines(rest.take(i - 1)),
        decreases ls.len() - i,
    {
        assert(rest[i - 1] == ls@[i as int]@);
        if same(trimmed(ls[i].as_str()).as_str(), "---") {
            proof {
                lemma_marker_found(rest, i - 1);
            }
            return Some(meta);
        }
        assert(rest.take(i as int).drop_last() =~= rest.take(i - 1));
        in_transitions = read_header_line(&mut meta, in_transitions, ls[i].as_str());
        i += 1;
    }
    proof {
        lemma_marker_missing(rest);
    }
    None
}

impl WorkflowMeta {
    /// The states that may follow a state: what the last line on it says.
    pub open spec fn next_states(t: Seq<(Seq<char>, Seq<Seq<char>>)>, state: Seq<char>) -> Option<
        Seq<Seq<char>>,
    >
        decreases t.len(),
    {
        if t.len() == 0 {
            None
        } else if t.last().0 == state {
            Some(t.last().1)
        } else {
            WorkflowMeta::next_states(t.drop_last(), state)
        }
    }

    /// The states that may follow a state.
    pub fn transitions_from(&self, state: &str) -> (r: Option<&Vec<String>>)
        ensures
            match r {
                Some(next) => WorkflowMeta::next_states(self@.transitions, state@) == Some(
                    texts(next@),
                ),
                None => WorkflowMeta::next_states(self@.transitions, state@) is None,
            },
    {
        let ghost all = self@.transitions;
        let mut i: usize = self.transitions.len();
        assert(all.take(i as int) =~= all);
        while i > 0
            invariant
                i <= self.transitions.len(),
                all == transitions_view(self.transitions@),
                all == self@.transitions,
                WorkflowMeta::next_states(all, state@) == WorkflowMeta::next_states(
                    all.take(i as int),
                    state@,
                ),
            decreases i,
        {
            assert(all.take(i as int).drop_last() =~= all.take(i - 1));
            assert(all.take(i as int).last() == (
                self.transitions@[i - 1].0@,
                texts(self.transitions@[i - 1].1@),
            ));
            if same(self.transitions[i - 1].0.as_str(), state) {
                return Some(&self.transitions[i - 1].1);
            }
            i -= 1;
        }
        None
    }
}

/// The parts of merged instructions: those of the project, those of the workflow and the state
/// of the workflow, as far as there are any.
pub open spec fn instruction_parts(
    existing: Option<Seq<char>>,
    workflow: Option<Seq<char>>,
    state: Option<Seq<char>>,
) -> Seq<Seq<char>> {
    let a = match existing {
        Some(s) => seq![s],
        None => Seq::empty(),
    };
    let b = match workflow {
        Some(s) => seq!["## Assigned Workflow Instructions\n\n"@ + s],
        None => Seq::empty(),
    };
    let c = match state {
        Some(s) => seq!["## Current Workflow State\n\n"@ + s],
        None => Seq::empty(),
    };
    a + b + c
}

/// The instructions of the project with those of its workflow and the state of the workflow
/// behind them, as far as there are any.
pub fn merge_workflow_agents_md(
    existing: Option<String>,
    workflow: Option<&str>,
    state_summary: Option<&str>,
) -> (r: Option<String>)
    ensures
        opt(r) == ({
            let p = instruction_parts(opt(existing), opt_str(workflow), opt_str(state_summary));
            if p.len() == 0 {
                None
            } else {
                Some(join(p, "\n\n"@))
            }
        }),
{
    let mut parts: Vec<String> = Vec::new();
    let ghost want = instruction_parts(opt(existing), opt_str(workflow), opt_str(state_summary));
    if let Some(s) = existing {
        parts.push(s);
    }
    if let Some(s) = workflow {
        parts.push(concat2("## Assigned Workflow Instructions\n\n", s));
    }
    if let Some(s) = state_summary {
        parts.push(concat2("## Current Workflow State\n\n", s));
    }
    assert(texts(parts@) =~= want);
    if parts.len() == 0 {
        None
    } else {
        Some(crate::text::joined(&parts, "\n\n"))
    }
}

/// Where the instructions of a workflow stand.
pub open spec fn instructions_path(workflows_dir: Seq<char>, workflow: Seq<char>) -> Seq<char> {
    join_path(join_path(workflows_dir, workflow), "AGENTS.md"@)
}

/// The instructions of a workflow, where its name is one name and the instructions are not
/// blank. `files` are the files that can be read, with what they say.
pub fn workflow_agents_md_content(workflows_dir: &str, workflow: &str, files: &TextMap) -> (r:
    Option<String>)
    ensures
        opt(r) == ({
            let path = instructions_path(workflows_dir@, workflow@);
            if is_usable_key(workflow@) && files@.contains_key(path) && trim(files@[path]).len()
                > 0 {
                Some(files@[path])
            } else {
                None
            }
        }),
{
    if workflow.is_empty() || contains(workflow, "/") || contains(workflow, "\\") || same(
        workflow,
        ".",
    ) || same(workflow, "..") {
        return None;
    }
    let path = joined_path(joined_path(workflows_dir, workflow).as_str(), "AGENTS.md");
    match files.get(path.as_str()) {
        Some(content) => if is_blank(content.as_str()) {
            None
        } else {
            Some(content.clone())
        },
        None => None,
    }
}

/// An entry of the directory of workflows.
pub struct WorkflowEntry {
    pub name: String,
    pub is_dir: bool,
    /// It holds a `workflow.py`.
    pub has_script: bool,
    /// What its `AGENTS.md` says.
    pub agents_md: Option<String>,
}

/// A workflow.
pub struct WorkflowInfo {
    pub name: String,
    pub agents_md: Option<String>,
    pub metadata: Option<WorkflowMeta>,
}

/// The entry is a workflow, and this is it.
pub open spec fn describes(info: WorkflowInfo, entry: WorkflowEntry) -> bool {
    &&& entry.is_dir && entry.has_script
    &&& info.name@ == entry.name@
    &&& opt(info.agents_md) == opt(entry.agents_md)
    &&& meta_view(info.metadata) == match entry.agents_md {
        Some(content) => header_of(content@),
        None => None,
    }
}

pub open spec fn in_order_of_names(infos: Seq<WorkflowInfo>) -> bool {
    forall|i: int, j: int|
        0 <= i < j < infos.len() ==> !precedes(
            (#[trigger] infos[j]).name@,
            (#[trigger] infos[i]).name@,
        )
}

pub open spec fn is_entry(info: WorkflowInfo, entries: Seq<WorkflowEntry>) -> bool {
    exists|k: int| 0 <= k < entries.len() && describes(info, #[trigger] entries[k])
}

pub open spec fn is_listed(infos: Seq<WorkflowInfo>, entry: WorkflowEntry) -> bool {
    exists|i: int| 0 <= i < infos.len() && describes(#[trigger] infos[i], entry)
}

/// Each of the workflows is one of the entries.
pub open spec fn are_entries(infos: Seq<WorkflowInfo>, entries: Seq<WorkflowEntry>) -> bool {
    forall|i: int| 0 <= i < infos.len() ==> is_entry(#[trigger] infos[i], entries)
}

/// Each of the entries that is a workflow is among the workflows.
pub open spec fn all_listed(infos: Seq<WorkflowInfo>, entries: Seq<WorkflowEntry>) -> bool {
    forall|k: int|
        0 <= k < entries.len() && (#[trigger] entries[k]).is_dir && entries[k].has_script
            ==> is_listed(infos, entries[k])
}

pub open spec fn workflow_count(entries: Seq<WorkflowEntry>) -> nat
    decreases entries.len(),
{
    if entries.len() == 0 {
        0
    } else {
        workflow_count(entries.drop_last()) + if entries.last().is_dir
            && entries.last().has_script {
            1nat
        } else {
            0nat
        }
    }
}

/// The place of a name among names in order.
fn place_of_name(infos: &Vec<WorkflowInfo>, name: &str) -> (r: usize)
    requires
        in_order_of_names(infos@),
    ensures
        r <= infos@.len(),
        forall|k: int| 0 <= k < r ==> !precedes(name@, (#[trigger] infos@[k]).name@),
        forall|k: int| r <= k < infos@.len() ==> precedes(name@, (#[trigger] infos@[k]).name@),
{
    let mut at: usize = 0;
    while at < infos.len() && !is_before(name, infos[at].name.as_str())
        invariant
            at <= infos@.len(),
            forall|k: int| 0 <= k < at ==> !precedes(name@, (#[trigger] infos@[k]).name@),
        decreases infos.len() - at,
    {
        at += 1;
    }
    proof {
        assert forall|k: int| at <= k < infos@.len() implies precedes(
            name@,
            (#[trigger] infos@[k]).name@,
        ) by {
            let here = infos@[at as int].name@;
            let there = infos@[k].name@;
            if k > at {
                precedes_is_total(here, there);
                if precedes(here, there) {
                    precedes_is_transitive(name@, here, there);
                }
            }
        }
    }
    at
}

proof fn lemma_order_kept(infos: Seq<WorkflowInfo>, at: int, info: WorkflowInfo)
    requires
        in_order_of_names(infos),
        0 <= at <= infos.len(),
        forall|k: int| 0 <= k < at ==> !precedes(info.name@, (#[trigger] infos[k]).name@),
        forall|k: int| at <= k < infos.len() ==> precedes(info.name@, (#[trigger] infos[k]).name@),
    ensures
        in_order_of_names(infos.insert(at, info)),
{
    let r = infos.insert(at, info);
    assert forall|a: int, b: int| 0 <= a < b < r.len() implies !precedes(
        (#[trigger] r[b]).name@,
        (#[trigger] r[a]).name@,
    ) by {
        if a == at {
            let there = infos[b - 1].name@;
            if precedes(there, info.name@) {
                precedes_is_transitive(info.name@, there, info.name@);
                precedes_is_strict(info.name@);
            }
        } else if b == at {
            assert(r[a] == infos[a]);
        } else {
            let x = if a < at {
                a
            } else {
                a - 1
            };
            let y = if b < at {
                b
            } else {
                b - 1
            };
            assert(r[a] == infos[x] && r[b] == infos[y]);
        }
    }
}

proof fn lemma_entry_added(
    infos: Seq<WorkflowInfo>,
    at: int,
    info: WorkflowInfo,
    entries: Seq<WorkflowEntry>,
    entry: WorkflowEntry,
)
    requires
        0 <= at <= infos.len(),
        are_entries(infos, entries),
        all_listed(infos, entries),
        describes(info, entry),
    ensures
        are_entries(infos.insert(at, info), entries.push(entry)),
        all_listed(infos.insert(at, info), entries.push(entry)),
{
    let r = infos.insert(at, info);
    let now = entries.push(entry);
    assert forall|a: int| 0 <= a < r.len() implies is_entry(#[trigger] r[a], now) by {
        if a == at {
            assert(describes(r[a], now[entries.len() as int]));
        } else {
            let x = if a < at {
                a
            } else {
                a - 1
            };
            assert(r[a] == infos[x]);
            assert(is_entry(infos[x], entries));
            let k = choose|k: int|
                0 <= k < entries.len() && describes(infos[x], #[trigger] entries[k]);
            assert(now[k] == entries[k]);
        }
    }
    assert forall|k: int|
        0 <= k < now.len() && (#[trigger] now[k]).is_dir && now[k].has_script implies is_listed(
        r,
        now[k],
    ) by {
        if k == entries.len() {
            assert(describes(r[at], now[k]));
        } else {
            assert(now[k] == entries[k]);
            assert(is_listed(infos, entries[k]));
            let x = choose|x: int|
                0 <= x < infos.len() && describes(#[trigger] infos[x], entries[k]);
            let a = if x < at {
                x
            } else {
                x + 1
            };
            assert(r[a] == infos[x]);
        }
    }
}

proof fn lemma_entry_passed_over(
    infos: Seq<WorkflowInfo>,
    entries: Seq<WorkflowEntry>,
    entry: WorkflowEntry,
)
    requires
        are_entries(infos, entries),
        all_listed(infos, entries),
        !(entry.is_dir && entry.has_script),
    ensures
        are_entries(infos, entries.push(entry)),
        all_listed(infos, entries.push(entry)),
{
    let now = entries.push(entry);
    assert forall|a: int| 0 <= a < infos.len() implies is_entry(#[trigger] infos[a], now) by {
        assert(is_entry(infos[a], entries));
        let k = choose|k: int|
            0 <= k < entries.len() && describes(infos[a], #[trigger] entries[k]);
        assert(now[k] == entries[k]);
    }
    assert forall|k: int|
        0 <= k < now.len() && (#[trigger] now[k]).is_dir && now[k].has_script implies is_listed(
        infos,
        now[k],
    ) by {
        assert(now[k] == entries[k]);
    }
}

fn workflow_of(entry: &WorkflowEntry) -> (r: WorkflowInfo)
    requires
        entry.is_dir && entry.has_script,
    ensures
        describes(r, *entry),
{
    let metadata = match &entry.agents_md {
        Some(content) => parse_agents_md_frontmatter(content.as_str()),
        None => None,
    };
    WorkflowInfo { name: entry.name.clone(), agents_md: entry.agents_md.clone(), metadata }
}

/// The workflows among the entries of their directory, in the order of their names.
pub fn discover_workflows(entries: &Vec<WorkflowEntry>) -> (r: Vec<WorkflowInfo>)
    ensures
        in_order_of_names(r@),
        are_entries(r@, entries@),
        all_listed(r@, entries@),
        r@.len() == workflow_count(entries@),
{
    let mut r: Vec<WorkflowInfo> = Vec::new();
    let mut i: usize = 0;
    while i < entries.len()
        invariant
            i <= entries.len(),
            in_order_of_names(r@),
            are_entries(r@, entries@.take(i as int)),
            all_listed(r@, entries@.take(i as int)),
            r@.len() == workflow_count(entries@.take(i as int)),
        decreases entries.len() - i,
    {
        let ghost seen = entries@.take(i as int);
        let entry = &entries[i];
        assert(entries@.take(i + 1) =~= seen.push(*entry));
        assert(seen.push(*entry).drop_last() =~= seen);
        if entry.is_dir && entry.has_script {
            let info = workflow_of(entry);
            let at = place_of_name(&r, info.name.as_str());
            proof {
                lemma_order_kept(r@, at as int, info);
                lemma_entry_added(r@, at as int, info, seen, *entry);
            }
            r.insert(at, info);
        } else {
            proof {
                lemma_entry_passed_over(r@, seen, *entry);
            }
        }
        i += 1;
    }
    assert(entries@.take(i as int) =~= entries@);
    r
}

/// The items of a list are its pieces that are not blank, in their order, without the white
/// space around them.
pub proof fn items_are_the_pieces_that_are_not_blank(pieces: Seq<Seq<char>>)
    ensures
        gathers(
            pieces,
            |piece: Seq<char>| trim(piece).len() > 0,
            |piece: Seq<char>| trim(piece),
            tidy(pieces),
        ),
    decreases pieces.len(),
{
    let wanted = |piece: Seq<char>| trim(piece).len() > 0;
    let told = |piece: Seq<char>| trim(piece);
    if pieces.len() == 0 {
        gathering_goes_item_by_item(pieces, pieces[0], wanted, told, Seq::<Seq<char>>::empty());
        assert(pieces =~= Seq::<Seq<char>>::empty());
        assert(tidy(pieces) =~= Seq::<Seq<char>>::empty());
    } else {
        let init = pieces.drop_last();
        items_are_the_pieces_that_are_not_blank(init);
        assert(pieces =~= init.push(pieces.last()));
        gathering_goes_item_by_item(init, pieces.last(), wanted, told, tidy(init));
    }
}

/// A list stands in square brackets with commas between its items; what does not stand in
/// brackets has no items.
pub proof fn lists_stand_in_brackets(s: Seq<char>, inner: Seq<char>)
    ensures
        trim(s) == seq!['['] + inner + seq![']'] ==> bracketed(s) == tidy(split(inner, ',')),
        trim(s).len() < 2 ==> bracketed(s).len() == 0,
        trim(s).len() > 0 && (trim(s)[0] != '[' || trim(s).last() != ']') ==> bracketed(s).len() == 0,
{
    let t = trim(s);
    if t == seq!['['] + inner + seq![']'] {
        assert(t.subrange(1, t.len() - 1) =~= inner);
    }
}

/// A text that is blank counts as none.
pub proof fn blank_texts_count_as_none(s: Seq<char>)
    ensures
        trim(s).len() == 0 ==> some_text(s) is None,
        trim(s).len() > 0 ==> some_text(s) == Some(trim(s)),
        is_indented(s) <==> s.len() > 0 && is_space(s[0]),
        is_marker(s) <==> trim(s) == "---"@,
{
}

/// A line of a header that names a field sets that field and no other, and ends the section of
/// transitions.
pub proof fn header_lines_set_their_field(
    meta: MetaView,
    in_transitions: bool,
    line: Seq<char>,
    rest: Seq<char>,
)
    requires
        !(in_transitions && is_indented(line)),
    ensures
        trim(line) == "name:"@ + rest ==> after_header_line((meta, in_transitions), line) == (
            MetaView { name: some_text(rest), ..meta },
            false,
        ),
        trim(line) == "description:"@ + rest ==> after_header_line((meta, in_transitions), line) == (
            MetaView { description: some_text(rest), ..meta },
            false,
        ),
        trim(line) == "states:"@ + rest ==> after_header_line((meta, in_transitions), line) == (
            MetaView { states: bracketed(rest), ..meta },
            false,
        ),
        trim(line) == "transitions:"@ + rest ==> after_header_line((meta, in_transitions), line) == (
            meta,
            true,
        ),
        !starts(trim(line), "name:"@) && !starts(trim(line), "description:"@) && !starts(
            trim(line),
            "states:"@,
        ) && !starts(trim(line), "transitions:"@) ==> after_header_line(
            (meta, in_transitions),
            line,
        ) == (meta, false),
{
    reveal_strlit("name:");
    reveal_strlit("description:");
    reveal_strlit("states:");
    reveal_strlit("transitions:");
    assert("name:"@[0] == 'n' && "description:"@[0] == 'd' && "states:"@[0] == 's'
        && "transitions:"@[0] == 't');
    let t = trim(line);
    lemma_start(t, "name:"@, rest);
    lemma_start(t, "description:"@, rest);
    lemma_start(t, "states:"@, rest);
    lemma_start(t, "transitions:"@, rest);
}

proof fn lemma_start(t: Seq<char>, start: Seq<char>, rest: Seq<char>)
    requires
        start.len() > 0,
    ensures
        t == start + rest ==> starts(t, start) && t.skip(start.len() as int) == rest,
        starts(t, start) ==> t.len() > 0 && t[0] == start[0],
{
    if t == start + rest {
        assert(t.subrange(0, start.len() as int) =~= start);
        assert(t.skip(start.len() as int) =~= rest);
    }
    if starts(t, start) {
        assert(t.subrange(0, start.len() as int)[0] == t[0]);
    }
}

/// In the section of transitions an indented line tells a state and those that may follow it,
/// with the first colon between them; an indented line without a colon tells nothing.
pub proof fn indented_lines_tell_transitions(
    meta: MetaView,
    line: Seq<char>,
    from: Seq<char>,
    to: Seq<char>,
)
    requires
        is_indented(line),
    ensures
        cut(trim(line), ':') == Some((from, to)) ==> after_header_line((meta, true), line) == (
            MetaView { transitions: meta.transitions.push((trim(from), bracketed(to))), ..meta },
            true,
        ),
        !trim(line).contains(':') ==> after_header_line((meta, true), line) == (meta, true),
{
    crate::text::cutting_drops_the_first_separator(trim(line), ':');
}

/// A header says nothing before its first line, and is read line by line.
pub proof fn headers_are_read_line_by_line(ls: Seq<Seq<char>>, line: Seq<char>)
    ensures
        after_header_lines(Seq::<Seq<char>>::empty()) == (
            MetaView {
                name: None,
                description: None,
                states: Seq::empty(),
                transitions: Seq::empty(),
            },
            false,
        ),
        after_header_lines(ls.push(line)) == after_header_line(after_header_lines(ls), line),
{
    assert(ls.push(line).drop_last() =~= ls);
}

/// The header stands between a marker on the first line and the next marker; without either
/// there is none.
pub proof fn headers_stand_between_markers(
    first: Seq<char>,
    header: Seq<Seq<char>>,
    second: Seq<char>,
    behind: Seq<Seq<char>>,
)
    requires
        forall|k: int| 0 <= k < header.len() ==> trim(#[trigger] header[k]) != "---"@,
    ensures
        trim(first) == "---"@ && trim(second) == "---"@ ==> header_lines(
            seq![first] + header + seq![second] + behind,
        ) == Some(header),
        trim(first) != "---"@ ==> header_lines(seq![first] + header + seq![second] + behind) is None,
        header_lines(seq![first] + header) is None,
        header_lines(Seq::<Seq<char>>::empty()) is None,
{
    let all = seq![first] + header + seq![second] + behind;
    let rest = all.skip(1);
    let n = header.len() as int;
    assert(all[0] == first);
    assert(rest =~= header + seq![second] + behind);
    assert forall|k: int| 0 <= k < n implies !is_marker(#[trigger] rest[k]) by {
        assert(rest[k] == header[k]);
    }
    if trim(second) == "---"@ {
        assert(rest[n] == second);
        lemma_marker_found(rest, n);
        assert(rest.take(n) =~= header);
    }
    assert forall|k: int| 0 <= k < header.len() implies !is_marker(#[trigger] header[k]) by {}
    lemma_marker_missing(header);
    assert((seq![first] + header).skip(1) =~= header);
}

/// What a header says is what its lines say; instructions without a header say nothing there.
pub proof fn headers_say_what_their_lines_say(content: Seq<char>)
    ensures
        header_lines(lines(content)) matches Some(ls) ==> header_of(content) == Some(
            after_header_lines(ls).0,
        ),
        header_lines(lines(content)) is None ==> header_of(content) is None,
{
}

/// The last line on a state tells what may follow it.
pub proof fn the_last_line_on_a_state_counts(
    t: Seq<(Seq<char>, Seq<Seq<char>>)>,
    e: (Seq<char>, Seq<Seq<char>>),
    other: Seq<char>,
)
    ensures
        WorkflowMeta::next_states(Seq::<(Seq<char>, Seq<Seq<char>>)>::empty(), other) is None,
        WorkflowMeta::next_states(t.push(e), e.0) == Some(e.1),
        other != e.0 ==> WorkflowMeta::next_states(t.push(e), other) == WorkflowMeta::next_states(
            t,
            other,
        ),
{
    assert(t.push(e).drop_last() =~= t);
}

/// Merged instructions are those of the project, then those of the workflow and then its state,
/// the latter two under a heading; what is missing is left out.
pub proof fn instructions_are_merged_in_order(a: Seq<char>, b: Seq<char>, c: Seq<char>)
    ensures
        instruction_parts(Some(a), Some(b), Some(c)) == seq![
            a,
            "## Assigned Workflow Instructions\n\n"@ + b,
            "## Current Workflow State\n\n"@ + c,
        ],
        instruction_parts(Some(a), None, None) == seq![a],
        instruction_parts(None, Some(b), None) == seq![
            "## Assigned Workflow Instructions\n\n"@ + b,
        ],
        instruction_parts(None, None, Some(c)) == seq!["## Current Workflow State\n\n"@ + c],
        instruction_parts(Some(a), Some(b), None) == seq![
            a,
            "## Assigned Workflow Instructions\n\n"@ + b,
        ],
        instruction_parts(Some(a), None, Some(c)) == seq![
            a,
            "## Current Workflow State\n\n"@ + c,
        ],
        instruction_parts(None, Some(b), Some(c)) == seq![
            "## Assigned Workflow Instructions\n\n"@ + b,
            "## Current Workflow State\n\n"@ + c,
        ],
        instruction_parts(None, None, None).len() == 0,
        instructions_path(a, b) == join_path(join_path(a, b), "AGENTS.md"@),
{
}

/// A workflow is a directory with a script; it bears the name of the directory, and says what the
/// header of its instructions says.
pub proof fn workflows_are_directories_with_a_script(info: WorkflowInfo, entry: WorkflowEntry)
    ensures
        describes(info, entry) <==> {
            &&& entry.is_dir
            &&& entry.has_script
            &&& info.name@ == entry.name@
            &&& opt(info.agents_md) == opt(entry.agents_md)
            &&& entry.agents_md is None ==> info.metadata is None
            &&& entry.agents_md matches Some(content) ==> match info.metadata {
                Some(meta) => header_of(content@) == Some(meta@),
                None => header_of(content@) is None,
            }
        },
{
}

/// There are as many workflows as directories with a script.
pub proof fn workflows_are_counted(entries: Seq<WorkflowEntry>)
    ensures
        counts(entries, |e: WorkflowEntry| e.is_dir && e.has_script, workflow_count(entries)),
    decreases entries.len(),
{
    let wanted = |e: WorkflowEntry| e.is_dir && e.has_script;
    if entries.len() == 0 {
        counting_goes_item_by_item(entries, entries[0], wanted, 0);
        assert(entries =~= Seq::<WorkflowEntry>::empty());
    } else {
        let init = entries.drop_last();
        workflows_are_counted(init);
        assert(entries =~= init.push(entries.last()));
        counting_goes_item_by_item(init, entries.last(), wanted, workflow_count(init));
    }
}

/// The workflows that are found stand in the order of their names.
pub proof fn workflows_stand_in_the_order_of_their_names(infos: Seq<WorkflowInfo>, i: int, j: int)
    requires
        in_order_of_names(infos),
        0 <= i < j < infos.len(),
    ensures
        infos[i].name@ == infos[j].name@ || precedes(infos[i].name@, infos[j].name@),
{
    precedes_is_total(infos[i].name@, infos[j].name@);
}

/// Each workflow that is found is a directory with a script.
pub proof fn found_workflows_are_directories_with_a_script(
    infos: Seq<WorkflowInfo>,
    entries: Seq<WorkflowEntry>,
    i: int,
)
    requires
        are_entries(infos, entries),
        0 <= i < infos.len(),
    ensures
        exists|k: int|
            0 <= k < entries.len() && (#[trigger] entries[k]).is_dir && entries[k].has_script
                && entries[k].name@ == infos[i].name@ && opt(entries[k].agents_md) == opt(
                infos[i].agents_md,
            ),
{
    assert(is_entry(infos[i], entries));
    let k = choose|k: int| 0 <= k < entries.len() && describes(infos[i], #[trigger] entries[k]);
    assert(entries[k].is_dir);
}

/// Each directory with a script is among the workflows that are found.
pub proof fn every_directory_with_a_script_is_found(
    infos: Seq<WorkflowInfo>,
    entries: Seq<WorkflowEntry>,
    k: int,
)
    requires
        all_listed(infos, entries),
        0 <= k < entries.len(),
        entries[k].is_dir,
        entries[k].has_script,
    ensures
        exists|i: int|
            0 <= i < infos.len() && (#[trigger] infos[i]).name@ == entries[k].name@ && opt(
                infos[i].agents_md,
            ) == opt(entries[k].agents_md),
{
    assert(is_listed(infos, entries[k]));
    let i = choose|i: int| 0 <= i < infos.len() && describes(#[trigger] infos[i], entries[k]);
    assert(infos[i].name@ == entries[k].name@);
}

} // verus!
