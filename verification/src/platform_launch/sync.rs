//! Making one directory hold what another holds.
//!
//! The steps follow from what the two directories hold. What a step does to a directory is
//! stated over trees of files, and the steps are proved to leave the destination with exactly
//! what the source holds.

use vstd::prelude::*;

use crate::text::same;

verus! {

/// An entry of the source directory: a file, or a directory with its entries.
pub struct SourceEntry {
    pub name: String,
    pub dir: Option<Vec<SourceEntry>>,
}

/// An entry of the destination: a file, or a directory with its entries.
pub struct DestEntry {
    pub name: String,
    pub dir: Option<Vec<DestEntry>>,
    /// It is the directory of the source itself, reached in another way.
    pub is_source: bool,
}

/// What is done to an entry of the destination.
pub enum SyncAction {
    /// Nothing.
    Keep,
    /// The file is copied, after what stands there has been removed.
    Copy { remove_first: bool },
    /// The directory is made, where it is missing, after a file that stands there has been
    /// removed; then come the steps inside it.
    Enter { remove_first: bool, steps: Vec<SyncStep> },
    /// The entry is removed with all that it holds.
    Remove,
}

pub struct SyncStep {
    pub name: String,
    pub action: SyncAction,
}

/// The entry with a name.
pub open spec fn dest_entry(dest: Seq<DestEntry>, name: Seq<char>) -> Option<DestEntry>
    decreases dest.len(),
{
    if dest.len() == 0 {
        None
    } else if dest.last().name@ == name {
        Some(dest.last())
    } else {
        dest_entry(dest.drop_last(), name)
    }
}

pub open spec fn source_has(source: Seq<SourceEntry>, name: Seq<char>) -> bool {
    exists|i: int| 0 <= i < source.len() && (#[trigger] source[i]).name@ == name
}

/// The step for an entry of the source.
pub open spec fn is_step_for(source: SourceEntry, dest: Seq<DestEntry>, step: SyncStep) -> bool
    decreases source,
{
    &&& step.name@ == source.name@
    &&& match (source.dir, dest_entry(dest, source.name@)) {
        (None, there) => step.action == (SyncAction::Copy { remove_first: there is Some }),
        (Some(inside), None) => step.action matches SyncAction::Enter { remove_first, steps }
            && !remove_first && are_steps_for(inside@, Seq::empty(), steps@),
        (Some(inside), Some(there)) => match there.dir {
            None => step.action matches SyncAction::Enter { remove_first, steps } && remove_first
                && are_steps_for(inside@, Seq::empty(), steps@),
            Some(has) => if there.is_source {
                step.action is Keep
            } else {
                step.action matches SyncAction::Enter { remove_first, steps } && !remove_first
                    && are_steps_for(inside@, has@, steps@)
            },
        },
    }
}

/// The steps for a directory: one for each entry of the source, and then one for each entry of
/// the destination that the source lacks.
pub open spec fn are_steps_for(
    source: Seq<SourceEntry>,
    dest: Seq<DestEntry>,
    steps: Seq<SyncStep>,
) -> bool
    decreases source,
{
    &&& steps.len() >= source.len()
    &&& forall|i: int|
        0 <= i < source.len() ==> is_step_for(source[i], dest, #[trigger] steps[i])
    &&& are_removals(stale(source, dest), steps.skip(source.len() as int))
}

/// The names that the source lacks.
pub open spec fn stale(source: Seq<SourceEntry>, dest: Seq<DestEntry>) -> Seq<Seq<char>>
    decreases dest.len(),
{
    if dest.len() == 0 {
        Seq::empty()
    } else if source_has(source, dest.last().name@) {
        stale(source, dest.drop_last())
    } else {
        stale(source, dest.drop_last()).push(dest.last().name@)
    }
}

pub open spec fn are_removals(names: Seq<Seq<char>>, steps: Seq<SyncStep>) -> bool {
    &&& steps.len() == names.len()
    &&& forall|i: int|
        0 <= i < steps.len() ==> (#[trigger] steps[i]).name@ == names[i] && steps[i].action is Remove
}

fn find_dest<'a>(dest: &'a Vec<DestEntry>, name: &str) -> (r: Option<&'a DestEntry>)
    ensures
        match r {
            Some(e) => dest_entry(dest@, name@) == Some(*e),
            None => dest_entry(dest@, name@) is None,
        },
{
    let mut i: usize = dest.len();
    assert(dest@.take(i as int) =~= dest@);
    while i > 0
        invariant
            i <= dest.len(),
            dest_entry(dest@, name@) == dest_entry(dest@.take(i as int), name@),
        decreases i,
    {
        assert(dest@.take(i as int).drop_last() =~= dest@.take(i - 1));
        assert(dest@.take(i as int).last() == dest@[i - 1]);
        if same(dest[i - 1].name.as_str(), name) {
            return Some(&dest[i - 1]);
        }
        i -= 1;
    }
    None
}

fn has_source(source: &Vec<SourceEntry>, name: &str) -> (r: bool)
    ensures
        r == source_has(source@, name@),
{
    let mut i: usize = 0;
    while i < source.len()
        invariant
            i <= source.len(),
            forall|k: int| 0 <= k < i ==> (#[trigger] source@[k]).name@ != name@,
        decreases source.len() - i,
    {
        if same(source[i].name.as_str(), name) {
            assert(source@[i as int].name@ == name@);
            return true;
        }
        i += 1;
    }
    false
}

/// The steps that remove what the source lacks.
fn removal_steps(source: &Vec<SourceEntry>, dest: &Vec<DestEntry>) -> (r: Vec<SyncStep>)
    ensures
        are_removals(stale(source@, dest@), r@),
{
    let mut r: Vec<SyncStep> = Vec::new();
    let mut i: usize = 0;
    while i < dest.len()
        invariant
            i <= dest.len(),
            are_removals(stale(source@, dest@.take(i as int)), r@),
        decreases dest.len() - i,
    {
        assert(dest@.take(i + 1).drop_last() =~= dest@.take(i as int));
        if !has_source(source, dest[i].name.as_str()) {
            r.push(SyncStep { name: dest[i].name.clone(), action: SyncAction::Remove });
        }
        i += 1;
    }
    assert(dest@.take(i as int) =~= dest@);
    r
}

fn step_for(source: &SourceEntry, dest: &Vec<DestEntry>) -> (r: SyncStep)
    ensures
        is_step_for(*source, dest@, r),
    decreases source, 0nat,
{
    let name = source.name.clone();
    let there = find_dest(dest, source.name.as_str());
    match &source.dir {
        None => {
            SyncStep { name, action: SyncAction::Copy { remove_first: there.is_some() } }
        },
        Some(inside) => {
            proof {
                assert(decreases_to!(*source => source.dir));
                assert(decreases_to!(source.dir => source.dir->0));
                assert(decreases_to!(*inside => inside@));
            }
            let nothing: Vec<DestEntry> = Vec::new();
            assert(nothing@ =~= Seq::<DestEntry>::empty());
            match there {
                None => {
                    let steps = sync_steps(inside, &nothing);
                    SyncStep { name, action: SyncAction::Enter { remove_first: false, steps } }
                },
                Some(entry) => match &entry.dir {
                    None => {
                        let steps = sync_steps(inside, &nothing);
                        SyncStep { name, action: SyncAction::Enter { remove_first: true, steps } }
                    },
                    Some(has) => {
                        if entry.is_source {
                            SyncStep { name, action: SyncAction::Keep }
                        } else {
                            let steps = sync_steps(inside, has);
                            SyncStep {
                                name,
                                action: SyncAction::Enter { remove_first: false, steps },
                            }
                        }
                    },
                },
            }
        },
    }
}

fn sync_steps(source: &Vec<SourceEntry>, dest: &Vec<DestEntry>) -> (r: Vec<SyncStep>)
    ensures
        are_steps_for(source@, dest@, r@),
    decreases source@, 1nat,
{
    let mut r: Vec<SyncStep> = Vec::new();
    let mut i: usize = 0;
    while i < source.len()
        invariant
            i <= source.len(),
            r@.len() == i,
            forall|k: int| 0 <= k < i ==> is_step_for(source@[k], dest@, #[trigger] r@[k]),
        decreases source.len() - i,
    {
        proof {
            assert(decreases_to!(source@ => source@[i as int]));
        }
        let ghost before = r@;
        let step = step_for(&source[i], dest);
        r.push(step);
        assert(r@ =~= before.push(step));
        i += 1;
    }
    let ghost first = r@;
    let mut removals = removal_steps(source, dest);
    let ghost last = removals@;
    r.append(&mut removals);
    proof {
        assert(r@ =~= first + last);
        assert(r@.skip(source@.len() as int) =~= last);
        assert forall|k: int| 0 <= k < source@.len() implies is_step_for(
            source@[k],
            dest@,
            #[trigger] r@[k],
        ) by {
            assert(r@[k] == first[k]);
        }
    }
    r
}

/// The steps that make the destination hold what the source holds. There are none where the
/// two are one directory.
pub fn sync_directory_with_cleanup(
    paths_match: bool,
    source: &Vec<SourceEntry>,
    destination: &Vec<DestEntry>,
) -> (r: Vec<SyncStep>)
    ensures
        paths_match ==> r@.len() == 0,
        !paths_match ==> are_steps_for(source@, destination@, r@),
{
    if paths_match {
        return Vec::new();
    }
    sync_steps(source, destination)
}

/// What stands under a name: a file with what it says, or a directory with what it holds.
pub enum Tree {
    File(Seq<char>),
    Dir(Map<Seq<char>, Tree>),
}

pub open spec fn inside(t: Tree) -> Map<Seq<char>, Tree> {
    match t {
        Tree::Dir(m) => m,
        Tree::File(_) => Map::empty(),
    }
}

/// What a step leaves of the destination, or nothing where it cannot be done: it copies over
/// nothing, removes only what is there, and enters only directories.
pub open spec fn after_step(
    step: SyncStep,
    dest: Map<Seq<char>, Tree>,
    source: Map<Seq<char>, Tree>,
) -> Option<Map<Seq<char>, Tree>>
    decreases step,
{
    let name = step.name@;
    match step.action {
        SyncAction::Keep => Some(dest),
        SyncAction::Remove => if dest.contains_key(name) {
            Some(dest.remove(name))
        } else {
            None
        },
        SyncAction::Copy { remove_first } => if dest.contains_key(name) == remove_first
            && source.contains_key(name) && source[name] is File {
            Some(dest.insert(name, source[name]))
        } else {
            None
        },
        SyncAction::Enter { remove_first, steps } => if remove_first && !dest.contains_key(name) {
            None
        } else if !remove_first && dest.contains_key(name) && dest[name] is File {
            None
        } else {
            let has = if !remove_first && dest.contains_key(name) {
                inside(dest[name])
            } else {
                Map::empty()
            };
            match after_steps(steps@, has, inside(source[name])) {
                Some(m) => Some(dest.insert(name, Tree::Dir(m))),
                None => None,
            }
        },
    }
}

pub open spec fn after_steps(
    steps: Seq<SyncStep>,
    dest: Map<Seq<char>, Tree>,
    source: Map<Seq<char>, Tree>,
) -> Option<Map<Seq<char>, Tree>>
    decreases steps,
{
    if steps.len() == 0 {
        Some(dest)
    } else {
        match after_steps(steps.drop_last(), dest, source) {
            Some(m) => after_step(steps.last(), m, source),
            None => None,
        }
    }
}

/// The entries tell what the source directory holds.
pub open spec fn tells_source(entries: Seq<SourceEntry>, tree: Map<Seq<char>, Tree>) -> bool
    decreases entries,
{
    &&& forall|i: int, j: int|
        0 <= i < j < entries.len() ==> (#[trigger] entries[i]).name@ != (
        #[trigger] entries[j]).name@
    &&& forall|name: Seq<char>| tree.contains_key(name) ==> #[trigger] source_has(entries, name)
    &&& forall|i: int| 0 <= i < entries.len() ==> tells_source_entry(#[trigger] entries[i], tree)
}

pub open spec fn tells_source_entry(entry: SourceEntry, tree: Map<Seq<char>, Tree>) -> bool
    decreases entry,
{
    &&& tree.contains_key(entry.name@)
    &&& match (entry.dir, tree[entry.name@]) {
        (None, Tree::File(_)) => true,
        (Some(has), Tree::Dir(m)) => tells_source(has@, m),
        _ => false,
    }
}

/// The entries tell what the destination holds. What stands for the source itself holds the
/// same as the source.
pub open spec fn tells_dest(
    entries: Seq<DestEntry>,
    tree: Map<Seq<char>, Tree>,
    source: Map<Seq<char>, Tree>,
) -> bool
    decreases entries,
{
    &&& forall|i: int, j: int|
        0 <= i < j < entries.len() ==> (#[trigger] entries[i]).name@ != (
        #[trigger] entries[j]).name@
    &&& forall|name: Seq<char>| #[trigger]
        tree.contains_key(name) ==> dest_entry(entries, name) is Some
    &&& forall|i: int|
        0 <= i < entries.len() ==> tells_dest_entry(#[trigger] entries[i], tree, source)
}

pub open spec fn tells_dest_entry(
    entry: DestEntry,
    tree: Map<Seq<char>, Tree>,
    source: Map<Seq<char>, Tree>,
) -> bool
    decreases entry,
{
    let name = entry.name@;
    &&& tree.contains_key(name)
    &&& match (entry.dir, tree[name]) {
        (None, Tree::File(_)) => true,
        (Some(has), Tree::Dir(m)) => {
            &&& entry.is_source ==> source.contains_key(name) && source[name] == tree[name]
            &&& source.contains_key(name) ==> tells_dest(has@, m, inside(source[name]))
        },
        _ => false,
    }
}

proof fn lemma_dest_entry(dest: Seq<DestEntry>, name: Seq<char>)
    ensures
        match dest_entry(dest, name) {
            Some(e) => e.name@ == name && exists|i: int|
                0 <= i < dest.len() && #[trigger] dest[i] == e,
            None => forall|i: int| 0 <= i < dest.len() ==> (#[trigger] dest[i]).name@ != name,
        },
    decreases dest.len(),
{
    if dest.len() > 0 {
        if dest.last().name@ == name {
            assert(dest[dest.len() - 1] == dest.last());
        } else {
            let init = dest.drop_last();
            lemma_dest_entry(init, name);
            match dest_entry(init, name) {
                Some(e) => {
                    let i = choose|i: int| 0 <= i < init.len() && #[trigger] init[i] == e;
                    assert(dest[i] == e);
                },
                None => {
                    assert forall|i: int| 0 <= i < dest.len() implies (#[trigger] dest[i]).name@
                        != name by {
                        if i < init.len() {
                            assert(init[i] == dest[i]);
                        }
                    }
                },
            }
        }
    }
}

proof fn lemma_nothing_tells_nothing(source: Map<Seq<char>, Tree>)
    ensures
        tells_dest(Seq::<DestEntry>::empty(), Map::<Seq<char>, Tree>::empty(), source),
{
}

/// One step for an entry of the source does what it should.
proof fn lemma_step_done(
    entry: SourceEntry,
    entries: Seq<DestEntry>,
    step: SyncStep,
    before: Map<Seq<char>, Tree>,
    dest: Map<Seq<char>, Tree>,
    source: Map<Seq<char>, Tree>,
)
    requires
        is_step_for(entry, entries, step),
        tells_source_entry(entry, source),
        tells_dest(entries, before, source),
        dest.contains_key(entry.name@) == before.contains_key(entry.name@),
        dest.contains_key(entry.name@) ==> dest[entry.name@] == before[entry.name@],
    ensures
        after_step(step, dest, source) == Some(dest.insert(entry.name@, source[entry.name@])),
    decreases entry, 0nat,
{
    let name = entry.name@;
    lemma_dest_entry(entries, name);
    let there = dest_entry(entries, name);
    if there is Some {
        let i = choose|i: int| 0 <= i < entries.len() && #[trigger] entries[i] == there->0;
        assert(tells_dest_entry(entries[i], before, source));
    }
    match entry.dir {
        None => {},
        Some(has) => {
            assert(decreases_to!(entry => entry.dir));
            assert(decreases_to!(entry.dir => entry.dir->0));
            assert(decreases_to!(has => has@));
            let m = source[name]->Dir_0;
            let nothing = Map::<Seq<char>, Tree>::empty();
            match there {
                Some(e) if e.dir is Some && e.is_source => {
                    assert(dest.insert(name, source[name]) =~= dest);
                },
                Some(e) if e.dir is Some => {
                    let steps = step.action->steps;
                    lemma_steps_mirror(has@, (e.dir->0)@, steps@, before[name]->Dir_0, m);
                },
                _ => {
                    let steps = step.action->steps;
                    lemma_nothing_tells_nothing(m);
                    lemma_steps_mirror(has@, Seq::empty(), steps@, nothing, m);
                },
            }
        },
    }
}

/// The state after the steps for the first entries of the source.
proof fn lemma_copies_done(
    source: Seq<SourceEntry>,
    entries: Seq<DestEntry>,
    steps: Seq<SyncStep>,
    k: int,
    dest: Map<Seq<char>, Tree>,
    tree: Map<Seq<char>, Tree>,
) -> (m: Map<Seq<char>, Tree>)
    requires
        0 <= k <= source.len() <= steps.len(),
        forall|i: int|
            0 <= i < source.len() ==> is_step_for(source[i], entries, #[trigger] steps[i]),
        tells_source(source, tree),
        tells_dest(entries, dest, tree),
    ensures
        after_steps(steps.take(k), dest, tree) == Some(m),
        forall|i: int|
            0 <= i < k ==> m.contains_key((#[trigger] source[i]).name@) && m[source[i].name@]
                == tree[source[i].name@],
        forall|name: Seq<char>|
            (forall|i: int| 0 <= i < k ==> (#[trigger] source[i]).name@ != name) ==> (
            #[trigger] m.contains_key(name) == dest.contains_key(name)) && (m.contains_key(name)
                ==> m[name] == dest[name]),
    decreases source, 1nat, k,
{
    if k == 0 {
        assert(steps.take(0) =~= Seq::<SyncStep>::empty());
        dest
    } else {
        let before = lemma_copies_done(source, entries, steps, k - 1, dest, tree);
        assert(steps.take(k).drop_last() =~= steps.take(k - 1));
        assert(steps.take(k).last() == steps[k - 1]);
        let entry = source[k - 1];
        assert(decreases_to!(source => source[k - 1]));
        assert(tells_source_entry(source[k - 1], tree));
        assert(forall|i: int| 0 <= i < k - 1 ==> (#[trigger] source[i]).name@ != entry.name@);
        assert(before.contains_key(entry.name@) == dest.contains_key(entry.name@));
        lemma_step_done(entry, entries, steps[k - 1], dest, before, tree);
        let m = before.insert(entry.name@, tree[entry.name@]);
        assert forall|i: int| 0 <= i < k implies m.contains_key((#[trigger] source[i]).name@)
            && m[source[i].name@] == tree[source[i].name@] by {
            if i < k - 1 {
                assert(source[i].name@ != source[k - 1].name@);
            }
        }
        assert forall|name: Seq<char>|
            (forall|i: int| 0 <= i < k ==> (#[trigger] source[i]).name@ != name) implies (
        #[trigger] m.contains_key(name) == dest.contains_key(name)) && (m.contains_key(name)
            ==> m[name] == dest[name]) by {
            assert(source[k - 1].name@ != name);
            assert(before.contains_key(name) == dest.contains_key(name));
        }
        m
    }
}

proof fn lemma_stale(source: Seq<SourceEntry>, dest: Seq<DestEntry>)
    requires
        forall|i: int, j: int|
            0 <= i < j < dest.len() ==> (#[trigger] dest[i]).name@ != (#[trigger] dest[j]).name@,
    ensures
        stale(source, dest).no_duplicates(),
        forall|name: Seq<char>|
            stale(source, dest).contains(name) <==> (#[trigger] dest_entry(dest, name) is Some
                && !source_has(source, name)),
    decreases dest.len(),
{
    if dest.len() > 0 {
        let init = dest.drop_last();
        let last = dest.last().name@;
        assert forall|i: int, j: int| 0 <= i < j < init.len() implies (#[trigger] init[i]).name@
            != (#[trigger] init[j]).name@ by {
            assert(init[i] == dest[i] && init[j] == dest[j]);
        }
        lemma_stale(source, init);
        lemma_dest_entry(init, last);
        assert(dest_entry(init, last) is None) by {
            if dest_entry(init, last) is Some {
                let i = choose|i: int|
                    0 <= i < init.len() && #[trigger] init[i] == dest_entry(init, last)->0;
                assert(dest[i].name@ != dest[dest.len() - 1].name@);
            }
        }
        let s = stale(source, dest);
        let t = stale(source, init);
        assert(!t.contains(last));
        assert forall|name: Seq<char>|
            s.contains(name) <==> (#[trigger] dest_entry(dest, name) is Some && !source_has(
                source,
                name,
            )) by {
            assert(dest_entry(init, name) is Some ==> dest_entry(dest, name) is Some);
            assert(t.contains(name) <==> dest_entry(init, name) is Some && !source_has(
                source,
                name,
            ));
            if !source_has(source, last) {
                assert(s == t.push(last));
                if s.contains(name) {
                    let i = choose|i: int| 0 <= i < s.len() && s[i] == name;
                    if i < t.len() {
                        assert(t[i] == name);
                    }
                }
                if t.contains(name) {
                    let i = choose|i: int| 0 <= i < t.len() && t[i] == name;
                    assert(s[i] == name);
                }
                assert(s[t.len() as int] == last);
            }
        }
        assert(s.no_duplicates()) by {
            if !source_has(source, last) {
                assert forall|i: int, j: int|
                    0 <= i < s.len() && 0 <= j < s.len() && i != j implies s[i] != s[j] by {
                    if i < t.len() {
                        assert(t.contains(t[i]));
                    }
                    if j < t.len() {
                        assert(t.contains(t[j]));
                    }
                }
            }
        }
    }
}

/// Removing names that are there leaves the others.
proof fn lemma_removed(
    names: Seq<Seq<char>>,
    steps: Seq<SyncStep>,
    k: int,
    dest: Map<Seq<char>, Tree>,
    tree: Map<Seq<char>, Tree>,
) -> (m: Map<Seq<char>, Tree>)
    requires
        are_removals(names, steps),
        names.no_duplicates(),
        0 <= k <= names.len(),
        forall|i: int| 0 <= i < names.len() ==> dest.contains_key(#[trigger] names[i]),
    ensures
        after_steps(steps.take(k), dest, tree) == Some(m),
        forall|name: Seq<char>| #[trigger]
            m.contains_key(name) <==> dest.contains_key(name) && forall|i: int|
                0 <= i < k ==> #[trigger] names[i] != name,
        forall|name: Seq<char>| #[trigger] m.contains_key(name) ==> m[name] == dest[name],
    decreases k,
{
    if k == 0 {
        assert(steps.take(0) =~= Seq::<SyncStep>::empty());
        dest
    } else {
        let before = lemma_removed(names, steps, k - 1, dest, tree);
        assert(steps.take(k).drop_last() =~= steps.take(k - 1));
        assert(steps.take(k).last() == steps[k - 1]);
        assert(dest.contains_key(names[k - 1]));
        assert(before.contains_key(names[k - 1]));
        let m = before.remove(names[k - 1]);
        assert(steps[k - 1].name@ == names[k - 1] && steps[k - 1].action is Remove);
        assert(after_step(steps[k - 1], before, tree) == Some(m));
        assert forall|name: Seq<char>| #[trigger]
            m.contains_key(name) <==> dest.contains_key(name) && forall|i: int|
                0 <= i < k ==> #[trigger] names[i] != name by {
            assert(m.contains_key(name) <==> before.contains_key(name) && name != names[k - 1]);
        }
        m
    }
}

proof fn lemma_after_both(
    a: Seq<SyncStep>,
    b: Seq<SyncStep>,
    dest: Map<Seq<char>, Tree>,
    tree: Map<Seq<char>, Tree>,
)
    requires
        after_steps(a, dest, tree) is Some,
    ensures
        after_steps(a + b, dest, tree) == after_steps(b, after_steps(a, dest, tree)->0, tree),
    decreases b.len(),
{
    if b.len() == 0 {
        assert(a + b =~= a);
    } else {
        assert((a + b).drop_last() =~= a + b.drop_last());
        lemma_after_both(a, b.drop_last(), dest, tree);
    }
}

proof fn lemma_steps_mirror(
    source: Seq<SourceEntry>,
    entries: Seq<DestEntry>,
    steps: Seq<SyncStep>,
    dest: Map<Seq<char>, Tree>,
    tree: Map<Seq<char>, Tree>,
)
    requires
        are_steps_for(source, entries, steps),
        tells_source(source, tree),
        tells_dest(entries, dest, tree),
    ensures
        after_steps(steps, dest, tree) == Some(tree),
    decreases source, 2nat,
{
    let n = source.len() as int;
    let copied = lemma_copies_done(source, entries, steps, n, dest, tree);
    let names = stale(source, entries);
    let removals = steps.skip(n);
    lemma_stale(source, entries);
    assert forall|i: int| 0 <= i < names.len() implies copied.contains_key(
        #[trigger] names[i],
    ) by {
        let name = names[i];
        assert(names.contains(name));
        lemma_dest_entry(entries, name);
        assert(dest_entry(entries, name) is Some && !source_has(source, name));
        let k = choose|k: int|
            0 <= k < entries.len() && #[trigger] entries[k] == dest_entry(entries, name)->0;
        assert(tells_dest_entry(entries[k], dest, tree));
        assert(forall|j: int| 0 <= j < n ==> (#[trigger] source[j]).name@ != name);
        assert(copied.contains_key(name) == dest.contains_key(name));
    }
    let m = lemma_removed(names, removals, names.len() as int, copied, tree);
    assert(removals.take(names.len() as int) =~= removals);
    assert(steps =~= steps.take(n) + removals);
    lemma_after_both(steps.take(n), removals, dest, tree);
    assert forall|name: Seq<char>| m.contains_key(name) <==> tree.contains_key(name) by {
        if source_has(source, name) {
            let j = choose|j: int| 0 <= j < source.len() && (#[trigger] source[j]).name@ == name;
            assert(tells_source_entry(source[j], tree));
            assert(copied.contains_key(source[j].name@));
            assert forall|i: int| 0 <= i < names.len() implies #[trigger] names[i] != name by {
                assert(names.contains(names[i]));
            }
        } else {
            assert(!tree.contains_key(name));
            assert(forall|j: int| 0 <= j < n ==> (#[trigger] source[j]).name@ != name);
            assert(copied.contains_key(name) == dest.contains_key(name));
            if dest.contains_key(name) {
                assert(dest_entry(entries, name) is Some);
                assert(names.contains(name));
            }
        }
    }
    assert forall|name: Seq<char>| m.contains_key(name) implies m[name] == tree[name] by {
        assert(tree.contains_key(name));
        assert(source_has(source, name));
        let j = choose|j: int| 0 <= j < source.len() && (#[trigger] source[j]).name@ == name;
        assert(copied[source[j].name@] == tree[source[j].name@]);
    }
    assert(m =~= tree);
}

/// The steps can all be done, and leave the destination with exactly what the source holds.
pub proof fn destination_mirrors_source(
    source: Seq<SourceEntry>,
    entries: Seq<DestEntry>,
    steps: Seq<SyncStep>,
    dest: Map<Seq<char>, Tree>,
    tree: Map<Seq<char>, Tree>,
)
    requires
        are_steps_for(source, entries, steps),
        tells_source(source, tree),
        tells_dest(entries, dest, tree),
    ensures
        after_steps(steps, dest, tree) == Some(tree),
{
    lemma_steps_mirror(source, entries, steps, dest, tree);
}

/// What stands under a name is what the last entry of that name tells.
pub proof fn entries_are_found_by_their_name(dest: Seq<DestEntry>, e: DestEntry, other: Seq<char>)
    ensures
        dest_entry(Seq::<DestEntry>::empty(), other) is None,
        dest_entry(dest.push(e), e.name@) == Some(e),
        other != e.name@ ==> dest_entry(dest.push(e), other) == dest_entry(dest, other),
{
    assert(dest.push(e).drop_last() =~= dest);
}

/// What the source lacks is told in the order of the destination.
pub proof fn what_the_source_lacks_is_removed(
    source: Seq<SourceEntry>,
    dest: Seq<DestEntry>,
    e: DestEntry,
)
    ensures
        stale(source, Seq::<DestEntry>::empty()).len() == 0,
        (exists|i: int| 0 <= i < source.len() && (#[trigger] source[i]).name@ == e.name@) ==> stale(
            source,
            dest.push(e),
        ) == stale(source, dest),
        (forall|i: int| 0 <= i < source.len() ==> (#[trigger] source[i]).name@ != e.name@) ==> stale(
            source,
            dest.push(e),
        ) == stale(source, dest).push(e.name@),
{
    assert(dest.push(e).drop_last() =~= dest);
}

} // verus!
