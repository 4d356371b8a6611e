//! A pool of names, of which the one that has been free for longest is given out first.

use std::collections::VecDeque;

use vstd::prelude::*;

use crate::selection::{choosing_goes_item_by_item, chosen, nothing_is_chosen_from_nothing};
use crate::text::{
    chars_of, copied, list_has, lower, lowered, opt, opt_str, same, texts, unicode_lower,
    unicode_lowered,
};

verus! {

/// Names that are free, in the order in which they became free; names that are given out;
/// and all names.
pub struct NamePool {
    available: VecDeque<String>,
    allocated: Vec<String>,
    all_names: Vec<String>,
}

/// What a pool holds.
#[verifier::ext_equal]
pub struct PoolView {
    pub available: Seq<Seq<char>>,
    pub allocated: Seq<Seq<char>>,
    pub all_names: Seq<Seq<char>>,
}

impl View for NamePool {
    type V = PoolView;

    closed spec fn view(&self) -> PoolView {
        PoolView {
            available: texts(self.available@),
            allocated: texts(self.allocated@),
            all_names: texts(self.all_names@),
        }
    }
}

/// Two names that differ in the case of ASCII letters alone.
pub open spec fn alike(a: Seq<char>, b: Seq<char>) -> bool {
    lower(a) == lower(b)
}

/// The position of the first name like `name`.
pub open spec fn first_alike(s: Seq<Seq<char>>, name: Seq<char>) -> Option<int>
    decreases s.len(),
{
    if s.len() == 0 {
        None
    } else if alike(s[0], name) {
        Some(0)
    } else {
        match first_alike(s.skip(1), name) {
            Some(i) => Some(i + 1),
            None => None,
        }
    }
}

/// The position of the first name whose lower-case form is not excluded.
pub open spec fn first_allowed(s: Seq<Seq<char>>, excluded: Seq<Seq<char>>) -> Option<int>
    decreases s.len(),
{
    if s.len() == 0 {
        None
    } else if !excluded.contains(unicode_lower(s[0])) {
        Some(0)
    } else {
        match first_allowed(s.skip(1), excluded) {
            Some(i) => Some(i + 1),
            None => None,
        }
    }
}

/// The list with the name, which it has once at most.
pub open spec fn with_name(s: Seq<Seq<char>>, name: Seq<char>) -> Seq<Seq<char>> {
    if s.contains(name) {
        s
    } else {
        s.push(name)
    }
}

/// The pool after the free name at position `i` has been given out.
pub open spec fn given_out(p: PoolView, i: int) -> PoolView {
    PoolView {
        available: p.available.remove(i),
        allocated: with_name(p.allocated, p.available[i]),
        all_names: p.all_names,
    }
}

/// The position of the name that is given out next: the preferred one where it is free, else
/// the first.
pub open spec fn choice(p: PoolView, preferred: Option<Seq<char>>) -> Option<int> {
    let wanted = match preferred {
        Some(name) => first_alike(p.available, name),
        None => None,
    };
    if wanted is Some {
        wanted
    } else if p.available.len() > 0 {
        Some(0)
    } else {
        None
    }
}

/// As `choice`, without the names whose lower-case form is excluded.
pub open spec fn allowed_choice(
    p: PoolView,
    preferred: Option<Seq<char>>,
    excluded: Seq<Seq<char>>,
) -> Option<int> {
    let wanted = match preferred {
        Some(name) => first_alike(p.available, name),
        None => None,
    };
    if wanted is Some && !excluded.contains(unicode_lower(p.available[wanted->0])) {
        wanted
    } else {
        first_allowed(p.available, excluded)
    }
}

/// The position, among the names given out, of the one that `name` means: itself, or else the
/// first like it.
pub open spec fn meant(allocated: Seq<Seq<char>>, name: Seq<char>) -> Option<int> {
    if allocated.contains(name) {
        allocated.index_of_first(name)
    } else {
        first_alike(allocated, name)
    }
}

/// The name as the pool writes it.
pub open spec fn canonical(all_names: Seq<Seq<char>>, name: Seq<char>) -> Seq<char> {
    match first_alike(all_names, name) {
        Some(i) => all_names[i],
        None => name,
    }
}

/// The pool after `name` has been given back: it is the last of the free names. A name that
/// is not given out changes nothing.
pub open spec fn given_back(p: PoolView, name: Seq<char>) -> PoolView {
    match meant(p.allocated, name) {
        Some(i) => PoolView {
            available: with_name(p.available, canonical(p.all_names, name)),
            allocated: p.allocated.remove(i),
            all_names: p.all_names,
        },
        None => p,
    }
}

/// The names, of those from `names`, that are like one of `active`.
pub open spec fn those_active(names: Seq<Seq<char>>, active: Seq<Seq<char>>) -> Seq<Seq<char>>
    decreases names.len(),
{
    if names.len() == 0 {
        Seq::empty()
    } else {
        let before = those_active(names.drop_last(), active);
        if first_alike(active, names.last()) is Some {
            with_name(before, names.last())
        } else {
            before
        }
    }
}

/// The names, of those from `names`, that are like none of `active`.
pub open spec fn those_idle(names: Seq<Seq<char>>, active: Seq<Seq<char>>) -> Seq<Seq<char>>
    decreases names.len(),
{
    if names.len() == 0 {
        Seq::empty()
    } else {
        let before = those_idle(names.drop_last(), active);
        if first_alike(active, names.last()) is Some {
            before
        } else {
            before.push(names.last())
        }
    }
}

proof fn lemma_first_alike(s: Seq<Seq<char>>, name: Seq<char>)
    ensures
        match first_alike(s, name) {
            Some(i) => 0 <= i < s.len() && alike(s[i], name) && forall|k: int|
                0 <= k < i ==> !alike(#[trigger] s[k], name),
            None => forall|k: int| 0 <= k < s.len() ==> !alike(#[trigger] s[k], name),
        },
    decreases s.len(),
{
    if s.len() > 0 && !alike(s[0], name) {
        let rest = s.skip(1);
        lemma_first_alike(rest, name);
        match first_alike(rest, name) {
            Some(i) => {
                assert(rest[i] == s[i + 1]);
                assert forall|k: int| 0 <= k < i + 1 implies !alike(#[trigger] s[k], name) by {
                    if k > 0 {
                        assert(rest[k - 1] == s[k]);
                    }
                }
            },
            None => {
                assert forall|k: int| 0 <= k < s.len() implies !alike(#[trigger] s[k], name) by {
                    if k > 0 {
                        assert(rest[k - 1] == s[k]);
                    }
                }
            },
        }
    }
}

proof fn lemma_first_allowed(s: Seq<Seq<char>>, excluded: Seq<Seq<char>>)
    ensures
        match first_allowed(s, excluded) {
            Some(i) => 0 <= i < s.len() && !excluded.contains(unicode_lower(s[i])) && forall|k: int|
                0 <= k < i ==> excluded.contains(unicode_lower(#[trigger] s[k])),
            None => forall|k: int|
                0 <= k < s.len() ==> excluded.contains(unicode_lower(#[trigger] s[k])),
        },
    decreases s.len(),
{
    if s.len() > 0 && excluded.contains(unicode_lower(s[0])) {
        let rest = s.skip(1);
        lemma_first_allowed(rest, excluded);
        match first_allowed(rest, excluded) {
            Some(i) => {
                assert(rest[i] == s[i + 1]);
                assert forall|k: int| 0 <= k < i + 1 implies excluded.contains(
                    unicode_lower(#[trigger] s[k]),
                ) by {
                    if k > 0 {
                        assert(rest[k - 1] == s[k]);
                    }
                }
            },
            None => {
                assert forall|k: int| 0 <= k < s.len() implies excluded.contains(
                    unicode_lower(#[trigger] s[k]),
                ) by {
                    if k > 0 {
                        assert(rest[k - 1] == s[k]);
                    }
                }
            },
        }
    }
}

fn are_alike(a: &str, b: &str) -> (r: bool)
    ensures
        r == alike(a@, b@),
{
    same(lowered(a).as_str(), lowered(b).as_str())
}

fn find_alike(v: &Vec<String>, name: &str) -> (r: Option<usize>)
    ensures
        match r {
            Some(i) => first_alike(texts(v@), name@) == Some(i as int) && i < v@.len(),
            None => first_alike(texts(v@), name@) is None,
        },
{
    let mut i: usize = 0;
    proof {
        lemma_first_alike(texts(v@), name@);
    }
    while i < v.len()
        invariant
            i <= v.len(),
            forall|k: int| 0 <= k < i ==> !alike(#[trigger] texts(v@)[k], name@),
            match first_alike(texts(v@), name@) {
                Some(n) => 0 <= n < texts(v@).len() && alike(texts(v@)[n], name@) && forall|k: int|
                    0 <= k < n ==> !alike(#[trigger] texts(v@)[k], name@),
                None => forall|k: int|
                    0 <= k < texts(v@).len() ==> !alike(#[trigger] texts(v@)[k], name@),
            },
        decreases v.len() - i,
    {
        assert(texts(v@)[i as int] == v@[i as int]@);
        if are_alike(v[i].as_str(), name) {
            return Some(i);
        }
        i += 1;
    }
    None
}

fn find_alike_free(v: &VecDeque<String>, name: &str) -> (r: Option<usize>)
    ensures
        match r {
            Some(i) => first_alike(texts(v@), name@) == Some(i as int) && i < v@.len(),
            None => first_alike(texts(v@), name@) is None,
        },
{
    let mut i: usize = 0;
    proof {
        lemma_first_alike(texts(v@), name@);
    }
    while i < v.len()
        invariant
            i <= v@.len(),
            forall|k: int| 0 <= k < i ==> !alike(#[trigger] texts(v@)[k], name@),
            match first_alike(texts(v@), name@) {
                Some(n) => 0 <= n < texts(v@).len() && alike(texts(v@)[n], name@) && forall|k: int|
                    0 <= k < n ==> !alike(#[trigger] texts(v@)[k], name@),
                None => forall|k: int|
                    0 <= k < texts(v@).len() ==> !alike(#[trigger] texts(v@)[k], name@),
            },
        decreases v@.len() - i,
    {
        assert(texts(v@)[i as int] == v@[i as int]@);
        if are_alike(v[i].as_str(), name) {
            return Some(i);
        }
        i += 1;
    }
    None
}

fn find_allowed(v: &VecDeque<String>, excluded: &Vec<String>) -> (r: Option<usize>)
    ensures
        match r {
            Some(i) => first_allowed(texts(v@), texts(excluded@)) == Some(i as int) && i < v@.len(),
            None => first_allowed(texts(v@), texts(excluded@)) is None,
        },
{
    let mut i: usize = 0;
    let ghost ex = texts(excluded@);
    proof {
        lemma_first_allowed(texts(v@), ex);
    }
    while i < v.len()
        invariant
            i <= v@.len(),
            ex == texts(excluded@),
            forall|k: int| 0 <= k < i ==> ex.contains(unicode_lower(#[trigger] texts(v@)[k])),
            match first_allowed(texts(v@), ex) {
                Some(n) => 0 <= n < texts(v@).len() && !ex.contains(unicode_lower(texts(v@)[n]))
                    && forall|k: int|
                    0 <= k < n ==> ex.contains(unicode_lower(#[trigger] texts(v@)[k])),
                None => forall|k: int|
                    0 <= k < texts(v@).len() ==> ex.contains(
                        unicode_lower(#[trigger] texts(v@)[k]),
                    ),
            },
        decreases v@.len() - i,
    {
        assert(texts(v@)[i as int] == v@[i as int]@);
        if !list_has(excluded, unicode_lowered(v[i].as_str()).as_str()) {
            return Some(i);
        }
        i += 1;
    }
    None
}

fn free_has(v: &VecDeque<String>, name: &str) -> (r: bool)
    ensures
        r == texts(v@).contains(name@),
{
    let mut i: usize = 0;
    while i < v.len()
        invariant
            i <= v@.len(),
            forall|k: int| 0 <= k < i ==> (#[trigger] v@[k])@ != name@,
        decreases v@.len() - i,
    {
        assert(texts(v@)[i as int] == v@[i as int]@);
        if same(v[i].as_str(), name) {
            return true;
        }
        i += 1;
    }
    proof {
        if texts(v@).contains(name@) {
            let k = choose|k: int| 0 <= k < texts(v@).len() && texts(v@)[k] == name@;
            assert(texts(v@)[k] == v@[k]@);
        }
    }
    false
}

fn index_of(v: &Vec<String>, name: &str) -> (r: Option<usize>)
    ensures
        match r {
            Some(i) => texts(v@).contains(name@) && texts(v@).index_of_first(name@) == Some(
                i as int,
            ) && i < v@.len(),
            None => !texts(v@).contains(name@),
        },
{
    let mut i: usize = 0;
    let ghost t = texts(v@);
    proof {
        t.index_of_first_ensures(name@);
    }
    while i < v.len()
        invariant
            i <= v.len(),
            t == texts(v@),
            forall|k: int| 0 <= k < i ==> #[trigger] t[k] != name@,
            match t.index_of_first(name@) {
                Some(n) => t.contains(name@) && 0 <= n < t.len() && t[n] == name@ && forall|k: int|
                    0 <= k < n < t.len() ==> t[k] != name@,
                None => !t.contains(name@),
            },
        decreases v.len() - i,
    {
        assert(t[i as int] == v@[i as int]@);
        if same(v[i].as_str(), name) {
            assert(t.contains(t[i as int]));
            return Some(i);
        }
        i += 1;
    }
    None
}

impl NamePool {
    /// A pool in which every name is free.
    pub fn new(names: &Vec<String>) -> (r: NamePool)
        ensures
            r@ == (PoolView {
                available: texts(names@),
                allocated: Seq::empty(),
                all_names: texts(names@),
            }),
    {
        let mut available: VecDeque<String> = VecDeque::new();
        let mut i: usize = 0;
        while i < names.len()
            invariant
                i <= names.len(),
                available@ == names@.take(i as int),
            decreases names.len() - i,
        {
            available.push_back(names[i].clone());
            i += 1;
        }
        assert(available@ =~= names@);
        let allocated: Vec<String> = Vec::new();
        assert(texts(allocated@) =~= Seq::<Seq<char>>::empty());
        NamePool { available, allocated, all_names: copied(names) }
    }

    fn give_out(&mut self, i: usize) -> (name: String)
        requires
            i < old(self)@.available.len(),
        ensures
            name@ == old(self)@.available[i as int],
            final(self)@ == given_out(old(self)@, i as int),
    {
        let ghost before = self@;
        let name = self.available.remove(i).unwrap();
        assert(texts(self.available@) =~= before.available.remove(i as int));
        if !list_has(&self.allocated, name.as_str()) {
            self.allocated.push(name.clone());
            assert(texts(self.allocated@) =~= before.allocated.push(name@));
        }
        name
    }

    /// Gives a name out: the preferred one where it is free, whatever the case of its letters,
    /// else the one that has been free for longest.
    pub fn allocate(&mut self, preferred: Option<&str>) -> (r: Option<String>)
        ensures
            match choice(old(self)@, opt_str(preferred)) {
                Some(i) => r is Some && r->0@ == old(self)@.available[i] && final(self)@
                    == given_out(old(self)@, i),
                None => r is None && final(self)@ == old(self)@,
            },
    {
        if let Some(name) = preferred {
            if let Some(i) = find_alike_free(&self.available, name) {
                return Some(self.give_out(i));
            }
        }
        if self.available.len() > 0 {
            Some(self.give_out(0))
        } else {
            None
        }
    }

    /// As `allocate`, without the names whose lower-case form is excluded.
    pub fn allocate_excluding(&mut self, preferred: Option<&str>, excluded: &Vec<String>) -> (r:
        Option<String>)
        ensures
            match allowed_choice(old(self)@, opt_str(preferred), texts(excluded@)) {
                Some(i) => r is Some && r->0@ == old(self)@.available[i] && final(self)@
                    == given_out(old(self)@, i),
                None => r is None && final(self)@ == old(self)@,
            },
            r matches Some(name) ==> !texts(excluded@).contains(unicode_lower(name@)),
    {
        proof {
            lemma_first_allowed(self@.available, texts(excluded@));
        }
        if let Some(name) = preferred {
            if let Some(i) = find_alike_free(&self.available, name) {
                assert(self@.available[i as int] == self.available@[i as int]@);
                if !list_has(excluded, unicode_lowered(self.available[i].as_str()).as_str()) {
                    return Some(self.give_out(i));
                }
            }
        }
        match find_allowed(&self.available, excluded) {
            Some(i) => Some(self.give_out(i)),
            None => None,
        }
    }

    /// Takes a name back, whatever the case of its letters. A name that is not given out
    /// changes nothing.
    pub fn release(&mut self, name: &str)
        ensures
            final(self)@ == given_back(old(self)@, name@),
    {
        let ghost before = self@;
        let at = match index_of(&self.allocated, name) {
            Some(i) => Some(i),
            None => find_alike(&self.allocated, name),
        };
        if let Some(i) = at {
            self.allocated.remove(i);
            assert(texts(self.allocated@) =~= before.allocated.remove(i as int));
            let canonical_name = match find_alike(&self.all_names, name) {
                Some(k) => self.all_names[k].clone(),
                None => name.to_owned(),
            };
            proof {
                lemma_first_alike(texts(self.all_names@), name@);
            }
            if !free_has(&self.available, canonical_name.as_str()) {
                self.available.push_back(canonical_name);
                assert(texts(self.available@) =~= before.available.push(canonical_name@));
            }
        }
    }

    /// Whether a name is given out, whatever the case of its letters.
    pub fn is_allocated(&self, name: &str) -> (r: bool)
        ensures
            r == (first_alike(self@.allocated, name@) is Some),
    {
        find_alike(&self.allocated, name).is_some()
    }

    pub fn available_count(&self) -> (r: usize)
        ensures
            r == self@.available.len(),
    {
        self.available.len()
    }

    pub fn allocated_count(&self) -> (r: usize)
        ensures
            r == self@.allocated.len(),
    {
        self.allocated.len()
    }

    /// The name that has been free for longest.
    pub fn peek_next(&self) -> (r: Option<&str>)
        ensures
            opt_str(r) == (if self@.available.len() > 0 {
                Some(self@.available[0])
            } else {
                None
            }),
    {
        if self.available.len() > 0 {
            Some(self.available[0].as_str())
        } else {
            None
        }
    }

    /// All names, free or not.
    pub fn all_names(&self) -> (r: &Vec<String>)
        ensures
            texts(r@) == self@.all_names,
    {
        &self.all_names
    }

    /// Sets the pool anew: the names like one of those given are given out, the others free.
    pub fn restore(&mut self, allocated_names: &Vec<String>)
        ensures
            final(self)@ == (PoolView {
                available: those_idle(old(self)@.all_names, texts(allocated_names@)),
                allocated: those_active(old(self)@.all_names, texts(allocated_names@)),
                all_names: old(self)@.all_names,
            }),
    {
        let ghost all = self@.all_names;
        let ghost active = texts(allocated_names@);
        let mut available: VecDeque<String> = VecDeque::new();
        let mut allocated: Vec<String> = Vec::new();
        let mut i: usize = 0;
        assert(texts(available@) =~= those_idle(all.take(0), active));
        assert(texts(allocated@) =~= those_active(all.take(0), active));
        while i < self.all_names.len()
            invariant
                i <= self.all_names.len(),
                all == texts(self.all_names@),
                active == texts(allocated_names@),
                texts(available@) == those_idle(all.take(i as int), active),
                texts(allocated@) == those_active(all.take(i as int), active),
            decreases self.all_names.len() - i,
        {
            let name = &self.all_names[i];
            proof {
                assert(all.take(i + 1).drop_last() =~= all.take(i as int));
                assert(all.take(i + 1).last() == name@);
            }
            let ghost free = texts(available@);
            let ghost taken = texts(allocated@);
            if find_alike(allocated_names, name.as_str()).is_some() {
                if !list_has(&allocated, name.as_str()) {
                    allocated.push(name.clone());
                    assert(texts(allocated@) =~= taken.push(name@));
                }
            } else {
                available.push_back(name.clone());
                assert(texts(available@) =~= free.push(name@));
            }
            i += 1;
        }
        assert(all.take(i as int) =~= all);
        self.available = available;
        self.allocated = allocated;
    }
}

/// No two names are alike.
pub open spec fn all_differ(names: Seq<Seq<char>>) -> bool {
    forall|i: int, j: int|
        0 <= i < j < names.len() ==> !alike(#[trigger] names[i], #[trigger] names[j])
}

/// Every name is either free or given out, once.
pub open spec fn tidy(p: PoolView) -> bool {
    &&& all_differ(p.all_names)
    &&& all_differ(p.available)
    &&& all_differ(p.allocated)
    &&& forall|n: Seq<char>| #[trigger]
        p.all_names.contains(n) <==> p.available.contains(n) || p.allocated.contains(n)
    &&& forall|n: Seq<char>| #[trigger]
        p.available.contains(n) ==> !p.allocated.contains(n)
    &&& p.available.len() + p.allocated.len() == p.all_names.len()
}

/// A new pool whose names differ is tidy.
pub proof fn new_pool_is_tidy(names: Seq<Seq<char>>)
    requires
        all_differ(names),
    ensures
        tidy(PoolView { available: names, allocated: Seq::empty(), all_names: names }),
{
}

proof fn lemma_remove_contains(s: Seq<Seq<char>>, i: int)
    requires
        all_differ(s),
        0 <= i < s.len(),
    ensures
        all_differ(s.remove(i)),
        forall|n: Seq<char>| #[trigger]
            s.remove(i).contains(n) <==> s.contains(n) && n != s[i],
{
    let t = s.remove(i);
    assert forall|a: int, b: int| 0 <= a < b < t.len() implies !alike(
        #[trigger] t[a],
        #[trigger] t[b],
    ) by {
        let x = if a < i {
            a
        } else {
            a + 1
        };
        let y = if b < i {
            b
        } else {
            b + 1
        };
        assert(t[a] == s[x] && t[b] == s[y]);
    }
    assert forall|n: Seq<char>| #[trigger] t.contains(n) <==> s.contains(n) && n != s[i] by {
        if t.contains(n) {
            let a = choose|a: int| 0 <= a < t.len() && t[a] == n;
            let x = if a < i {
                a
            } else {
                a + 1
            };
            assert(s[x] == n);
            if x < i {
                assert(!alike(s[x], s[i]));
            } else {
                assert(!alike(s[i], s[x]));
            }
        }
        if s.contains(n) && n != s[i] {
            let x = choose|x: int| 0 <= x < s.len() && s[x] == n;
            let a = if x < i {
                x
            } else {
                x - 1
            };
            assert(t[a] == n);
        }
    }
}

proof fn lemma_push_contains(s: Seq<Seq<char>>, name: Seq<char>)
    ensures
        forall|n: Seq<char>| #[trigger]
            s.push(name).contains(n) <==> s.contains(n) || n == name,
{
    let t = s.push(name);
    assert forall|n: Seq<char>| #[trigger] t.contains(n) <==> s.contains(n) || n == name by {
        if t.contains(n) {
            let a = choose|a: int| 0 <= a < t.len() && t[a] == n;
            if a < s.len() {
                assert(s[a] == n);
            }
        }
        if s.contains(n) {
            let a = choose|a: int| 0 <= a < s.len() && s[a] == n;
            assert(t[a] == n);
        }
        assert(t[s.len() as int] == name);
    }
}

/// Two names of a list whose names differ are one name where they are alike.
proof fn lemma_alike_is_same(s: Seq<Seq<char>>, a: Seq<char>, b: Seq<char>)
    requires
        all_differ(s),
        s.contains(a),
        s.contains(b),
        alike(a, b),
    ensures
        a == b,
{
    let i = choose|i: int| 0 <= i < s.len() && s[i] == a;
    let j = choose|j: int| 0 <= j < s.len() && s[j] == b;
    if i < j {
        assert(!alike(s[i], s[j]));
    } else if j < i {
        assert(!alike(s[j], s[i]));
    }
}

proof fn lemma_push_differ(s: Seq<Seq<char>>, all: Seq<Seq<char>>, name: Seq<char>)
    requires
        all_differ(s),
        all_differ(all),
        all.contains(name),
        !s.contains(name),
        forall|n: Seq<char>| #[trigger] s.contains(n) ==> all.contains(n),
    ensures
        all_differ(s.push(name)),
{
    let t = s.push(name);
    assert forall|a: int, b: int| 0 <= a < b < t.len() implies !alike(
        #[trigger] t[a],
        #[trigger] t[b],
    ) by {
        assert(t[a] == s[a]);
        assert(s.contains(s[a]));
        if b < s.len() {
            assert(t[b] == s[b]);
        } else if alike(t[a], t[b]) {
            lemma_alike_is_same(all, s[a], name);
        }
    }
}

/// Giving a name out keeps a pool tidy, and gives out none that is given out already.
pub proof fn giving_out_keeps_tidy(p: PoolView, i: int)
    requires
        tidy(p),
        0 <= i < p.available.len(),
    ensures
        tidy(given_out(p, i)),
        !p.allocated.contains(p.available[i]),
        given_out(p, i).allocated.contains(p.available[i]),
        !given_out(p, i).available.contains(p.available[i]),
{
    let name = p.available[i];
    assert(p.available.contains(name));
    assert(p.all_names.contains(name));
    lemma_remove_contains(p.available, i);
    lemma_push_contains(p.allocated, name);
    assert forall|n: Seq<char>| #[trigger] p.allocated.contains(n) implies p.all_names.contains(n) by {
    }
    lemma_push_differ(p.allocated, p.all_names, name);
}

proof fn lemma_meant(p: PoolView, name: Seq<char>)
    requires
        tidy(p),
    ensures
        match meant(p.allocated, name) {
            Some(i) => {
                &&& 0 <= i < p.allocated.len()
                &&& alike(p.allocated[i], name)
                &&& canonical(p.all_names, name) == p.allocated[i]
            },
            None => forall|k: int|
                0 <= k < p.allocated.len() ==> !alike(#[trigger] p.allocated[k], name),
        },
{
    lemma_first_alike(p.allocated, name);
    lemma_first_alike(p.all_names, name);
    p.allocated.index_of_first_ensures(name);
    match meant(p.allocated, name) {
        Some(i) => {
            let a = p.allocated[i];
            assert(p.allocated.contains(a));
            assert(p.all_names.contains(a));
            let k = choose|k: int| 0 <= k < p.all_names.len() && p.all_names[k] == a;
            match first_alike(p.all_names, name) {
                Some(j) => {
                    assert(p.all_names.contains(p.all_names[j]));
                    lemma_alike_is_same(p.all_names, p.all_names[j], a);
                },
                None => {
                    assert(!alike(p.all_names[k], name));
                },
            }
        },
        None => {},
    }
}

/// Giving a name back keeps a pool tidy; a name that was given out is then the last of the
/// free names.
pub proof fn giving_back_keeps_tidy(p: PoolView, name: Seq<char>)
    requires
        tidy(p),
    ensures
        tidy(given_back(p, name)),
        meant(p.allocated, name) is Some ==> alike(given_back(p, name).available.last(), name),
{
    lemma_meant(p, name);
    if let Some(i) = meant(p.allocated, name) {
        let a = p.allocated[i];
        assert(p.allocated.contains(a));
        assert(p.all_names.contains(a));
        assert(!p.available.contains(a));
        lemma_remove_contains(p.allocated, i);
        lemma_push_contains(p.available, a);
        lemma_push_differ(p.available, p.all_names, a);
    }
}

/// Giving a name back once more changes nothing.
pub proof fn giving_back_twice_is_giving_back_once(p: PoolView, name: Seq<char>)
    requires
        tidy(p),
    ensures
        given_back(given_back(p, name), name) == given_back(p, name),
{
    lemma_meant(p, name);
    giving_back_keeps_tidy(p, name);
    let q = given_back(p, name);
    lemma_meant(q, name);
    if let Some(i) = meant(p.allocated, name) {
        lemma_remove_contains(p.allocated, i);
        if let Some(k) = meant(q.allocated, name) {
            let b = q.allocated[k];
            assert(q.allocated.contains(b));
            assert(p.allocated.contains(b));
            assert(p.allocated.contains(p.allocated[i]));
            lemma_alike_is_same(p.allocated, b, p.allocated[i]);
        }
    }
}

/// A name that was given out and given back is free again, and the pool has as many free names
/// as before.
pub proof fn given_out_and_back(p: PoolView, i: int)
    requires
        tidy(p),
        0 <= i < p.available.len(),
    ensures
        ({
            let back = given_back(given_out(p, i), p.available[i]);
            &&& tidy(back)
            &&& back.available == p.available.remove(i).push(p.available[i])
            &&& back.allocated == p.allocated
        }),
{
    let name = p.available[i];
    giving_out_keeps_tidy(p, i);
    let q = given_out(p, i);
    giving_back_keeps_tidy(q, name);
    lemma_meant(q, name);
    q.allocated.index_of_first_ensures(name);
    let k = meant(q.allocated, name)->0;
    assert(q.allocated[q.allocated.len() - 1] == name);
    if k < q.allocated.len() - 1 {
        assert(!alike(q.allocated[k], q.allocated[q.allocated.len() - 1]));
    }
    assert(q.allocated.remove(k) =~= p.allocated);
}

proof fn lemma_restored(names: Seq<Seq<char>>, active: Seq<Seq<char>>)
    requires
        all_differ(names),
    ensures
        ({
            let idle = those_idle(names, active);
            let busy = those_active(names, active);
            &&& all_differ(idle)
            &&& all_differ(busy)
            &&& forall|n: Seq<char>| #[trigger]
                idle.contains(n) <==> names.contains(n) && first_alike(active, n) is None
            &&& forall|n: Seq<char>| #[trigger]
                busy.contains(n) <==> names.contains(n) && first_alike(active, n) is Some
            &&& idle.len() + busy.len() == names.len()
        }),
    decreases names.len(),
{
    if names.len() > 0 {
        let init = names.drop_last();
        let name = names.last();
        assert(names =~= init.push(name));
        assert forall|i: int, j: int| 0 <= i < j < init.len() implies !alike(
            #[trigger] init[i],
            #[trigger] init[j],
        ) by {
            assert(init[i] == names[i] && init[j] == names[j]);
        }
        lemma_restored(init, active);
        lemma_push_contains(init, name);
        let idle = those_idle(init, active);
        let busy = those_active(init, active);
        assert(!init.contains(name)) by {
            if init.contains(name) {
                let k = choose|k: int| 0 <= k < init.len() && init[k] == name;
                assert(!alike(names[k], names[names.len() - 1]));
            }
        }
        assert(names.contains(name)) by {
            assert(names[names.len() - 1] == name);
        }
        lemma_push_contains(idle, name);
        lemma_push_contains(busy, name);
        if first_alike(active, name) is Some {
            assert(!busy.contains(name));
            lemma_push_differ(busy, names, name);
        } else {
            assert(!idle.contains(name));
            lemma_push_differ(idle, names, name);
        }
    }
}

/// A pool set anew is tidy, where its names differ.
pub proof fn restored_pool_is_tidy(names: Seq<Seq<char>>, active: Seq<Seq<char>>)
    requires
        all_differ(names),
    ensures
        tidy(
            PoolView {
                available: those_idle(names, active),
                allocated: those_active(names, active),
                all_names: names,
            },
        ),
{
    lemma_restored(names, active);
}

/// Two names are alike where they differ in the case of ASCII letters alone.
pub proof fn names_are_alike_up_to_case(a: Seq<char>, b: Seq<char>)
    ensures
        alike(a, b) <==> a.len() == b.len() && forall|i: int|
            0 <= i < a.len() ==> crate::text::lower_char(#[trigger] a[i]) == crate::text::lower_char(
                b[i],
            ),
        alike(a, a),
        alike(a, b) <==> alike(b, a),
        alike(a, lower(a)),
{
    if alike(a, b) {
        assert(lower(a).len() == lower(b).len());
        assert forall|i: int| 0 <= i < a.len() implies crate::text::lower_char(#[trigger] a[i])
            == crate::text::lower_char(b[i]) by {
            assert(lower(a)[i] == lower(b)[i]);
        }
    } else if a.len() == b.len() {
        assert(!(lower(a) =~= lower(b)));
    }
    assert(lower(lower(a)) =~= lower(a));
}

/// A preferred name that is free is the one that is given out: the first like it. Otherwise it is
/// the name that has been free for longest, and none only where none is free.
pub proof fn preferred_names_come_first(p: PoolView, name: Seq<char>, i: int)
    ensures
        0 <= i < p.available.len() && alike(p.available[i], name) && (forall|k: int|
            0 <= k < i ==> !alike(#[trigger] p.available[k], name)) ==> choice(p, Some(name)) == Some(
            i,
        ),
        p.available.len() > 0 && (forall|k: int|
            0 <= k < p.available.len() ==> !alike(#[trigger] p.available[k], name)) ==> choice(
            p,
            Some(name),
        ) == Some(0int),
        p.available.len() > 0 ==> choice(p, None) == Some(0int),
        p.available.len() == 0 ==> choice(p, None) is None && choice(p, Some(name)) is None,
{
    lemma_first_alike(p.available, name);
}

/// With names excluded, a preferred name is given out where it is free and not excluded;
/// otherwise it is the first free name that is not, and none only where there is no such name.
pub proof fn excluded_names_are_not_given_out(
    p: PoolView,
    name: Seq<char>,
    excluded: Seq<Seq<char>>,
    i: int,
)
    ensures
        0 <= i < p.available.len() && alike(p.available[i], name) && (forall|k: int|
            0 <= k < i ==> !alike(#[trigger] p.available[k], name)) && !excluded.contains(
            unicode_lower(p.available[i]),
        ) ==> allowed_choice(p, Some(name), excluded) == Some(i),
        0 <= i < p.available.len() && !excluded.contains(unicode_lower(p.available[i])) && (forall|
            k: int,
        |
            0 <= k < i ==> excluded.contains(unicode_lower(#[trigger] p.available[k])))
            ==> allowed_choice(p, None, excluded) == Some(i),
        0 <= i < p.available.len() && !excluded.contains(unicode_lower(p.available[i])) && (forall|
            k: int,
        |
            0 <= k < i ==> excluded.contains(unicode_lower(#[trigger] p.available[k]))) && (forall|
            k: int,
        |
            0 <= k < p.available.len() ==> !alike(#[trigger] p.available[k], name))
            ==> allowed_choice(p, Some(name), excluded) == Some(i),
        (forall|k: int|
            0 <= k < p.available.len() ==> excluded.contains(
                unicode_lower(#[trigger] p.available[k]),
            )) ==> allowed_choice(p, None, excluded) is None && allowed_choice(
            p,
            Some(name),
            excluded,
        ) is None,
{
    lemma_first_alike(p.available, name);
    lemma_first_allowed(p.available, excluded);
}

/// A name that is given out is no longer free, and all others stay in their order.
pub proof fn given_out_names_are_no_longer_free(p: PoolView, i: int)
    requires
        0 <= i < p.available.len(),
    ensures
        given_out(p, i).available == p.available.take(i) + p.available.skip(i + 1),
        given_out(p, i).all_names == p.all_names,
        !p.allocated.contains(p.available[i]) ==> given_out(p, i).allocated == p.allocated.push(
            p.available[i],
        ),
        p.allocated.contains(p.available[i]) ==> given_out(p, i).allocated == p.allocated,
{
    assert(p.available.remove(i) =~= p.available.take(i) + p.available.skip(i + 1));
}

/// A name that is given back is the last of the free ones, written as the pool writes it, and is
/// given out no more. A name that is not given out changes nothing.
pub proof fn given_back_names_are_free_last(p: PoolView, name: Seq<char>, i: int, k: int)
    requires
        0 <= i < p.allocated.len(),
        0 <= k < p.all_names.len(),
        alike(p.allocated[i], name),
        forall|m: int| 0 <= m < i ==> !alike(#[trigger] p.allocated[m], name),
        !p.allocated.contains(name) || p.allocated[i] == name,
        alike(p.all_names[k], name),
        forall|m: int| 0 <= m < k ==> !alike(#[trigger] p.all_names[m], name),
        !p.available.contains(p.all_names[k]),
    ensures
        given_back(p, name).available == p.available.push(p.all_names[k]),
        given_back(p, name).allocated == p.allocated.remove(i),
        given_back(p, name).all_names == p.all_names,
{
    lemma_first_alike(p.allocated, name);
    lemma_first_alike(p.all_names, name);
    p.allocated.index_of_first_ensures(name);
    if p.allocated.contains(name) {
        let n = p.allocated.index_of_first(name)->0;
        if n < i {
            assert(alike(p.allocated[n], name));
        }
        assert(n == i);
    }
}

/// A name that nobody has been given changes nothing when it is given back.
pub proof fn free_names_cannot_be_given_back(p: PoolView, name: Seq<char>)
    requires
        forall|m: int| 0 <= m < p.allocated.len() ==> !alike(#[trigger] p.allocated[m], name),
    ensures
        given_back(p, name) == p,
{
    lemma_first_alike(p.allocated, name);
    if p.allocated.contains(name) {
        let n = choose|n: int| 0 <= n < p.allocated.len() && p.allocated[n] == name;
        assert(alike(p.allocated[n], name));
    }
}

/// Of several names, those are idle that are like none of the active ones, in their order, and
/// the others are active, each once.
pub proof fn names_are_idle_or_active(names: Seq<Seq<char>>, active: Seq<Seq<char>>)
    ensures
        chosen(
            names,
            |name: Seq<char>|
                forall|k: int| 0 <= k < active.len() ==> !alike(#[trigger] active[k], name),
            those_idle(names, active),
        ),
        forall|name: Seq<char>| #[trigger]
            those_active(names, active).contains(name) <==> names.contains(name) && exists|k: int|
                0 <= k < active.len() && alike(#[trigger] active[k], name),
    decreases names.len(),
{
    let wanted = |name: Seq<char>|
        forall|k: int| 0 <= k < active.len() ==> !alike(#[trigger] active[k], name);
    if names.len() == 0 {
        nothing_is_chosen_from_nothing(wanted);
        assert(names =~= Seq::<Seq<char>>::empty());
        assert(those_idle(names, active) =~= Seq::<Seq<char>>::empty());
    } else {
        let init = names.drop_last();
        let last = names.last();
        names_are_idle_or_active(init, active);
        lemma_first_alike(active, last);
        assert(names =~= init.push(last));
        choosing_goes_item_by_item(init, last, wanted, those_idle(init, active));
        let before = those_active(init, active);
        let after = those_active(names, active);
        assert forall|name: Seq<char>| #[trigger]
            after.contains(name) <==> names.contains(name) && exists|k: int|
                0 <= k < active.len() && alike(#[trigger] active[k], name) by {
            assert(before.contains(name) <==> init.contains(name) && exists|k: int|
                0 <= k < active.len() && alike(#[trigger] active[k], name));
            assert(names.contains(name) <==> init.contains(name) || name == last) by {
                if names.contains(name) {
                    let i = choose|i: int| 0 <= i < names.len() && names[i] == name;
                    if i < init.len() {
                        assert(init[i] == name);
                    }
                }
                if init.contains(name) {
                    let i = choose|i: int| 0 <= i < init.len() && init[i] == name;
                    assert(names[i] == name);
                }
                assert(names[names.len() - 1] == last);
            }
            lemma_push_contains(before, last);
        }
    }
}

} // verus!
