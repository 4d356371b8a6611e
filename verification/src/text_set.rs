//! Sets of names, as lists in the order of the names.

use vstd::prelude::*;

use crate::text::{same, texts};
use crate::text_map::{
    is_before, precedes, precedes_is_strict, precedes_is_total, precedes_is_transitive,
};

verus! {

/// Each name precedes the next; so no name occurs twice.
pub open spec fn in_strict_order(names: Seq<Seq<char>>) -> bool {
    forall|i: int, j: int|
        0 <= i < j < names.len() ==> precedes(#[trigger] names[i], #[trigger] names[j])
}

/// The list holds exactly the names of a set, in their order.
pub open spec fn lists_set(names: Seq<Seq<char>>, set: Set<Seq<char>>) -> bool {
    &&& in_strict_order(names)
    &&& forall|name: Seq<char>| #[trigger] names.contains(name) <==> set.contains(name)
}

proof fn lemma_inserted(names: Seq<Seq<char>>, at: int, name: Seq<char>, set: Set<Seq<char>>)
    requires
        lists_set(names, set),
        0 <= at <= names.len(),
        forall|i: int| 0 <= i < at ==> precedes(#[trigger] names[i], name),
        forall|i: int| at <= i < names.len() ==> precedes(name, #[trigger] names[i]),
    ensures
        lists_set(names.insert(at, name), set.insert(name)),
{
    let r = names.insert(at, name);
    assert forall|i: int, j: int| 0 <= i < j < r.len() implies precedes(
        #[trigger] r[i],
        #[trigger] r[j],
    ) by {
        let x = if i < at {
            i
        } else {
            i - 1
        };
        let y = if j < at {
            j
        } else {
            j - 1
        };
        if i == at {
            assert(r[j] == names[y]);
        } else if j == at {
            assert(r[i] == names[x]);
        } else {
            assert(r[i] == names[x] && r[j] == names[y]);
        }
    }
    assert forall|k: Seq<char>| #[trigger] r.contains(k) <==> set.insert(name).contains(k) by {
        if r.contains(k) {
            let i = choose|i: int| 0 <= i < r.len() && r[i] == k;
            if i < at {
                assert(names[i] == k);
                assert(names.contains(k));
            } else if i > at {
                assert(names[i - 1] == k);
                assert(names.contains(k));
            }
        }
        if set.contains(k) {
            assert(names.contains(k));
            let i = choose|i: int| 0 <= i < names.len() && names[i] == k;
            if i < at {
                assert(r[i] == k);
            } else {
                assert(r[i + 1] == k);
            }
        }
        assert(r[at] == name);
    }
}

/// Adds a name to a set of names.
pub fn add_name(names: &mut Vec<String>, name: &str)
    requires
        in_strict_order(texts(old(names)@)),
    ensures
        in_strict_order(texts(final(names)@)),
        forall|set: Set<Seq<char>>| #[trigger]
            lists_set(texts(old(names)@), set) ==> lists_set(
                texts(final(names)@),
                set.insert(name@),
            ),
{
    let ghost before = texts(names@);
    let mut at: usize = 0;
    while at < names.len() && is_before(names[at].as_str(), name)
        invariant
            at <= names@.len(),
            before == texts(names@),
            forall|i: int| 0 <= i < at ==> precedes(#[trigger] before[i], name@),
        decreases names@.len() - at,
    {
        assert(before[at as int] == names@[at as int]@);
        at += 1;
    }
    if at < names.len() && same(names[at].as_str(), name) {
        proof {
            assert(before[at as int] == name@);
            assert forall|set: Set<Seq<char>>| #[trigger] lists_set(before, set) implies lists_set(
                before,
                set.insert(name@),
            ) by {
                assert(before.contains(name@));
                assert(set.insert(name@) =~= set);
            }
        }
        return;
    }
    proof {
        assert forall|i: int| at <= i < before.len() implies precedes(name@, #[trigger] before[i]) by {
            let here = before[at as int];
            assert(here == names@[at as int]@);
            precedes_is_total(here, name@);
            assert(precedes(name@, here));
            if i > at {
                precedes_is_transitive(name@, here, before[i]);
            }
        }
    }
    names.insert(at, name.to_owned());
    proof {
        assert(texts(names@) =~= before.insert(at as int, name@));
        let whole = Set::new(|k: Seq<char>| before.contains(k));
        lemma_inserted(before, at as int, name@, whole);
        assert forall|set: Set<Seq<char>>| #[trigger] lists_set(before, set) implies lists_set(
            texts(names@),
            set.insert(name@),
        ) by {
            lemma_inserted(before, at as int, name@, set);
        }
    }
}

/// A set of names has one list.
pub proof fn lists_of_a_set_are_equal(a: Seq<Seq<char>>, b: Seq<Seq<char>>, set: Set<Seq<char>>)
    requires
        lists_set(a, set),
        lists_set(b, set),
    ensures
        a == b,
    decreases a.len(),
{
    if a.len() == 0 {
        if b.len() > 0 {
            assert(b.contains(b[0]));
            assert(a.contains(b[0]));
        }
        assert(a =~= b);
    } else {
        assert(a.contains(a.last()));
        assert(b.contains(a.last()));
        let k = choose|k: int| 0 <= k < b.len() && b[k] == a.last();
        assert(b.contains(b.last()));
        assert(a.contains(b.last()));
        let m = choose|m: int| 0 <= m < a.len() && a[m] == b.last();
        if k < b.len() - 1 {
            assert(precedes(b[k], b[b.len() - 1]));
            if m < a.len() - 1 {
                assert(precedes(a[m], a[a.len() - 1]));
                precedes_is_transitive(a.last(), b.last(), a.last());
            }
            precedes_is_strict(a.last());
        }
        assert(a.last() == b.last());
        let (x, y) = (a.drop_last(), b.drop_last());
        let rest = set.remove(a.last());
        lemma_without_last(a, set);
        lemma_without_last(b, set);
        lists_of_a_set_are_equal(x, y, rest);
        assert(a =~= x.push(a.last()));
        assert(b =~= y.push(b.last()));
    }
}

proof fn lemma_without_last(a: Seq<Seq<char>>, set: Set<Seq<char>>)
    requires
        a.len() > 0,
        lists_set(a, set),
    ensures
        lists_set(a.drop_last(), set.remove(a.last())),
{
    let x = a.drop_last();
    assert forall|i: int, j: int| 0 <= i < j < x.len() implies precedes(
        #[trigger] x[i],
        #[trigger] x[j],
    ) by {
        assert(x[i] == a[i] && x[j] == a[j]);
    }
    assert forall|k: Seq<char>| #[trigger] x.contains(k) <==> set.remove(a.last()).contains(k) by {
        if x.contains(k) {
            let i = choose|i: int| 0 <= i < x.len() && x[i] == k;
            assert(a[i] == k);
            assert(a.contains(k));
            assert(precedes(a[i], a[a.len() - 1]));
            precedes_is_strict(k);
        }
        if set.contains(k) && k != a.last() {
            assert(a.contains(k));
            let i = choose|i: int| 0 <= i < a.len() && a[i] == k;
            assert(x[i] == k);
        }
    }
}

/// A list of a set holds its names and no others, each before all that come behind it in order.
pub proof fn lists_hold_the_names_in_order(names: Seq<Seq<char>>, set: Set<Seq<char>>)
    requires
        lists_set(names, set),
    ensures
        forall|i: int, j: int|
            0 <= i < j < names.len() ==> precedes(#[trigger] names[i], #[trigger] names[j]),
        forall|i: int| 0 <= i < names.len() ==> set.contains(#[trigger] names[i]),
        forall|name: Seq<char>| #[trigger]
            set.contains(name) ==> exists|i: int| 0 <= i < names.len() && #[trigger] names[i] == name,
{
    assert forall|i: int| 0 <= i < names.len() implies set.contains(#[trigger] names[i]) by {
        assert(names.contains(names[i]));
    }
    assert forall|name: Seq<char>| #[trigger] set.contains(name) implies exists|i: int|
        0 <= i < names.len() && #[trigger] names[i] == name by {
        assert(names.contains(name));
    }
}

} // verus!
