//! Maps from text to text, listed in the order of their keys.

use vstd::prelude::*;

use crate::text::{chars_of, same};

verus! {

/// `a` stands before `b` in the order of the characters' code points.
pub open spec fn precedes(a: Seq<char>, b: Seq<char>) -> bool
    decreases a.len(),
{
    if b.len() == 0 {
        false
    } else if a.len() == 0 {
        true
    } else if a[0] != b[0] {
        a[0] < b[0]
    } else {
        precedes(a.skip(1), b.skip(1))
    }
}

pub proof fn precedes_is_transitive(a: Seq<char>, b: Seq<char>, c: Seq<char>)
    requires
        precedes(a, b),
        precedes(b, c),
    ensures
        precedes(a, c),
    decreases a.len(),
{
    if a.len() > 0 && a[0] == b[0] && b[0] == c[0] {
        precedes_is_transitive(a.skip(1), b.skip(1), c.skip(1));
    }
}

pub proof fn precedes_is_strict(a: Seq<char>)
    ensures
        !precedes(a, a),
    decreases a.len(),
{
    if a.len() > 0 {
        precedes_is_strict(a.skip(1));
    }
}

pub proof fn precedes_is_total(a: Seq<char>, b: Seq<char>)
    ensures
        a == b || precedes(a, b) || precedes(b, a),
    decreases a.len(),
{
    if a.len() > 0 && b.len() > 0 && a[0] == b[0] {
        precedes_is_total(a.skip(1), b.skip(1));
        if a.skip(1) == b.skip(1) {
            assert(a =~= seq![a[0]] + a.skip(1));
            assert(b =~= seq![b[0]] + b.skip(1));
        }
    } else if a.len() == 0 && b.len() == 0 {
        assert(a =~= b);
    }
}

/// Whether `a` stands before `b`.
pub fn is_before(a: &str, b: &str) -> (r: bool)
    ensures
        r == precedes(a@, b@),
{
    let x = chars_of(a);
    let y = chars_of(b);
    let mut i: usize = 0;
    assert(a@.skip(0) == a@);
    assert(b@.skip(0) == b@);
    while i < x.len() && i < y.len()
        invariant
            i <= x.len(),
            i <= y.len(),
            x@ == a@,
            y@ == b@,
            precedes(a@, b@) == precedes(a@.skip(i as int), b@.skip(i as int)),
        decreases x.len() - i,
    {
        if x[i] != y[i] {
            return x[i] < y[i];
        }
        assert(a@.skip(i as int).skip(1) == a@.skip(i + 1));
        assert(b@.skip(i as int).skip(1) == b@.skip(i + 1));
        i += 1;
    }
    i < y.len()
}

/// Keys with their values. No key occurs twice, and the keys are in order.
pub struct TextMap {
    entries: Vec<(String, String)>,
}

pub open spec fn pairs_map(s: Seq<(String, String)>) -> Map<Seq<char>, Seq<char>>
    decreases s.len(),
{
    if s.len() == 0 {
        Map::empty()
    } else {
        pairs_map(s.drop_last()).insert(s.last().0@, s.last().1@)
    }
}

pub open spec fn names_in_order(s: Seq<(String, String)>) -> bool {
    forall|i: int, j: int|
        0 <= i < j < s.len() ==> precedes((#[trigger] s[i]).0@, (#[trigger] s[j]).0@)
}

proof fn lemma_pairs_map(s: Seq<(String, String)>)
    requires
        names_in_order(s),
    ensures
        forall|k: Seq<char>|
            pairs_map(s).contains_key(k) <==> exists|i: int|
                0 <= i < s.len() && (#[trigger] s[i]).0@ == k,
        forall|i: int| 0 <= i < s.len() ==> pairs_map(s)[(#[trigger] s[i]).0@] == s[i].1@,
    decreases s.len(),
{
    if s.len() > 0 {
        let init = s.drop_last();
        assert forall|i: int, j: int| 0 <= i < j < init.len() implies precedes(
            (#[trigger] init[i]).0@,
            (#[trigger] init[j]).0@,
        ) by {
            assert(init[i] == s[i] && init[j] == s[j]);
        }
        lemma_pairs_map(init);
        let rest = pairs_map(init);
        assert(pairs_map(s) == rest.insert(s.last().0@, s.last().1@));
        assert forall|k: Seq<char>|
            pairs_map(s).contains_key(k) <==> exists|i: int|
                0 <= i < s.len() && (#[trigger] s[i]).0@ == k by {
            if pairs_map(s).contains_key(k) {
                if k == s.last().0@ {
                    assert(s[s.len() - 1].0@ == k);
                } else {
                    assert(rest.contains_key(k));
                    let i = choose|i: int| 0 <= i < init.len() && (#[trigger] init[i]).0@ == k;
                    assert(s[i].0@ == k);
                }
            }
            if exists|i: int| 0 <= i < s.len() && (#[trigger] s[i]).0@ == k {
                let i = choose|i: int| 0 <= i < s.len() && (#[trigger] s[i]).0@ == k;
                if i < s.len() - 1 {
                    assert(init[i].0@ == k);
                    assert(rest.contains_key(k));
                }
            }
        }
        assert forall|i: int| 0 <= i < s.len() implies pairs_map(s)[(#[trigger] s[i]).0@]
            == s[i].1@ by {
            if i < s.len() - 1 {
                assert(init[i] == s[i]);
                assert(precedes(s[i].0@, s[s.len() - 1].0@));
                precedes_is_strict(s[i].0@);
            }
        }
    }
}

/// Each entry is in the map, and each name of the map has an entry.
pub open spec fn tells_map(s: Seq<(String, String)>, m: Map<Seq<char>, Seq<char>>) -> bool {
    &&& forall|i: int|
        0 <= i < s.len() ==> m.contains_key((#[trigger] s[i]).0@) && m[s[i].0@] == s[i].1@
    &&& forall|k: Seq<char>| #[trigger]
        m.contains_key(k) ==> exists|i: int| 0 <= i < s.len() && (#[trigger] s[i]).0@ == k
}

/// Entries in the order of their names tell the map that they make up.
pub proof fn entries_tell_the_map(s: Seq<(String, String)>)
    requires
        names_in_order(s),
    ensures
        tells_map(s, pairs_map(s)),
{
    lemma_pairs_map(s);
}

impl View for TextMap {
    type V = Map<Seq<char>, Seq<char>>;

    closed spec fn view(&self) -> Map<Seq<char>, Seq<char>> {
        pairs_map(self.entries@)
    }
}

impl TextMap {
    #[verifier::type_invariant]
    spec fn in_order(&self) -> bool {
        names_in_order(self.entries@)
    }

    /// The map as a list of keys and values.
    pub closed spec fn listed(&self) -> Seq<(String, String)> {
        self.entries@
    }

    pub fn new() -> (r: TextMap)
        ensures
            r@ == Map::<Seq<char>, Seq<char>>::empty(),
    {
        TextMap { entries: Vec::new() }
    }

    /// The keys and values in the order of the keys.
    pub fn entries(&self) -> (r: &Vec<(String, String)>)
        ensures
            r@ == self.listed(),
            names_in_order(r@),
            pairs_map(r@) == self@,
    {
        proof {
            use_type_invariant(self);
        }
        &self.entries
    }

    /// The value of `name`.
    pub fn get(&self, name: &str) -> (r: Option<&String>)
        ensures
            match r {
                Some(value) => self@.contains_key(name@) && self@[name@] == value@,
                None => !self@.contains_key(name@),
            },
    {
        proof {
            use_type_invariant(self);
            lemma_pairs_map(self.entries@);
        }
        let mut i: usize = 0;
        while i < self.entries.len()
            invariant
                i <= self.entries.len(),
                forall|k: Seq<char>|
                    self@.contains_key(k) <==> exists|i: int|
                        0 <= i < self.entries@.len() && (#[trigger] self.entries@[i]).0@ == k,
                forall|i: int|
                    0 <= i < self.entries@.len() ==> self@[(#[trigger] self.entries@[i]).0@]
                        == self.entries@[i].1@,
                forall|k: int| 0 <= k < i ==> (#[trigger] self.entries@[k]).0@ != name@,
            decreases self.entries.len() - i,
        {
            if same(self.entries[i].0.as_str(), name) {
                assert(self.entries@[i as int].0@ == name@);
                return Some(&self.entries[i].1);
            }
            i += 1;
        }
        None
    }

    /// Whether `name` has a value.
    pub fn contains_key(&self, name: &str) -> (r: bool)
        ensures
            r == self@.contains_key(name@),
    {
        self.get(name).is_some()
    }

    /// Sets `name` to `value`, whether or not it had a value.
    pub fn insert(&mut self, name: &str, value: &str)
        ensures
            final(self)@ == old(self)@.insert(name@, value@),
    {
        proof {
            use_type_invariant(&*self);
        }
        let ghost before = self.entries@;
        let mut at: usize = 0;
        while at < self.entries.len() && is_before(self.entries[at].0.as_str(), name)
            invariant
                at <= self.entries.len(),
                self.entries@ == before,
                forall|k: int| 0 <= k < at ==> precedes((#[trigger] before[k]).0@, name@),
            decreases self.entries.len() - at,
        {
            at += 1;
        }
        let mut entries: Vec<(String, String)> = Vec::new();
        std::mem::swap(&mut entries, &mut self.entries);
        let entry = (name.to_owned(), value.to_owned());
        if at < entries.len() && same(entries[at].0.as_str(), name) {
            entries.set(at, entry);
            proof {
                lemma_replaced(before, at as int, entry);
            }
        } else {
            entries.insert(at, entry);
            proof {
                lemma_inserted(before, at as int, entry);
            }
        }
        self.entries = entries;
    }
}

impl TextMap {
    /// Takes over every key and value of `more`.
    pub fn insert_all(&mut self, more: &TextMap)
        ensures
            final(self)@ == old(self)@.union_prefer_right(more@),
    {
        let ghost before = self@;
        let entries = more.entries();
        let mut i: usize = 0;
        assert(entries@.take(0) =~= Seq::<(String, String)>::empty());
        assert(before =~= before.union_prefer_right(pairs_map(entries@.take(0))));
        while i < entries.len()
            invariant
                i <= entries.len(),
                self@ == before.union_prefer_right(pairs_map(entries@.take(i as int))),
            decreases entries.len() - i,
        {
            proof {
                assert(entries@.take(i + 1).drop_last() == entries@.take(i as int));
                assert(entries@.take(i + 1).last() == entries@[i as int]);
                let m = pairs_map(entries@.take(i as int));
                let k = entries@[i as int].0@;
                let v = entries@[i as int].1@;
                assert(before.union_prefer_right(m.insert(k, v)) =~= before.union_prefer_right(
                    m,
                ).insert(k, v));
            }
            self.insert(entries[i].0.as_str(), entries[i].1.as_str());
            i += 1;
        }
        assert(entries@.take(i as int) == entries@);
    }
}

/// The map without the keys whose value is `value`.
pub open spec fn without_value(m: Map<Seq<char>, Seq<char>>, value: Seq<char>) -> Map<
    Seq<char>,
    Seq<char>,
> {
    Map::new(|k: Seq<char>| m.contains_key(k) && m[k] != value, |k: Seq<char>| m[k])
}

impl TextMap {
    /// Removes every key whose value is `value`.
    pub fn remove_value(&mut self, value: &str)
        ensures
            final(self)@ == without_value(old(self)@, value@),
    {
        proof {
            use_type_invariant(&*self);
        }
        let ghost before = self.entries@;
        let mut kept: Vec<(String, String)> = Vec::new();
        let mut i: usize = 0;
        assert(before.take(0) =~= Seq::<(String, String)>::empty());
        assert(pairs_map(kept@) =~= without_value(pairs_map(before.take(0)), value@));
        while i < self.entries.len()
            invariant
                i <= self.entries.len(),
                self.entries@ == before,
                names_in_order(before),
                names_in_order(kept@),
                forall|k: int|
                    0 <= k < kept@.len() ==> exists|j: int|
                        0 <= j < i && #[trigger] before[j] == #[trigger] kept@[k],
                pairs_map(kept@) == without_value(pairs_map(before.take(i as int)), value@),
            decreases self.entries.len() - i,
        {
            let ghost old_kept = kept@;
            let ghost now = before.take(i + 1);
            proof {
                assert(now.drop_last() == before.take(i as int));
                assert(now.last() == before[i as int]);
                lemma_pairs_map(before.take(i as int));
                assert(!pairs_map(before.take(i as int)).contains_key(before[i as int].0@)) by {
                    if pairs_map(before.take(i as int)).contains_key(before[i as int].0@) {
                        let j = choose|j: int|
                            0 <= j < i && (#[trigger] before.take(i as int)[j]).0@
                                == before[i as int].0@;
                        assert(precedes(before[j].0@, before[i as int].0@));
                        precedes_is_strict(before[j].0@);
                    }
                }
            }
            if !same(self.entries[i].1.as_str(), value) {
                let entry = (self.entries[i].0.clone(), self.entries[i].1.clone());
                assert(entry == before[i as int]);
                kept.push(entry);
                proof {
                    assert(kept@.drop_last() == old_kept);
                    assert forall|a: int, b: int| 0 <= a < b < kept@.len() implies precedes(
                        (#[trigger] kept@[a]).0@,
                        (#[trigger] kept@[b]).0@,
                    ) by {
                        if b == kept@.len() - 1 {
                            let j = choose|j: int|
                                0 <= j < i && #[trigger] before[j] == old_kept[a];
                            assert(kept@[a] == before[j]);
                        } else {
                            assert(kept@[a] == old_kept[a] && kept@[b] == old_kept[b]);
                        }
                    }
                    assert forall|k: int| 0 <= k < kept@.len() implies exists|j: int|
                        0 <= j < i + 1 && #[trigger] before[j] == #[trigger] kept@[k] by {
                        if k == kept@.len() - 1 {
                            assert(before[i as int] == kept@[k]);
                        } else {
                            let j = choose|j: int|
                                0 <= j < i && #[trigger] before[j] == old_kept[k];
                            assert(before[j] == kept@[k]);
                        }
                    }
                    assert(pairs_map(kept@) =~= without_value(pairs_map(now), value@));
                }
            } else {
                proof {
                    assert(pairs_map(kept@) =~= without_value(pairs_map(now), value@));
                    assert forall|k: int| 0 <= k < kept@.len() implies exists|j: int|
                        0 <= j < i + 1 && #[trigger] before[j] == #[trigger] kept@[k] by {
                        let j = choose|j: int| 0 <= j < i && #[trigger] before[j] == old_kept[k];
                        assert(before[j] == kept@[k]);
                    }
                }
            }
            i += 1;
        }
        assert(before.take(i as int) == before);
        self.entries = kept;
    }
}

proof fn lemma_replaced(s: Seq<(String, String)>, at: int, e: (String, String))
    requires
        names_in_order(s),
        0 <= at < s.len(),
        s[at].0@ == e.0@,
    ensures
        names_in_order(s.update(at, e)),
        pairs_map(s.update(at, e)) == pairs_map(s).insert(e.0@, e.1@),
{
    let t = s.update(at, e);
    lemma_pairs_map(s);
    assert(names_in_order(t));
    lemma_pairs_map(t);
    assert forall|k: Seq<char>|
        pairs_map(t).contains_key(k) <==> pairs_map(s).insert(e.0@, e.1@).contains_key(k) by {
        if pairs_map(t).contains_key(k) {
            let i = choose|i: int| 0 <= i < t.len() && (#[trigger] t[i]).0@ == k;
            assert(s[i].0@ == k);
        }
        if pairs_map(s).contains_key(k) {
            let i = choose|i: int| 0 <= i < s.len() && (#[trigger] s[i]).0@ == k;
            assert(t[i].0@ == k);
        }
        assert(t[at].0@ == e.0@);
    }
    assert forall|k: Seq<char>| pairs_map(t).contains_key(k) implies pairs_map(t)[k] == pairs_map(
        s,
    ).insert(e.0@, e.1@)[k] by {
        let i = choose|i: int| 0 <= i < t.len() && (#[trigger] t[i]).0@ == k;
        if i != at {
            assert(s[i].0@ == k);
            if i < at {
                assert(precedes(s[i].0@, s[at].0@));
            } else {
                assert(precedes(s[at].0@, s[i].0@));
            }
            precedes_is_strict(k);
        }
    }
    assert(pairs_map(t) =~= pairs_map(s).insert(e.0@, e.1@));
}

proof fn lemma_inserted(s: Seq<(String, String)>, at: int, e: (String, String))
    requires
        names_in_order(s),
        0 <= at <= s.len(),
        forall|k: int| 0 <= k < at ==> precedes((#[trigger] s[k]).0@, e.0@),
        at < s.len() ==> !precedes(s[at].0@, e.0@) && s[at].0@ != e.0@,
    ensures
        names_in_order(s.insert(at, e)),
        pairs_map(s.insert(at, e)) == pairs_map(s).insert(e.0@, e.1@),
{
    let t = s.insert(at, e);
    assert forall|k: int| at <= k < s.len() implies precedes(e.0@, (#[trigger] s[k]).0@) by {
        precedes_is_total(s[at].0@, e.0@);
        if at < k {
            assert(precedes(s[at].0@, s[k].0@));
            precedes_is_transitive(e.0@, s[at].0@, s[k].0@);
        }
    }
    assert forall|i: int, j: int| 0 <= i < j < t.len() implies precedes(
        (#[trigger] t[i]).0@,
        (#[trigger] t[j]).0@,
    ) by {
        if i < at && j > at {
            assert(t[i] == s[i] && t[j] == s[j - 1]);
        } else if j < at {
            assert(t[i] == s[i] && t[j] == s[j]);
        } else if i > at {
            assert(t[i] == s[i - 1] && t[j] == s[j - 1]);
        } else if i == at {
            assert(t[j] == s[j - 1]);
        } else {
            assert(t[i] == s[i]);
        }
    }
    lemma_pairs_map(s);
    lemma_pairs_map(t);
    assert forall|k: Seq<char>|
        pairs_map(t).contains_key(k) <==> pairs_map(s).insert(e.0@, e.1@).contains_key(k) by {
        if pairs_map(t).contains_key(k) {
            let i = choose|i: int| 0 <= i < t.len() && (#[trigger] t[i]).0@ == k;
            if i < at {
                assert(s[i].0@ == k);
            } else if i > at {
                assert(s[i - 1].0@ == k);
            }
        }
        if pairs_map(s).contains_key(k) {
            let i = choose|i: int| 0 <= i < s.len() && (#[trigger] s[i]).0@ == k;
            if i < at {
                assert(t[i].0@ == k);
            } else {
                assert(t[i + 1].0@ == k);
            }
        }
        assert(t[at].0@ == e.0@);
    }
    assert forall|k: Seq<char>| pairs_map(t).contains_key(k) implies pairs_map(t)[k] == pairs_map(
        s,
    ).insert(e.0@, e.1@)[k] by {
        let i = choose|i: int| 0 <= i < t.len() && (#[trigger] t[i]).0@ == k;
        if i < at {
            assert(t[i] == s[i]);
            assert(precedes(t[i].0@, t[at].0@));
            precedes_is_strict(k);
        } else if i > at {
            assert(t[i] == s[i - 1]);
            assert(precedes(t[at].0@, t[i].0@));
            precedes_is_strict(k);
        }
    }
    assert(pairs_map(t) =~= pairs_map(s).insert(e.0@, e.1@));
}

/// Keys and values as text.
pub open spec fn pair_texts(s: Seq<(String, String)>) -> Seq<(Seq<char>, Seq<char>)> {
    s.map_values(|e: (String, String)| (e.0@, e.1@))
}

pub open spec fn listed_map(l: Seq<(Seq<char>, Seq<char>)>) -> Map<Seq<char>, Seq<char>>
    decreases l.len(),
{
    if l.len() == 0 {
        Map::empty()
    } else {
        listed_map(l.drop_last()).insert(l.last().0, l.last().1)
    }
}

/// `l` lists the map `m` in the order of the keys.
pub open spec fn is_listing(l: Seq<(Seq<char>, Seq<char>)>, m: Map<Seq<char>, Seq<char>>) -> bool {
    &&& forall|i: int, j: int|
        0 <= i < j < l.len() ==> precedes((#[trigger] l[i]).0, (#[trigger] l[j]).0)
    &&& listed_map(l) == m
}

proof fn lemma_listed_keys(l: Seq<(Seq<char>, Seq<char>)>, k: Seq<char>)
    requires
        forall|i: int, j: int|
            0 <= i < j < l.len() ==> precedes((#[trigger] l[i]).0, (#[trigger] l[j]).0),
        listed_map(l).contains_key(k),
    ensures
        l.len() > 0,
        k == l.last().0 || (precedes(k, l.last().0) && listed_map(l.drop_last()).contains_key(k)),
    decreases l.len(),
{
    let init = l.drop_last();
    if k != l.last().0 {
        assert(listed_map(init).contains_key(k));
        assert forall|i: int, j: int| 0 <= i < j < init.len() implies precedes(
            (#[trigger] init[i]).0,
            (#[trigger] init[j]).0,
        ) by {
            assert(init[i] == l[i] && init[j] == l[j]);
        }
        lemma_listed_keys(init, k);
        assert(init.last() == l[init.len() - 1]);
        assert(precedes(l[init.len() - 1].0, l[l.len() - 1].0));
        if k != init.last().0 {
            precedes_is_transitive(k, init.last().0, l.last().0);
        }
    }
}

/// A map has one listing.
pub proof fn listing_is_unique(
    a: Seq<(Seq<char>, Seq<char>)>,
    b: Seq<(Seq<char>, Seq<char>)>,
    m: Map<Seq<char>, Seq<char>>,
)
    requires
        is_listing(a, m),
        is_listing(b, m),
    ensures
        a == b,
    decreases a.len(),
{
    if a.len() == 0 {
        if b.len() > 0 {
            assert(listed_map(b).contains_key(b.last().0));
        }
        assert(a =~= b);
    } else {
        let x = a.last();
        assert(m.contains_key(x.0));
        lemma_listed_keys(b, x.0);
        let y = b.last();
        assert(m.contains_key(y.0));
        lemma_listed_keys(a, y.0);
        if x.0 != y.0 {
            precedes_is_transitive(x.0, y.0, x.0);
            precedes_is_strict(x.0);
        }
        assert(m[x.0] == x.1 && m[x.0] == y.1);
        let rest_a = a.drop_last();
        let rest_b = b.drop_last();
        assert forall|i: int, j: int| 0 <= i < j < rest_a.len() implies precedes(
            (#[trigger] rest_a[i]).0,
            (#[trigger] rest_a[j]).0,
        ) by {
            assert(rest_a[i] == a[i] && rest_a[j] == a[j]);
        }
        assert forall|i: int, j: int| 0 <= i < j < rest_b.len() implies precedes(
            (#[trigger] rest_b[i]).0,
            (#[trigger] rest_b[j]).0,
        ) by {
            assert(rest_b[i] == b[i] && rest_b[j] == b[j]);
        }
        lemma_last_is_new(a);
        lemma_last_is_new(b);
        assert(listed_map(rest_a) =~= m.remove(x.0));
        assert(listed_map(rest_b) =~= m.remove(x.0));
        listing_is_unique(rest_a, rest_b, m.remove(x.0));
        assert(a =~= rest_a.push(x));
        assert(b =~= rest_b.push(y));
    }
}

proof fn lemma_last_is_new(l: Seq<(Seq<char>, Seq<char>)>)
    requires
        l.len() > 0,
        forall|i: int, j: int|
            0 <= i < j < l.len() ==> precedes((#[trigger] l[i]).0, (#[trigger] l[j]).0),
    ensures
        !listed_map(l.drop_last()).contains_key(l.last().0),
{
    let init = l.drop_last();
    assert forall|i: int, j: int| 0 <= i < j < init.len() implies precedes(
        (#[trigger] init[i]).0,
        (#[trigger] init[j]).0,
    ) by {
        assert(init[i] == l[i] && init[j] == l[j]);
    }
    if listed_map(init).contains_key(l.last().0) {
        lemma_listed_keys(init, l.last().0);
        assert(init.last() == l[init.len() - 1]);
        assert(precedes(l[init.len() - 1].0, l[l.len() - 1].0));
        precedes_is_strict(l.last().0);
        if l.last().0 != init.last().0 {
            precedes_is_transitive(l.last().0, init.last().0, l.last().0);
        }
    }
}

/// Entries in order list the map that they make up.
pub proof fn entries_are_a_listing(s: Seq<(String, String)>)
    requires
        names_in_order(s),
    ensures
        is_listing(pair_texts(s), pairs_map(s)),
    decreases s.len(),
{
    let l = pair_texts(s);
    assert forall|i: int, j: int| 0 <= i < j < l.len() implies precedes(
        (#[trigger] l[i]).0,
        (#[trigger] l[j]).0,
    ) by {
        assert(precedes(s[i].0@, s[j].0@));
    }
    lemma_same_map(s);
}

proof fn lemma_same_map(s: Seq<(String, String)>)
    ensures
        listed_map(pair_texts(s)) == pairs_map(s),
    decreases s.len(),
{
    if s.len() > 0 {
        lemma_same_map(s.drop_last());
        assert(pair_texts(s).drop_last() =~= pair_texts(s.drop_last()));
        assert(pair_texts(s).last() == (s.last().0@, s.last().1@));
    }
}

/// Of two texts the one with the lower character at the first place where they differ comes
/// before the other, and a text before every longer one that begins with it.
pub proof fn texts_are_ordered_by_their_first_difference(
    front: Seq<char>,
    a: char,
    b: char,
    rest: Seq<char>,
    other: Seq<char>,
)
    ensures
        a < b ==> precedes(front + seq![a] + rest, front + seq![b] + other),
        a > b ==> !precedes(front + seq![a] + rest, front + seq![b] + other),
        precedes(front, front + seq![a] + rest),
        !precedes(front + seq![a] + rest, front),
    decreases front.len(),
{
    let x = front + seq![a] + rest;
    let y = front + seq![b] + other;
    if front.len() > 0 {
        let inner = front.skip(1);
        texts_are_ordered_by_their_first_difference(inner, a, b, rest, other);
        assert(x.skip(1) =~= inner + seq![a] + rest);
        assert(y.skip(1) =~= inner + seq![b] + other);
        assert(x[0] == front[0] && y[0] == front[0]);
    } else {
        assert(x[0] == a && y[0] == b);
    }
}

/// What is left without a value are the entries with another value, as they were.
pub proof fn entries_with_other_values_are_left(
    m: Map<Seq<char>, Seq<char>>,
    value: Seq<char>,
    k: Seq<char>,
)
    ensures
        without_value(m, value).contains_key(k) <==> m.contains_key(k) && m[k] != value,
        without_value(m, value).contains_key(k) ==> without_value(m, value)[k] == m[k],
{
}

/// A listing of a map holds its entries and no others, each before all whose key comes later in
/// order.
pub proof fn listings_hold_the_entries_in_order(
    l: Seq<(Seq<char>, Seq<char>)>,
    m: Map<Seq<char>, Seq<char>>,
)
    requires
        is_listing(l, m),
    ensures
        forall|i: int, j: int|
            0 <= i < j < l.len() ==> precedes((#[trigger] l[i]).0, (#[trigger] l[j]).0),
        forall|i: int|
            0 <= i < l.len() ==> m.contains_key((#[trigger] l[i]).0) && m[l[i].0] == l[i].1,
        forall|k: Seq<char>| #[trigger]
            m.contains_key(k) ==> exists|i: int| 0 <= i < l.len() && (#[trigger] l[i]).0 == k,
    decreases l.len(),
{
    if l.len() > 0 {
        let init = l.drop_last();
        let last = l.last();
        let before = listed_map(init);
        assert forall|i: int, j: int| 0 <= i < j < init.len() implies precedes(
            (#[trigger] init[i]).0,
            (#[trigger] init[j]).0,
        ) by {
            assert(precedes(l[i].0, l[j].0));
        }
        listings_hold_the_entries_in_order(init, before);
        assert(l[l.len() - 1] == last);
        assert forall|i: int| 0 <= i < l.len() implies m.contains_key((#[trigger] l[i]).0)
            && m[l[i].0] == l[i].1 by {
            if i < init.len() {
                assert(init[i] == l[i]);
                assert(precedes(l[i].0, l[l.len() - 1].0));
                precedes_is_strict(last.0);
            }
        }
        assert forall|k: Seq<char>| #[trigger] m.contains_key(k) implies exists|i: int|
            0 <= i < l.len() && (#[trigger] l[i]).0 == k by {
            if k != last.0 {
                assert(before.contains_key(k));
                let i = choose|i: int| 0 <= i < init.len() && (#[trigger] init[i]).0 == k;
                assert(l[i].0 == k);
            }
        }
    }
}

/// Entries tell a map where each is in it, and each key of it stands in one of them.
pub proof fn entries_tell_each_key_and_value(
    s: Seq<(String, String)>,
    m: Map<Seq<char>, Seq<char>>,
    i: int,
    k: Seq<char>,
)
    requires
        tells_map(s, m),
    ensures
        0 <= i < s.len() ==> m.contains_key(s[i].0@) && m[s[i].0@] == s[i].1@,
        m.contains_key(k) ==> exists|j: int|
            0 <= j < s.len() && (#[trigger] s[j]).0@ == k && s[j].1@ == m[k],
{
    if m.contains_key(k) {
        let j = choose|j: int| 0 <= j < s.len() && (#[trigger] s[j]).0@ == k;
        assert(s[j].1@ == m[k]);
    }
}

} // verus!
