//! What it means to choose items of a list and keep their order.

use vstd::prelude::*;

verus! {

/// `picked` are the items of `s` at `places`, which rise and are exactly those of the items
/// that `wanted` accepts.
pub open spec fn chosen_at<A>(
    s: Seq<A>,
    wanted: spec_fn(A) -> bool,
    picked: Seq<A>,
    places: Seq<int>,
) -> bool {
    &&& places.len() == picked.len()
    &&& forall|k: int|
        0 <= k < places.len() ==> 0 <= #[trigger] places[k] < s.len() && picked[k] == s[places[k]]
    &&& forall|a: int, b: int|
        0 <= a < b < places.len() ==> #[trigger] places[a] < #[trigger] places[b]
    &&& forall|i: int| 0 <= i < s.len() ==> (wanted(#[trigger] s[i]) <==> places.contains(i))
}

/// `picked` are the items of `s` that `wanted` accepts, each as often as it stands there and in
/// the order of `s`.
pub open spec fn chosen<A>(s: Seq<A>, wanted: spec_fn(A) -> bool, picked: Seq<A>) -> bool {
    exists|places: Seq<int>| chosen_at(s, wanted, picked, places)
}

/// Nothing is chosen from a list without items.
pub proof fn nothing_is_chosen_from_nothing<A>(wanted: spec_fn(A) -> bool)
    ensures
        chosen(Seq::<A>::empty(), wanted, Seq::<A>::empty()),
{
    assert(chosen_at(Seq::<A>::empty(), wanted, Seq::<A>::empty(), Seq::<int>::empty()));
}

/// One more item is chosen, behind the others, where it is wanted.
pub proof fn choosing_goes_item_by_item<A>(
    s: Seq<A>,
    item: A,
    wanted: spec_fn(A) -> bool,
    picked: Seq<A>,
)
    requires
        chosen(s, wanted, picked),
    ensures
        wanted(item) ==> chosen(s.push(item), wanted, picked.push(item)),
        !wanted(item) ==> chosen(s.push(item), wanted, picked),
{
    let places = choose|places: Seq<int>| chosen_at(s, wanted, picked, places);
    let t = s.push(item);
    let n = s.len() as int;
    assert forall|i: int| 0 <= i < n implies (wanted(#[trigger] t[i]) <==> places.contains(i)) by {
        assert(t[i] == s[i]);
    }
    assert(!places.contains(n));
    if wanted(item) {
        let more = places.push(n);
        assert forall|i: int| 0 <= i < t.len() implies (wanted(#[trigger] t[i])
            <==> more.contains(i)) by {
            if i < n {
                if places.contains(i) {
                    let k = choose|k: int| 0 <= k < places.len() && places[k] == i;
                    assert(more[k] == i);
                }
                if more.contains(i) {
                    let k = choose|k: int| 0 <= k < more.len() && more[k] == i;
                    assert(places[k] == i);
                }
            } else {
                assert(more[places.len() as int] == n);
            }
        }
        assert forall|k: int| 0 <= k < more.len() implies 0 <= #[trigger] more[k] < t.len()
            && picked.push(item)[k] == t[more[k]] by {
            if k < places.len() {
                assert(more[k] == places[k]);
            }
        }
        assert forall|a: int, b: int| 0 <= a < b < more.len() implies #[trigger] more[a]
            < #[trigger] more[b] by {
            assert(more[a] == places[a]);
            if b < places.len() {
                assert(more[b] == places[b]);
            }
        }
        assert(chosen_at(t, wanted, picked.push(item), more));
    } else {
        assert(chosen_at(t, wanted, picked, places));
    }
}

/// An item is among those chosen exactly where it is wanted and in the list.
pub proof fn chosen_items_are_the_wanted_ones<A>(
    s: Seq<A>,
    wanted: spec_fn(A) -> bool,
    picked: Seq<A>,
    item: A,
)
    requires
        chosen(s, wanted, picked),
    ensures
        picked.contains(item) <==> s.contains(item) && wanted(item),
        picked.len() <= s.len(),
{
    let places = choose|places: Seq<int>| chosen_at(s, wanted, picked, places);
    if picked.contains(item) {
        let k = choose|k: int| 0 <= k < picked.len() && picked[k] == item;
        assert(s[places[k]] == item);
        assert(places.contains(places[k]));
    }
    if s.contains(item) && wanted(item) {
        let i = choose|i: int| 0 <= i < s.len() && s[i] == item;
        assert(places.contains(i));
        let k = choose|k: int| 0 <= k < places.len() && places[k] == i;
        assert(picked[k] == item);
    }
    lemma_rising(places, s.len() as int);
}

proof fn lemma_rising(places: Seq<int>, n: int)
    requires
        forall|k: int| 0 <= k < places.len() ==> 0 <= #[trigger] places[k] < n,
        forall|a: int, b: int|
            0 <= a < b < places.len() ==> #[trigger] places[a] < #[trigger] places[b],
        0 <= n,
    ensures
        places.len() <= n,
    decreases places.len(),
{
    if places.len() > 0 {
        let init = places.drop_last();
        assert forall|k: int| 0 <= k < init.len() implies 0 <= #[trigger] init[k] < places.last() by {
            assert(init[k] == places[k]);
        }
        assert forall|a: int, b: int| 0 <= a < b < init.len() implies #[trigger] init[a]
            < #[trigger] init[b] by {
            assert(init[a] == places[a] && init[b] == places[b]);
        }
        lemma_rising(init, places.last());
    }
}

/// `wanted` accepts this many items of `s`.
pub open spec fn counts<A>(s: Seq<A>, wanted: spec_fn(A) -> bool, n: nat) -> bool {
    exists|picked: Seq<A>| #[trigger] chosen(s, wanted, picked) && picked.len() == n
}

/// Items are counted one by one.
pub proof fn counting_goes_item_by_item<A>(s: Seq<A>, item: A, wanted: spec_fn(A) -> bool, n: nat)
    ensures
        counts(Seq::<A>::empty(), wanted, 0),
        counts(s, wanted, n) && wanted(item) ==> counts(s.push(item), wanted, n + 1),
        counts(s, wanted, n) && !wanted(item) ==> counts(s.push(item), wanted, n),
{
    nothing_is_chosen_from_nothing(wanted);
    if counts(s, wanted, n) {
        let picked = choose|picked: Seq<A>| #[trigger]
            chosen(s, wanted, picked) && picked.len() == n;
        choosing_goes_item_by_item(s, item, wanted, picked);
        assert(wanted(item) ==> chosen(s.push(item), wanted, picked.push(item)));
        assert(picked.push(item).len() == n + 1);
    }
}

/// `r` is what `told` makes of the items of `s` that `wanted` accepts, each as often as it
/// stands there and in the order of `s`.
pub open spec fn gathers<A, B>(
    s: Seq<A>,
    wanted: spec_fn(A) -> bool,
    told: spec_fn(A) -> B,
    r: Seq<B>,
) -> bool {
    exists|picked: Seq<A>| #[trigger] chosen(s, wanted, picked) && r == picked.map_values(told)
}

/// Items are gathered one by one.
pub proof fn gathering_goes_item_by_item<A, B>(
    s: Seq<A>,
    item: A,
    wanted: spec_fn(A) -> bool,
    told: spec_fn(A) -> B,
    r: Seq<B>,
)
    ensures
        gathers(Seq::<A>::empty(), wanted, told, Seq::<B>::empty()),
        gathers(s, wanted, told, r) && wanted(item) ==> gathers(
            s.push(item),
            wanted,
            told,
            r.push(told(item)),
        ),
        gathers(s, wanted, told, r) && !wanted(item) ==> gathers(s.push(item), wanted, told, r),
{
    nothing_is_chosen_from_nothing(wanted);
    assert(Seq::<A>::empty().map_values(told) =~= Seq::<B>::empty());
    if gathers(s, wanted, told, r) {
        let picked = choose|picked: Seq<A>| #[trigger]
            chosen(s, wanted, picked) && r == picked.map_values(told);
        choosing_goes_item_by_item(s, item, wanted, picked);
        assert(picked.push(item).map_values(told) =~= r.push(told(item)));
        assert(wanted(item) ==> chosen(s.push(item), wanted, picked.push(item)));
    }
}

} // verus!
