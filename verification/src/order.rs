//! Stable sorting by a strict weak order.

use vstd::prelude::*;

verus! {

/// The relation is a strict weak order: asymmetric, transitive, and with ties that are transitive.
pub open spec fn strict_weak_order<T>(before: spec_fn(T, T) -> bool) -> bool {
    &&& forall|a: T, b: T| #[trigger] before(a, b) ==> !before(b, a)
    &&& forall|a: T, b: T, c: T| #[trigger] before(a, b) && #[trigger] before(b, c) ==> before(a, c)
    &&& forall|a: T, b: T, c: T|
        #![trigger before(a, c), before(a, b)]
        #![trigger before(a, c), before(b, c)]
        before(a, c) ==> before(a, b) || before(b, c)
}

/// No later item comes before an earlier one.
pub open spec fn in_order<T>(items: Seq<T>, before: spec_fn(T, T) -> bool) -> bool {
    forall|i: int, j: int| 0 <= i < j < items.len() ==> !before(#[trigger] items[j], #[trigger] items[i])
}

/// `places` names each index below `n` exactly once.
pub open spec fn is_rearrangement(places: Seq<int>, n: nat) -> bool {
    &&& places.len() == n
    &&& forall|i: int| 0 <= i < n ==> 0 <= #[trigger] places[i] < n
    &&& forall|i: int, j: int| 0 <= i < j < n ==> #[trigger] places[i] != #[trigger] places[j]
}

/// `sorted` holds the items that stood at `places` in `items`, in order, ties as they stood.
pub open spec fn stably_placed<T>(
    items: Seq<T>,
    sorted: Seq<T>,
    places: Seq<int>,
    before: spec_fn(T, T) -> bool,
) -> bool {
    &&& is_rearrangement(places, items.len())
    &&& sorted.len() == items.len()
    &&& forall|i: int| 0 <= i < sorted.len() ==> #[trigger] sorted[i] == items[places[i]]
    &&& in_order(sorted, before)
    &&& forall|i: int, j: int|
        0 <= i < j < sorted.len() && !before(sorted[i], sorted[j]) ==> #[trigger] places[i]
            < #[trigger] places[j]
}

/// `sorted` is the stable sort of `items`.
pub open spec fn is_stable_sort<T>(
    items: Seq<T>,
    sorted: Seq<T>,
    before: spec_fn(T, T) -> bool,
) -> bool {
    exists|places: Seq<int>| stably_placed(items, sorted, places, before)
}

/// Where the item is put: behind every item that comes before it.
fn insertion_point<T, F: Fn(&T, &T) -> bool>(
    sorted: &Vec<T>,
    item: &T,
    less: &F,
    Ghost(before): Ghost<spec_fn(T, T) -> bool>,
) -> (k: usize)
    requires
        forall|a: &T, b: &T| less.requires((a, b)),
        forall|a: &T, b: &T, r: bool| less.ensures((a, b), r) ==> r == before(*a, *b),
    ensures
        k <= sorted.len(),
        forall|j: int| 0 <= j < k ==> before(#[trigger] sorted@[j], *item),
        k < sorted.len() ==> !before(sorted@[k as int], *item),
{
    let mut k: usize = 0;
    while k < sorted.len()
        invariant
            k <= sorted.len(),
            forall|a: &T, b: &T| less.requires((a, b)),
            forall|a: &T, b: &T, r: bool| less.ensures((a, b), r) ==> r == before(*a, *b),
            forall|j: int| 0 <= j < k ==> before(#[trigger] sorted@[j], *item),
        decreases sorted.len() - k,
    {
        if !less(&sorted[k], item) {
            return k;
        }
        k = k + 1;
    }
    k
}

/// One step of the sort: the item at place `at` goes in front of its ties.
proof fn lemma_insert_placed<T>(
    items: Seq<T>,
    sorted: Seq<T>,
    places: Seq<int>,
    k: int,
    at: int,
    before: spec_fn(T, T) -> bool,
)
    requires
        strict_weak_order(before),
        0 <= at < items.len(),
        sorted.len() == items.len() - at - 1,
        places.len() == sorted.len(),
        forall|i: int| 0 <= i < places.len() ==> at < #[trigger] places[i] < items.len(),
        forall|i: int, j: int| 0 <= i < j < places.len() ==> #[trigger] places[i] != #[trigger] places[j],
        forall|i: int| 0 <= i < sorted.len() ==> #[trigger] sorted[i] == items[places[i]],
        in_order(sorted, before),
        forall|i: int, j: int|
            0 <= i < j < sorted.len() && !before(sorted[i], sorted[j]) ==> #[trigger] places[i]
                < #[trigger] places[j],
        0 <= k <= sorted.len(),
        forall|j: int| 0 <= j < k ==> before(#[trigger] sorted[j], items[at]),
        k < sorted.len() ==> !before(sorted[k], items[at]),
    ensures
        ({
            let s = sorted.insert(k, items[at]);
            let p = places.insert(k, at);
            &&& p.len() == s.len()
            &&& forall|i: int| 0 <= i < p.len() ==> at <= #[trigger] p[i] < items.len()
            &&& forall|i: int, j: int| 0 <= i < j < p.len() ==> #[trigger] p[i] != #[trigger] p[j]
            &&& forall|i: int| 0 <= i < s.len() ==> #[trigger] s[i] == items[p[i]]
            &&& in_order(s, before)
            &&& forall|i: int, j: int|
                0 <= i < j < s.len() && !before(s[i], s[j]) ==> #[trigger] p[i] < #[trigger] p[j]
        }),
{
    let x = items[at];
    let s = sorted.insert(k, x);
    let p = places.insert(k, at);
    assert forall|j: int| k <= j < sorted.len() implies !before(#[trigger] sorted[j], x) by {
        if j > k && before(sorted[j], x) {
            assert(before(sorted[j], sorted[k]) || before(sorted[k], x));
        }
    }
    assert forall|i: int, j: int| 0 <= i < j < s.len() implies !before(#[trigger] s[j], #[trigger] s[i]) by {
        let i0 = if i < k { i } else { i - 1 };
        let j0 = if j < k { j } else { j - 1 };
        if i == k {
            assert(s[j] == sorted[j - 1]);
        } else if j == k {
            assert(s[i] == sorted[i]);
            assert(before(sorted[i], x));
        } else {
            assert(s[i] == sorted[i0] && s[j] == sorted[j0]);
        }
    }
    assert forall|i: int, j: int| 0 <= i < j < s.len() && !before(s[i], s[j]) implies #[trigger] p[i]
        < #[trigger] p[j] by {
        let i0 = if i < k { i } else { i - 1 };
        let j0 = if j < k { j } else { j - 1 };
        if i == k {
            assert(p[j] == places[j - 1]);
        } else if j == k {
            assert(s[i] == sorted[i]);
        } else {
            assert(s[i] == sorted[i0] && s[j] == sorted[j0]);
            assert(p[i] == places[i0] && p[j] == places[j0]);
        }
    }
    assert forall|i: int, j: int| 0 <= i < j < p.len() implies #[trigger] p[i] != #[trigger] p[j] by {
        let i0 = if i < k { i } else { i - 1 };
        let j0 = if j < k { j } else { j - 1 };
        if i == k {
            assert(p[j] == places[j - 1]);
        } else if j == k {
            assert(p[i] == places[i]);
        } else {
            assert(p[i] == places[i0] && p[j] == places[j0]);
        }
    }
    assert forall|i: int| 0 <= i < p.len() implies at <= #[trigger] p[i] < items.len() by {
        if i < k {
            assert(p[i] == places[i]);
        } else if i > k {
            assert(p[i] == places[i - 1]);
        }
    }
    assert forall|i: int| 0 <= i < s.len() implies #[trigger] s[i] == items[p[i]] by {
        if i < k {
            assert(s[i] == sorted[i] && p[i] == places[i]);
        } else if i > k {
            assert(s[i] == sorted[i - 1] && p[i] == places[i - 1]);
        }
    }
}

/// Sorts the items by the order that `less` computes; items that tie keep their order.
pub(crate) fn stable_sort<T, F: Fn(&T, &T) -> bool>(
    items: Vec<T>,
    less: F,
    Ghost(before): Ghost<spec_fn(T, T) -> bool>,
) -> (sorted: Vec<T>)
    requires
        strict_weak_order(before),
        forall|a: &T, b: &T| less.requires((a, b)),
        forall|a: &T, b: &T, r: bool| less.ensures((a, b), r) ==> r == before(*a, *b),
    ensures
        is_stable_sort(items@, sorted@, before),
{
    let mut rest = items;
    let mut sorted: Vec<T> = Vec::new();
    let ghost all = items@;
    let ghost mut places: Seq<int> = Seq::empty();
    while rest.len() > 0
        invariant
            strict_weak_order(before),
            forall|a: &T, b: &T| less.requires((a, b)),
            forall|a: &T, b: &T, r: bool| less.ensures((a, b), r) ==> r == before(*a, *b),
            rest.len() <= all.len(),
            rest@ == all.take(rest.len() as int),
            sorted.len() == all.len() - rest.len(),
            places.len() == sorted.len(),
            forall|i: int| 0 <= i < places.len() ==> rest.len() <= #[trigger] places[i] < all.len(),
            forall|i: int, j: int| 0 <= i < j < places.len() ==> #[trigger] places[i] != #[trigger] places[j],
            forall|i: int| 0 <= i < sorted.len() ==> #[trigger] sorted@[i] == all[places[i]],
            in_order(sorted@, before),
            forall|i: int, j: int|
                0 <= i < j < sorted.len() && !before(sorted@[i], sorted@[j]) ==> #[trigger] places[i]
                    < #[trigger] places[j],
        decreases rest.len(),
    {
        let ghost n = rest.len() as int;
        match rest.pop() {
            None => {},
            Some(item) => {
                let ghost s0 = sorted@;
                assert(item == all[n - 1]);
                let k = insertion_point(&sorted, &item, &less, Ghost(before));
                proof {
                    lemma_insert_placed(all, s0, places, k as int, n - 1, before);
                }
                sorted.insert(k, item);
                proof {
                    places = places.insert(k as int, n - 1);
                    assert(sorted@ =~= s0.insert(k as int, all[n - 1]));
                    assert(rest@ =~= all.take(n - 1));
                }
            },
        }
    }
    assert(stably_placed(all, sorted@, places, before));
    sorted
}

/// A stable sort holds the items that it was given, and no others.
pub proof fn lemma_sort_keeps_items<T>(items: Seq<T>, sorted: Seq<T>, before: spec_fn(T, T) -> bool)
    requires
        is_stable_sort(items, sorted, before),
    ensures
        sorted.len() == items.len(),
        forall|x: T| sorted.contains(x) <==> items.contains(x),
{
    let places = choose|places: Seq<int>| stably_placed(items, sorted, places, before);
    assert forall|x: T| sorted.contains(x) implies items.contains(x) by {
        let i = choose|i: int| 0 <= i < sorted.len() && sorted[i] == x;
        assert(sorted[i] == items[places[i]]);
    }
    assert forall|x: T| items.contains(x) implies sorted.contains(x) by {
        let m = choose|m: int| 0 <= m < items.len() && items[m] == x;
        lemma_rearrangement_onto(places, items.len(), m);
        let i = choose|i: int| 0 <= i < places.len() && places[i] == m;
        assert(sorted[i] == items[places[i]]);
    }
}

/// A rearrangement names every index.
pub proof fn lemma_rearrangement_onto(places: Seq<int>, n: nat, m: int)
    requires
        is_rearrangement(places, n),
        0 <= m < n,
    ensures
        exists|i: int| 0 <= i < places.len() && places[i] == m,
{
    let range = vstd::set_lib::set_int_range(0, n as int);
    vstd::set_lib::lemma_int_range(0, n as int);
    assert(places.no_duplicates());
    places.unique_seq_to_set();
    let named = places.to_set();
    assert(named.subset_of(range)) by {
        assert forall|x: int| named.contains(x) implies range.contains(x) by {
            let i = choose|i: int| 0 <= i < places.len() && places[i] == x;
            assert(0 <= places[i] < n);
        }
    }
    vstd::set_lib::lemma_subset_equality(named, range);
    assert(named.contains(m));
}

/// Of two items the one at place `i` stands first in the stable sort.
spec fn stands_before<T>(items: Seq<T>, before: spec_fn(T, T) -> bool, i: int, j: int) -> bool {
    before(items[i], items[j]) || (!before(items[j], items[i]) && i < j)
}

proof fn lemma_places_agree<T>(
    items: Seq<T>,
    before: spec_fn(T, T) -> bool,
    sorted1: Seq<T>,
    places1: Seq<int>,
    sorted2: Seq<T>,
    places2: Seq<int>,
    i: int,
)
    requires
        strict_weak_order(before),
        stably_placed(items, sorted1, places1, before),
        stably_placed(items, sorted2, places2, before),
        0 <= i < items.len(),
    ensures
        places1[i] == places2[i],
    decreases i,
{
    assert forall|j: int| 0 <= j < i implies places1[j] == places2[j] by {
        lemma_places_agree(items, before, sorted1, places1, sorted2, places2, j);
    }
    let a = places1[i];
    let b = places2[i];
    if a != b {
        lemma_rearrangement_onto(places2, items.len(), a);
        lemma_rearrangement_onto(places1, items.len(), b);
        let j = choose|j: int| 0 <= j < places2.len() && places2[j] == a;
        let k = choose|k: int| 0 <= k < places1.len() && places1[k] == b;
        assert(j > i) by {
            if j < i {
                assert(places1[j] == places1[i]);
            }
        }
        assert(k > i) by {
            if k < i {
                assert(places2[k] == places2[i]);
            }
        }
        assert(sorted2[i] == items[b] && sorted2[j] == items[a]);
        assert(sorted1[i] == items[a] && sorted1[k] == items[b]);
        assert(!before(sorted2[j], sorted2[i]));
        assert(!before(sorted1[k], sorted1[i]));
        assert(stands_before(items, before, b, a));
        assert(stands_before(items, before, a, b));
    }
}

/// There is only one stable sort of the items.
pub proof fn stable_sort_is_determined<T>(
    items: Seq<T>,
    sorted1: Seq<T>,
    sorted2: Seq<T>,
    before: spec_fn(T, T) -> bool,
)
    requires
        strict_weak_order(before),
        is_stable_sort(items, sorted1, before),
        is_stable_sort(items, sorted2, before),
    ensures
        sorted1 == sorted2,
{
    let places1 = choose|places: Seq<int>| stably_placed(items, sorted1, places, before);
    let places2 = choose|places: Seq<int>| stably_placed(items, sorted2, places, before);
    assert forall|i: int| 0 <= i < items.len() implies sorted1[i] == sorted2[i] by {
        lemma_places_agree(items, before, sorted1, places1, sorted2, places2, i);
    }
    assert(sorted1 =~= sorted2);
}

/// What a filter keeps stands at ascending places, and every item that is to be kept is kept.
pub proof fn lemma_filter_places<T>(items: Seq<T>, keep: spec_fn(T) -> bool) -> (places: Seq<int>)
    ensures
        places.len() == items.filter(keep).len(),
        forall|k: int|
            0 <= k < places.len() ==> 0 <= #[trigger] places[k] < items.len() && keep(
                items[places[k]],
            ) && items.filter(keep)[k] == items[places[k]],
        forall|j: int, k: int|
            0 <= j < k < places.len() ==> #[trigger] places[j] < #[trigger] places[k],
        forall|i: int| 0 <= i < items.len() && keep(#[trigger] items[i]) ==> places.contains(i),
    decreases items.len(),
{
    reveal(Seq::filter);
    if items.len() == 0 {
        Seq::empty()
    } else {
        let rest = items.drop_last();
        let n = items.len() - 1;
        let before = lemma_filter_places(rest, keep);
        let kept = rest.filter(keep);
        let all = items.filter(keep);
        assert(all == if keep(items.last()) {
            kept.push(items.last())
        } else {
            kept
        });
        let places = if keep(items.last()) {
            before.push(n)
        } else {
            before
        };
        assert forall|k: int| 0 <= k < places.len() implies 0 <= #[trigger] places[k] < items.len()
            && keep(items[places[k]]) && all[k] == items[places[k]] by {
            if k < before.len() {
                assert(places[k] == before[k]);
                assert(rest[before[k]] == items[before[k]]);
            }
        }
        assert forall|j: int, k: int| 0 <= j < k < places.len() implies #[trigger] places[j]
            < #[trigger] places[k] by {
            assert(places[j] == before[j]);
            if k < before.len() {
                assert(places[k] == before[k]);
            }
        }
        assert forall|i: int| 0 <= i < items.len() && keep(#[trigger] items[i]) implies places.contains(
            i,
        ) by {
            if i < n {
                assert(rest[i] == items[i]);
                assert(before.contains(i));
                let k = choose|k: int| 0 <= k < before.len() && before[k] == i;
                assert(places[k] == i);
            } else {
                assert(places[places.len() - 1] == n);
            }
        }
        places
    }
}

} // verus!
