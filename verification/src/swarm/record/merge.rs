//! What becomes of several ads of one node: merging buckets, and taking an ad into a bucket.

use super::{ad_precedes, ad_valid, bucket_list, precedes, signed_ads, BucketView, ServiceBucket};
use super::{lemma_precedes_order, lemma_precedes_total, newer_ad_comes_first};
use super::{SignedAdView, SignedServiceAd};
use super::DHT_BUCKET_VERSION;
use crate::octets::{lemma_lex_irreflexive, same_bytes};
use crate::order::{is_stable_sort, lemma_sort_keeps_items, stable_sort, stably_placed};
use crate::order::strict_weak_order;
use vstd::prelude::*;

verus! {

/// The ads of the list that are valid.
pub open spec fn valid_ads(
    ads: Seq<SignedAdView>,
    alpn: Seq<u8>,
    minute: u64,
    shard: u8,
    now: u64,
) -> Seq<SignedAdView> {
    ads.filter(|ad: SignedAdView| ad_valid(ad, alpn, minute, shard, now))
}

/// The valid ads of all buckets of the current format, one bucket behind the other.
pub open spec fn candidates(
    buckets: Seq<BucketView>,
    alpn: Seq<u8>,
    minute: u64,
    shard: u8,
    now: u64,
) -> Seq<SignedAdView>
    decreases buckets.len(),
{
    if buckets.len() == 0 {
        Seq::empty()
    } else {
        let earlier = candidates(buckets.drop_last(), alpn, minute, shard, now);
        if buckets.last().version == DHT_BUCKET_VERSION {
            earlier + valid_ads(buckets.last().ads, alpn, minute, shard, now)
        } else {
            earlier
        }
    }
}

/// The ad at the index is the one to keep of its node: it precedes every other of the node, or
/// ties with it and came first.
pub open spec fn wins(ads: Seq<SignedAdView>, i: int) -> bool {
    &&& 0 <= i < ads.len()
    &&& forall|j: int|
        0 <= j < ads.len() && j != i && (#[trigger] ads[j]).ad.node_id == ads[i].ad.node_id
            ==> precedes(ads[i], ads[j]) || (!precedes(ads[j], ads[i]) && i < j)
}

/// No two ads are of the same node.
pub open spec fn one_per_node(ads: Seq<SignedAdView>) -> bool {
    forall|i: int, j: int|
        0 <= i < j < ads.len() ==> (#[trigger] ads[i]).ad.node_id != (#[trigger] ads[j]).ad.node_id
}

/// The ad is, among the ads of its node, the one to keep.
pub open spec fn is_winner(ads: Seq<SignedAdView>, ad: SignedAdView) -> bool {
    exists|i: int| #[trigger] wins(ads, i) && ads[i] == ad
}

/// `kept` holds, of each node that has an ad, the one ad to keep.
pub open spec fn best_of(ads: Seq<SignedAdView>, kept: Seq<SignedAdView>) -> bool {
    &&& forall|k: int| 0 <= k < kept.len() ==> is_winner(ads, #[trigger] kept[k])
    &&& forall|i: int| #[trigger] wins(ads, i) ==> kept.contains(ads[i])
    &&& one_per_node(kept)
}

/// Each ad precedes those behind it.
pub open spec fn newest_first(ads: Seq<SignedAdView>) -> bool {
    forall|i: int, j: int| 0 <= i < j < ads.len() ==> precedes(#[trigger] ads[i], #[trigger] ads[j])
}

/// The index is the first at which the list has an ad of the node.
pub open spec fn is_first_of_node(ads: Seq<SignedAdView>, node_id: Seq<u8>, k: int) -> bool {
    &&& 0 <= k < ads.len()
    &&& ads[k].ad.node_id == node_id
    &&& forall|j: int| 0 <= j < k ==> (#[trigger] ads[j]).ad.node_id != node_id
}

/// The ads with one taken in: it takes the place of the node's ad where it precedes that, and
/// comes last where the node has none.
pub open spec fn upserted(ads: Seq<SignedAdView>, ad: SignedAdView) -> Seq<SignedAdView> {
    if exists|k: int| is_first_of_node(ads, ad.ad.node_id, k) {
        let k = choose|k: int| is_first_of_node(ads, ad.ad.node_id, k);
        if precedes(ad, ads[k]) {
            ads.update(k, ad)
        } else {
            ads
        }
    } else {
        ads.push(ad)
    }
}

proof fn lemma_winner_exists(ads: Seq<SignedAdView>, n: int, m: int) -> (w: int)
    requires
        0 <= m < n <= ads.len(),
    ensures
        0 <= w < n,
        wins(ads.take(n), w),
        ads[w].ad.node_id == ads[m].ad.node_id,
    decreases n, m,
{
    lemma_precedes_order();
    let t = ads.take(n);
    if m == n - 1 {
        if exists|j: int| 0 <= j < n - 1 && ads[j].ad.node_id == ads[m].ad.node_id {
            let j = choose|j: int| 0 <= j < n - 1 && ads[j].ad.node_id == ads[m].ad.node_id;
            lemma_winner_exists(ads, n, j)
        } else {
            assert(wins(t, m));
            m
        }
    } else {
        let w = lemma_winner_exists(ads, n - 1, m);
        let s = ads.take(n - 1);
        assert forall|j: int| 0 <= j < n - 1 implies t[j] == s[j] by {}
        if ads[n - 1].ad.node_id == ads[m].ad.node_id && precedes(ads[n - 1], ads[w]) {
            assert forall|j: int| 0 <= j < t.len() && j != n - 1 && (#[trigger] t[j]).ad.node_id
                == t[n - 1].ad.node_id implies precedes(t[n - 1], t[j]) by {
                assert(s[j] == t[j]);
                if j != w {
                    assert(precedes(s[w], s[j]) || !precedes(s[j], s[w]));
                }
            }
            assert(wins(t, n - 1));
            n - 1
        } else {
            assert forall|j: int| 0 <= j < t.len() && j != w && (#[trigger] t[j]).ad.node_id
                == t[w].ad.node_id implies precedes(t[w], t[j]) || (!precedes(t[j], t[w]) && w
                < j) by {
                if j < n - 1 {
                    assert(s[j] == t[j]);
                }
            }
            assert(wins(t, w));
            w
        }
    }
}

/// An ad of a node that had none yet joins the kept ones.
proof fn lemma_best_push(ads: Seq<SignedAdView>, kept: Seq<SignedAdView>, x: SignedAdView)
    requires
        best_of(ads, kept),
        forall|k: int| 0 <= k < kept.len() ==> (#[trigger] kept[k]).ad.node_id != x.ad.node_id,
    ensures
        best_of(ads.push(x), kept.push(x)),
{
    let n = ads.len() as int;
    let more = ads.push(x);
    let next = kept.push(x);
    assert forall|j: int| 0 <= j < n implies (#[trigger] ads[j]).ad.node_id != x.ad.node_id by {
        assert(ads.take(n) =~= ads);
        let w = lemma_winner_exists(ads, n, j);
        assert(kept.contains(ads[w]));
        let k = choose|k: int| 0 <= k < kept.len() && kept[k] == ads[w];
        assert(kept[k].ad.node_id != x.ad.node_id);
    }
    assert forall|i: int| 0 <= i < n implies wins(more, i) == wins(ads, i) by {
        assert(forall|j: int| 0 <= j < n ==> more[j] == ads[j]);
    }
    assert(wins(more, n)) by {
        assert(forall|j: int| 0 <= j < n ==> more[j] == ads[j]);
    }
    assert forall|k: int| 0 <= k < next.len() implies is_winner(more, #[trigger] next[k]) by {
        if k < kept.len() {
            let i = choose|i: int| #[trigger] wins(ads, i) && ads[i] == kept[k];
            assert(wins(more, i) && next[k] == more[i]);
        } else {
            assert(wins(more, n) && next[k] == more[n]);
        }
    }
    assert forall|i: int| #[trigger] wins(more, i) implies next.contains(more[i]) by {
        if i < n {
            assert(wins(ads, i));
            let k = choose|k: int| 0 <= k < kept.len() && kept[k] == ads[i];
            assert(next[k] == more[i]);
        } else {
            assert(next[kept.len() as int] == more[i]);
        }
    }
}

/// An ad of a node that has one takes its place, or is left out.
proof fn lemma_best_update(
    ads: Seq<SignedAdView>,
    kept: Seq<SignedAdView>,
    k: int,
    x: SignedAdView,
)
    requires
        best_of(ads, kept),
        0 <= k < kept.len(),
        kept[k].ad.node_id == x.ad.node_id,
    ensures
        precedes(x, kept[k]) ==> best_of(ads.push(x), kept.update(k, x)),
        !precedes(x, kept[k]) ==> best_of(ads.push(x), kept),
{
    lemma_precedes_order();
    let n = ads.len() as int;
    let more = ads.push(x);
    assert(forall|j: int| 0 <= j < n ==> more[j] == ads[j]);
    let w = choose|i: int| #[trigger] wins(ads, i) && ads[i] == kept[k];
    assert forall|i: int| 0 <= i < n && ads[i].ad.node_id != x.ad.node_id implies wins(more, i)
        == wins(ads, i) by {}
    assert forall|i: int| 0 <= i < n && ads[i].ad.node_id == x.ad.node_id && i != w implies !wins(
        more,
        i,
    ) by {
        if wins(more, i) {
            assert(more[w].ad.node_id == more[i].ad.node_id);
            assert(ads[i].ad.node_id == ads[w].ad.node_id);
        }
    }
    let next = if precedes(x, kept[k]) {
        kept.update(k, x)
    } else {
        kept
    };
    let v = if precedes(x, kept[k]) {
        n
    } else {
        w
    };
    assert(wins(more, v)) by {
        assert forall|j: int| 0 <= j < more.len() && j != v && (#[trigger] more[j]).ad.node_id
            == more[v].ad.node_id implies precedes(more[v], more[j]) || (!precedes(
            more[j],
            more[v],
        ) && v < j) by {
            if j < n {
                assert(more[j] == ads[j]);
                if j != w {
                    assert(precedes(ads[w], ads[j]) || !precedes(ads[j], ads[w]));
                }
            }
        }
    }
    assert(v == n ==> !wins(more, w)) by {
        if v == n && wins(more, w) {
            assert(more[n].ad.node_id == more[w].ad.node_id);
        }
    }
    assert(v == w ==> !wins(more, n)) by {
        if v == w && wins(more, n) {
            assert(more[w].ad.node_id == more[n].ad.node_id);
        }
    }
    assert forall|l: int| 0 <= l < next.len() implies is_winner(more, #[trigger] next[l]) by {
        if l == k {
            assert(wins(more, v) && next[l] == more[v]);
        } else {
            let i = choose|i: int| #[trigger] wins(ads, i) && ads[i] == kept[l];
            assert(kept[l].ad.node_id != kept[k].ad.node_id);
            assert(wins(more, i) && next[l] == more[i]);
        }
    }
    assert forall|i: int| #[trigger] wins(more, i) implies next.contains(more[i]) by {
        if i == v {
            assert(next[k] == more[i]);
        } else {
            assert(i < n && ads[i].ad.node_id != x.ad.node_id);
            assert(wins(ads, i));
            let l = choose|l: int| 0 <= l < kept.len() && kept[l] == ads[i];
            assert(next[l] == more[i]);
        }
    }
    assert(one_per_node(next)) by {
        assert forall|i: int, j: int| 0 <= i < j < next.len() implies (#[trigger] next[i]).ad.node_id
            != (#[trigger] next[j]).ad.node_id by {
            assert(kept[i].ad.node_id != kept[j].ad.node_id);
        }
    }
}

/// Where the list has an ad of the node, if it has one: the first such place.
fn position_of_node(ads: &Vec<SignedServiceAd>, node_id: &[u8; 32]) -> (r: Option<usize>)
    ensures
        match r {
            Some(k) => {
                &&& k < ads.len()
                &&& signed_ads(ads@)[k as int].ad.node_id == node_id@
                &&& forall|j: int|
                    0 <= j < k ==> (#[trigger] signed_ads(ads@)[j]).ad.node_id != node_id@
            },
            None => forall|j: int|
                0 <= j < ads.len() ==> (#[trigger] signed_ads(ads@)[j]).ad.node_id != node_id@,
        },
{
    let mut k: usize = 0;
    while k < ads.len()
        invariant
            k <= ads.len(),
            forall|j: int| 0 <= j < k ==> (#[trigger] signed_ads(ads@)[j]).ad.node_id != node_id@,
        decreases ads.len() - k,
    {
        if same_bytes(&ads[k].ad.node_id, node_id) {
            return Some(k);
        }
        k = k + 1;
    }
    None
}

/// Takes the ad in, if it is the best so far of its node.
fn keep_best(kept: &mut Vec<SignedServiceAd>, ad: SignedServiceAd, Ghost(seen): Ghost<Seq<SignedAdView>>)
    requires
        best_of(seen, signed_ads(old(kept)@)),
    ensures
        best_of(seen.push(ad@), signed_ads(final(kept)@)),
{
    let ghost before = signed_ads(kept@);
    match position_of_node(kept, &ad.ad.node_id) {
        Some(k) => {
            proof {
                lemma_best_update(seen, before, k as int, ad@);
            }
            if ad_precedes(&ad, &kept[k]) {
                let ghost x = ad@;
                kept[k] = ad;
                assert(signed_ads(kept@) =~= before.update(k as int, x));
            }
        },
        None => {
            proof {
                lemma_best_push(seen, before, ad@);
            }
            let ghost x = ad@;
            kept.push(ad);
            assert(signed_ads(kept@) =~= before.push(x));
        },
    }
}

/// Takes in the valid ads of one bucket.
fn keep_best_of_bucket(
    kept: &mut Vec<SignedServiceAd>,
    ads: &Vec<SignedServiceAd>,
    alpn: &[u8],
    minute: u64,
    shard: u8,
    now: u64,
    Ghost(seen): Ghost<Seq<SignedAdView>>,
)
    requires
        best_of(seen, signed_ads(old(kept)@)),
    ensures
        best_of(
            seen + valid_ads(signed_ads(ads@), alpn@, minute, shard, now),
            signed_ads(final(kept)@),
        ),
{
    let ghost all = signed_ads(ads@);
    let ghost valid = |ad: SignedAdView| ad_valid(ad, alpn@, minute, shard, now);
    let mut i: usize = 0;
    proof {
        reveal(Seq::filter);
        assert(all.take(0).filter(valid) =~= Seq::empty());
        assert(seen + all.take(0).filter(valid) =~= seen);
    }
    while i < ads.len()
        invariant
            i <= ads.len(),
            all == signed_ads(ads@),
            valid == (|ad: SignedAdView| ad_valid(ad, alpn@, minute, shard, now)),
            best_of(seen + all.take(i as int).filter(valid), signed_ads(kept@)),
        decreases ads.len() - i,
    {
        let ghost passed = all.take(i as int);
        proof {
            reveal(Seq::filter);
            assert(all.take(i + 1).drop_last() =~= passed);
            assert(all.take(i + 1).last() == ads@[i as int]@);
        }
        if ads[i].verify(alpn, minute, shard, now) {
            keep_best(kept, ads[i].clone(), Ghost(seen + passed.filter(valid)));
            assert((seen + passed.filter(valid)).push(ads@[i as int]@) =~= seen + passed.filter(
                valid,
            ).push(ads@[i as int]@));
        }
        i = i + 1;
    }
    assert(all.take(i as int) =~= all);
}

/// The order of ads in merged lists, as a relation on the ads themselves.
spec fn ads_before() -> spec_fn(SignedServiceAd, SignedServiceAd) -> bool {
    |a: SignedServiceAd, b: SignedServiceAd| precedes(a@, b@)
}

proof fn lemma_first_of_node(ads: Seq<SignedAdView>, node_id: Seq<u8>, k: int)
    requires
        is_first_of_node(ads, node_id, k),
    ensures
        forall|j: int| #[trigger] is_first_of_node(ads, node_id, j) ==> j == k,
{
    assert forall|j: int| #[trigger] is_first_of_node(ads, node_id, j) implies j == k by {
        if j < k {
            assert(ads[j].ad.node_id != node_id);
        } else if k < j {
            assert(ads[k].ad.node_id != node_id);
        }
    }
}

proof fn lemma_candidates_valid(
    buckets: Seq<BucketView>,
    alpn: Seq<u8>,
    minute: u64,
    shard: u8,
    now: u64,
)
    ensures
        forall|k: int|
            0 <= k < candidates(buckets, alpn, minute, shard, now).len() ==> ad_valid(
                #[trigger] candidates(buckets, alpn, minute, shard, now)[k],
                alpn,
                minute,
                shard,
                now,
            ),
    decreases buckets.len(),
{
    if buckets.len() > 0 {
        lemma_candidates_valid(buckets.drop_last(), alpn, minute, shard, now);
        let valid = |ad: SignedAdView| ad_valid(ad, alpn, minute, shard, now);
        let ads = buckets.last().ads;
        assert forall|i: int| 0 <= i < ads.filter(valid).len() implies ad_valid(
            #[trigger] ads.filter(valid)[i],
            alpn,
            minute,
            shard,
            now,
        ) by {
            ads.lemma_filter_pred(valid, i);
        }
        let all = candidates(buckets, alpn, minute, shard, now);
        let earlier = candidates(buckets.drop_last(), alpn, minute, shard, now);
        assert forall|k: int| 0 <= k < all.len() implies ad_valid(
            #[trigger] all[k],
            alpn,
            minute,
            shard,
            now,
        ) by {
            if k < earlier.len() {
                assert(all[k] == earlier[k]);
            } else {
                assert(all[k] == ads.filter(valid)[k - earlier.len()]);
            }
        }
    }
}

proof fn lemma_sorted_best(
    seen: Seq<SignedAdView>,
    unsorted: Seq<SignedServiceAd>,
    sorted: Seq<SignedServiceAd>,
)
    requires
        best_of(seen, signed_ads(unsorted)),
        is_stable_sort(unsorted, sorted, ads_before()),
    ensures
        best_of(seen, signed_ads(sorted)),
        newest_first(signed_ads(sorted)),
{
    let u = signed_ads(unsorted);
    let s = signed_ads(sorted);
    let places = choose|places: Seq<int>| stably_placed(unsorted, sorted, places, ads_before());
    lemma_sort_keeps_items(unsorted, sorted, ads_before());
    assert forall|i: int| 0 <= i < s.len() implies s[i] == #[trigger] u[places[i]] by {
        assert(sorted[i] == unsorted[places[i]]);
    }
    assert forall|k: int| 0 <= k < s.len() implies is_winner(seen, #[trigger] s[k]) by {
        assert(s[k] == u[places[k]]);
        let i = choose|i: int| #[trigger] wins(seen, i) && seen[i] == u[places[k]];
        assert(wins(seen, i) && s[k] == seen[i]);
    }
    assert forall|i: int| #[trigger] wins(seen, i) implies s.contains(seen[i]) by {
        assert(u.contains(seen[i]));
        let k = choose|k: int| 0 <= k < u.len() && u[k] == seen[i];
        assert(unsorted.contains(unsorted[k]));
        assert(sorted.contains(unsorted[k]));
        let l = choose|l: int| 0 <= l < sorted.len() && sorted[l] == unsorted[k];
        assert(s[l] == seen[i]);
    }
    assert forall|i: int, j: int| 0 <= i < j < s.len() implies (#[trigger] s[i]).ad.node_id != (
    #[trigger] s[j]).ad.node_id by {
        assert(s[i] == u[places[i]] && s[j] == u[places[j]]);
        assert(places[i] != places[j]);
        if places[i] < places[j] {
            assert(u[places[i]].ad.node_id != u[places[j]].ad.node_id);
        } else {
            assert(u[places[j]].ad.node_id != u[places[i]].ad.node_id);
        }
    }
    assert(one_per_node(s));
    assert forall|i: int, j: int| 0 <= i < j < s.len() implies precedes(
        #[trigger] s[i],
        #[trigger] s[j],
    ) by {
        assert(!ads_before()(sorted[j], sorted[i]));
        lemma_precedes_total(s[i], s[j]);
    }
}

proof fn lemma_newest_first_determined(a: Seq<SignedAdView>, b: Seq<SignedAdView>)
    requires
        newest_first(a),
        newest_first(b),
        forall|x: SignedAdView| a.contains(x) <==> b.contains(x),
    ensures
        a == b,
    decreases a.len(),
{
    lemma_precedes_order();
    if a.len() == 0 {
        if b.len() > 0 {
            assert(b.contains(b[0]));
        }
        assert(a =~= b);
    } else {
        assert(a.contains(a[0]));
        assert(b.contains(a[0]));
        assert(b.contains(b[0]));
        assert(a.contains(b[0]));
        let i = choose|i: int| 0 <= i < b.len() && b[i] == a[0];
        let j = choose|j: int| 0 <= j < a.len() && a[j] == b[0];
        assert(a[0] == b[0]) by {
            if i > 0 && j > 0 {
                assert(precedes(b[0], b[i]));
                assert(precedes(a[0], a[j]));
            }
        }
        let ra = a.drop_first();
        let rb = b.drop_first();
        assert forall|x: SignedAdView| ra.contains(x) <==> rb.contains(x) by {
            if ra.contains(x) {
                let k = choose|k: int| 0 <= k < ra.len() && ra[k] == x;
                assert(a[k + 1] == x);
                assert(precedes(a[0], a[k + 1]));
                assert(b.contains(x));
                let l = choose|l: int| 0 <= l < b.len() && b[l] == x;
                assert(rb[l - 1] == x);
            }
            if rb.contains(x) {
                let k = choose|k: int| 0 <= k < rb.len() && rb[k] == x;
                assert(b[k + 1] == x);
                assert(precedes(b[0], b[k + 1]));
                assert(a.contains(x));
                let l = choose|l: int| 0 <= l < a.len() && a[l] == x;
                assert(ra[l - 1] == x);
            }
        }
        assert forall|i: int, j: int| 0 <= i < j < ra.len() implies precedes(
            #[trigger] ra[i],
            #[trigger] ra[j],
        ) by {
            assert(precedes(a[i + 1], a[j + 1]));
        }
        assert forall|i: int, j: int| 0 <= i < j < rb.len() implies precedes(
            #[trigger] rb[i],
            #[trigger] rb[j],
        ) by {
            assert(precedes(b[i + 1], b[j + 1]));
        }
        lemma_newest_first_determined(ra, rb);
        assert(a =~= seq![a[0]] + ra);
        assert(b =~= seq![b[0]] + rb);
    }
}

/// The candidates of one bucket whose ads are all valid are its ads.
proof fn lemma_single_bucket(
    bucket: BucketView,
    alpn: Seq<u8>,
    minute: u64,
    shard: u8,
    now: u64,
)
    requires
        bucket.version == DHT_BUCKET_VERSION,
        forall|k: int|
            0 <= k < bucket.ads.len() ==> ad_valid(
                #[trigger] bucket.ads[k],
                alpn,
                minute,
                shard,
                now,
            ),
    ensures
        candidates(seq![bucket], alpn, minute, shard, now) == bucket.ads,
{
    let valid = |ad: SignedAdView| ad_valid(ad, alpn, minute, shard, now);
    lemma_filter_all(bucket.ads, valid);
    let buckets = seq![bucket];
    assert(buckets.drop_last() =~= Seq::empty());
    assert(candidates(buckets.drop_last(), alpn, minute, shard, now) =~= Seq::empty());
    assert(candidates(buckets, alpn, minute, shard, now) =~= bucket.ads);
}

proof fn lemma_filter_all(ads: Seq<SignedAdView>, keep: spec_fn(SignedAdView) -> bool)
    requires
        forall|k: int| 0 <= k < ads.len() ==> keep(#[trigger] ads[k]),
    ensures
        ads.filter(keep) == ads,
    decreases ads.len(),
{
    reveal(Seq::filter);
    if ads.len() > 0 {
        lemma_filter_all(ads.drop_last(), keep);
        assert(ads =~= ads.drop_last().push(ads.last()));
    } else {
        assert(ads.filter(keep) =~= ads);
    }
}

/// Every node with an ad has one to keep.
pub proof fn lemma_winner_found(ads: Seq<SignedAdView>, m: int)
    requires
        0 <= m < ads.len(),
    ensures
        exists|w: int| #[trigger] wins(ads, w) && ads[w].ad.node_id == ads[m].ad.node_id,
{
    let w = lemma_winner_exists(ads, ads.len() as int, m);
    assert(ads.take(ads.len() as int) =~= ads);
    assert(wins(ads, w));
}

/// No ad of the node precedes the one to keep.
pub proof fn lemma_winner_not_preceded(ads: Seq<SignedAdView>, w: int, m: int)
    requires
        wins(ads, w),
        0 <= m < ads.len(),
        ads[m].ad.node_id == ads[w].ad.node_id,
    ensures
        !precedes(ads[m], ads[w]),
{
    lemma_precedes_order();
    lemma_lex_irreflexive(ads[w].ad.node_id);
}

impl ServiceBucket {
    /// Merge and deduplicate valid ads from multiple bucket replicas.
    ///
    /// Of each node with a valid ad in a bucket of the current format, the ad published last is
    /// kept; newer ads come first.
    pub fn merge_valid(
        buckets: &[ServiceBucket],
        alpn: &[u8],
        minute: u64,
        shard: u8,
        now: u64,
    ) -> (merged: Vec<SignedServiceAd>)
        ensures
            best_of(
                candidates(bucket_list(buckets@), alpn@, minute, shard, now),
                signed_ads(merged@),
            ),
            newest_first(signed_ads(merged@)),
            forall|k: int|
                0 <= k < merged.len() ==> ad_valid(
                    #[trigger] signed_ads(merged@)[k],
                    alpn@,
                    minute,
                    shard,
                    now,
                ),
    {
        let mut kept: Vec<SignedServiceAd> = Vec::new();
        let ghost all = bucket_list(buckets@);
        let mut i: usize = 0;
        assert(all.take(0) =~= Seq::empty());
        while i < buckets.len()
            invariant
                i <= buckets.len(),
                all == bucket_list(buckets@),
                best_of(
                    candidates(all.take(i as int), alpn@, minute, shard, now),
                    signed_ads(kept@),
                ),
            decreases buckets.len() - i,
        {
            let ghost passed = all.take(i as int);
            assert(all.take(i + 1).drop_last() =~= passed);
            assert(all.take(i + 1).last() == buckets@[i as int]@);
            if buckets[i].version == DHT_BUCKET_VERSION {
                keep_best_of_bucket(
                    &mut kept,
                    &buckets[i].ads,
                    alpn,
                    minute,
                    shard,
                    now,
                    Ghost(candidates(passed, alpn@, minute, shard, now)),
                );
            }
            i = i + 1;
        }
        assert(all.take(i as int) =~= all);
        let ghost seen = candidates(all, alpn@, minute, shard, now);
        let ghost unsorted = kept@;
        proof {
            lemma_precedes_order();
            assert(strict_weak_order(ads_before()));
        }
        let less = |a: &SignedServiceAd, b: &SignedServiceAd| -> (r: bool)
            ensures
                r == precedes(a@, b@),
            { ad_precedes(a, b) };
        let merged = stable_sort(kept, less, Ghost(ads_before()));
        proof {
            lemma_sorted_best(seen, unsorted, merged@);
            lemma_candidates_valid(all, alpn@, minute, shard, now);
        }
        merged
    }

    /// Insert or replace a signed advertisement by node id.
    pub fn upsert(&mut self, ad: SignedServiceAd)
        ensures
            final(self)@ == (BucketView {
                version: old(self)@.version,
                ads: upserted(old(self)@.ads, ad@),
            }),
    {
        let ghost before = signed_ads(self.ads@);
        let ghost x = ad@;
        match position_of_node(&self.ads, &ad.ad.node_id) {
            Some(k) => {
                proof {
                    assert(is_first_of_node(before, x.ad.node_id, k as int));
                    lemma_first_of_node(before, x.ad.node_id, k as int);
                }
                if ad_precedes(&ad, &self.ads[k]) {
                    self.ads[k] = ad;
                    assert(signed_ads(self.ads@) =~= before.update(k as int, x));
                }
                assert(signed_ads(self.ads@) == upserted(before, x));
            },
            None => {
                self.ads.push(ad);
                assert(forall|k: int| !is_first_of_node(before, x.ad.node_id, k));
                assert(signed_ads(self.ads@) =~= before.push(x));
            },
        }
    }
}

/// What a merge gives depends on the merged ads alone.
pub proof fn merge_is_determined(
    ads: Seq<SignedAdView>,
    merged1: Seq<SignedAdView>,
    merged2: Seq<SignedAdView>,
)
    requires
        best_of(ads, merged1),
        newest_first(merged1),
        best_of(ads, merged2),
        newest_first(merged2),
    ensures
        merged1 == merged2,
{
    assert forall|x: SignedAdView| merged1.contains(x) <==> merged2.contains(x) by {
        if merged1.contains(x) {
            let k = choose|k: int| 0 <= k < merged1.len() && merged1[k] == x;
            let i = choose|i: int| #[trigger] wins(ads, i) && ads[i] == merged1[k];
            assert(merged2.contains(ads[i]));
        }
        if merged2.contains(x) {
            let k = choose|k: int| 0 <= k < merged2.len() && merged2[k] == x;
            let i = choose|i: int| #[trigger] wins(ads, i) && ads[i] == merged2[k];
            assert(merged1.contains(ads[i]));
        }
    }
    lemma_newest_first_determined(merged1, merged2);
}

/// Merging a bucket that holds a merged list gives that list again, as long as its ads are valid.
pub proof fn merge_is_idempotent(
    merged: Seq<SignedAdView>,
    alpn: Seq<u8>,
    minute: u64,
    shard: u8,
    now: u64,
    again: Seq<SignedAdView>,
)
    requires
        one_per_node(merged),
        newest_first(merged),
        forall|k: int|
            0 <= k < merged.len() ==> ad_valid(#[trigger] merged[k], alpn, minute, shard, now),
        best_of(
            candidates(
                seq![BucketView { version: DHT_BUCKET_VERSION, ads: merged }],
                alpn,
                minute,
                shard,
                now,
            ),
            again,
        ),
        newest_first(again),
    ensures
        again == merged,
{
    let bucket = BucketView { version: DHT_BUCKET_VERSION, ads: merged };
    lemma_single_bucket(bucket, alpn, minute, shard, now);
    let ads = candidates(seq![bucket], alpn, minute, shard, now);
    assert(ads == merged);
    assert forall|i: int| 0 <= i < merged.len() implies #[trigger] wins(merged, i) by {
        assert forall|j: int| 0 <= j < merged.len() && j != i implies (#[trigger] merged[j]).ad.node_id
            != merged[i].ad.node_id by {
            if j < i {
                assert(merged[j].ad.node_id != merged[i].ad.node_id);
            } else {
                assert(merged[i].ad.node_id != merged[j].ad.node_id);
            }
        }
    }
    assert forall|k: int| 0 <= k < merged.len() implies is_winner(merged, #[trigger] merged[k]) by {
        assert(wins(merged, k));
    }
    merge_is_determined(merged, merged, again);
}

/// Taking an ad in keeps one ad per node, leaves the other nodes' ads alone, and leaves the node
/// with its new ad unless the old one is at least as new. Taking it in twice changes nothing.
pub proof fn upsert_keeps_one_per_node(ads: Seq<SignedAdView>, ad: SignedAdView)
    requires
        one_per_node(ads),
    ensures
        one_per_node(upserted(ads, ad)),
        upserted(upserted(ads, ad), ad) == upserted(ads, ad),
        forall|x: SignedAdView|
            x.ad.node_id != ad.ad.node_id ==> (#[trigger] upserted(ads, ad).contains(x)
                <==> ads.contains(x)),
        forall|x: SignedAdView| #[trigger]
            upserted(ads, ad).contains(x) && x.ad.node_id == ad.ad.node_id ==> x == ad || (
            ads.contains(x) && !precedes(ad, x)),
        exists|x: SignedAdView| #[trigger]
            upserted(ads, ad).contains(x) && x.ad.node_id == ad.ad.node_id,
{
    lemma_precedes_order();
    let node_id = ad.ad.node_id;
    let next = upserted(ads, ad);
    if exists|k: int| is_first_of_node(ads, node_id, k) {
        let k = choose|k: int| is_first_of_node(ads, node_id, k);
        lemma_first_of_node(ads, node_id, k);
        assert forall|j: int| 0 <= j < ads.len() && j != k implies (#[trigger] ads[j]).ad.node_id
            != node_id by {
            if j < k {
                assert(ads[j].ad.node_id != ads[k].ad.node_id);
            } else {
                assert(ads[k].ad.node_id != ads[j].ad.node_id);
            }
        }
        assert(is_first_of_node(next, node_id, k)) by {
            assert forall|j: int| 0 <= j < k implies (#[trigger] next[j]).ad.node_id != node_id by {
                assert(next[j] == ads[j]);
            }
        }
        lemma_first_of_node(next, node_id, k);
        assert(upserted(next, ad) == next);
        assert forall|i: int, j: int| 0 <= i < j < next.len() implies (#[trigger] next[i]).ad.node_id
            != (#[trigger] next[j]).ad.node_id by {
            assert(ads[i].ad.node_id != ads[j].ad.node_id);
        }
        assert forall|x: SignedAdView| x.ad.node_id != node_id implies (#[trigger] next.contains(x)
            <==> ads.contains(x)) by {
            if next.contains(x) {
                let i = choose|i: int| 0 <= i < next.len() && next[i] == x;
                assert(ads[i] == x);
            }
            if ads.contains(x) {
                let i = choose|i: int| 0 <= i < ads.len() && ads[i] == x;
                assert(next[i] == x);
            }
        }
        assert forall|x: SignedAdView| #[trigger] next.contains(x) && x.ad.node_id
            == node_id implies x == ad || (ads.contains(x) && !precedes(ad, x)) by {
            let i = choose|i: int| 0 <= i < next.len() && next[i] == x;
            assert(i == k) by {
                if i != k {
                    assert(next[i] == ads[i]);
                }
            }
        }
        assert(next.contains(next[k]) && next[k].ad.node_id == node_id);
    } else {
        let n = ads.len() as int;
        assert forall|j: int| 0 <= j < n implies (#[trigger] ads[j]).ad.node_id != node_id by {
            if ads[j].ad.node_id == node_id {
                assert(is_first_of_node(ads, node_id, j)) by {
                    assert forall|i: int| 0 <= i < j implies (#[trigger] ads[i]).ad.node_id
                        != node_id by {
                        assert(ads[i].ad.node_id != ads[j].ad.node_id);
                    }
                }
            }
        }
        assert(next == ads.push(ad));
        assert(is_first_of_node(next, node_id, n)) by {
            assert forall|j: int| 0 <= j < n implies (#[trigger] next[j]).ad.node_id != node_id by {
                assert(next[j] == ads[j]);
            }
        }
        lemma_first_of_node(next, node_id, n);
        assert(upserted(next, ad) == next);
        assert forall|x: SignedAdView| x.ad.node_id != node_id implies (#[trigger] next.contains(x)
            <==> ads.contains(x)) by {
            if next.contains(x) {
                let i = choose|i: int| 0 <= i < next.len() && next[i] == x;
                assert(ads[i] == x);
            }
            if ads.contains(x) {
                let i = choose|i: int| 0 <= i < ads.len() && ads[i] == x;
                assert(next[i] == x);
            }
        }
        assert(next[n] == ad);
        assert(next.contains(ad));
    }
}

/// The ad stands in a bucket of the current format, and counts there.
pub open spec fn counts_in(
    buckets: Seq<BucketView>,
    ad: SignedAdView,
    alpn: Seq<u8>,
    minute: u64,
    shard: u8,
    now: u64,
) -> bool {
    exists|b: int|
        {
            &&& 0 <= b < buckets.len()
            &&& (#[trigger] buckets[b]).version == DHT_BUCKET_VERSION
            &&& buckets[b].ads.contains(ad)
            &&& ad_valid(ad, alpn, minute, shard, now)
        }
}

/// The candidates are the ads that count in some bucket.
pub proof fn candidates_are_what_counts(
    buckets: Seq<BucketView>,
    ad: SignedAdView,
    alpn: Seq<u8>,
    minute: u64,
    shard: u8,
    now: u64,
)
    ensures
        candidates(buckets, alpn, minute, shard, now).contains(ad) <==> counts_in(
            buckets,
            ad,
            alpn,
            minute,
            shard,
            now,
        ),
    decreases buckets.len(),
{
    let all = candidates(buckets, alpn, minute, shard, now);
    if buckets.len() > 0 {
        let rest = buckets.drop_last();
        let last = buckets.last();
        let earlier = candidates(rest, alpn, minute, shard, now);
        let valid = |ad: SignedAdView| ad_valid(ad, alpn, minute, shard, now);
        let taken = last.ads.filter(valid);
        candidates_are_what_counts(rest, ad, alpn, minute, shard, now);
        if counts_in(buckets, ad, alpn, minute, shard, now) {
            let b = choose|b: int|
                {
                    &&& 0 <= b < buckets.len()
                    &&& (#[trigger] buckets[b]).version == DHT_BUCKET_VERSION
                    &&& buckets[b].ads.contains(ad)
                    &&& ad_valid(ad, alpn, minute, shard, now)
                };
            if b < rest.len() {
                assert(rest[b] == buckets[b]);
                let k = choose|k: int| 0 <= k < earlier.len() && earlier[k] == ad;
                assert(all[k] == ad);
            } else {
                let i = choose|i: int| 0 <= i < last.ads.len() && last.ads[i] == ad;
                last.ads.lemma_filter_contains(valid, i);
                let k = choose|k: int| 0 <= k < taken.len() && taken[k] == ad;
                assert(all[earlier.len() + k] == ad);
            }
        }
        if all.contains(ad) {
            let k = choose|k: int| 0 <= k < all.len() && all[k] == ad;
            if k < earlier.len() {
                assert(earlier[k] == ad);
                let b = choose|b: int|
                    {
                        &&& 0 <= b < rest.len()
                        &&& (#[trigger] rest[b]).version == DHT_BUCKET_VERSION
                        &&& rest[b].ads.contains(ad)
                        &&& ad_valid(ad, alpn, minute, shard, now)
                    };
                assert(buckets[b] == rest[b]);
            } else {
                assert(last.version == DHT_BUCKET_VERSION);
                assert(taken[k - earlier.len()] == ad);
                last.ads.lemma_filter_pred(valid, k - earlier.len());
                last.ads.lemma_filter_contains_rev(valid, ad);
                assert(buckets[buckets.len() - 1] == last);
            }
        }
    }
}

/// A merge has an ad for exactly the nodes that have one that counts: one of those, and of them one
/// that was published last. There is one per node, and those published later come first.
pub proof fn merge_keeps_the_newest_of_each_node(
    buckets: Seq<BucketView>,
    alpn: Seq<u8>,
    minute: u64,
    shard: u8,
    now: u64,
    merged: Seq<SignedAdView>,
)
    requires
        best_of(candidates(buckets, alpn, minute, shard, now), merged),
        newest_first(merged),
    ensures
        forall|ad: SignedAdView| #[trigger]
            counts_in(buckets, ad, alpn, minute, shard, now) ==> exists|k: int|
                {
                    &&& 0 <= k < merged.len()
                    &&& (#[trigger] merged[k]).ad.node_id == ad.ad.node_id
                    &&& merged[k].ad.published_at >= ad.ad.published_at
                },
        forall|k: int|
            0 <= k < merged.len() ==> counts_in(
                buckets,
                #[trigger] merged[k],
                alpn,
                minute,
                shard,
                now,
            ),
        forall|i: int, j: int|
            0 <= i < j < merged.len() ==> (#[trigger] merged[i]).ad.node_id != (
            #[trigger] merged[j]).ad.node_id && merged[i].ad.published_at
                >= merged[j].ad.published_at,
{
    let all = candidates(buckets, alpn, minute, shard, now);
    assert forall|ad: SignedAdView| #[trigger]
        counts_in(buckets, ad, alpn, minute, shard, now) implies exists|k: int|
        {
            &&& 0 <= k < merged.len()
            &&& (#[trigger] merged[k]).ad.node_id == ad.ad.node_id
            &&& merged[k].ad.published_at >= ad.ad.published_at
        } by {
        candidates_are_what_counts(buckets, ad, alpn, minute, shard, now);
        let m = choose|m: int| 0 <= m < all.len() && all[m] == ad;
        lemma_winner_found(all, m);
        let w = choose|w: int| #[trigger] wins(all, w) && all[w].ad.node_id == ad.ad.node_id;
        lemma_winner_not_preceded(all, w, m);
        newer_ad_comes_first(ad, all[w]);
        assert(merged.contains(all[w]));
        let k = choose|k: int| 0 <= k < merged.len() && merged[k] == all[w];
        assert(merged[k].ad.node_id == ad.ad.node_id);
    }
    assert forall|k: int| 0 <= k < merged.len() implies counts_in(
        buckets,
        #[trigger] merged[k],
        alpn,
        minute,
        shard,
        now,
    ) by {
        let i = choose|i: int| #[trigger] wins(all, i) && all[i] == merged[k];
        assert(all.contains(merged[k]));
        candidates_are_what_counts(buckets, merged[k], alpn, minute, shard, now);
    }
    assert forall|i: int, j: int| 0 <= i < j < merged.len() implies (#[trigger] merged[i]).ad.node_id
        != (#[trigger] merged[j]).ad.node_id && merged[i].ad.published_at
        >= merged[j].ad.published_at by {
        newer_ad_comes_first(merged[i], merged[j]);
    }
}

/// Taking an ad in leaves its node with an ad that was published no earlier than it or than what the
/// node had, and changes no other node's ads.
pub proof fn upsert_never_goes_back(ads: Seq<SignedAdView>, ad: SignedAdView)
    requires
        one_per_node(ads),
    ensures
        exists|k: int|
            {
                &&& 0 <= k < upserted(ads, ad).len()
                &&& (#[trigger] upserted(ads, ad)[k]).ad.node_id == ad.ad.node_id
                &&& upserted(ads, ad)[k].ad.published_at >= ad.ad.published_at
                &&& forall|i: int|
                    0 <= i < ads.len() && (#[trigger] ads[i]).ad.node_id == ad.ad.node_id
                        ==> upserted(ads, ad)[k].ad.published_at >= ads[i].ad.published_at
            },
        forall|x: SignedAdView|
            x.ad.node_id != ad.ad.node_id ==> (#[trigger] upserted(ads, ad).contains(x)
                <==> ads.contains(x)),
{
    upsert_keeps_one_per_node(ads, ad);
    let next = upserted(ads, ad);
    let x = choose|x: SignedAdView| #[trigger] next.contains(x) && x.ad.node_id == ad.ad.node_id;
    let k = choose|k: int| 0 <= k < next.len() && next[k] == x;
    newer_ad_comes_first(ad, x);
    assert forall|i: int| 0 <= i < ads.len() && (#[trigger] ads[i]).ad.node_id
        == ad.ad.node_id implies x.ad.published_at >= ads[i].ad.published_at by {
        newer_ad_comes_first(ad, ads[i]);
        if exists|f: int| is_first_of_node(ads, ad.ad.node_id, f) {
            let f = choose|f: int| is_first_of_node(ads, ad.ad.node_id, f);
            if i != f {
                if i < f {
                    assert(ads[i].ad.node_id != ads[f].ad.node_id);
                } else {
                    assert(ads[f].ad.node_id != ads[i].ad.node_id);
                }
            }
            if next[f] != x {
                if k < f {
                    assert(next[k].ad.node_id != next[f].ad.node_id);
                } else {
                    assert(next[f].ad.node_id != next[k].ad.node_id);
                }
            }
        } else {
            assert(is_first_of_node(ads, ad.ad.node_id, i)) by {
                assert forall|j: int| 0 <= j < i implies (#[trigger] ads[j]).ad.node_id
                    != ad.ad.node_id by {
                    assert(ads[j].ad.node_id != ads[i].ad.node_id);
                }
            }
        }
    }
    assert(next[k].ad.node_id == ad.ad.node_id);
}

/// The ad of a node that is kept was published last; of those the one that lasts longest; and of
/// those that agree in both the one that came first.
pub proof fn kept_ad_is_the_newest_and_first(ads: Seq<SignedAdView>, kept: int, other: int)
    requires
        wins(ads, kept),
        0 <= other < ads.len(),
        other != kept,
        ads[other].ad.node_id == ads[kept].ad.node_id,
    ensures
        ads[kept].ad.published_at >= ads[other].ad.published_at,
        ads[kept].ad.published_at == ads[other].ad.published_at ==> ads[kept].ad.expires_at
            >= ads[other].ad.expires_at,
        ads[kept].ad.published_at == ads[other].ad.published_at && ads[kept].ad.expires_at
            == ads[other].ad.expires_at ==> kept < other,
{
    lemma_lex_irreflexive(ads[kept].ad.node_id);
}

} // verus!
