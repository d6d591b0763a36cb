//! Which ads stay in a bucket that is too large to be stored.

use super::merge::one_per_node;
use super::{ad_precedes, bucket_wire, lemma_precedes_order, newer_ad_comes_first, precedes};
use super::{signed_ads, BucketView};
use super::{ServiceBucket, SignedAdView, SignedServiceAd, DHT_MAX_BUCKET_BYTES};
use crate::octets::same_bytes;
use crate::order::{is_stable_sort, lemma_sort_keeps_items, stable_sort, stable_sort_is_determined};
use crate::order::{stably_placed, strict_weak_order};
use vstd::prelude::*;

verus! {

/// The bucket is small enough to be stored.
pub open spec fn bucket_fits(bucket: BucketView) -> bool {
    bucket_wire(bucket).len() <= DHT_MAX_BUCKET_BYTES
}

/// The preferred node id, as bytes.
pub open spec fn preferred_view(preferred: Option<[u8; 32]>) -> Option<Seq<u8>> {
    match preferred {
        Some(node_id) => Some(node_id@),
        None => None,
    }
}

/// The ad is not of the preferred node.
pub open spec fn removable(ad: SignedAdView, preferred: Option<Seq<u8>>) -> bool {
    preferred != Some(ad.ad.node_id)
}

/// The order in which ads are kept: those of the preferred node first, then newer ones first.
pub open spec fn preferred_precedes(
    preferred: Option<Seq<u8>>,
    a: SignedAdView,
    b: SignedAdView,
) -> bool {
    ||| !removable(a, preferred) && removable(b, preferred)
    ||| removable(a, preferred) == removable(b, preferred) && precedes(a, b)
}

/// The order in which ads are kept, as a relation.
pub open spec fn preferred_order(preferred: Option<Seq<u8>>) -> spec_fn(
    SignedAdView,
    SignedAdView,
) -> bool {
    |a: SignedAdView, b: SignedAdView| preferred_precedes(preferred, a, b)
}

spec fn preferred_before(preferred: Option<Seq<u8>>) -> spec_fn(
    SignedServiceAd,
    SignedServiceAd,
) -> bool {
    |a: SignedServiceAd, b: SignedServiceAd| preferred_precedes(preferred, a@, b@)
}

/// `kept` is what is left of the sorted ads: the last ones were dropped, one by one, as long as
/// the bucket was too large and the last one was not of the preferred node.
pub open spec fn trimmed_from(
    sorted: Seq<SignedAdView>,
    version: u8,
    kept: Seq<SignedAdView>,
    preferred: Option<Seq<u8>>,
) -> bool {
    &&& kept.len() <= sorted.len()
    &&& kept == sorted.take(kept.len() as int)
    &&& forall|k: int|
        kept.len() <= k < sorted.len() ==> removable(#[trigger] sorted[k], preferred)
            && !bucket_fits(BucketView { version, ads: sorted.take(k + 1) })
    &&& bucket_fits(BucketView { version, ads: kept }) || forall|k: int|
        0 <= k < kept.len() ==> !removable(#[trigger] kept[k], preferred)
}

/// `kept` is the bucket with its ads in order and those dropped that had to be.
pub open spec fn is_trimming(
    bucket: BucketView,
    kept: BucketView,
    preferred: Option<Seq<u8>>,
) -> bool {
    exists|sorted: Seq<SignedAdView>|
        #[trigger] is_stable_sort(bucket.ads, sorted, preferred_order(preferred)) && trimmed_from(
            sorted,
            bucket.version,
            kept.ads,
            preferred,
        )
}

fn is_removable(ad: &SignedServiceAd, preferred_node: &Option<[u8; 32]>) -> (r: bool)
    ensures
        r == removable(ad@, preferred_view(*preferred_node)),
{
    match preferred_node {
        Some(node_id) => !same_bytes(&ad.ad.node_id, node_id),
        None => true,
    }
}

fn preferred_ad_precedes(
    preferred_node: &Option<[u8; 32]>,
    a: &SignedServiceAd,
    b: &SignedServiceAd,
) -> (r: bool)
    ensures
        r == preferred_precedes(preferred_view(*preferred_node), a@, b@),
{
    let a_last = is_removable(a, preferred_node);
    let b_last = is_removable(b, preferred_node);
    if a_last != b_last {
        return b_last;
    }
    ad_precedes(a, b)
}

proof fn lemma_sorted_views(
    unsorted: Seq<SignedServiceAd>,
    sorted: Seq<SignedServiceAd>,
    preferred: Option<Seq<u8>>,
)
    requires
        is_stable_sort(unsorted, sorted, preferred_before(preferred)),
    ensures
        is_stable_sort(signed_ads(unsorted), signed_ads(sorted), preferred_order(preferred)),
{
    let before = preferred_before(preferred);
    let places = choose|places: Seq<int>| stably_placed(unsorted, sorted, places, before);
    let s = signed_ads(sorted);
    assert forall|i: int, j: int| 0 <= i < j < s.len() implies !preferred_order(preferred)(
        #[trigger] s[j],
        #[trigger] s[i],
    ) by {
        assert(!before(sorted[j], sorted[i]));
    }
    assert forall|i: int, j: int| 0 <= i < j < s.len() && !preferred_order(preferred)(
        s[i],
        s[j],
    ) implies #[trigger] places[i] < #[trigger] places[j] by {
        assert(!before(sorted[i], sorted[j]));
    }
    assert(stably_placed(signed_ads(unsorted), s, places, preferred_order(preferred)));
}

/// Where the last kept ad is of the preferred node, all are.
proof fn lemma_none_removable(
    ads: Seq<SignedAdView>,
    sorted: Seq<SignedAdView>,
    n: int,
    preferred: Option<Seq<u8>>,
)
    requires
        is_stable_sort(ads, sorted, preferred_order(preferred)),
        0 <= n <= sorted.len(),
    ensures
        n == 0 || !removable(sorted[n - 1], preferred) ==> forall|k: int|
            0 <= k < n ==> !removable(#[trigger] sorted.take(n)[k], preferred),
{
    if n > 0 && !removable(sorted[n - 1], preferred) {
        assert forall|k: int| 0 <= k < n implies !removable(
            #[trigger] sorted.take(n)[k],
            preferred,
        ) by {
            if k < n - 1 {
                assert(!preferred_order(preferred)(sorted[n - 1], sorted[k]));
            }
        }
    }
}

impl ServiceBucket {
    /// Trim the bucket until it fits the BEP44 value size limit.
    ///
    /// The ads are put in order, those of the preferred node first, and dropped from the end while
    /// the bucket is too large. No ad of the preferred node is dropped. Returns `false` if the
    /// preferred ad alone does not fit.
    pub fn trim_to_size(&mut self, preferred_node: Option<[u8; 32]>) -> (r: Option<bool>)
        ensures
            final(self)@.version == old(self)@.version,
            is_trimming(old(self)@, final(self)@, preferred_view(preferred_node)),
            r == Some(bucket_fits(final(self)@)),
    {
        let ghost start = self@;
        let ghost preferred = preferred_view(preferred_node);
        let ghost before = preferred_before(preferred);
        proof {
            lemma_precedes_order();
            assert(strict_weak_order(before));
        }
        let less = |a: &SignedServiceAd, b: &SignedServiceAd| -> (r: bool)
            ensures
                r == preferred_precedes(preferred_view(preferred_node), a@, b@),
            { preferred_ad_precedes(&preferred_node, a, b) };
        let mut ads: Vec<SignedServiceAd> = Vec::new();
        std::mem::swap(&mut ads, &mut self.ads);
        let ghost unsorted = ads@;
        self.ads = stable_sort(ads, less, Ghost(before));
        let ghost sorted = signed_ads(self.ads@);
        proof {
            lemma_sorted_views(unsorted, self.ads@, preferred);
            assert(start.ads == signed_ads(unsorted));
            assert(sorted.take(sorted.len() as int) =~= sorted);
        }
        loop
            invariant
                start == old(self)@,
                self.version == start.version,
                preferred == preferred_view(preferred_node),
                is_stable_sort(start.ads, sorted, preferred_order(preferred)),
                self.ads.len() <= sorted.len(),
                signed_ads(self.ads@) == sorted.take(self.ads.len() as int),
                forall|k: int|
                    self.ads.len() <= k < sorted.len() ==> removable(
                        #[trigger] sorted[k],
                        preferred,
                    ) && !bucket_fits(
                        BucketView { version: start.version, ads: sorted.take(k + 1) },
                    ),
            decreases self.ads.len(),
        {
            let len: usize = match self.encoded_len() {
                Some(len) => len,
                None => {
                    return None;
                },
            };
            let fits = len <= DHT_MAX_BUCKET_BYTES;
            let n: usize = self.ads.len();
            let droppable = n > 0 && is_removable(&self.ads[n - 1], &preferred_node);
            proof {
                if n > 0 {
                    assert(signed_ads(self.ads@)[n - 1] == sorted[n - 1]);
                }
                assert(self@ == (BucketView { version: start.version, ads: sorted.take(n as int) }));
            }
            if fits || !droppable {
                proof {
                    lemma_none_removable(start.ads, sorted, n as int, preferred);
                    assert(trimmed_from(sorted, start.version, self@.ads, preferred));
                }
                return Some(fits);
            }
            let ghost whole = signed_ads(self.ads@);
            self.ads.pop();
            proof {
                assert(signed_ads(self.ads@) =~= sorted.take(n - 1));
                assert(whole =~= sorted.take(n - 1 + 1));
            }
        }
    }
}

/// Trimming keeps every ad of the preferred node, adds none, and leaves a bucket that is too large
/// only where nothing but ads of the preferred node is left.
pub proof fn trimming_keeps_preferred(
    bucket: BucketView,
    kept: BucketView,
    preferred: Option<Seq<u8>>,
)
    requires
        kept.version == bucket.version,
        is_trimming(bucket, kept, preferred),
    ensures
        forall|x: SignedAdView|
            bucket.ads.contains(x) && !removable(x, preferred) ==> kept.ads.contains(x),
        forall|x: SignedAdView| kept.ads.contains(x) ==> bucket.ads.contains(x),
        !bucket_fits(kept) ==> forall|x: SignedAdView|
            kept.ads.contains(x) ==> !removable(x, preferred),
        one_per_node(bucket.ads) ==> one_per_node(kept.ads),
{
    let order = preferred_order(preferred);
    let sorted = choose|sorted: Seq<SignedAdView>| #[trigger]
        is_stable_sort(bucket.ads, sorted, order) && trimmed_from(
            sorted,
            bucket.version,
            kept.ads,
            preferred,
        );
    lemma_sort_keeps_items(bucket.ads, sorted, order);
    let n = kept.ads.len() as int;
    assert(kept == (BucketView { version: bucket.version, ads: kept.ads }));
    assert forall|x: SignedAdView| bucket.ads.contains(x) && !removable(
        x,
        preferred,
    ) implies kept.ads.contains(x) by {
        assert(sorted.contains(x));
        let i = choose|i: int| 0 <= i < sorted.len() && sorted[i] == x;
        assert(i < n);
        assert(kept.ads[i] == x);
    }
    assert forall|x: SignedAdView| kept.ads.contains(x) implies bucket.ads.contains(x) by {
        let i = choose|i: int| 0 <= i < n && kept.ads[i] == x;
        assert(sorted[i] == x);
        assert(sorted.contains(x));
    }
    if one_per_node(bucket.ads) {
        let places = choose|places: Seq<int>| stably_placed(bucket.ads, sorted, places, order);
        assert forall|i: int, j: int| 0 <= i < j < n implies (#[trigger] kept.ads[i]).ad.node_id != (
        #[trigger] kept.ads[j]).ad.node_id by {
            assert(sorted[i] == bucket.ads[places[i]] && sorted[j] == bucket.ads[places[j]]);
            assert(places[i] != places[j]);
            if places[i] < places[j] {
                assert(bucket.ads[places[i]].ad.node_id != bucket.ads[places[j]].ad.node_id);
            } else {
                assert(bucket.ads[places[j]].ad.node_id != bucket.ads[places[i]].ad.node_id);
            }
        }
    }
}

/// What trimming leaves depends on the bucket and the preferred node alone.
pub proof fn trimming_is_determined(
    bucket: BucketView,
    kept1: BucketView,
    kept2: BucketView,
    preferred: Option<Seq<u8>>,
)
    requires
        is_trimming(bucket, kept1, preferred),
        is_trimming(bucket, kept2, preferred),
    ensures
        kept1.ads == kept2.ads,
{
    let order = preferred_order(preferred);
    let version = bucket.version;
    lemma_precedes_order();
    assert(strict_weak_order(order));
    let sorted = choose|sorted: Seq<SignedAdView>| #[trigger]
        is_stable_sort(bucket.ads, sorted, order) && trimmed_from(
            sorted,
            version,
            kept1.ads,
            preferred,
        );
    let sorted2 = choose|sorted: Seq<SignedAdView>| #[trigger]
        is_stable_sort(bucket.ads, sorted, order) && trimmed_from(
            sorted,
            version,
            kept2.ads,
            preferred,
        );
    stable_sort_is_determined(bucket.ads, sorted, sorted2, order);
    let n1 = kept1.ads.len() as int;
    let n2 = kept2.ads.len() as int;
    if n1 < n2 {
        assert(removable(sorted[n2 - 1], preferred));
        assert(sorted.take(n2 - 1 + 1) == kept2.ads);
        assert(!removable(kept2.ads[n2 - 1], preferred));
    } else if n2 < n1 {
        assert(removable(sorted[n1 - 1], preferred));
        assert(sorted.take(n1 - 1 + 1) == kept1.ads);
        assert(!removable(kept1.ads[n1 - 1], preferred));
    }
}

/// What trimming leaves fits into a thousand bytes, or is of the preferred node alone; no ad of the
/// preferred node is dropped; and where an ad was dropped, nothing that was kept of other nodes was
/// published before it.
pub proof fn trimming_drops_the_oldest(
    bucket: BucketView,
    kept: BucketView,
    preferred: Option<Seq<u8>>,
    dropped: SignedAdView,
)
    requires
        kept.version == bucket.version,
        is_trimming(bucket, kept, preferred),
        bucket.ads.contains(dropped),
        !kept.ads.contains(dropped),
    ensures
        preferred != Some(dropped.ad.node_id),
        forall|k: int|
            0 <= k < kept.ads.len() && preferred != Some((#[trigger] kept.ads[k]).ad.node_id)
                ==> kept.ads[k].ad.published_at >= dropped.ad.published_at,
        bucket_wire(kept).len() > 1000 ==> forall|k: int|
            0 <= k < kept.ads.len() ==> preferred == Some((#[trigger] kept.ads[k]).ad.node_id),
        exists|ad: SignedAdView|
            bucket.ads.contains(ad) && bucket_wire(
                BucketView { version: bucket.version, ads: #[trigger] kept.ads.push(ad) },
            ).len() > 1000,
{
    let order = preferred_order(preferred);
    let sorted = choose|sorted: Seq<SignedAdView>| #[trigger]
        is_stable_sort(bucket.ads, sorted, order) && trimmed_from(
            sorted,
            bucket.version,
            kept.ads,
            preferred,
        );
    let n = kept.ads.len() as int;
    lemma_sort_keeps_items(bucket.ads, sorted, order);
    assert(kept == (BucketView { version: bucket.version, ads: kept.ads }));
    assert(sorted.contains(dropped));
    let d = choose|d: int| 0 <= d < sorted.len() && sorted[d] == dropped;
    assert(d >= n) by {
        if d < n {
            assert(kept.ads[d] == dropped);
        }
    }
    assert(removable(sorted[d], preferred));
    assert forall|k: int| 0 <= k < n && preferred != Some(
        (#[trigger] kept.ads[k]).ad.node_id,
    ) implies kept.ads[k].ad.published_at >= dropped.ad.published_at by {
        assert(kept.ads[k] == sorted[k]);
        assert(!order(sorted[d], sorted[k]));
        newer_ad_comes_first(sorted[d], sorted[k]);
    }
    assert(removable(sorted[n], preferred));
    assert(sorted.take(n + 1) =~= kept.ads.push(sorted[n]));
    assert(sorted.contains(sorted[n]));
    assert(bucket.ads.contains(sorted[n]));
    if bucket_wire(kept).len() > 1000 {
        assert forall|k: int| 0 <= k < n implies preferred == Some(
            (#[trigger] kept.ads[k]).ad.node_id,
        ) by {
            assert(!removable(kept.ads[k], preferred));
        }
    }
}

/// A bucket that fits keeps all its ads.
pub proof fn trimming_keeps_what_fits(
    bucket: BucketView,
    kept: BucketView,
    preferred: Option<Seq<u8>>,
    ad: SignedAdView,
)
    requires
        is_trimming(bucket, kept, preferred),
        forall|sorted: Seq<SignedAdView>| #[trigger]
            is_stable_sort(bucket.ads, sorted, preferred_order(preferred)) ==> bucket_wire(
                BucketView { version: bucket.version, ads: sorted },
            ).len() <= 1000,
        bucket.ads.contains(ad),
    ensures
        kept.ads.contains(ad),
{
    let order = preferred_order(preferred);
    let sorted = choose|sorted: Seq<SignedAdView>| #[trigger]
        is_stable_sort(bucket.ads, sorted, order) && trimmed_from(
            sorted,
            bucket.version,
            kept.ads,
            preferred,
        );
    lemma_sort_keeps_items(bucket.ads, sorted, order);
    if kept.ads.len() < sorted.len() {
        let last = sorted.len() - 1;
        assert(removable(sorted[last], preferred));
        assert(sorted.take(last + 1) =~= sorted);
    }
    assert(sorted.take(sorted.len() as int) =~= sorted);
}

} // verus!
