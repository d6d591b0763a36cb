//! DHT helpers and types used by swarm discovery.
//!
//! - DHT service advertisements are signed by the advertising iroh node identity, so a peer cannot
//!   make another node's ad.
//! - The shared shard buckets themselves remain globally writable rendezvous points.
//! - This backend is intended for bootstrap only. Once a peer is found, direct iroh communication
//!   becomes the trusted path.

pub mod backend;
pub mod publisher;
pub mod resolver;

use crate::hash::{sha256, sha256_digest};
use crate::keys::{derive_dht_public_key, dht_public_key, item_signature, sign_item};
use crate::octets::{append_bytes, bytes_before, copy_bytes, le_bytes, lex_less, same_bytes, u64_le_bytes};
use crate::octets::{lemma_le_bytes_len, lemma_lex_irreflexive, lemma_lex_total, lemma_lex_transitive};
use crate::octets::lemma_u64_le_bytes_injective;
use crate::order::{stable_sort, stably_placed, strict_weak_order};
use crate::order::lemma_rearrangement_onto;
use crate::time::{seconds_since_epoch, ClockReading};
use crate::wire::lemma_split;
use vstd::prelude::*;
use vstd::string::*;
use vstd::utf8::*;

verus! {

/// How many shards a service's advertisements are spread over.
pub const DHT_SHARD_COUNT: u8 = 16;

/// How many shards one node publishes into.
pub const DHT_REPLICA_COUNT: usize = 2;

/// How often a contended publication is tried.
pub const DHT_PUBLISH_RETRIES: usize = 4;

/// How long an advertisement lives.
pub const DHT_AD_TTL_SECS: u64 = 120;

/// How many shards are queried at the same time.
pub const DHT_QUERY_CONCURRENCY: usize = 4;

/// What is hashed for a shard of a service in a minute, behind a label of the purpose.
pub open spec fn shard_preimage(
    label: Seq<char>,
    alpn: Seq<u8>,
    unix_minute: u64,
    shard: u8,
) -> Seq<u8> {
    encode_utf8(label) + (alpn + (le_bytes(unix_minute as nat, 8) + seq![shard]))
}

/// The label of signing keys.
pub open spec fn key_label() -> Seq<char> {
    "tonic-iroh-transport:dht:key:v2:"@
}

/// The label of salts.
pub open spec fn salt_label() -> Seq<char> {
    "tonic-iroh-transport:dht:salt:v2:"@
}

/// What is hashed to rank a shard for a node and a service.
pub open spec fn rank_preimage(node_id: Seq<u8>, alpn: Seq<u8>, shard: u8) -> Seq<u8> {
    encode_utf8("tonic-iroh-transport:dht:shards:v3:"@) + (node_id + (alpn + seq![shard]))
}

/// The seed of a shard's signing key.
pub open spec fn shard_key_seed(alpn: Seq<u8>, unix_minute: u64, shard: u8) -> Seq<u8> {
    sha256_digest(shard_preimage(key_label(), alpn, unix_minute, shard))
}

/// The salt of a shard bucket.
pub open spec fn shard_salt(alpn: Seq<u8>, unix_minute: u64, shard: u8) -> Seq<u8> {
    sha256_digest(shard_preimage(salt_label(), alpn, unix_minute, shard))
}

/// The first shard is ranked before the second: by the hash, and by number where the hashes agree.
pub open spec fn shard_before(node_id: Seq<u8>, alpn: Seq<u8>, a: u8, b: u8) -> bool {
    let ra = sha256_digest(rank_preimage(node_id, alpn, a));
    let rb = sha256_digest(rank_preimage(node_id, alpn, b));
    lex_less(ra, rb) || (ra == rb && a < b)
}

/// The shards are, in order, the first `replica_count` of the `shard_count` shards by rank, or all
/// of them where there are fewer.
pub open spec fn is_replica_choice(
    node_id: Seq<u8>,
    alpn: Seq<u8>,
    shard_count: u8,
    replica_count: usize,
    shards: Seq<u8>,
) -> bool {
    &&& shards.len() == if replica_count < shard_count {
        replica_count as int
    } else {
        shard_count as int
    }
    &&& forall|i: int| 0 <= i < shards.len() ==> #[trigger] shards[i] < shard_count
    &&& forall|i: int, j: int|
        0 <= i < j < shards.len() ==> shard_before(
            node_id,
            alpn,
            #[trigger] shards[i],
            #[trigger] shards[j],
        )
    &&& forall|s: u8, i: int|
        s < shard_count && !(#[trigger] shards.contains(s)) && 0 <= i < shards.len()
            ==> shard_before(node_id, alpn, #[trigger] shards[i], s)
}

/// The shards that a node publishes a service into.
pub open spec fn replica_choice(node_id: Seq<u8>, alpn: Seq<u8>) -> Seq<u8> {
    choose|shards: Seq<u8>|
        is_replica_choice(node_id, alpn, DHT_SHARD_COUNT, DHT_REPLICA_COUNT, shards)
}

/// The signing key of a shard bucket, as its seed.
#[derive(Debug, Clone, Copy, PartialEq, Eq)]
pub struct SigningKey {
    seed: [u8; 32],
}

impl View for SigningKey {
    type V = Seq<u8>;

    closed spec fn view(&self) -> Seq<u8> {
        self.seed@
    }
}

impl SigningKey {
    /// The signing key with this seed.
    pub fn from_bytes(seed: &[u8; 32]) -> (r: SigningKey)
        ensures
            r@ == seed@,
    {
        SigningKey { seed: *seed }
    }

    /// The seed.
    pub fn to_bytes(&self) -> (r: [u8; 32])
        ensures
            r@ == self@,
    {
        self.seed
    }

    /// The bytes of the public key, under which the DHT finds what this key signs.
    pub fn verifying_key(&self) -> (r: [u8; 32])
        ensures
            r@ == dht_public_key(self@),
    {
        derive_dht_public_key(&self.seed)
    }

    /// Signs a value to be stored in the DHT with a sequence number and a salt.
    pub fn sign_item(&self, value: &[u8], seq: i64, salt: &[u8]) -> (r: [u8; 64])
        ensures
            r@ == item_signature(self@, value@, seq, salt@),
    {
        sign_item(&self.seed, value, seq, salt)
    }
}

/// What is hashed for a shard of a service in a minute.
fn shard_bytes(label: &str, alpn: &[u8], unix_minute: u64, shard: u8) -> (r: Vec<u8>)
    ensures
        r@ == shard_preimage(label@, alpn@, unix_minute, shard),
{
    let mut bytes = copy_bytes(label.as_bytes());
    append_bytes(&mut bytes, alpn);
    let minute = u64_le_bytes(unix_minute);
    append_bytes(&mut bytes, minute.as_slice());
    bytes.push(shard);
    assert(bytes@ =~= shard_preimage(label@, alpn@, unix_minute, shard));
    bytes
}

/// Derive the shared shard signing key from service ALPN, unix minute, and shard index.
#[must_use]
pub fn derive_signing_key(alpn: &[u8], unix_minute: u64, shard: u8) -> (r: SigningKey)
    ensures
        r@ == shard_key_seed(alpn@, unix_minute, shard),
{
    let bytes = shard_bytes("tonic-iroh-transport:dht:key:v2:", alpn, unix_minute, shard);
    SigningKey::from_bytes(&sha256(bytes.as_slice()))
}

/// Derive salt for a service shard bucket.
#[must_use]
pub fn derive_salt(alpn: &[u8], unix_minute: u64, shard: u8) -> (r: Vec<u8>)
    ensures
        r@ == shard_salt(alpn@, unix_minute, shard),
        r@.len() == 32,
{
    let bytes = shard_bytes("tonic-iroh-transport:dht:salt:v2:", alpn, unix_minute, shard);
    copy_bytes(&sha256(bytes.as_slice()))
}

/// Deterministically choose the shards this node should publish into for a service.
#[must_use]
pub fn replica_shards(node_id: &[u8; 32], alpn: &[u8]) -> (shards: Vec<u8>)
    ensures
        is_replica_choice(node_id@, alpn@, DHT_SHARD_COUNT, DHT_REPLICA_COUNT, shards@),
        shards@ == replica_choice(node_id@, alpn@),
        shards@.no_duplicates(),
{
    let shards = replica_shards_with_limits(node_id, alpn, DHT_SHARD_COUNT, DHT_REPLICA_COUNT);
    proof {
        replica_choice_is_determined(
            node_id@,
            alpn@,
            DHT_SHARD_COUNT,
            DHT_REPLICA_COUNT,
            shards@,
            replica_choice(node_id@, alpn@),
        );
    }
    shards
}

/// Get current unix minute with optional offset.
///
/// It is the minute of the second that the clock gives. There is none if the system clock is before
/// the Unix epoch.
#[must_use]
pub fn unix_minute(offset: i64) -> (r: Option<u64>)
    ensures
        r matches Some(minute) ==> exists|now: u64|
            minute == offset_minute(#[trigger] minute_of(now), offset),
        exists|reading: ClockReading| r == minute_read(#[trigger] reading.gave(), offset),
{
    let reading = seconds_since_epoch();
    let ghost read = reading.gave();
    let r = minute_of_reading(reading.outcome(), offset);
    assert(r is Some ==> r->0 == offset_minute(minute_of(read->Ok_0), offset));
    r
}

/// The minute that a reading of the clock gives, moved by the offset.
pub open spec fn minute_read(reading: Result<u64, String>, offset: i64) -> Option<u64> {
    match reading {
        Ok(now) => Some(offset_minute(minute_of(now), offset)),
        Err(_) => None,
    }
}

/// The minute that a reading of the clock gives, moved by the offset. There is none for a clock
/// before the Unix epoch.
pub fn minute_of_reading(reading: Result<u64, String>, offset: i64) -> (r: Option<u64>)
    ensures
        r == minute_read(reading, offset),
{
    match reading {
        Ok(now) => Some(apply_minute_offset(now / 60, offset)),
        Err(_) => None,
    }
}

/// The minute of a time in seconds.
pub open spec fn minute_of(secs: u64) -> u64 {
    secs / 60
}

/// The minute, moved by the offset, as far as the range allows.
pub open spec fn offset_minute(minute: u64, offset: i64) -> u64 {
    if minute + offset < 0 {
        0
    } else if minute + offset > u64::MAX {
        u64::MAX
    } else {
        (minute + offset) as u64
    }
}

/// Move a minute by the offset, saturating at both ends.
pub fn apply_minute_offset(minute: u64, offset: i64) -> (r: u64)
    ensures
        r == offset_minute(minute, offset),
{
    if offset >= 0 {
        minute.saturating_add(offset as u64)
    } else {
        let magnitude: u64 = (-(offset + 1)) as u64 + 1;
        minute.saturating_sub(magnitude)
    }
}

/// A shard with the hash that ranks it.
struct RankedShard {
    rank: [u8; 32],
    shard: u8,
}

spec fn ranked_before() -> spec_fn(RankedShard, RankedShard) -> bool {
    |a: RankedShard, b: RankedShard|
        lex_less(a.rank@, b.rank@) || (a.rank@ == b.rank@ && a.shard < b.shard)
}

proof fn lemma_ranked_order()
    ensures
        strict_weak_order(ranked_before()),
{
    let before = ranked_before();
    assert forall|a: RankedShard, b: RankedShard| #[trigger] before(a, b) implies !before(b, a) by {
        lemma_lex_irreflexive(a.rank@);
        if lex_less(a.rank@, b.rank@) && lex_less(b.rank@, a.rank@) {
            lemma_lex_transitive(a.rank@, b.rank@, a.rank@);
        }
    }
    assert forall|a: RankedShard, b: RankedShard, c: RankedShard| #[trigger]
        before(a, b) && #[trigger] before(b, c) implies before(a, c) by {
        if lex_less(a.rank@, b.rank@) && lex_less(b.rank@, c.rank@) {
            lemma_lex_transitive(a.rank@, b.rank@, c.rank@);
        }
    }
    assert forall|a: RankedShard, b: RankedShard, c: RankedShard|
        #![trigger before(a, c), before(a, b)]
        #![trigger before(a, c), before(b, c)]
        before(a, c) implies before(a, b) || before(b, c) by {
        lemma_lex_total(a.rank@, b.rank@);
        lemma_lex_total(b.rank@, c.rank@);
        if lex_less(b.rank@, a.rank@) && lex_less(a.rank@, c.rank@) {
            lemma_lex_transitive(b.rank@, a.rank@, c.rank@);
        }
    }
}

fn ranks_before(a: &RankedShard, b: &RankedShard) -> (r: bool)
    ensures
        r == ranked_before()(*a, *b),
{
    if bytes_before(&a.rank, &b.rank) {
        return true;
    }
    same_bytes(&a.rank, &b.rank) && a.shard < b.shard
}

fn rank_shard(node_id: &[u8; 32], alpn: &[u8], shard: u8) -> (r: RankedShard)
    ensures
        r.shard == shard,
        r.rank@ == sha256_digest(rank_preimage(node_id@, alpn@, shard)),
{
    let mut bytes = copy_bytes("tonic-iroh-transport:dht:shards:v3:".as_bytes());
    append_bytes(&mut bytes, node_id);
    append_bytes(&mut bytes, alpn);
    bytes.push(shard);
    assert(bytes@ =~= rank_preimage(node_id@, alpn@, shard));
    RankedShard { rank: sha256(bytes.as_slice()), shard }
}

/// Choose the shards of a node for a service, out of a given number of shards.
pub fn replica_shards_with_limits(
    node_id: &[u8; 32],
    alpn: &[u8],
    shard_count: u8,
    replica_count: usize,
) -> (shards: Vec<u8>)
    ensures
        is_replica_choice(node_id@, alpn@, shard_count, replica_count, shards@),
        shards@.no_duplicates(),
{
    let mut unranked: Vec<RankedShard> = Vec::new();
    let mut next: u8 = 0;
    while next < shard_count
        invariant
            next <= shard_count,
            unranked.len() == next,
            forall|i: int|
                0 <= i < next ==> (#[trigger] unranked@[i]).shard == i && unranked@[i].rank@
                    == sha256_digest(rank_preimage(node_id@, alpn@, i as u8)),
        decreases shard_count - next,
    {
        unranked.push(rank_shard(node_id, alpn, next));
        next = next + 1;
    }
    proof {
        lemma_ranked_order();
    }
    let ghost all = unranked@;
    let less = |a: &RankedShard, b: &RankedShard| -> (r: bool)
        ensures
            r == ranked_before()(*a, *b),
        { ranks_before(a, b) };
    let ranked = stable_sort(unranked, less, Ghost(ranked_before()));
    let ghost places = choose|places: Seq<int>|
        stably_placed(all, ranked@, places, ranked_before());
    let wanted: usize = if replica_count < shard_count as usize {
        replica_count
    } else {
        shard_count as usize
    };
    let mut shards: Vec<u8> = Vec::new();
    let mut i: usize = 0;
    while i < wanted
        invariant
            i <= wanted <= ranked.len(),
            shards.len() == i,
            forall|j: int| 0 <= j < i ==> #[trigger] shards@[j] == ranked@[j].shard,
        decreases wanted - i,
    {
        shards.push(ranked[i].shard);
        i = i + 1;
    }
    proof {
        let chosen = shards@;
        assert forall|j: int| 0 <= j < ranked.len() implies (#[trigger] ranked@[j]).shard == places[j]
            && ranked@[j].rank@ == sha256_digest(
            rank_preimage(node_id@, alpn@, ranked@[j].shard),
        ) by {
            assert(ranked@[j] == all[places[j]]);
        }
        assert forall|j: int, k: int| 0 <= j < k < ranked.len() implies shard_before(
            node_id@,
            alpn@,
            (#[trigger] ranked@[j]).shard,
            (#[trigger] ranked@[k]).shard,
        ) by {
            assert(!ranked_before()(ranked@[k], ranked@[j]));
            assert(places[j] != places[k]);
            assert(ranked@[j].shard != ranked@[k].shard);
            lemma_lex_total(ranked@[j].rank@, ranked@[k].rank@);
        }
        assert forall|s: u8, j: int|
            s < shard_count && !(#[trigger] chosen.contains(s)) && 0 <= j < chosen.len() implies shard_before(
            node_id@,
            alpn@,
            #[trigger] chosen[j],
            s,
        ) by {
            lemma_rearrangement_onto(places, all.len(), s as int);
            let k = choose|k: int| 0 <= k < places.len() && places[k] == s as int;
            assert(ranked@[k].shard == s);
            if k < wanted {
                assert(chosen[k] == s);
            }
            assert(shard_before(node_id@, alpn@, ranked@[j].shard, ranked@[k].shard));
        }
        assert(is_replica_choice(node_id@, alpn@, shard_count, replica_count, chosen));
        replica_shards_differ(node_id@, alpn@, shard_count, replica_count, chosen);
    }
    shards
}

proof fn lemma_shard_before_asymmetric(node_id: Seq<u8>, alpn: Seq<u8>, a: u8, b: u8)
    requires
        shard_before(node_id, alpn, a, b),
    ensures
        !shard_before(node_id, alpn, b, a),
        a != b,
{
    let ra = sha256_digest(rank_preimage(node_id, alpn, a));
    let rb = sha256_digest(rank_preimage(node_id, alpn, b));
    lemma_lex_irreflexive(ra);
    lemma_lex_irreflexive(rb);
    if lex_less(ra, rb) && lex_less(rb, ra) {
        lemma_lex_transitive(ra, rb, ra);
    }
}

/// The shards that a node publishes a service into are all different.
pub proof fn replica_shards_differ(
    node_id: Seq<u8>,
    alpn: Seq<u8>,
    shard_count: u8,
    replica_count: usize,
    shards: Seq<u8>,
)
    requires
        is_replica_choice(node_id, alpn, shard_count, replica_count, shards),
    ensures
        shards.no_duplicates(),
{
    assert forall|i: int, j: int| 0 <= i < shards.len() && 0 <= j < shards.len() && i != j implies shards[i]
        != shards[j] by {
        if i < j {
            lemma_shard_before_asymmetric(node_id, alpn, shards[i], shards[j]);
        } else {
            lemma_shard_before_asymmetric(node_id, alpn, shards[j], shards[i]);
        }
    }
}

proof fn lemma_choice_prefix(
    node_id: Seq<u8>,
    alpn: Seq<u8>,
    shard_count: u8,
    replica_count: usize,
    s1: Seq<u8>,
    s2: Seq<u8>,
    i: int,
)
    requires
        is_replica_choice(node_id, alpn, shard_count, replica_count, s1),
        is_replica_choice(node_id, alpn, shard_count, replica_count, s2),
        0 <= i < s1.len(),
        forall|j: int| 0 <= j < i ==> s1[j] == s2[j],
    ensures
        !shard_before(node_id, alpn, s1[i], s2[i]),
{
    if shard_before(node_id, alpn, s1[i], s2[i]) {
        lemma_shard_before_asymmetric(node_id, alpn, s1[i], s2[i]);
        if s2.contains(s1[i]) {
            let j = choose|j: int| 0 <= j < s2.len() && s2[j] == s1[i];
            if j < i {
                assert(s1[j] == s1[i]);
                assert(shard_before(node_id, alpn, s1[j], s1[i]));
                lemma_shard_before_asymmetric(node_id, alpn, s1[j], s1[i]);
            } else if j > i {
                assert(shard_before(node_id, alpn, s2[i], s2[j]));
            }
        } else {
            assert(shard_before(node_id, alpn, s2[i], s1[i]));
        }
    }
}

/// Shard selection is stable: it depends on the node, the service and the limits alone.
pub proof fn replica_choice_is_determined(
    node_id: Seq<u8>,
    alpn: Seq<u8>,
    shard_count: u8,
    replica_count: usize,
    s1: Seq<u8>,
    s2: Seq<u8>,
)
    requires
        is_replica_choice(node_id, alpn, shard_count, replica_count, s1),
        is_replica_choice(node_id, alpn, shard_count, replica_count, s2),
    ensures
        s1 == s2,
{
    assert forall|i: int| 0 <= i < s1.len() implies s1[i] == s2[i] by {
        lemma_choice_agrees(node_id, alpn, shard_count, replica_count, s1, s2, i);
    }
    assert(s1 =~= s2);
}

proof fn lemma_choice_agrees(
    node_id: Seq<u8>,
    alpn: Seq<u8>,
    shard_count: u8,
    replica_count: usize,
    s1: Seq<u8>,
    s2: Seq<u8>,
    i: int,
)
    requires
        is_replica_choice(node_id, alpn, shard_count, replica_count, s1),
        is_replica_choice(node_id, alpn, shard_count, replica_count, s2),
        0 <= i < s1.len(),
    ensures
        s1[i] == s2[i],
    decreases i,
{
    assert forall|j: int| 0 <= j < i implies s1[j] == s2[j] by {
        lemma_choice_agrees(node_id, alpn, shard_count, replica_count, s1, s2, j);
    }
    lemma_choice_prefix(node_id, alpn, shard_count, replica_count, s1, s2, i);
    lemma_choice_prefix(node_id, alpn, shard_count, replica_count, s2, s1, i);
    lemma_lex_total(
        sha256_digest(rank_preimage(node_id, alpn, s1[i])),
        sha256_digest(rank_preimage(node_id, alpn, s2[i])),
    );
}

/// Under one label, what is hashed for two shard buckets is the same only if service, minute and
/// shard are.
pub proof fn shard_preimages_differ(
    label: Seq<char>,
    alpn1: Seq<u8>,
    minute1: u64,
    shard1: u8,
    alpn2: Seq<u8>,
    minute2: u64,
    shard2: u8,
)
    requires
        shard_preimage(label, alpn1, minute1, shard1) == shard_preimage(
            label,
            alpn2,
            minute2,
            shard2,
        ),
    ensures
        alpn1 == alpn2,
        minute1 == minute2,
        shard1 == shard2,
{
    let l = encode_utf8(label);
    let m1 = le_bytes(minute1 as nat, 8);
    let m2 = le_bytes(minute2 as nat, 8);
    lemma_le_bytes_len(minute1 as nat, 8);
    lemma_le_bytes_len(minute2 as nat, 8);
    lemma_split(l, l, alpn1 + (m1 + seq![shard1]), alpn2 + (m2 + seq![shard2]));
    assert(alpn1.len() == alpn2.len()) by {
        assert((alpn1 + (m1 + seq![shard1])).len() == alpn1.len() + 9);
        assert((alpn2 + (m2 + seq![shard2])).len() == alpn2.len() + 9);
    }
    lemma_split(alpn1, alpn2, m1 + seq![shard1], m2 + seq![shard2]);
    lemma_split(m1, m2, seq![shard1], seq![shard2]);
    assert(seq![shard1][0] == seq![shard2][0]);
    lemma_u64_le_bytes_injective(minute1, minute2);
}

/// What is hashed for a signing key is never what is hashed for a salt.
pub proof fn key_and_salt_preimages_differ(
    alpn1: Seq<u8>,
    minute1: u64,
    shard1: u8,
    alpn2: Seq<u8>,
    minute2: u64,
    shard2: u8,
)
    ensures
        shard_preimage(key_label(), alpn1, minute1, shard1) != shard_preimage(
            salt_label(),
            alpn2,
            minute2,
            shard2,
        ),
{
    reveal_strlit("tonic-iroh-transport:dht:key:v2:");
    reveal_strlit("tonic-iroh-transport:dht:salt:v2:");
    let k = key_label();
    let s = salt_label();
    is_ascii_chars_encode_utf8(k);
    is_ascii_chars_encode_utf8(s);
    assert(shard_preimage(k, alpn1, minute1, shard1)[25] == 107);
    assert(shard_preimage(s, alpn2, minute2, shard2)[25] == 115);
}

/// A minute is sixty seconds long, and the offset moves it by whole minutes: forwards and backwards,
/// as far as there are minutes.
pub proof fn minutes_are_sixty_seconds(now: u64, offset: i64)
    ensures
        60 * minute_of(now) <= now < 60 * minute_of(now) + 60,
        minute_read(Ok(now), 0) == Some(minute_of(now)),
        0 <= minute_of(now) + offset <= u64::MAX ==> minute_read(Ok(now), offset) is Some
            && minute_read(Ok(now), offset)->0 - minute_of(now) == offset,
        minute_of(now) + offset < 0 ==> minute_read(Ok(now), offset) == Some(0u64),
        minute_of(now) + offset > u64::MAX ==> minute_read(Ok(now), offset) == Some(u64::MAX),
        forall|cause: String| #[trigger]
            minute_read(Err(cause), offset) is None,
{
}

/// A node publishes into as many shards as it is to, or all there are; each is one of the shards;
/// and no shard that was passed over has a smaller hash than one that was chosen.
pub proof fn chosen_shards_have_the_smallest_hashes(
    node_id: Seq<u8>,
    alpn: Seq<u8>,
    shard_count: u8,
    replica_count: usize,
    shards: Seq<u8>,
    chosen: u8,
    other: u8,
)
    requires
        is_replica_choice(node_id, alpn, shard_count, replica_count, shards),
        shards.contains(chosen),
        other < shard_count,
        !shards.contains(other),
    ensures
        shards.len() == replica_count < shard_count,
        chosen < shard_count,
        !lex_less(
            sha256_digest(rank_preimage(node_id, alpn, other)),
            sha256_digest(rank_preimage(node_id, alpn, chosen)),
        ),
{
    let i = choose|i: int| 0 <= i < shards.len() && shards[i] == chosen;
    assert(shard_before(node_id, alpn, shards[i], other));
    lemma_shard_before_asymmetric(node_id, alpn, chosen, other);
    if shards.len() == shard_count {
        replica_shards_differ(node_id, alpn, shard_count, replica_count, shards);
        lemma_all_shards_chosen(shards, shard_count, other);
    }
}

proof fn lemma_all_shards_chosen(shards: Seq<u8>, shard_count: u8, other: u8)
    requires
        shards.len() == shard_count,
        shards.no_duplicates(),
        forall|i: int| 0 <= i < shards.len() ==> #[trigger] shards[i] < shard_count,
        other < shard_count,
    ensures
        shards.contains(other),
{
    let places = Seq::new(shards.len(), |i: int| shards[i] as int);
    assert forall|i: int, j: int| 0 <= i < j < places.len() implies #[trigger] places[i]
        != #[trigger] places[j] by {
        assert(shards[i] != shards[j]);
    }
    lemma_rearrangement_onto(places, shard_count as nat, other as int);
    let k = choose|k: int| 0 <= k < places.len() && places[k] == other as int;
    assert(shards[k] == other);
}

} // verus!
