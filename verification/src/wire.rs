//! The byte format of what peers store and sign: postcard's encoding of numbers, byte strings,
//! texts and lists.

use crate::octets::{byte_lists, texts};
use vstd::prelude::*;
use vstd::utf8::*;

verus! {

/// A number in groups of seven bits, lowest first; every byte but the last has its top bit set.
pub open spec fn varint(n: nat) -> Seq<u8>
    decreases n,
{
    if n < 128 {
        seq![n as u8]
    } else {
        seq![(128 + n % 128) as u8] + varint(n / 128)
    }
}

/// A byte string behind its length.
pub open spec fn sized_bytes(bytes: Seq<u8>) -> Seq<u8> {
    varint(bytes.len()) + bytes
}

/// The parts, one behind the other.
pub open spec fn joined(parts: Seq<Seq<u8>>) -> Seq<u8>
    decreases parts.len(),
{
    if parts.len() == 0 {
        Seq::empty()
    } else {
        parts[0] + joined(parts.drop_first())
    }
}

/// A list of byte strings: how many, then each behind its length.
pub open spec fn byte_lists_wire(lists: Seq<Seq<u8>>) -> Seq<u8> {
    varint(lists.len()) + joined(Seq::new(lists.len(), |i: int| sized_bytes(lists[i])))
}

/// A list of texts, each as its UTF-8 bytes.
pub open spec fn texts_wire(list: Seq<Seq<char>>) -> Seq<u8> {
    byte_lists_wire(Seq::new(list.len(), |i: int| encode_utf8(list[i])))
}

/// What postcard reads as a list of byte strings at the start of the bytes, if it can.
pub uninterp spec fn byte_lists_read(bytes: Seq<u8>) -> Option<Seq<Seq<u8>>>;

/// Calls `postcard::to_allocvec` on a list of byte strings. Lengths are known and the output grows
/// as needed, so it succeeds, with the list's encoding.
#[verifier::external_body]
pub(crate) fn encode_byte_lists(lists: &[Vec<u8>]) -> (r: Option<Vec<u8>>)
    ensures
        r is Some,
        r->0@ == byte_lists_wire(byte_lists(lists@)),
{
    postcard::to_allocvec(lists).ok()
}

/// Calls `postcard::from_bytes` for a list of byte strings. The outcome depends on the bytes
/// alone, and the encoding of a list is read back as that list.
#[verifier::external_body]
pub(crate) fn decode_byte_lists(bytes: &[u8]) -> (r: Option<Vec<Vec<u8>>>)
    ensures
        (match r {
            Some(lists) => Some(byte_lists(lists@)),
            None => None,
        }) == byte_lists_read(bytes@),
        forall|lists: Seq<Seq<u8>>|
            bytes@ == #[trigger] byte_lists_wire(lists) ==> (r is Some && byte_lists(r->0@) == lists),
{
    postcard::from_bytes::<Vec<Vec<u8>>>(bytes).ok()
}

/// A number's encoding is never the start of another number's.
pub proof fn lemma_varint_prefix(a: nat, b: nat, x: Seq<u8>, y: Seq<u8>)
    requires
        varint(a) + x == varint(b) + y,
    ensures
        a == b,
        x == y,
    decreases a,
{
    let l = varint(a) + x;
    let r = varint(b) + y;
    assert(l[0] == r[0]);
    if a < 128 && b < 128 {
        assert(x =~= l.skip(1));
        assert(y =~= r.skip(1));
    } else if a >= 128 && b >= 128 {
        assert((128 + a % 128) as u8 == (128 + b % 128) as u8);
        assert(l.skip(1) =~= varint(a / 128) + x);
        assert(r.skip(1) =~= varint(b / 128) + y);
        lemma_varint_prefix(a / 128, b / 128, x, y);
    }
}

/// A sized byte string's encoding determines the byte string and what follows.
pub proof fn lemma_sized_prefix(a: Seq<u8>, b: Seq<u8>, x: Seq<u8>, y: Seq<u8>)
    requires
        sized_bytes(a) + x == sized_bytes(b) + y,
    ensures
        a == b,
        x == y,
{
    assert(sized_bytes(a) + x =~= varint(a.len()) + (a + x));
    assert(sized_bytes(b) + y =~= varint(b.len()) + (b + y));
    lemma_varint_prefix(a.len(), b.len(), a + x, b + y);
    lemma_split(a, b, x, y);
}

/// Two joins of equal length in front are equal only if both parts are.
pub proof fn lemma_split(a: Seq<u8>, b: Seq<u8>, x: Seq<u8>, y: Seq<u8>)
    requires
        a + x == b + y,
        a.len() == b.len(),
    ensures
        a == b,
        x == y,
{
    assert(a =~= (a + x).take(a.len() as int));
    assert(b =~= (b + y).take(a.len() as int));
    assert(x =~= (a + x).skip(a.len() as int));
    assert(y =~= (b + y).skip(a.len() as int));
}

proof fn lemma_joined_sized_prefix(a: Seq<Seq<u8>>, b: Seq<Seq<u8>>, x: Seq<u8>, y: Seq<u8>)
    requires
        a.len() == b.len(),
        joined(Seq::new(a.len(), |i: int| sized_bytes(a[i]))) + x == joined(
            Seq::new(b.len(), |i: int| sized_bytes(b[i])),
        ) + y,
    ensures
        a == b,
        x == y,
    decreases a.len(),
{
    let pa = Seq::new(a.len(), |i: int| sized_bytes(a[i]));
    let pb = Seq::new(b.len(), |i: int| sized_bytes(b[i]));
    if a.len() == 0 {
        assert(a =~= b);
        assert(joined(pa) + x =~= x);
        assert(joined(pb) + y =~= y);
    } else {
        let ra = a.drop_first();
        let rb = b.drop_first();
        assert(pa.drop_first() =~= Seq::new(ra.len(), |i: int| sized_bytes(ra[i])));
        assert(pb.drop_first() =~= Seq::new(rb.len(), |i: int| sized_bytes(rb[i])));
        assert(joined(pa) + x =~= sized_bytes(a[0]) + (joined(pa.drop_first()) + x));
        assert(joined(pb) + y =~= sized_bytes(b[0]) + (joined(pb.drop_first()) + y));
        lemma_sized_prefix(a[0], b[0], joined(pa.drop_first()) + x, joined(pb.drop_first()) + y);
        lemma_joined_sized_prefix(ra, rb, x, y);
        assert(a =~= seq![a[0]] + ra);
        assert(b =~= seq![b[0]] + rb);
    }
}

/// The encoding of a list of byte strings determines the list and what follows.
pub proof fn lemma_byte_lists_prefix(
    a: Seq<Seq<u8>>,
    b: Seq<Seq<u8>>,
    x: Seq<u8>,
    y: Seq<u8>,
)
    requires
        byte_lists_wire(a) + x == byte_lists_wire(b) + y,
    ensures
        a == b,
        x == y,
{
    let ja = joined(Seq::new(a.len(), |i: int| sized_bytes(a[i])));
    let jb = joined(Seq::new(b.len(), |i: int| sized_bytes(b[i])));
    assert(byte_lists_wire(a) + x =~= varint(a.len()) + (ja + x));
    assert(byte_lists_wire(b) + y =~= varint(b.len()) + (jb + y));
    lemma_varint_prefix(a.len(), b.len(), ja + x, jb + y);
    lemma_joined_sized_prefix(a, b, x, y);
}

/// The encoding of a list of texts determines the list and what follows.
pub proof fn lemma_texts_prefix(
    a: Seq<Seq<char>>,
    b: Seq<Seq<char>>,
    x: Seq<u8>,
    y: Seq<u8>,
)
    requires
        texts_wire(a) + x == texts_wire(b) + y,
    ensures
        a == b,
        x == y,
{
    let ea = Seq::new(a.len(), |i: int| encode_utf8(a[i]));
    let eb = Seq::new(b.len(), |i: int| encode_utf8(b[i]));
    lemma_byte_lists_prefix(ea, eb, x, y);
    assert(ea.len() == eb.len());
    assert forall|i: int| 0 <= i < a.len() implies a[i] == b[i] by {
        assert(ea[i] == eb[i]);
        encode_utf8_decode_utf8(a[i]);
        encode_utf8_decode_utf8(b[i]);
    }
    assert(a =~= b);
}

} // verus!
