//! Byte strings and texts: equality, lexicographic order, copying and joining.

use vstd::prelude::*;

verus! {

/// The byte strings that a list of byte vectors holds.
pub open spec fn byte_lists(lists: Seq<Vec<u8>>) -> Seq<Seq<u8>> {
    Seq::new(lists.len(), |i: int| lists[i]@)
}

/// The texts that a list of strings holds.
pub open spec fn texts(list: Seq<String>) -> Seq<Seq<char>> {
    Seq::new(list.len(), |i: int| list[i]@)
}

/// `a` comes before `b` in lexicographic order; a proper prefix comes first.
pub open spec fn lex_less(a: Seq<u8>, b: Seq<u8>) -> bool
    decreases a.len(),
{
    if b.len() == 0 {
        false
    } else if a.len() == 0 {
        true
    } else {
        a[0] < b[0] || (a[0] == b[0] && lex_less(a.drop_first(), b.drop_first()))
    }
}

pub proof fn lemma_lex_irreflexive(a: Seq<u8>)
    ensures
        !lex_less(a, a),
    decreases a.len(),
{
    if a.len() > 0 {
        lemma_lex_irreflexive(a.drop_first());
    }
}

pub proof fn lemma_lex_total(a: Seq<u8>, b: Seq<u8>)
    ensures
        a == b || lex_less(a, b) || lex_less(b, a),
    decreases a.len(),
{
    if a.len() == 0 {
        if b.len() == 0 {
            assert(a =~= b);
        }
    } else if b.len() > 0 {
        lemma_lex_total(a.drop_first(), b.drop_first());
        if a[0] == b[0] && a.drop_first() == b.drop_first() {
            assert(a =~= seq![a[0]] + a.drop_first());
            assert(b =~= seq![b[0]] + b.drop_first());
        }
    }
}

pub proof fn lemma_lex_transitive(a: Seq<u8>, b: Seq<u8>, c: Seq<u8>)
    requires
        lex_less(a, b),
        lex_less(b, c),
    ensures
        lex_less(a, c),
    decreases a.len(),
{
    if a.len() > 0 && b.len() > 0 && c.len() > 0 {
        if a[0] == b[0] && b[0] == c[0] {
            lemma_lex_transitive(a.drop_first(), b.drop_first(), c.drop_first());
        }
    }
}

/// Whether the two byte strings are equal.
pub fn same_bytes(a: &[u8], b: &[u8]) -> (r: bool)
    ensures
        r == (a@ == b@),
{
    if a.len() != b.len() {
        return false;
    }
    let mut i: usize = 0;
    while i < a.len()
        invariant
            i <= a.len(),
            a.len() == b.len(),
            forall|j: int| 0 <= j < i ==> a@[j] == b@[j],
        decreases a.len() - i,
    {
        if a[i] != b[i] {
            return false;
        }
        i = i + 1;
    }
    assert(a@ =~= b@);
    true
}

/// Whether the first byte string comes before the second in lexicographic order.
pub fn bytes_before(a: &[u8], b: &[u8]) -> (r: bool)
    ensures
        r == lex_less(a@, b@),
{
    let mut i: usize = 0;
    assert(a@.skip(0) =~= a@);
    assert(b@.skip(0) =~= b@);
    while i < a.len() && i < b.len()
        invariant
            i <= a.len(),
            i <= b.len(),
            lex_less(a@, b@) == lex_less(a@.skip(i as int), b@.skip(i as int)),
        decreases a.len() - i,
    {
        assert(a@.skip(i as int).drop_first() =~= a@.skip(i + 1));
        assert(b@.skip(i as int).drop_first() =~= b@.skip(i + 1));
        if a[i] < b[i] {
            return true;
        }
        if a[i] > b[i] {
            return false;
        }
        i = i + 1;
    }
    i < b.len()
}

/// A copy of the byte string.
pub fn copy_bytes(bytes: &[u8]) -> (r: Vec<u8>)
    ensures
        r@ == bytes@,
{
    let mut r: Vec<u8> = Vec::new();
    append_bytes(&mut r, bytes);
    assert(r@ =~= bytes@);
    r
}

/// Appends the byte string to the vector.
pub fn append_bytes(out: &mut Vec<u8>, bytes: &[u8])
    ensures
        final(out)@ == old(out)@ + bytes@,
{
    let mut i: usize = 0;
    while i < bytes.len()
        invariant
            i <= bytes.len(),
            out@ == old(out)@ + bytes@.take(i as int),
        decreases bytes.len() - i,
    {
        out.push(bytes[i]);
        i = i + 1;
        assert(bytes@.take(i as int) =~= bytes@.take(i - 1).push(bytes@[i - 1]));
    }
    assert(bytes@.take(i as int) =~= bytes@);
}

/// A copy of a list of byte strings.
pub fn copy_byte_lists(lists: &[Vec<u8>]) -> (r: Vec<Vec<u8>>)
    ensures
        byte_lists(r@) == byte_lists(lists@),
{
    let mut r: Vec<Vec<u8>> = Vec::new();
    let mut i: usize = 0;
    while i < lists.len()
        invariant
            i <= lists.len(),
            r.len() == i,
            forall|j: int| 0 <= j < i ==> #[trigger] r@[j]@ == lists@[j]@,
        decreases lists.len() - i,
    {
        r.push(copy_bytes(lists[i].as_slice()));
        i = i + 1;
    }
    assert(byte_lists(r@) =~= byte_lists(lists@));
    r
}

/// A copy of a list of texts.
pub fn copy_texts(list: &[String]) -> (r: Vec<String>)
    ensures
        texts(r@) == texts(list@),
{
    let mut r: Vec<String> = Vec::new();
    let mut i: usize = 0;
    while i < list.len()
        invariant
            i <= list.len(),
            r.len() == i,
            forall|j: int| 0 <= j < i ==> #[trigger] r@[j]@ == list@[j]@,
        decreases list.len() - i,
    {
        r.push(list[i].clone());
        i = i + 1;
    }
    assert(texts(r@) =~= texts(list@));
    r
}

/// Whether the list holds the byte string.
pub fn holds_bytes(lists: &[Vec<u8>], wanted: &[u8]) -> (r: bool)
    ensures
        r == byte_lists(lists@).contains(wanted@),
{
    let ghost all = byte_lists(lists@);
    let mut i: usize = 0;
    while i < lists.len()
        invariant
            i <= lists.len(),
            all == byte_lists(lists@),
            forall|j: int| 0 <= j < i ==> all[j] != wanted@,
        decreases lists.len() - i,
    {
        if same_bytes(lists[i].as_slice(), wanted) {
            assert(all[i as int] == wanted@);
            return true;
        }
        i = i + 1;
    }
    false
}

/// Whether the list holds the text.
pub fn holds_text(list: &[String], wanted: &String) -> (r: bool)
    ensures
        r == texts(list@).contains(wanted@),
{
    let ghost all = texts(list@);
    let mut i: usize = 0;
    while i < list.len()
        invariant
            i <= list.len(),
            all == texts(list@),
            forall|j: int| 0 <= j < i ==> all[j] != wanted@,
        decreases list.len() - i,
    {
        if list[i] == *wanted {
            assert(all[i as int] == wanted@);
            return true;
        }
        i = i + 1;
    }
    false
}

/// Every required text is among the texts that are there.
pub open spec fn has_all_texts(present: Seq<Seq<char>>, required: Seq<Seq<char>>) -> bool {
    forall|i: int| 0 <= i < required.len() ==> present.contains(#[trigger] required[i])
}

/// Whether every required text is among the texts that are there.
pub fn holds_all_texts(present: &[String], required: &[String]) -> (r: bool)
    ensures
        r == has_all_texts(texts(present@), texts(required@)),
        r == (forall|text: Seq<char>| #[trigger]
            texts(required@).contains(text) ==> texts(present@).contains(text)),
{
    proof {
        all_required_texts_are_present(texts(present@), texts(required@));
    }
    let ghost all = texts(required@);
    let mut i: usize = 0;
    while i < required.len()
        invariant
            i <= required.len(),
            all == texts(required@),
            forall|j: int| 0 <= j < i ==> texts(present@).contains(#[trigger] all[j]),
        decreases required.len() - i,
    {
        if !holds_text(present, &required[i]) {
            assert(!texts(present@).contains(all[i as int]));
            proof {
                all_required_texts_are_present(texts(present@), texts(required@));
            }
            return false;
        }
        assert(texts(present@).contains(all[i as int]));
        i = i + 1;
    }
    true
}

/// The lowest `count` bytes of a number, lowest first.
pub open spec fn le_bytes(n: nat, count: nat) -> Seq<u8>
    decreases count,
{
    if count == 0 {
        Seq::empty()
    } else {
        seq![(n % 256) as u8] + le_bytes(n / 256, (count - 1) as nat)
    }
}

/// The eight bytes of the number, lowest first.
pub fn u64_le_bytes(n: u64) -> (r: Vec<u8>)
    ensures
        r@ == le_bytes(n as nat, 8),
{
    let mut r: Vec<u8> = Vec::new();
    let mut rest: u64 = n;
    let mut left: usize = 8;
    assert(r@ + le_bytes(rest as nat, 8) =~= le_bytes(n as nat, 8));
    while left > 0
        invariant
            left <= 8,
            r@ + le_bytes(rest as nat, left as nat) == le_bytes(n as nat, 8),
        decreases left,
    {
        let ghost before = r@;
        r.push((rest % 256) as u8);
        assert(before + le_bytes(rest as nat, left as nat) =~= r@ + le_bytes(
            (rest / 256) as nat,
            (left - 1) as nat,
        ));
        rest = rest / 256;
        left = left - 1;
    }
    assert(r@ + le_bytes(rest as nat, 0) =~= r@);
    r
}

/// There are as many bytes as were asked for.
pub proof fn lemma_le_bytes_len(n: nat, count: nat)
    ensures
        le_bytes(n, count).len() == count,
    decreases count,
{
    if count > 0 {
        lemma_le_bytes_len(n / 256, (count - 1) as nat);
    }
}

/// How many values that many bytes can tell apart.
spec fn span(count: nat) -> nat
    decreases count,
{
    if count == 0 {
        1
    } else {
        256 * span((count - 1) as nat)
    }
}

proof fn lemma_le_bytes_injective(a: nat, b: nat, count: nat)
    requires
        le_bytes(a, count) == le_bytes(b, count),
        a < span(count),
        b < span(count),
    ensures
        a == b,
    decreases count,
{
    if count > 0 {
        let la = le_bytes(a, count);
        let lb = le_bytes(b, count);
        assert(la[0] == lb[0]);
        assert(la.drop_first() =~= le_bytes(a / 256, (count - 1) as nat));
        assert(lb.drop_first() =~= le_bytes(b / 256, (count - 1) as nat));
        lemma_le_bytes_injective(a / 256, b / 256, (count - 1) as nat);
    }
}

/// Different numbers have different bytes.
pub proof fn lemma_u64_le_bytes_injective(a: u64, b: u64)
    requires
        le_bytes(a as nat, 8) == le_bytes(b as nat, 8),
    ensures
        a == b,
{
    reveal_with_fuel(span, 9);
    lemma_le_bytes_injective(a as nat, b as nat, 8);
}

/// That all required texts are there means of each single one that it is there, and that one is
/// missing means that not all are there.
pub proof fn all_required_texts_are_present(present: Seq<Seq<char>>, required: Seq<Seq<char>>)
    ensures
        has_all_texts(present, required) <==> forall|text: Seq<char>| #[trigger]
            required.contains(text) ==> present.contains(text),
        forall|text: Seq<char>| #[trigger]
            required.contains(text) && !present.contains(text) ==> !has_all_texts(
                present,
                required,
            ),
{
    if has_all_texts(present, required) {
        assert forall|text: Seq<char>| #[trigger] required.contains(text) implies present.contains(
            text,
        ) by {
            let i = choose|i: int| 0 <= i < required.len() && required[i] == text;
            assert(present.contains(required[i]));
        }
    }
    if forall|text: Seq<char>| #[trigger] required.contains(text) ==> present.contains(text) {
        assert forall|i: int| 0 <= i < required.len() implies present.contains(
            #[trigger] required[i],
        ) by {
            assert(required.contains(required[i]));
        }
    }
}

/// Asking for more texts never finds more, and having more never finds less.
pub proof fn requiring_more_texts_is_stricter(
    present: Seq<Seq<char>>,
    required: Seq<Seq<char>>,
    more: Seq<Seq<char>>,
)
    ensures
        has_all_texts(present, required + more) <==> has_all_texts(present, required)
            && has_all_texts(present, more),
        has_all_texts(present, required) ==> has_all_texts(present + more, required),
        has_all_texts(present, present),
{
    all_required_texts_are_present(present, required);
    all_required_texts_are_present(present, more);
    all_required_texts_are_present(present, required + more);
    all_required_texts_are_present(present + more, required);
    all_required_texts_are_present(present, present);
    assert forall|text: Seq<char>| (required + more).contains(text) <==> required.contains(text)
        || more.contains(text) by {
        lemma_joined_contains(required, more, text);
    }
    assert forall|text: Seq<char>| present.contains(text) implies #[trigger] (present
        + more).contains(text) by {
        lemma_joined_contains(present, more, text);
    }
}

proof fn lemma_joined_contains(a: Seq<Seq<char>>, b: Seq<Seq<char>>, x: Seq<char>)
    ensures
        (a + b).contains(x) <==> a.contains(x) || b.contains(x),
{
    if a.contains(x) {
        let i = choose|i: int| 0 <= i < a.len() && a[i] == x;
        assert((a + b)[i] == x);
    }
    if b.contains(x) {
        let i = choose|i: int| 0 <= i < b.len() && b[i] == x;
        assert((a + b)[a.len() + i] == x);
    }
    if (a + b).contains(x) {
        let i = choose|i: int| 0 <= i < (a + b).len() && (a + b)[i] == x;
        if i < a.len() {
            assert(a[i] == x);
        } else {
            assert(b[i - a.len()] == x);
        }
    }
}

/// Of two byte strings that agree up to an index, the one with the smaller byte there comes first,
/// and so does the one that ends there.
pub proof fn first_difference_decides(a: Seq<u8>, b: Seq<u8>, i: int)
    requires
        0 <= i <= a.len(),
        i <= b.len(),
        forall|j: int| 0 <= j < i ==> a[j] == b[j],
    ensures
        i < a.len() && i < b.len() && a[i] < b[i] ==> lex_less(a, b) && !lex_less(b, a),
        i == a.len() && i < b.len() ==> lex_less(a, b) && !lex_less(b, a),
    decreases i,
{
    if i > 0 {
        let ra = a.drop_first();
        let rb = b.drop_first();
        assert forall|j: int| 0 <= j < i - 1 implies ra[j] == rb[j] by {
            assert(a[j + 1] == b[j + 1]);
        }
        first_difference_decides(ra, rb, i - 1);
        assert(a[0] == b[0]);
    }
}

/// The bytes of a number, lowest first, are its digits to the base of 256.
pub proof fn le_bytes_are_digits(n: nat, count: nat)
    requires
        count > 0,
    ensures
        le_bytes(n, count).len() == count,
        le_bytes(n, count)[0] == n % 256,
        le_bytes(n, count).drop_first() == le_bytes(n / 256, (count - 1) as nat),
{
    lemma_le_bytes_len(n, count);
    assert(le_bytes(n, count).drop_first() =~= le_bytes(n / 256, (count - 1) as nat));
}

} // verus!
