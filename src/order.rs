use vstd::prelude::*;
use vstd::utf8::encode_utf8;

verus! {

/// Byte-wise lexicographic order on encoded text: the order in which the
/// metadata store sorts text columns.
pub open spec fn text_lt(a: Seq<u8>, b: Seq<u8>) -> bool
    decreases a.len(),
{
    if a.len() == 0 {
        b.len() > 0
    } else if b.len() == 0 {
        false
    } else if a[0] != b[0] {
        a[0] < b[0]
    } else {
        text_lt(a.drop_first(), b.drop_first())
    }
}

/// The sort key of a text value: its UTF-8 bytes.
pub open spec fn text_key(s: Seq<char>) -> Seq<u8> {
    encode_utf8(s)
}

/// `a` strictly goes before `b` in an ascending (`desc == false`) or a
/// descending (`desc == true`) order.
pub open spec fn precedes(a: Seq<u8>, b: Seq<u8>, desc: bool) -> bool {
    if desc {
        text_lt(b, a)
    } else {
        text_lt(a, b)
    }
}

pub proof fn lemma_text_lt_asymmetric(a: Seq<u8>, b: Seq<u8>)
    ensures
        !(text_lt(a, b) && text_lt(b, a)),
    decreases a.len(),
{
    if a.len() > 0 && b.len() > 0 && a[0] == b[0] {
        lemma_text_lt_asymmetric(a.drop_first(), b.drop_first());
    }
}

pub proof fn lemma_text_lt_transitive(a: Seq<u8>, b: Seq<u8>, c: Seq<u8>)
    requires
        text_lt(a, b),
        text_lt(b, c),
    ensures
        text_lt(a, c),
    decreases a.len(),
{
    if a.len() > 0 && b.len() > 0 && c.len() > 0 && a[0] == b[0] && b[0] == c[0] {
        lemma_text_lt_transitive(a.drop_first(), b.drop_first(), c.drop_first());
    }
}

pub proof fn lemma_precedes_asymmetric(a: Seq<u8>, b: Seq<u8>, desc: bool)
    ensures
        !(precedes(a, b, desc) && precedes(b, a, desc)),
{
    lemma_text_lt_asymmetric(a, b);
}

pub proof fn lemma_precedes_transitive(a: Seq<u8>, b: Seq<u8>, c: Seq<u8>, desc: bool)
    requires
        precedes(a, b, desc),
        precedes(b, c, desc),
    ensures
        precedes(a, c, desc),
{
    if desc {
        lemma_text_lt_transitive(c, b, a);
    } else {
        lemma_text_lt_transitive(a, b, c);
    }
}

/// Compares two byte strings in lexicographic order.
pub fn bytes_lt(a: &[u8], b: &[u8]) -> (r: bool)
    ensures
        r == text_lt(a@, b@),
{
    let mut i: usize = 0;
    assert(a@.skip(0) =~= a@);
    assert(b@.skip(0) =~= b@);
    while i < a.len() && i < b.len() && a[i] == b[i]
        invariant
            i <= a@.len(),
            i <= b@.len(),
            text_lt(a@, b@) == text_lt(a@.skip(i as int), b@.skip(i as int)),
        decreases a@.len() - i,
    {
        assert(a@.skip(i as int).drop_first() =~= a@.skip(i + 1));
        assert(b@.skip(i as int).drop_first() =~= b@.skip(i + 1));
        i = i + 1;
    }
    if i == a.len() {
        i < b.len()
    } else if i == b.len() {
        false
    } else {
        a[i] < b[i]
    }
}

/// Compares two strings by the order of their UTF-8 bytes.
pub fn text_less(a: &str, b: &str) -> (r: bool)
    ensures
        r == text_lt(text_key(a@), text_key(b@)),
{
    bytes_lt(a.as_bytes(), b.as_bytes())
}

} // verus!
