//! The order `String`'s `Ord` puts strings in: byte by byte over their UTF-8 encodings, a
//! proper prefix first.

use vstd::prelude::*;
use vstd::utf8::*;

verus! {

/// Whether byte string `a` sorts strictly before `b`.
pub open spec fn bytes_before(a: Seq<u8>, b: Seq<u8>) -> bool
    decreases a.len(),
{
    if a.len() == 0 {
        b.len() > 0
    } else if b.len() == 0 {
        false
    } else if a[0] != b[0] {
        a[0] < b[0]
    } else {
        bytes_before(a.drop_first(), b.drop_first())
    }
}

/// Whether string `a` sorts strictly before `b`, as `String`'s `Ord` compares them.
pub open spec fn key_before(a: Seq<char>, b: Seq<char>) -> bool {
    bytes_before(encode_utf8(a), encode_utf8(b))
}

pub proof fn lemma_bytes_irreflexive(a: Seq<u8>)
    ensures
        !bytes_before(a, a),
    decreases a.len(),
{
    if a.len() > 0 {
        lemma_bytes_irreflexive(a.drop_first());
    }
}

pub proof fn lemma_bytes_transitive(a: Seq<u8>, b: Seq<u8>, c: Seq<u8>)
    requires
        bytes_before(a, b),
        bytes_before(b, c),
    ensures
        bytes_before(a, c),
    decreases a.len(),
{
    if a.len() > 0 && b.len() > 0 && c.len() > 0 && a[0] == b[0] && b[0] == c[0] {
        lemma_bytes_transitive(a.drop_first(), b.drop_first(), c.drop_first());
    }
}

pub proof fn lemma_bytes_total(a: Seq<u8>, b: Seq<u8>)
    requires
        a != b,
    ensures
        bytes_before(a, b) || bytes_before(b, a),
    decreases a.len(),
{
    if a.len() > 0 && b.len() > 0 && a[0] == b[0] {
        if a.drop_first() == b.drop_first() {
            assert(a =~= seq![a[0]] + a.drop_first());
            assert(b =~= seq![b[0]] + b.drop_first());
        }
        lemma_bytes_total(a.drop_first(), b.drop_first());
    } else if a.len() == 0 && b.len() == 0 {
        assert(a =~= b);
    }
}

pub proof fn lemma_bytes_asymmetric(a: Seq<u8>, b: Seq<u8>)
    requires
        bytes_before(a, b),
    ensures
        !bytes_before(b, a),
{
    if bytes_before(b, a) {
        lemma_bytes_transitive(a, b, a);
        lemma_bytes_irreflexive(a);
    }
}

/// Two strings are equal exactly when their UTF-8 encodings are.
pub proof fn lemma_encode_injective(a: Seq<char>, b: Seq<char>)
    ensures
        (encode_utf8(a) == encode_utf8(b)) == (a == b),
{
    encode_utf8_decode_utf8(a);
    encode_utf8_decode_utf8(b);
}

pub proof fn lemma_key_irreflexive(a: Seq<char>)
    ensures
        !key_before(a, a),
{
    lemma_bytes_irreflexive(encode_utf8(a));
}

pub proof fn lemma_key_transitive(a: Seq<char>, b: Seq<char>, c: Seq<char>)
    requires
        key_before(a, b),
        key_before(b, c),
    ensures
        key_before(a, c),
{
    lemma_bytes_transitive(encode_utf8(a), encode_utf8(b), encode_utf8(c));
}

pub proof fn lemma_key_total(a: Seq<char>, b: Seq<char>)
    requires
        a != b,
    ensures
        key_before(a, b) || key_before(b, a),
{
    lemma_encode_injective(a, b);
    lemma_bytes_total(encode_utf8(a), encode_utf8(b));
}

pub proof fn lemma_key_asymmetric(a: Seq<char>, b: Seq<char>)
    requires
        key_before(a, b),
    ensures
        !key_before(b, a),
{
    lemma_bytes_asymmetric(encode_utf8(a), encode_utf8(b));
}

/// Compares two byte strings: negative when `a` sorts first, zero when they are equal, positive
/// when `b` does.
pub fn compare_bytes(a: &[u8], b: &[u8]) -> (r: i8)
    ensures
        (r < 0) == bytes_before(a@, b@),
        (r == 0) == (a@ == b@),
        (r > 0) == bytes_before(b@, a@),
{
    let mut i: usize = 0;
    assert(a@.skip(0) =~= a@);
    assert(b@.skip(0) =~= b@);
    while i < a.len() && i < b.len() && a[i] == b[i]
        invariant
            i <= a@.len(),
            i <= b@.len(),
            a@.take(i as int) == b@.take(i as int),
            bytes_before(a@, b@) == bytes_before(a@.skip(i as int), b@.skip(i as int)),
            bytes_before(b@, a@) == bytes_before(b@.skip(i as int), a@.skip(i as int)),
        decreases a@.len() - i,
    {
        assert(a@.skip(i as int).drop_first() =~= a@.skip(i + 1));
        assert(b@.skip(i as int).drop_first() =~= b@.skip(i + 1));
        assert(a@.take(i + 1) =~= a@.take(i as int).push(a@[i as int]));
        assert(b@.take(i + 1) =~= b@.take(i as int).push(b@[i as int]));
        i = i + 1;
    }
    let ghost sa = a@.skip(i as int);
    let ghost sb = b@.skip(i as int);
    if i < a.len() && i < b.len() {
        proof {
            assert(sa[0] == a@[i as int]);
            assert(sb[0] == b@[i as int]);
            if a@ == b@ {
                assert(a@[i as int] == b@[i as int]);
            }
        }
        if a[i] < b[i] {
            -1
        } else {
            1
        }
    } else if i < a.len() {
        proof {
            assert(sb.len() == 0);
            assert(a@.len() != b@.len());
        }
        1
    } else if i < b.len() {
        proof {
            assert(sa.len() == 0);
            assert(a@.len() != b@.len());
        }
        -1
    } else {
        proof {
            assert(a@ =~= a@.take(i as int));
            assert(b@ =~= b@.take(i as int));
            lemma_bytes_irreflexive(a@);
        }
        0
    }
}

/// Compares two strings as `String`'s `Ord` does.
pub fn compare_keys(a: &str, b: &str) -> (r: i8)
    ensures
        (r < 0) == key_before(a@, b@),
        (r == 0) == (a@ == b@),
        (r > 0) == key_before(b@, a@),
{
    proof {
        lemma_encode_injective(a@, b@);
    }
    compare_bytes(a.as_bytes(), b.as_bytes())
}

} // verus!
