//! Cache-key derivation.
//!
//! A cache key is the lowercase hexadecimal encoding of the origin URL's
//! bytes: two hex digits per byte, in order. The encoding is a pure function
//! of the URL, stable across processes and restarts, safe as a path segment,
//! and injective, so two distinct origin URLs can never collide on a key.

use vstd::prelude::*;

verus! {

/// The ASCII byte of the hex digit for `d`, for `d < 16`:
/// `'0'..'9'` then `'a'..'f'`.
pub open spec fn hex_digit(d: u8) -> u8 {
    if d < 10 {
        (0x30 + d) as u8
    } else {
        (0x57 + d) as u8
    }
}

/// The cache key of an origin URL: two hex digits per URL byte, in order.
pub open spec fn key_of(url: Seq<u8>) -> Seq<u8>
    decreases url.len(),
{
    if url.len() == 0 {
        Seq::empty()
    } else {
        seq![hex_digit(url[0] / 16), hex_digit(url[0] % 16)] + key_of(url.drop_first())
    }
}

/// A key is twice as long as the URL it was derived from.
pub proof fn lemma_key_of_len(url: Seq<u8>)
    ensures
        key_of(url).len() == 2 * url.len(),
    decreases url.len(),
{
    if url.len() > 0 {
        lemma_key_of_len(url.drop_first());
    }
}

/// Extending the URL by one byte appends that byte's two hex digits to the key.
pub proof fn lemma_key_of_push(url: Seq<u8>, b: u8)
    ensures
        key_of(url.push(b)) == key_of(url) + seq![hex_digit(b / 16), hex_digit(b % 16)],
    decreases url.len(),
{
    assert(url.push(b)[0] == if url.len() == 0 { b } else { url[0] });
    if url.len() == 0 {
        assert(url.push(b).drop_first() =~= Seq::<u8>::empty());
        assert(key_of(Seq::<u8>::empty()) =~= Seq::<u8>::empty());
        assert(key_of(url) =~= Seq::<u8>::empty());
        assert(key_of(url.push(b)) =~= key_of(url) + seq![hex_digit(b / 16), hex_digit(b % 16)]);
    } else {
        lemma_key_of_push(url.drop_first(), b);
        assert(url.push(b).drop_first() =~= url.drop_first().push(b));
        assert(key_of(url.push(b)) =~= key_of(url) + seq![hex_digit(b / 16), hex_digit(b % 16)]);
    }
}

/// Hex digits are distinct: equal digits come from equal values.
proof fn lemma_hex_digit_injective(a: u8, b: u8)
    requires
        a < 16,
        b < 16,
        hex_digit(a) == hex_digit(b),
    ensures
        a == b,
{
}

/// Key derivation never collides: two URLs with the same key are the same URL.
/// Together with `derive_key`'s exact postcondition this is the whole
/// derivation contract: same URL, same key, always; distinct URLs, distinct
/// keys, always.
pub proof fn lemma_key_of_injective(u1: Seq<u8>, u2: Seq<u8>)
    requires
        key_of(u1) == key_of(u2),
    ensures
        u1 == u2,
    decreases u1.len(),
{
    lemma_key_of_len(u1);
    lemma_key_of_len(u2);
    if u1.len() == 0 {
        assert(u1 =~= u2);
    } else {
        let k1 = key_of(u1);
        let k2 = key_of(u2);
        assert(k1[0] == hex_digit(u1[0] / 16) && k1[1] == hex_digit(u1[0] % 16));
        assert(k2[0] == hex_digit(u2[0] / 16) && k2[1] == hex_digit(u2[0] % 16));
        lemma_hex_digit_injective(u1[0] / 16, u2[0] / 16);
        lemma_hex_digit_injective(u1[0] % 16, u2[0] % 16);
        assert(u1[0] == u2[0]);
        lemma_key_of_len(u1.drop_first());
        lemma_key_of_len(u2.drop_first());
        assert(key_of(u1.drop_first()) =~= key_of(u2.drop_first())) by {
            assert(forall|i: int|
                0 <= i < key_of(u1.drop_first()).len() ==> key_of(u1.drop_first())[i] == k1[i + 2]
                    && key_of(u2.drop_first())[i] == k2[i + 2]);
        }
        lemma_key_of_injective(u1.drop_first(), u2.drop_first());
        assert forall|i: int| 0 <= i < u1.len() implies u1[i] == u2[i] by {
            if i > 0 {
                assert(u1[i] == u1.drop_first()[i - 1]);
                assert(u2[i] == u2.drop_first()[i - 1]);
            }
        }
        assert(u1 =~= u2);
    }
}

/// Derives the cache key of an origin URL.
pub fn derive_key(url: &Vec<u8>) -> (key: Vec<u8>)
    ensures
        key@ == key_of(url@),
{
    let mut key: Vec<u8> = Vec::new();
    let mut i: usize = 0;
    proof {
        assert(url@.take(0) =~= Seq::<u8>::empty());
    }
    while i < url.len()
        invariant
            i <= url.len(),
            key@ == key_of(url@.take(i as int)),
        decreases url.len() - i,
    {
        let b = url[i];
        key.push(hex_digit_exec(b / 16));
        key.push(hex_digit_exec(b % 16));
        proof {
            lemma_key_of_push(url@.take(i as int), b);
            assert(url@.take(i + 1) =~= url@.take(i as int).push(url@[i as int]));
            assert(key@ =~= key_of(url@.take(i + 1)));
        }
        i = i + 1;
    }
    proof {
        assert(url@.take(url@.len() as int) =~= url@);
    }
    key
}

/// The hex digit of a nibble, as executable code.
fn hex_digit_exec(d: u8) -> (r: u8)
    requires
        d < 16,
    ensures
        r == hex_digit(d),
{
    if d < 10 {
        0x30 + d
    } else {
        0x57 + d
    }
}

} // verus!
