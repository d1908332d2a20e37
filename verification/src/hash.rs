//! Perceptual hashes of rendered pages: how far two of them are apart and
//! how they are shown.

use vstd::prelude::*;

verus! {

/// The number of one bits in the binary form of `x`.
pub open spec fn ones(x: nat) -> nat
    decreases x,
{
    if x == 0 {
        0
    } else {
        x % 2 + ones(x / 2)
    }
}

/// The number of bits in which the first `n` bytes of `a` and `b` differ.
pub open spec fn differing_bits(a: Seq<u8>, b: Seq<u8>, n: int) -> nat
    decreases n,
{
    if n <= 0 {
        0
    } else {
        differing_bits(a, b, n - 1) + ones((a[n - 1] ^ b[n - 1]) as nat)
    }
}

/// The Hamming distance of two hashes: the number of bits in which they
/// differ, byte by byte, as far as the shorter one reaches.
pub open spec fn hamming(a: Seq<u8>, b: Seq<u8>) -> nat {
    differing_bits(
        a,
        b,
        if a.len() <= b.len() {
            a.len() as int
        } else {
            b.len() as int
        },
    )
}

/// How `image_hasher` shows a hash: its bytes in base 64.
pub uninterp spec fn hash_display(hash: Seq<u8>) -> Seq<char>;

/// `image_hasher::ImageHash::to_base64` on the hash with the given bytes:
/// the text that shows the hash. It depends on the bytes alone.
#[verifier::external_body]
pub(crate) fn hash_text(hash: &[u8; 8]) -> (text: String)
    ensures
        text@ == hash_display(hash@),
{
    image_hasher::ImageHash::<Box<[u8]>>::from_bytes(hash).unwrap().to_base64()
}

/// The number of one bits of a byte.
pub fn count_ones(x: u8) -> (n: u32)
    ensures
        n == ones(x as nat),
        n <= 255,
{
    let mut n: u32 = 0;
    let mut rest: u8 = x;
    while rest > 0
        invariant
            n + ones(rest as nat) == ones(x as nat),
            n + rest <= 255,
        decreases rest,
    {
        if rest % 2 == 1 {
            n += 1;
        }
        rest = rest / 2;
    }
    n
}

/// The Hamming distance of two hashes of eight bytes.
pub fn distance(a: &[u8; 8], b: &[u8; 8]) -> (d: u32)
    ensures
        d == hamming(a@, b@),
{
    let mut d: u32 = 0;
    let mut i: usize = 0;
    while i < 8
        invariant
            i <= 8,
            d == differing_bits(a@, b@, i as int),
            d <= 255 * i,
        decreases 8 - i,
    {
        let c = count_ones(a[i] ^ b[i]);
        d += c;
        i += 1;
    }
    d
}

proof fn lemma_ones_zero(x: nat)
    ensures
        ones(x) == 0 <==> x == 0,
    decreases x,
{
    if x > 0 {
        lemma_ones_zero(x / 2);
    }
}

proof fn lemma_differing_bits_zero(a: Seq<u8>, b: Seq<u8>, n: int)
    requires
        0 <= n <= a.len(),
        n <= b.len(),
    ensures
        differing_bits(a, b, n) == 0 <==> a.take(n) == b.take(n),
    decreases n,
{
    if n > 0 {
        lemma_differing_bits_zero(a, b, n - 1);
        let x = a[n - 1];
        let y = b[n - 1];
        assert((x ^ y == 0) <==> x == y) by (bit_vector);
        lemma_ones_zero((x ^ y) as nat);
        assert(a.take(n).drop_last() == a.take(n - 1));
        assert(b.take(n).drop_last() == b.take(n - 1));
        assert(a.take(n).last() == x);
        if a.take(n - 1) == b.take(n - 1) && x == y {
            assert(a.take(n) =~= a.take(n - 1).push(x));
            assert(b.take(n) =~= b.take(n - 1).push(y));
        }
    } else {
        assert(a.take(0) =~= b.take(0));
    }
}

/// Two hashes of the same length are at distance zero exactly when they
/// are equal.
pub proof fn lemma_distance_zero_iff_equal(a: Seq<u8>, b: Seq<u8>)
    requires
        a.len() == b.len(),
    ensures
        hamming(a, b) == 0 <==> a == b,
{
    lemma_differing_bits_zero(a, b, a.len() as int);
    assert(a.take(a.len() as int) == a);
    assert(b.take(b.len() as int) == b);
}

} // verus!
