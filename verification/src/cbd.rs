//! Sampling from the centered binomial distribution with parameter 3.
use vstd::prelude::*;
use crate::poly::Poly;

verus! {

/// Number of bytes that one ring element is sampled from.
pub const NOISE_BYTES: usize = 192;

/// Bit `n` of a byte string, the least significant bit of each byte first.
pub open spec fn stream_bit(buf: Seq<u8>, n: int) -> int {
    ((buf[n / 8] >> ((n % 8) as u8)) & 1u8) as int
}

/// Coefficient `c` of the sample: the number of ones among three bits of
/// the string minus the number of ones among the next three.
pub open spec fn cbd3_coeff(buf: Seq<u8>, c: int) -> int {
    stream_bit(buf, 6 * c) + stream_bit(buf, 6 * c + 1) + stream_bit(buf, 6 * c + 2) - stream_bit(
        buf,
        6 * c + 3,
    ) - stream_bit(buf, 6 * c + 4) - stream_bit(buf, 6 * c + 5)
}

/// The ring element sampled from `buf`.
pub open spec fn cbd3_spec(buf: Seq<u8>) -> Seq<i16> {
    Seq::new(256, |c: int| cbd3_coeff(buf, c) as i16)
}

/// The 24-bit little-endian word made of three bytes.
pub open spec fn word24(b0: u8, b1: u8, b2: u8) -> u32 {
    (b0 as u32) | ((b1 as u32) << 8u32) | ((b2 as u32) << 16u32)
}

/// The sum of each bit of `t` with its two upper neighbours, kept at every
/// third position: field `s / 3` holds the weight of bits `s` to `s + 2`.
pub open spec fn weights(t: u32) -> u32 {
    ((t & 0x249249u32) + ((t >> 1u32) & 0x249249u32) + ((t >> 2u32) & 0x249249u32)) as u32
}

proof fn lemma_word_bits(b0: u8, b1: u8, b2: u8)
    by (bit_vector)
    ensures
        word24(b0, b1, b2) < 0x100_0000u32,
        (weights(word24(b0, b1, b2)) >> 0u32) & 7u32 == ((b0 >> 0u8) & 1u8) + ((b0 >> 1u8) & 1u8)
            + ((b0 >> 2u8) & 1u8),
        (weights(word24(b0, b1, b2)) >> 3u32) & 7u32 == ((b0 >> 3u8) & 1u8) + ((b0 >> 4u8) & 1u8)
            + ((b0 >> 5u8) & 1u8),
        (weights(word24(b0, b1, b2)) >> 6u32) & 7u32 == ((b0 >> 6u8) & 1u8) + ((b0 >> 7u8) & 1u8)
            + ((b1 >> 0u8) & 1u8),
        (weights(word24(b0, b1, b2)) >> 9u32) & 7u32 == ((b1 >> 1u8) & 1u8) + ((b1 >> 2u8) & 1u8)
            + ((b1 >> 3u8) & 1u8),
        (weights(word24(b0, b1, b2)) >> 12u32) & 7u32 == ((b1 >> 4u8) & 1u8) + ((b1 >> 5u8) & 1u8)
            + ((b1 >> 6u8) & 1u8),
        (weights(word24(b0, b1, b2)) >> 15u32) & 7u32 == ((b1 >> 7u8) & 1u8) + ((b2 >> 0u8) & 1u8)
            + ((b2 >> 1u8) & 1u8),
        (weights(word24(b0, b1, b2)) >> 18u32) & 7u32 == ((b2 >> 2u8) & 1u8) + ((b2 >> 3u8) & 1u8)
            + ((b2 >> 4u8) & 1u8),
        (weights(word24(b0, b1, b2)) >> 21u32) & 7u32 == ((b2 >> 5u8) & 1u8) + ((b2 >> 6u8) & 1u8)
            + ((b2 >> 7u8) & 1u8),
{
}

proof fn lemma_bit_range(x: u8, k: u8)
    by (bit_vector)
    ensures
        (x >> k) & 1u8 <= 1u8,
{
}

/// Every coefficient of a sample lies between -3 and 3.
pub proof fn lemma_cbd3_coeff_range(buf: Seq<u8>, c: int)
    ensures
        -3 <= cbd3_coeff(buf, c) <= 3,
{
    assert forall|x: u8, k: u8| (#[trigger] (x >> k)) & 1u8 <= 1u8 by {
        lemma_bit_range(x, k);
    }
}

proof fn lemma_weights_no_overflow(t: u32)
    by (bit_vector)
    ensures
        (t & 0x249249u32) + ((t >> 1u32) & 0x249249u32) + ((t >> 2u32) & 0x249249u32)
            <= 0xffff_ffffu32,
        (t & 0x249249u32) + ((t >> 1u32) & 0x249249u32) <= 0xffff_ffffu32,
{
}

/// Reads three bytes at `at` as a little-endian 24-bit word.
fn load24_littleendian(x: &[u8; NOISE_BYTES], at: usize) -> (t: u32)
    requires
        at + 3 <= 192,
    ensures
        t == word24(x@[at as int], x@[at + 1], x@[at + 2]),
{
    let mut t: u32 = x[at] as u32;
    t |= (x[at + 1] as u32) << 8;
    t |= (x[at + 2] as u32) << 16;
    t
}

/// Samples a ring element from 192 bytes: coefficient `c` is the number of
/// ones among bits `6c` to `6c + 2` of `buf` minus the number of ones among
/// bits `6c + 3` to `6c + 5`.
pub fn cbd3(r: &mut Poly, buf: &[u8; NOISE_BYTES])
    ensures
        final(r)@ == cbd3_spec(buf@),
        forall|c: int| 0 <= c < 256 ==> -3 <= #[trigger] final(r)@[c] <= 3,
{
    let mut i: usize = 0;
    while i < 64
        invariant
            i <= 64,
            forall|c: int| 0 <= c < 4 * i ==> r@[c] == cbd3_coeff(buf@, c),
        decreases 64 - i,
    {
        let t: u32 = load24_littleendian(buf, 3 * i);
        proof {
            lemma_weights_no_overflow(t);
        }
        let mut d: u32 = t & 0x0024_9249;
        d += (t >> 1) & 0x0024_9249;
        d += (t >> 2) & 0x0024_9249;
        let mut j: usize = 0;
        while j < 4
            invariant
                j <= 4,
                i < 64,
                d == weights(word24(buf@[3 * i], buf@[3 * i + 1], buf@[3 * i + 2])),
                forall|c: int| 0 <= c < 4 * i + j ==> r@[c] == cbd3_coeff(buf@, c),
            decreases 4 - j,
        {
            let a: i16 = ((d >> (6 * j)) & 0x7) as i16;
            let b: i16 = ((d >> (6 * j + 3)) & 0x7) as i16;
            proof {
                let b0 = buf@[3 * i];
                let b1 = buf@[3 * i + 1];
                let b2 = buf@[3 * i + 2];
                lemma_word_bits(b0, b1, b2);
                assert forall|x: u8, k: u8| (#[trigger] (x >> k)) & 1u8 <= 1u8 by {
                    lemma_bit_range(x, k);
                }
                assert(a - b == cbd3_coeff(buf@, 4 * i + j));
            }
            r.coeffs[4 * i + j] = a - b;
            j += 1;
        }
        i += 1;
    }
    assert forall|c: int| 0 <= c < 256 implies -3 <= #[trigger] r@[c] <= 3 by {
        lemma_cbd3_coeff_range(buf@, c);
    }
    assert(r@ =~= cbd3_spec(buf@));
}

/// The noise polynomial for the 192 bytes that the pseudorandom function
/// gave for a seed and a nonce.
pub fn poly_getnoise_eta1(buf: &[u8; NOISE_BYTES]) -> (r: Poly)
    ensures
        r@ == cbd3_spec(buf@),
        forall|c: int| 0 <= c < 256 ==> -3 <= #[trigger] r@[c] <= 3,
{
    let mut r = Poly::new();
    cbd3(&mut r, buf);
    r
}

} // verus!
