//! The forward and inverse number-theoretic transforms.
use vstd::prelude::*;
use crate::poly::Poly;
use crate::reduce::{
    barrett_reduce, barrett_reduce_spec, center16, fqmul, fqmul_spec, lemma_montgomery_reduce,
};
use crate::twiddle::{assume_init_are_valid_twiddles_impl, zeta};

verus! {

/// Lower output of a forward butterfly: `a + z * b`, in 16-bit arithmetic.
pub open spec fn butterfly_lo(a: i16, b: i16, z: int) -> i16 {
    center16(a + fqmul_spec(z, b as int)) as i16
}

/// Upper output of a forward butterfly: `a - z * b`, in 16-bit arithmetic.
pub open spec fn butterfly_hi(a: i16, b: i16, z: int) -> i16 {
    center16(a - fqmul_spec(z, b as int)) as i16
}

/// One forward layer of butterflies of width `len`: the 256 coefficients
/// fall into blocks of `2 * len`, block `b` uses twiddle `128 / len + b`,
/// and coefficient `i` of its lower half is paired with `i + len`.
pub open spec fn ntt_layer(r: Seq<i16>, len: int) -> Seq<i16> {
    Seq::new(
        256,
        |i: int|
            {
                let z = zeta(128int / len + i / (2 * len));
                if i % (2 * len) < len {
                    butterfly_lo(r[i], r[i + len], z)
                } else {
                    butterfly_hi(r[i - len], r[i], z)
                }
            },
    )
}

/// The butterfly width of forward layer `level`, for levels 1 to 7.
pub open spec fn layer_width(level: int) -> int {
    if level == 1 {
        128
    } else if level == 2 {
        64
    } else if level == 3 {
        32
    } else if level == 4 {
        16
    } else if level == 5 {
        8
    } else if level == 6 {
        4
    } else {
        2
    }
}

/// The index of the first twiddle that forward layer `level` uses.
pub open spec fn layer_base(level: int) -> int {
    if level == 1 {
        1
    } else if level == 2 {
        2
    } else if level == 3 {
        4
    } else if level == 4 {
        8
    } else if level == 5 {
        16
    } else if level == 6 {
        32
    } else {
        64
    }
}

/// The first `levels` layers of the forward transform.
pub open spec fn ntt_layers(r: Seq<i16>, levels: nat) -> Seq<i16>
    decreases levels,
{
    if levels == 0 {
        r
    } else {
        ntt_layer(ntt_layers(r, (levels - 1) as nat), layer_width(levels as int))
    }
}

/// The forward transform: seven layers, of widths 128 down to 2.
pub open spec fn ntt_spec(r: Seq<i16>) -> Seq<i16> {
    ntt_layers(r, 7)
}

/// Where a layer stands after the butterflies at `j` and below, and their
/// partners, are done: `inp` is the layer's input.
spec fn ntt_layer_partial(inp: Seq<i16>, len: int, start: int, j: int) -> Seq<i16> {
    Seq::new(
        256,
        |i: int|
            if i < j || (start + len <= i < j + len) {
                ntt_layer(inp, len)[i]
            } else {
                inp[i]
            },
    )
}

pub(crate) proof fn lemma_block_index(len: int, b: int, i: int)
    requires
        len > 0,
        b * (2 * len) <= i < b * (2 * len) + 2 * len,
    ensures
        i / (2 * len) == b,
        i % (2 * len) == i - b * (2 * len),
{
    vstd::arithmetic::div_mod::lemma_fundamental_div_mod_converse(
        i,
        2 * len,
        b,
        i - b * (2 * len),
    );
}

pub(crate) proof fn lemma_layer_base(level: int)
    requires
        1 <= level <= 7,
    ensures
        layer_base(level) * layer_width(level) == 128,
        128int / layer_width(level) == layer_base(level),
{
    let w = layer_width(level);
    let k = layer_base(level);
    assert(k * w == 128 && 128int / w == k) by (nonlinear_arith)
        requires
            (w == 128 && k == 1) || (w == 64 && k == 2) || (w == 32 && k == 4) || (w == 16 && k
                == 8) || (w == 8 && k == 16) || (w == 4 && k == 32) || (w == 2 && k == 64),
    ;
}

pub(crate) proof fn lemma_layer_blocks(level: int, b: int)
    requires
        1 <= level <= 7,
        b * (2 * layer_width(level)) == 256,
    ensures
        b == layer_base(level),
{
    let w = layer_width(level);
    let k = layer_base(level);
    assert(b == k) by (nonlinear_arith)
        requires
            b * (2 * w) == 256,
            (w == 128 && k == 1) || (w == 64 && k == 2) || (w == 32 && k == 4) || (w == 16 && k
                == 8) || (w == 8 && k == 16) || (w == 4 && k == 32) || (w == 2 && k == 64),
    ;
}

pub(crate) proof fn lemma_block_bound(level: int, b: int)
    requires
        1 <= level <= 7,
        0 <= b,
        b * (2 * layer_width(level)) < 256,
    ensures
        b < layer_base(level),
        b * (2 * layer_width(level)) + 2 * layer_width(level) <= 256,
{
    let w = layer_width(level);
    let k = layer_base(level);
    assert(b < k && b * (2 * w) + 2 * w <= 256) by (nonlinear_arith)
        requires
            0 <= b,
            b * (2 * w) < 256,
            (w == 128 && k == 1) || (w == 64 && k == 2) || (w == 32 && k == 4) || (w == 16 && k
                == 8) || (w == 8 && k == 16) || (w == 4 && k == 32) || (w == 2 && k == 64),
    ;
}

proof fn lemma_wrapping16(a: i16, b: i16)
    ensures
        a.wrapping_add(b) == center16(a + b) as i16,
        a.wrapping_sub(b) == center16(a - b) as i16,
{
}

/// The forward transform, in place: seven layers of butterflies, of widths
/// 128 down to 2, with no reduction in between. Additions and subtractions
/// wrap in 16 bits; for coefficients below `Q` in absolute value nothing
/// wraps and the result stays below `8 * Q`.
///
/// The transform is not idempotent, and nothing in a ring element tells
/// whether it has been transformed: a second call on a transformed element
/// gives coefficients without meaning in either domain.
pub fn ntt(r: &mut Poly)
    ensures
        final(r)@ == ntt_spec(old(r)@),
{
    let zetas: [i16; 128] = assume_init_are_valid_twiddles_impl();
    let mut k: usize = 1;
    let mut len: usize = 128;
    let ghost mut level: nat = 0;
    assert(r@ =~= ntt_layers(old(r)@, 0));
    while len >= 2
        invariant
            0 <= level <= 7,
            level < 7 ==> len == layer_width(level as int + 1),
            level < 7 ==> k == layer_base(level as int + 1),
            level == 7 ==> len == 1,
            r@ == ntt_layers(old(r)@, level),
            forall|i: int| 0 <= i < 128 ==> #[trigger] zetas[i] == zeta(i),
        decreases len,
    {
        let ghost inp = r@;
        let ghost base: int = k as int;
        let ghost mut b: int = 0;
        let mut start: usize = 0;
        assert(0 == 0 * (2 * len)) by (nonlinear_arith);
        assert(r@ =~= ntt_layer_partial(inp, len as int, 0, 0));
        proof {
            lemma_layer_base(level as int + 1);
        }
        while start < 256
            invariant
                2 <= len <= 128,
                base * len == 128,
                128int / (len as int) == base,
                0 <= b,
                start == b * (2 * len),
                start <= 256,
                k == base + b,
                inp.len() == 256,
                r@ == ntt_layer_partial(inp, len as int, start as int, start as int),
                forall|i: int| 0 <= i < 128 ==> #[trigger] zetas[i] == zeta(i),
            decreases 256 - start,
        {
            assert(start + 2 * len <= 256 && k < 128) by (nonlinear_arith)
                requires
                    base * len == 128,
                    start == b * (2 * len),
                    start < 256,
                    0 <= b,
                    k == base + b,
                    2 <= len <= 128,
            ;
            let z: i16 = zetas[k];
            k += 1;
            let mut j: usize = start;
            while j < start + len
                invariant
                    2 <= len <= 128,
                    start == b * (2 * len),
                    start + 2 * len <= 256,
                    start <= j <= start + len,
                    z == zeta(128int / (len as int) + b),
                    r@ == ntt_layer_partial(inp, len as int, start as int, j as int),
                    inp.len() == 256,
                decreases start + len - j,
            {
                let ghost before = r@;
                let t: i16 = fqmul(z, r.coeffs[j + len]);
                r.coeffs[j + len] = r.coeffs[j].wrapping_sub(t);
                r.coeffs[j] = r.coeffs[j].wrapping_add(t);
                proof {
                    lemma_block_index(len as int, b, j as int);
                    lemma_block_index(len as int, b, j + len);
                    lemma_wrapping16(before[j as int], t);
                    assert(r@ =~= ntt_layer_partial(inp, len as int, start as int, j + 1));
                }
                j += 1;
            }
            proof {
                assert((b + 1) * (2 * len) == b * (2 * len) + 2 * len) by (nonlinear_arith);
                b = b + 1;
                assert(r@ =~= ntt_layer_partial(inp, len as int, start + 2 * len, start + 2 * len));
            }
            start = j + len;
        }
        proof {
            lemma_layer_blocks(level as int + 1, b);
            assert(r@ =~= ntt_layer(inp, len as int));
            level = level + 1;
            assert(len >> 1 == len / 2) by (bit_vector);
        }
        len >>= 1;
    }
    assert(level == 7);
}

/// Lower output of an inverse butterfly: `a + b`, Barrett-reduced.
pub open spec fn inv_butterfly_lo(a: i16, b: i16) -> i16 {
    barrett_reduce_spec(center16(a + b)) as i16
}

/// Upper output of an inverse butterfly: `z * (b - a)`.
pub open spec fn inv_butterfly_hi(a: i16, b: i16, z: int) -> i16 {
    fqmul_spec(z, center16(b - a)) as i16
}

/// One inverse layer of butterflies of width `len`: block `b` of `2 * len`
/// coefficients uses twiddle `256 / len - 1 - b`.
pub open spec fn invntt_layer(r: Seq<i16>, len: int) -> Seq<i16> {
    Seq::new(
        256,
        |i: int|
            {
                let z = zeta(256int / len - 1 - i / (2 * len));
                if i % (2 * len) < len {
                    inv_butterfly_lo(r[i], r[i + len])
                } else {
                    inv_butterfly_hi(r[i - len], r[i], z)
                }
            },
    )
}

/// The first `levels` layers of the inverse transform: their widths are
/// those of the forward layers, in the opposite order.
pub open spec fn invntt_layers(r: Seq<i16>, levels: nat) -> Seq<i16>
    decreases levels,
{
    if levels == 0 {
        r
    } else {
        invntt_layer(invntt_layers(r, (levels - 1) as nat), layer_width(8 - levels))
    }
}

/// The factor `2^32 / 128` modulo `Q` by which the inverse transform scales.
pub const F: i16 = 1441;

/// Every coefficient multiplied by `F` and Montgomery-reduced.
pub open spec fn scale_spec(r: Seq<i16>) -> Seq<i16> {
    Seq::new(256, |i: int| fqmul_spec(r[i] as int, 1441) as i16)
}

/// The inverse transform: seven layers, of widths 2 up to 128, then the
/// scaling by `F`.
pub open spec fn invntt_spec(r: Seq<i16>) -> Seq<i16> {
    scale_spec(invntt_layers(r, 7))
}

spec fn invntt_layer_partial(inp: Seq<i16>, len: int, start: int, j: int) -> Seq<i16> {
    Seq::new(
        256,
        |i: int|
            if i < j || (start + len <= i < j + len) {
                invntt_layer(inp, len)[i]
            } else {
                inp[i]
            },
    )
}

pub(crate) proof fn lemma_inv_layer_base(level: int)
    requires
        1 <= level <= 7,
    ensures
        256int / layer_width(level) == 2 * layer_base(level),
{
    let w = layer_width(level);
    let k = layer_base(level);
    assert(256int / w == 2 * k) by (nonlinear_arith)
        requires
            (w == 128 && k == 1) || (w == 64 && k == 2) || (w == 32 && k == 4) || (w == 16 && k
                == 8) || (w == 8 && k == 16) || (w == 4 && k == 32) || (w == 2 && k == 64),
    ;
}

/// Every coefficient of an inverse transform is below `Q` in absolute
/// value, whatever went in.
pub proof fn lemma_invntt_bound(r: Seq<i16>, i: int)
    requires
        0 <= i < 256,
    ensures
        -3329 < invntt_spec(r)[i] < 3329,
{
    let g = invntt_layers(r, 7)[i];
    assert(-0x8000 * 1441 <= g * 1441 <= 0x8000 * 1441);
    lemma_montgomery_reduce(g * 1441);
}

/// The inverse transform, in place: seven layers of butterflies, the sums
/// Barrett-reduced, then every coefficient multiplied by `F`. The result is
/// in Montgomery form: after the forward transform it holds the
/// coefficients that went into that, times 2^16 modulo `Q`. Every coefficient of the result is
/// below `Q` in absolute value.
pub fn invntt(r: &mut Poly)
    ensures
        final(r)@ == invntt_spec(old(r)@),
        forall|i: int| 0 <= i < 256 ==> -3329 < #[trigger] final(r)@[i] < 3329,
{
    let zetas: [i16; 128] = assume_init_are_valid_twiddles_impl();
    let mut k: usize = 127;
    let mut len: usize = 2;
    let ghost mut level: nat = 0;
    assert(r@ =~= invntt_layers(old(r)@, 0));
    while len <= 128
        invariant
            0 <= level <= 7,
            level < 7 ==> len == layer_width(7 - level),
            level < 7 ==> k == 2 * layer_base(7 - level) - 1,
            level == 7 ==> len == 256,
            r@ == invntt_layers(old(r)@, level),
            forall|i: int| 0 <= i < 128 ==> #[trigger] zetas[i] == zeta(i),
        decreases 7 - level,
    {
        let ghost inp = r@;
        let ghost top: int = k as int;
        let ghost mut b: int = 0;
        let mut start: usize = 0;
        assert(0 == 0 * (2 * len)) by (nonlinear_arith);
        assert(r@ =~= invntt_layer_partial(inp, len as int, 0, 0));
        proof {
            lemma_inv_layer_base(7 - level);
        }
        while start < 256
            invariant
                2 <= len <= 128,
                level < 7,
                len == layer_width(7 - level),
                top == 2 * layer_base(7 - level) - 1,
                256int / (len as int) - 1 == top,
                0 <= b,
                start == b * (2 * len),
                start <= 256,
                start < 256 ==> b < layer_base(7 - level),
                start == 256 ==> b == layer_base(7 - level),
                k == top - b,
                inp.len() == 256,
                r@ == invntt_layer_partial(inp, len as int, start as int, start as int),
                forall|i: int| 0 <= i < 128 ==> #[trigger] zetas[i] == zeta(i),
            decreases 256 - start,
        {
            let z: i16 = zetas[k];
            k -= 1;
            let mut j: usize = start;
            assert(start + 2 * len <= 256) by {
                lemma_block_bound(7 - level, b);
            }
            while j < start + len
                invariant
                    2 <= len <= 128,
                    start == b * (2 * len),
                    start + 2 * len <= 256,
                    start <= j <= start + len,
                    z == zeta(256int / (len as int) - 1 - b),
                    r@ == invntt_layer_partial(inp, len as int, start as int, j as int),
                    inp.len() == 256,
                decreases start + len - j,
            {
                let ghost before = r@;
                let t: i16 = r.coeffs[j];
                r.coeffs[j] = barrett_reduce(t.wrapping_add(r.coeffs[j + len]));
                r.coeffs[j + len] = r.coeffs[j + len].wrapping_sub(t);
                r.coeffs[j + len] = fqmul(z, r.coeffs[j + len]);
                proof {
                    lemma_block_index(len as int, b, j as int);
                    lemma_block_index(len as int, b, j + len);
                    lemma_wrapping16(before[j as int], before[j + len]);
                    lemma_wrapping16(before[j + len], before[j as int]);
                    assert(r@ =~= invntt_layer_partial(inp, len as int, start as int, j + 1));
                }
                j += 1;
            }
            proof {
                assert((b + 1) * (2 * len) == b * (2 * len) + 2 * len) by (nonlinear_arith);
                b = b + 1;
                assert(r@ =~= invntt_layer_partial(
                    inp,
                    len as int,
                    start + 2 * len,
                    start + 2 * len,
                ));
                if start + 2 * len < 256 {
                    lemma_block_bound(7 - level, b);
                } else {
                    lemma_layer_blocks(7 - level, b);
                }
            }
            start = j + len;
        }
        proof {
            assert(r@ =~= invntt_layer(inp, len as int));
            level = level + 1;
            assert(len <= 128 ==> len << 1 == 2 * len) by (bit_vector);
        }
        len <<= 1;
    }
    assert(level == 7);
    let ghost inp = r@;
    let mut j: usize = 0;
    while j < 256
        invariant
            j <= 256,
            inp.len() == 256,
            forall|i: int| 0 <= i < j ==> r@[i] == scale_spec(inp)[i],
            forall|i: int| j <= i < 256 ==> r@[i] == inp[i],
        decreases 256 - j,
    {
        r.coeffs[j] = fqmul(r.coeffs[j], F);
        j += 1;
    }
    assert(r@ =~= scale_spec(inp));
    assert forall|i: int| 0 <= i < 256 implies -3329 < #[trigger] r@[i] < 3329 by {
        lemma_invntt_bound(old(r)@, i);
    }
}

} // verus!
