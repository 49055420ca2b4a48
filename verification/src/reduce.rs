//! Montgomery and Barrett reduction modulo `Q`.
use vstd::prelude::*;
use crate::params::{Q, QINV};

verus! {

/// The representative of `x` modulo 2^16 that lies in `[-2^15, 2^15)`.
pub open spec fn center16(x: int) -> int {
    let m = x % 0x1_0000;
    if m >= 0x8000 { m - 0x1_0000 } else { m }
}

/// The representative of `x` modulo 2^32 that lies in `[-2^31, 2^31)`.
pub open spec fn center32(x: int) -> int {
    let m = x % 0x1_0000_0000;
    if m >= 0x8000_0000 { m - 0x1_0000_0000 } else { m }
}

/// Signed Montgomery reduction in 32-bit two's-complement arithmetic:
/// `a - u * Q` is a multiple of 2^16 for the `u` that is `a / Q` modulo
/// 2^16, and the result is that multiple divided by 2^16.
pub open spec fn montgomery_reduce_spec(a: int) -> int {
    let u = center16(a * 62209);
    center32(a - u * 3329) / 0x1_0000
}

proof fn lemma_trunc16(x: i32)
    ensures
        (x as i16) as int == center16(x as int),
{
    assert((x as i16) as int == ({
        let m = (x as int) % 0x1_0000;
        if m >= 0x8000 { m - 0x1_0000 } else { m }
    })) by (bit_vector);
}

proof fn lemma_shr16(x: i32)
    ensures
        (x >> 16u32) as int == (x as int) / 0x1_0000,
{
    assert((x >> 16u32) as int == (x as int) / 0x1_0000) by (bit_vector);
}

proof fn lemma_center16_of_center32(x: int)
    ensures
        center16(center32(x)) == center16(x),
{
    let h = x / 0x1_0000_0000;
    let m = x % 0x1_0000_0000;
    assert(x == h * 0x1_0000_0000 + m);
    assert(x % 0x1_0000 == m % 0x1_0000) by {
        assert(x == (h * 0x1_0000) * 0x1_0000 + m);
        vstd::arithmetic::div_mod::lemma_mod_multiples_vanish(h * 0x1_0000, m, 0x1_0000);
    }
    assert((m - 0x1_0000_0000) % 0x1_0000 == m % 0x1_0000) by {
        vstd::arithmetic::div_mod::lemma_mod_multiples_vanish(-0x1_0000, m, 0x1_0000);
    }
}

/// Where the subtraction does not wrap, Montgomery reduction divides by 2^16
/// modulo `Q` (169 is the inverse of 2^16 modulo `Q`), and its result lies
/// within `Q / 2` of `a / 2^16`.
pub proof fn lemma_montgomery_reduce(a: int)
    requires
        -0x4000_0000 <= a <= 0x4000_0000,
    ensures
        (montgomery_reduce_spec(a) - 169 * a) % 3329 == 0,
        a - 32767 * 3329 <= 0x1_0000 * montgomery_reduce_spec(a) <= a + 32768 * 3329,
{
    let x = a * 62209;
    let k = x / 0x1_0000;
    let m = x % 0x1_0000;
    assert(x == k * 0x1_0000 + m);
    let u = center16(x);
    let d = a - u * 3329;
    assert(center32(d) == d);
    let c = if m >= 0x8000 { k + 1 } else { k };
    assert(u == x - c * 0x1_0000);
    assert(d == 0x1_0000 * (3329 * c - 3160 * a));
    let r = 3329 * c - 3160 * a;
    assert(d / 0x1_0000 == r);
    assert(r - 169 * a == 3329 * (-3327 * r - 169 * u));
    assert((r - 169 * a) % 3329 == 0);
}

/// Montgomery reduction. The arithmetic wraps in 32 bits, so every `a` has a
/// result. For `|a| <= 2^30`, which holds every product of two 16-bit
/// numbers, nothing wraps: the result is congruent to `a * 2^-16` modulo `Q`
/// and within `Q / 2` of `a / 2^16`, hence below `Q` in absolute value for
/// `|a| < Q * 2^15`.
pub fn montgomery_reduce(a: i32) -> (r: i16)
    ensures
        r == montgomery_reduce_spec(a as int),
        -0x4000_0000 <= a <= 0x4000_0000 ==> (r - 169 * a) % 3329 == 0,
        -0x4000_0000 <= a <= 0x4000_0000 ==> a - 32767 * 3329 <= 0x1_0000 * r <= a + 32768
            * 3329,
        -3329 * 0x8000 < a < 3329 * 0x8000 ==> -3329 < r < 3329,
{
    proof {
        if -0x4000_0000 <= a <= 0x4000_0000 {
            lemma_montgomery_reduce(a as int);
        }
    }
    let m: i32 = a.wrapping_mul(QINV);
    let u: i16 = m as i16;
    proof {
        lemma_trunc16(m);
        assert(m as int == center32(a * 62209));
        lemma_center16_of_center32(a * 62209);
        assert(u as int == center16(a * 62209));
    }
    let t: i32 = (u as i32) * (Q as i32);
    let d: i32 = a.wrapping_sub(t);
    assert(d as int == center32(a - u * 3329));
    let s: i32 = d >> 16;
    proof {
        lemma_shr16(d);
        lemma_trunc16(s);
    }
    s as i16
}

/// The centered representative of `x` modulo `Q`: the one between
/// `-(Q - 1) / 2` and `(Q - 1) / 2`.
pub open spec fn centered(x: int) -> int {
    let m = x % 3329;
    if m > 1664 { m - 3329 } else { m }
}

/// What Barrett reduction gives: the centered representative.
pub open spec fn barrett_reduce_spec(a: int) -> int {
    centered(a)
}

proof fn lemma_shr26(x: i32)
    ensures
        (x >> 26u32) as int == (x as int) / 0x400_0000,
{
    assert((x >> 26u32) as int == (x as int) / 0x400_0000) by (bit_vector);
}

/// Barrett reduction: the centered representative of `a` modulo `Q`.
pub fn barrett_reduce(a: i16) -> (r: i16)
    ensures
        r == barrett_reduce_spec(a as int),
        -1664 <= r <= 1664,
        (r - a) % 3329 == 0,
{
    let v: i32 = 20159;
    let p: i32 = v * (a as i32) + 0x200_0000;
    let t: i32 = p >> 26;
    proof {
        lemma_shr26(p);
    }
    assert(-10 <= t <= 10);
    assert(t * (Q as i32) == t * 3329);
    let r: i32 = (a as i32) - t * (Q as i32);
    assert(-1664 <= r <= 1664);
    assert(r == barrett_reduce_spec(a as int));
    r as i16
}

/// The product of `a` and `b`, Montgomery-reduced.
pub open spec fn fqmul_spec(a: int, b: int) -> int {
    montgomery_reduce_spec(a * b)
}

/// Multiplication followed by Montgomery reduction: the result is congruent
/// to `a * b * 2^-16` modulo `Q` and within `Q / 2` of `a * b / 2^16`.
pub fn fqmul(a: i16, b: i16) -> (r: i16)
    ensures
        r == fqmul_spec(a as int, b as int),
        (r - 169 * (a * b)) % 3329 == 0,
        a * b - 32767 * 3329 <= 0x1_0000 * r <= a * b + 32768 * 3329,
        -3329 * 0x8000 < a * b < 3329 * 0x8000 ==> -3329 < r < 3329,
{
    assert(-0x4000_0000 <= a * b <= 0x4000_0000) by (nonlinear_arith)
        requires
            -0x8000 <= a <= 0x7fff,
            -0x8000 <= b <= 0x7fff,
    ;
    montgomery_reduce((a as i32) * (b as i32))
}

} // verus!
