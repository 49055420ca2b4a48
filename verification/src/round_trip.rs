//! The inverse transform undoes the forward transform.
use vstd::prelude::*;
use vstd::arithmetic::div_mod::lemma_fundamental_div_mod;
use vstd::arithmetic::mul::lemma_mul_is_commutative;
use crate::ntt::{
    butterfly_hi, butterfly_lo, inv_butterfly_hi, inv_butterfly_lo, invntt_layer, invntt_layers,
    invntt_spec, layer_base, layer_width, lemma_block_bound, lemma_block_index,
    lemma_inv_layer_base, lemma_layer_base, ntt_layer, ntt_layers, ntt_spec,
};
use crate::reduce::{
    center16, centered, fqmul_spec, lemma_montgomery_reduce, montgomery_reduce_spec,
};
use crate::twiddle::{inverse_twiddles, partner, zeta};
use crate::twiddle_laws::{lemma_twiddle_partner, lemma_zeta_bound};

verus! {

/// `a` and `b` are congruent modulo `Q`.
pub open spec fn congruent(a: int, b: int) -> bool {
    (a - b) % 3329 == 0
}

/// All 256 coefficients are at most `bound` in absolute value.
pub open spec fn bounded(r: Seq<i16>, bound: int) -> bool {
    &&& r.len() == 256
    &&& forall|i: int| 0 <= i < 256 ==> -bound <= #[trigger] r[i] <= bound
}

/// Coefficient by coefficient, `g` is congruent to `c` times `f`.
pub open spec fn scaled(g: Seq<i16>, f: Seq<i16>, c: int) -> bool {
    forall|i: int| 0 <= i < 256 ==> congruent(#[trigger] g[i] as int, c * f[i])
}

proof fn lemma_congruent_mul(a: int, b: int, m: int)
    requires
        congruent(a, b),
    ensures
        congruent(a * m, b * m),
{
    let k = (a - b) / 3329;
    assert(a - b == 3329 * k);
    assert(a * m - b * m == 3329 * (k * m)) by (nonlinear_arith)
        requires
            a - b == 3329 * k,
    ;
}

/// One forward butterfly followed by the inverse butterfly with the partner
/// twiddle doubles both coefficients, whatever factor `c` they carried.
proof fn lemma_butterfly_round_trip(
    u0: int,
    u1: int,
    t: int,
    z: int,
    zi: int,
    c: int,
    g0: int,
    g1: int,
    h0: int,
    h1: int,
)
    requires
        congruent(t, 169 * (z * u1)),
        inverse_twiddles(z, zi),
        congruent(g0, c * (u0 + t)),
        congruent(g1, c * (u0 - t)),
        congruent(h0, g0 + g1),
        congruent(h1, 169 * (zi * (g1 - g0))),
    ensures
        congruent(h0, (2 * c) * u0),
        congruent(h1, (2 * c) * u1),
{
    assert(c * (u0 + t) + c * (u0 - t) == (2 * c) * u0) by (nonlinear_arith);
    assert(congruent(h0, (2 * c) * u0));

    let d = g1 - g0;
    let e = -2 * (c * t);
    assert(c * (u0 - t) - c * (u0 + t) == e) by (nonlinear_arith)
        requires
            e == -2 * (c * t),
    ;
    assert(congruent(d, e));
    let m2 = 169 * zi;
    lemma_congruent_mul(d, e, m2);
    assert(169 * (zi * d) == d * m2) by (nonlinear_arith)
        requires
            m2 == 169 * zi,
    ;
    assert(congruent(h1, e * m2));
    let m3 = (-2 * c) * (169 * zi);
    assert(e * m2 == t * m3) by (nonlinear_arith)
        requires
            e == -2 * (c * t),
            m2 == 169 * zi,
            m3 == (-2 * c) * (169 * zi),
    ;
    lemma_congruent_mul(t, 169 * (z * u1), m3);
    let w = 169 * 169 * (z * zi);
    let m4 = -2 * (c * u1);
    assert((169 * (z * u1)) * m3 == w * m4) by (nonlinear_arith)
        requires
            m3 == (-2 * c) * (169 * zi),
            w == 169 * 169 * (z * zi),
            m4 == -2 * (c * u1),
    ;
    assert(congruent(w, -1));
    lemma_congruent_mul(w, -1, m4);
    assert((-1) * m4 == (2 * c) * u1) by (nonlinear_arith)
        requires
            m4 == -2 * (c * u1),
    ;
    assert(congruent(h1, (2 * c) * u1));
}

/// Where coefficient `i` stands in a layer of width `len`: in block
/// `i / (2 * len)`, whose lower half is paired with its upper half.
proof fn lemma_pair_index(level: int, i: int)
    requires
        1 <= level <= 7,
        0 <= i < 256,
        i % (2 * layer_width(level)) < layer_width(level),
    ensures
        ({
            let len = layer_width(level);
            let b = i / (2 * len);
            &&& 0 <= b < layer_base(level)
            &&& i + len < 256
            &&& (i + len) / (2 * len) == b
            &&& (i + len) % (2 * len) == i % (2 * len) + len
            &&& 128int / len == layer_base(level)
            &&& 256int / len == 2 * layer_base(level)
        }),
{
    let len = layer_width(level);
    let b = i / (2 * len);
    lemma_fundamental_div_mod(i, 2 * len);
    lemma_mul_is_commutative(2 * len, b);
    assert(i == b * (2 * len) + i % (2 * len));
    assert(0 <= b) by (nonlinear_arith)
        requires
            i == b * (2 * len) + i % (2 * len),
            0 <= i,
            i % (2 * len) < len,
            len >= 2,
    ;
    lemma_block_bound(level, b);
    lemma_block_index(len, b, i + len);
    lemma_layer_base(level);
    lemma_inv_layer_base(level);
}

/// The Montgomery product of a twiddle-sized factor and a coefficient of up
/// to 15700 is at most 2061 in absolute value.
proof fn lemma_fqmul_small(z: int, y: int)
    requires
        -1659 <= z <= 1659,
        -15700 <= y <= 15700,
    ensures
        -2061 <= fqmul_spec(z, y) <= 2061,
        congruent(fqmul_spec(z, y), 169 * (z * y)),
{
    assert(-1659 * 15700 <= z * y <= 1659 * 15700) by (nonlinear_arith)
        requires
            -1659 <= z <= 1659,
            -15700 <= y <= 15700,
    ;
    lemma_montgomery_reduce(z * y);
}

proof fn lemma_center16_small(x: int)
    requires
        -0x8000 <= x < 0x8000,
    ensures
        center16(x) == x,
{
}

/// A forward butterfly on coefficients small enough not to wrap: the pair
/// `(u[i], u[i + len])` becomes `(u[i] + t, u[i] - t)`, with `t` the
/// Montgomery product of the twiddle and `u[i + len]`.
proof fn lemma_forward_pair(u: Seq<i16>, level: int, i: int)
    requires
        1 <= level <= 7,
        bounded(u, 15700),
        0 <= i < 256,
        i % (2 * layer_width(level)) < layer_width(level),
    ensures
        ({
            let len = layer_width(level);
            let z = zeta(layer_base(level) + i / (2 * len));
            let t = fqmul_spec(z, u[i + len] as int);
            let v = ntt_layer(u, len);
            &&& i + len < 256
            &&& -2061 <= t <= 2061
            &&& congruent(t, 169 * (z * u[i + len]))
            &&& v[i] == u[i] + t
            &&& v[i + len] == u[i] - t
        }),
{
    let len = layer_width(level);
    let b = i / (2 * len);
    lemma_pair_index(level, i);
    let z = zeta(layer_base(level) + b);
    lemma_zeta_bound(layer_base(level) + b);
    let t = fqmul_spec(z, u[i + len] as int);
    lemma_fqmul_small(z, u[i + len] as int);
    lemma_center16_small(u[i] + t);
    lemma_center16_small(u[i] - t);
    let v = ntt_layer(u, len);
    assert(v[i] == butterfly_lo(u[i], u[i + len], z));
    assert(v[i + len] == butterfly_hi(u[i], u[i + len], z));
}

/// Whether the sum and the difference of the pair at `i` fit in 16 bits.
pub open spec fn pair_fits(g: Seq<i16>, len: int, i: int) -> bool {
    &&& -0x8000 <= g[i] + g[i + len] < 0x8000
    &&& -0x8000 <= g[i + len] - g[i] < 0x8000
}

/// An inverse butterfly on a pair whose sum and difference do not wrap.
proof fn lemma_inverse_pair(g: Seq<i16>, level: int, i: int)
    requires
        1 <= level <= 7,
        g.len() == 256,
        0 <= i < 256,
        i % (2 * layer_width(level)) < layer_width(level),
        pair_fits(g, layer_width(level), i),
    ensures
        ({
            let len = layer_width(level);
            let zi = zeta(2 * layer_base(level) - 1 - i / (2 * len));
            let h = invntt_layer(g, len);
            &&& i + len < 256
            &&& congruent(h[i] as int, g[i] + g[i + len])
            &&& -1664 <= h[i] <= 1664
            &&& congruent(h[i + len] as int, 169 * (zi * (g[i + len] - g[i])))
            &&& -2494 <= h[i + len] <= 2494
        }),
{
    let len = layer_width(level);
    let b = i / (2 * len);
    lemma_pair_index(level, i);
    let k = 2 * layer_base(level) - 1 - b;
    let zi = zeta(k);
    lemma_zeta_bound(k);
    let h = invntt_layer(g, len);
    let s = g[i] + g[i + len];
    let d = g[i + len] - g[i];
    lemma_center16_small(s);
    lemma_center16_small(d);
    assert(h[i] == inv_butterfly_lo(g[i], g[i + len]));
    assert(h[i + len] == inv_butterfly_hi(g[i], g[i + len], zi));
    assert(-1659 * 0x8000 <= zi * d <= 1659 * 0x8000) by (nonlinear_arith)
        requires
            -1659 <= zi <= 1659,
            -0x8000 <= d < 0x8000,
    ;
    lemma_montgomery_reduce(zi * d);
}

/// An inverse layer after the forward layer of the same width doubles the
/// factor that the coefficients carry: if `g` is `c` times the forward
/// layer of `u`, the inverse layer of `g` is `2 * c` times `u`.
proof fn lemma_layer_round_trip(u: Seq<i16>, g: Seq<i16>, level: int, c: int)
    requires
        1 <= level <= 7,
        bounded(u, 15700),
        g.len() == 256,
        scaled(g, ntt_layer(u, layer_width(level)), c),
        forall|i: int|
            0 <= i < 256 && i % (2 * layer_width(level)) < layer_width(level) ==> #[trigger] pair_fits(
                g,
                layer_width(level),
                i,
            ),
    ensures
        scaled(invntt_layer(g, layer_width(level)), u, 2 * c),
        bounded(invntt_layer(g, layer_width(level)), 3328),
{
    let len = layer_width(level);
    let v = ntt_layer(u, len);
    let h = invntt_layer(g, len);
    assert forall|i: int| 0 <= i < 256 implies congruent(#[trigger] h[i] as int, (2 * c) * u[i])
        && -3328 <= h[i] <= 3328 by {
        let lo = if i % (2 * len) < len {
            i
        } else {
            i - len
        };
        if i % (2 * len) >= len {
            let b = i / (2 * len);
            lemma_fundamental_div_mod(i, 2 * len);
            lemma_mul_is_commutative(2 * len, b);
            lemma_block_index(len, b, lo);
        }
        assert(0 <= lo < 256 && lo % (2 * len) < len);
        assert(pair_fits(g, len, lo));
        lemma_pair_index(level, lo);
        lemma_forward_pair(u, level, lo);
        lemma_inverse_pair(g, level, lo);
        let b = lo / (2 * len);
        let z = zeta(layer_base(level) + b);
        let zi = zeta(2 * layer_base(level) - 1 - b);
        lemma_twiddle_partner(layer_base(level) + b);
        assert(partner(layer_base(level) + b) == 2 * layer_base(level) - 1 - b);
        let t = fqmul_spec(z, u[lo + len] as int);
        assert(v[lo] == u[lo] + t);
        assert(v[lo + len] == u[lo] - t);
        assert(congruent(g[lo] as int, c * v[lo]));
        assert(congruent(g[lo + len] as int, c * v[lo + len]));
        lemma_butterfly_round_trip(
            u[lo] as int,
            u[lo + len] as int,
            t,
            z,
            zi,
            c,
            g[lo] as int,
            g[lo + len] as int,
            h[lo] as int,
            h[lo + len] as int,
        );
    }
}

/// A forward layer lets the coefficients grow by at most 2062.
proof fn lemma_forward_layer_bound(u: Seq<i16>, level: int, bound: int)
    requires
        1 <= level <= 7,
        0 <= bound <= 15700,
        bounded(u, bound),
    ensures
        bounded(ntt_layer(u, layer_width(level)), bound + 2062),
{
    let len = layer_width(level);
    let v = ntt_layer(u, len);
    assert forall|i: int| 0 <= i < 256 implies -(bound + 2062) <= #[trigger] v[i] <= bound
        + 2062 by {
        let lo = if i % (2 * len) < len {
            i
        } else {
            i - len
        };
        if i % (2 * len) >= len {
            let b = i / (2 * len);
            lemma_fundamental_div_mod(i, 2 * len);
            lemma_mul_is_commutative(2 * len, b);
            lemma_block_index(len, b, lo);
        }
        lemma_forward_pair(u, level, lo);
    }
}

/// The pairs of the last forward layer fit the first inverse layer: their
/// sums are twice a coefficient of the layer before, their differences
/// twice a Montgomery product.
proof fn lemma_forward_pairs_fit(u: Seq<i16>, level: int)
    requires
        1 <= level <= 7,
        bounded(u, 15700),
    ensures
        forall|i: int|
            0 <= i < 256 && i % (2 * layer_width(level)) < layer_width(level) ==> #[trigger] pair_fits(
                ntt_layer(u, layer_width(level)),
                layer_width(level),
                i,
            ),
{
    let len = layer_width(level);
    let v = ntt_layer(u, len);
    assert forall|i: int| 0 <= i < 256 && i % (2 * len) < len implies #[trigger] pair_fits(
        v,
        len,
        i,
    ) by {
        lemma_forward_pair(u, level, i);
    }
}

/// Coefficients below `Q` in absolute value fit every inverse layer.
proof fn lemma_small_pairs_fit(g: Seq<i16>, level: int)
    requires
        1 <= level <= 7,
        bounded(g, 3328),
    ensures
        forall|i: int|
            0 <= i < 256 && i % (2 * layer_width(level)) < layer_width(level) ==> #[trigger] pair_fits(
                g,
                layer_width(level),
                i,
            ),
{
    let len = layer_width(level);
    assert forall|i: int| 0 <= i < 256 && i % (2 * len) < len implies #[trigger] pair_fits(
        g,
        len,
        i,
    ) by {
        lemma_pair_index(level, i);
    }
}

/// The factor that the coefficients carry after `m` inverse layers.
pub open spec fn doubled(m: nat) -> int
    decreases m,
{
    if m == 0 {
        1
    } else {
        2 * doubled((m - 1) as nat)
    }
}

/// Bounded growth: after `levels` forward layers the coefficients of a ring
/// element that started below `Q` in absolute value are at most
/// `3328 + 2062 * levels`, so that nothing wraps in the forward transform.
pub proof fn lemma_ntt_growth(p: Seq<i16>, levels: nat)
    requires
        bounded(p, 3328),
        levels <= 7,
    ensures
        bounded(ntt_layers(p, levels), 3328 + 2062 * (levels as int)),
    decreases levels,
{
    if levels > 0 {
        lemma_ntt_growth(p, (levels - 1) as nat);
        lemma_forward_layer_bound(
            ntt_layers(p, (levels - 1) as nat),
            levels as int,
            3328 + 2062 * (levels - 1),
        );
    }
}

/// After `m` inverse layers, every coefficient is `2^m` times the one that
/// stood there `m` layers before the end of the forward transform.
proof fn lemma_layers_round_trip(p: Seq<i16>, m: nat)
    requires
        bounded(p, 3328),
        m <= 7,
    ensures
        scaled(invntt_layers(ntt_spec(p), m), ntt_layers(p, (7 - m) as nat), doubled(m)),
        m >= 1 ==> bounded(invntt_layers(ntt_spec(p), m), 3328),
        invntt_layers(ntt_spec(p), m).len() == 256,
    decreases m,
{
    let top = ntt_spec(p);
    if m == 0 {
        lemma_ntt_growth(p, 7);
        assert(scaled(top, top, 1)) by {
            assert forall|i: int| 0 <= i < 256 implies congruent(
                #[trigger] top[i] as int,
                1 * top[i],
            ) by {}
        }
    } else {
        let level: int = 8 - m;
        let u = ntt_layers(p, (level - 1) as nat);
        let g = invntt_layers(top, (m - 1) as nat);
        lemma_layers_round_trip(p, (m - 1) as nat);
        lemma_ntt_growth(p, (level - 1) as nat);
        assert(ntt_layers(p, level as nat) == ntt_layer(u, layer_width(level)));
        if m == 1 {
            lemma_forward_pairs_fit(u, level);
        } else {
            lemma_small_pairs_fit(g, level);
        }
        lemma_layer_round_trip(u, g, level, doubled((m - 1) as nat));
    }
}

/// The scaling that ends the inverse transform turns the factor 128 into
/// the Montgomery factor 2^16.
proof fn lemma_scale_round_trip(x: int, g: int)
    requires
        congruent(g, 128 * x),
        -3328 <= g <= 3328,
    ensures
        congruent(fqmul_spec(g, 1441), 0x1_0000 * x),
        -3329 < fqmul_spec(g, 1441) < 3329,
        congruent(montgomery_reduce_spec(fqmul_spec(g, 1441)), x),
{
    let y = fqmul_spec(g, 1441);
    lemma_montgomery_reduce(g * 1441);
    let k1 = (y - 169 * (g * 1441)) / 3329;
    let k2 = (g - 128 * x) / 3329;
    assert(y - 169 * (g * 1441) == 3329 * k1);
    assert(g - 128 * x == 3329 * k2);
    assert(y - 0x1_0000 * x == 3329 * (k1 + 243529 * k2 + 9344 * x));
    let r = montgomery_reduce_spec(y);
    lemma_montgomery_reduce(y);
    let k3 = (r - 169 * y) / 3329;
    assert(r - 169 * y == 3329 * k3);
    assert(r - x == 3329 * (k3 + 169 * (k1 + 243529 * k2 + 9344 * x) + 3327 * x));
}

/// Round trip: for a ring element whose coefficients are below `Q` in
/// absolute value, the inverse transform of its forward transform holds, at
/// every index, the coefficient times 2^16 modulo `Q`, below `Q` in
/// absolute value. (The inverse transform leaves its result in Montgomery
/// form: the factor 2^16 is the one that a Montgomery reduction removes.)
pub proof fn lemma_ntt_round_trip(p: Seq<i16>)
    requires
        p.len() == 256,
        forall|i: int| 0 <= i < 256 ==> -3329 < #[trigger] p[i] < 3329,
    ensures
        forall|i: int|
            0 <= i < 256 ==> {
                let y = #[trigger] invntt_spec(ntt_spec(p))[i];
                &&& congruent(y as int, 0x1_0000 * p[i])
                &&& -3329 < y < 3329
                &&& congruent(montgomery_reduce_spec(y as int), p[i] as int)
            },
{
    lemma_layers_round_trip(p, 7);
    reveal_with_fuel(doubled, 8);
    assert(doubled(7) == 128);
    let g = invntt_layers(ntt_spec(p), 7);
    let out = invntt_spec(ntt_spec(p));
    assert forall|i: int| 0 <= i < 256 implies {
        let y = #[trigger] out[i];
        &&& congruent(y as int, 0x1_0000 * p[i])
        &&& -3329 < y < 3329
        &&& congruent(montgomery_reduce_spec(y as int), p[i] as int)
    } by {
        assert(congruent(g[i] as int, 128 * p[i]));
        assert(-3328 <= g[i] <= 3328);
        lemma_scale_round_trip(p[i] as int, g[i] as int);
        assert(out[i] == fqmul_spec(g[i] as int, 1441) as i16);
    }
}

/// Congruent numbers have the same centered representative, and a number
/// between -1664 and 1664 is its own.
proof fn lemma_centered_representative(a: int, b: int)
    requires
        congruent(a, b),
    ensures
        centered(a) == centered(b),
        -1664 <= b <= 1664 ==> centered(a) == b,
{
    let k = (a - b) / 3329;
    assert(a == b + 3329 * k);
    vstd::arithmetic::div_mod::lemma_mod_multiples_vanish(k, b, 3329);
}

/// Exact round trip: a Montgomery reduction of a coefficient of the inverse
/// transform of the forward transform, brought to its centered
/// representative, is the centered representative of the coefficient that
/// went in; where that coefficient was centered already, between -1664 and
/// 1664, it comes back unchanged.
pub proof fn lemma_ntt_round_trip_exact(p: Seq<i16>)
    requires
        p.len() == 256,
        forall|i: int| 0 <= i < 256 ==> -3329 < #[trigger] p[i] < 3329,
    ensures
        forall|i: int|
            0 <= i < 256 ==> centered(
                montgomery_reduce_spec(#[trigger] invntt_spec(ntt_spec(p))[i] as int),
            ) == centered(p[i] as int),
        forall|i: int|
            0 <= i < 256 && -1664 <= p[i] <= 1664 ==> centered(
                montgomery_reduce_spec(#[trigger] invntt_spec(ntt_spec(p))[i] as int),
            ) == p[i],
{
    lemma_ntt_round_trip(p);
    let out = invntt_spec(ntt_spec(p));
    assert forall|i: int| 0 <= i < 256 implies centered(
        montgomery_reduce_spec(#[trigger] out[i] as int),
    ) == centered(p[i] as int) && (-1664 <= p[i] <= 1664 ==> centered(
        montgomery_reduce_spec(out[i] as int),
    ) == p[i]) by {
        lemma_centered_representative(montgomery_reduce_spec(out[i] as int), p[i] as int);
    }
}

} // verus!
