//! Vectors of ring elements.
use vstd::prelude::*;
use crate::ntt::{invntt, invntt_spec, ntt, ntt_spec};
use crate::poly::Poly;
use crate::reduce::{centered, montgomery_reduce_spec};
use crate::round_trip::lemma_ntt_round_trip_exact;

verus! {

/// A vector of `K` ring elements; `K` is 2, 3 or 4 with the security level.
#[derive(Clone, Copy, Debug)]
pub struct Polyvec<const K: usize> {
    pub vec: [Poly; K],
}

impl<const K: usize> View for Polyvec<K> {
    type V = Seq<Seq<i16>>;

    open spec fn view(&self) -> Seq<Seq<i16>> {
        Seq::new(K as nat, |k: int| self.vec@[k]@)
    }
}

impl<const K: usize> Polyvec<K> {
    /// The vector of zero elements.
    pub fn new() -> (v: Polyvec<K>)
        ensures
            v@ == Seq::new(K as nat, |k: int| Seq::new(256, |i: int| 0i16)),
    {
        let v = Polyvec { vec: [Poly::new(); K] };
        assert(v@ =~= Seq::new(K as nat, |k: int| Seq::new(256, |i: int| 0i16)));
        v
    }
}

/// The forward transform of every element of a vector.
pub open spec fn polyvec_ntt_spec(v: Seq<Seq<i16>>) -> Seq<Seq<i16>> {
    Seq::new(v.len(), |k: int| ntt_spec(v[k]))
}

/// The inverse transform of every element of a vector.
pub open spec fn polyvec_invntt_spec(v: Seq<Seq<i16>>) -> Seq<Seq<i16>> {
    Seq::new(v.len(), |k: int| invntt_spec(v[k]))
}

/// Round trip of a vector: where every coefficient of `v` is below `Q` in
/// absolute value, each coefficient of the inverse transform of the forward
/// transform, Montgomery-reduced, has the centered representative of the
/// coefficient of `v` at the same place.
pub proof fn lemma_polyvec_round_trip(v: Seq<Seq<i16>>)
    requires
        forall|k: int, i: int|
            0 <= k < v.len() && 0 <= i < 256 ==> -3329 < #[trigger] v[k][i] < 3329,
        forall|k: int| 0 <= k < v.len() ==> (#[trigger] v[k]).len() == 256,
    ensures
        forall|k: int, i: int|
            0 <= k < v.len() && 0 <= i < 256 ==> centered(
                montgomery_reduce_spec(
                    #[trigger] polyvec_invntt_spec(polyvec_ntt_spec(v))[k][i] as int,
                ),
            ) == centered(v[k][i] as int),
{
    let w = polyvec_invntt_spec(polyvec_ntt_spec(v));
    assert forall|k: int, i: int| 0 <= k < v.len() && 0 <= i < 256 implies centered(
        montgomery_reduce_spec(#[trigger] w[k][i] as int),
    ) == centered(v[k][i] as int) by {
        lemma_ntt_round_trip_exact(v[k]);
        assert(w[k] == invntt_spec(ntt_spec(v[k])));
    }
}

/// The forward transform of every element of the vector, in place.
pub fn polyvec_ntt<const K: usize>(r: &mut Polyvec<K>)
    ensures
        final(r)@ == polyvec_ntt_spec(old(r)@),
{
    let mut k: usize = 0;
    while k < K
        invariant
            k <= K,
            forall|n: int| 0 <= n < k ==> (#[trigger] r.vec@[n])@ == ntt_spec(old(r).vec@[n]@),
            forall|n: int| k <= n < K ==> #[trigger] r.vec@[n] == old(r).vec@[n],
        decreases K - k,
    {
        let mut p: Poly = r.vec[k];
        ntt(&mut p);
        r.vec[k] = p;
        k += 1;
    }
    assert(r@ =~= polyvec_ntt_spec(old(r)@));
}

/// The inverse transform of every element of the vector, in place.
pub fn polyvec_invntt<const K: usize>(r: &mut Polyvec<K>)
    ensures
        final(r)@ == polyvec_invntt_spec(old(r)@),
{
    let mut k: usize = 0;
    while k < K
        invariant
            k <= K,
            forall|n: int| 0 <= n < k ==> (#[trigger] r.vec@[n])@ == invntt_spec(old(r).vec@[n]@),
            forall|n: int| k <= n < K ==> #[trigger] r.vec@[n] == old(r).vec@[n],
        decreases K - k,
    {
        let mut p: Poly = r.vec[k];
        invntt(&mut p);
        r.vec[k] = p;
        k += 1;
    }
    assert(r@ =~= polyvec_invntt_spec(old(r)@));
}

} // verus!
