//! Ring elements.
use vstd::prelude::*;
use crate::params::N;

verus! {

/// An element of Z_q[x]/(x^256 + 1): 256 coefficients, each a signed 16-bit
/// representative of a residue modulo `Q`.
#[derive(Clone, Copy, Debug)]
pub struct Poly {
    pub coeffs: [i16; N],
}

impl View for Poly {
    type V = Seq<i16>;

    open spec fn view(&self) -> Seq<i16> {
        self.coeffs@
    }
}

impl Poly {
    /// The zero element.
    pub fn new() -> (p: Poly)
        ensures
            p@ == Seq::new(256, |i: int| 0i16),
    {
        let p = Poly { coeffs: [0i16; N] };
        assert(p@ =~= Seq::new(256, |i: int| 0i16));
        p
    }
}

} // verus!
