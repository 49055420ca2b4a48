//! Number-theoretic transform over the ring Z_q[x]/(x^256 + 1), q = 3329,
//! with the modular reductions it is built on and the centered binomial
//! noise sampler that feeds it.
use vstd::prelude::*;

pub mod params;
pub mod reduce;
pub mod twiddle;
pub mod twiddle_laws;
pub mod poly;
pub mod ntt;
pub mod cbd;
pub mod round_trip;
pub mod polyvec;
pub mod flash;

pub use crate::cbd::{cbd3, poly_getnoise_eta1};
pub use crate::flash::FlashError;
pub use crate::ntt::{invntt, ntt};
pub use crate::poly::Poly;
pub use crate::polyvec::{polyvec_invntt, polyvec_ntt, Polyvec};
pub use crate::reduce::{barrett_reduce, fqmul, montgomery_reduce};
pub use crate::twiddle::assume_init_are_valid_twiddles_impl;
