//! The SWIFFT compression function over the ring Z_257[alpha]/(alpha^64 + 1).
use vstd::prelude::*;

pub mod arith;
pub mod convolution;
pub mod fermat;
pub mod fft;
pub mod hash;
pub mod laws;
pub mod polynomial;
pub mod sums;
pub mod transform;
pub mod z257;

verus! {

} // verus!
