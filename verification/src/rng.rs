//! The random source of the mutators: libafl_bolts' standard generator.

use vstd::prelude::*;

pub use libafl_bolts::rands::StdRand;

verus! {

#[verifier::external_type_specification]
#[verifier::external_body]
pub struct ExRomuDuoJrRand(libafl_bolts::rands::RomuDuoJrRand);

/// Calls `libafl_bolts::rands::Rand::below` on the generator.
///
/// Trusted: the value is `fast_bound(next(), n)`, which the crate's source
/// computes as the high 64 bits of `next() * n` and is therefore below `n`.
/// The value depends on the generator's hidden state, so nothing more is
/// stated of it, nor of the generator's state after the call.
#[verifier::external_body]
pub(crate) fn below(rand: &mut StdRand, n: usize) -> (r: usize)
    requires
        n > 0,
    ensures
        r < n,
{
    libafl_bolts::rands::Rand::below(rand, core::num::NonZeroUsize::new(n).unwrap())
}

} // verus!
