//! Random draws, through the `rand` crate.
use vstd::prelude::*;

use rand::seq::SliceRandom;
use rand::Rng;

verus! {

/// Declared so that the thread's generator can be handed to `rand`.
#[verifier::external_type_specification]
#[verifier::external_body]
pub struct ExThreadRng(rand::rngs::ThreadRng);

/// `rand::thread_rng`: a handle on the thread-local generator. Nothing is
/// promised of it; it is only passed on to the draws below.
#[verifier::external_body]
pub(crate) fn thread_rng() -> rand::rngs::ThreadRng {
    rand::thread_rng()
}

/// `SliceRandom::choose` on a slice: `None` exactly when the slice is empty,
/// and otherwise one of its elements. Which one is left to chance.
#[verifier::external_body]
pub(crate) fn choose_one<'a, T>(items: &'a [T], rng: &mut rand::rngs::ThreadRng) -> (r: Option<&'a T>)
    ensures
        r is None <==> items@.len() == 0,
        r matches Some(x) ==> exists|i: int| 0 <= i < items@.len() && items@[i] == *x,
{
    items.choose(rng)
}

/// `Rng::gen_range` over `low..high` for `u32`: a number in that range, left
/// to chance. The crate panics on an empty range, which `requires` rules out.
#[verifier::external_body]
pub(crate) fn gen_range_u32(rng: &mut rand::rngs::ThreadRng, low: u32, high: u32) -> (r: u32)
    requires
        low < high,
    ensures
        low <= r < high,
{
    rng.gen_range(low..high)
}

} // verus!
