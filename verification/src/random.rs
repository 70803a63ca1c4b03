//! The source of chance: the `rand` crate's generator of the running thread.
//!
//! Nothing here is proved. The contracts say what the crate documents, and the
//! rest of the library is verified for every number that may come back.

use rand::Rng;
use vstd::prelude::*;

verus! {

/// `rand::rngs::ThreadRng`, the generator that `rand` keeps for each thread.
/// Nothing is known of what it holds.
#[verifier::external_type_specification]
#[verifier::external_body]
pub struct ExThreadRng(rand::rngs::ThreadRng);

/// `rand::thread_rng` hands out the generator of the running thread. Nothing
/// is claimed of it. (The crate stops the program if the system cannot seed
/// the generator.)
pub assume_specification[ rand::thread_rng ]() -> (rng: rand::rngs::ThreadRng)
;

/// `Rng::gen_range` on the half-open range `low..high`: the number drawn lies
/// in the range. Which number it is depends on chance, so no more is said.
/// The crate refuses an empty range, hence the demand `low < high`.
#[verifier::external_body]
pub(crate) fn draw_between(rng: &mut rand::rngs::ThreadRng, low: i32, high: i32) -> (drawn: i32)
    requires
        low < high,
    ensures
        low <= drawn < high,
{
    rng.gen_range(low..high)
}

} // verus!
