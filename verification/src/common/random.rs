//! Random numbers.

use vstd::prelude::*;

use rand::Rng;

verus! {

/// Draws an integer uniformly from `min..max` with `rand::thread_rng()` and
/// `Rng::gen_range`. Trusted: `gen_range` returns a value of the half-open
/// range it is given and panics when that range is empty, which the
/// `requires` rules out. Which value comes back is left open: it is random.
/// Also left unsaid: `thread_rng` panics when the system offers no entropy
/// to seed the generator with.
#[verifier::external_body]
fn gen_int_in_range(min: i32, max: i32) -> (r: i32)
    requires
        min < max,
    ensures
        min <= r < max,
{
    rand::thread_rng().gen_range(min..max)
}

/// `r` is a possible outcome of one draw from the whole range `min..max`
/// (of `gen_int_in_range(min, max)`), not of a draw from some other range.
pub closed spec fn drawn_from(min: i32, max: i32, r: i32) -> bool {
    call_ensures(gen_int_in_range, (min, max), r)
}

/// An outcome of a draw from `min..max` lies in that range.
pub proof fn lemma_drawn_from_in_range(min: i32, max: i32, r: i32)
    requires
        drawn_from(min, max, r),
    ensures
        min <= r < max,
{
}

/// A random integer in `min..max`, which must not be empty: one draw over
/// the whole range, handed back as it came.
pub fn random_int(min: i32, max: i32) -> (r: i32)
    requires
        min < max,
    ensures
        min <= r < max,
        drawn_from(min, max, r),
{
    let draw = gen_int_in_range;
    draw(min, max)
}

} // verus!
