//! Small numeric helpers.

use vstd::prelude::*;
use vstd::laws_cmp::obeys_partial_cmp_spec_properties;
use vstd::std_specs::cmp::{PartialOrdIs, PartialOrdSpec};

verus! {

/// What `clamp(x, min, max)` returns, by the order that `T` declares.
pub open spec fn clamp_spec<T: PartialOrd>(x: T, min: T, max: T) -> T {
    if x.is_lt(&min) {
        min
    } else if x.is_gt(&max) {
        max
    } else {
        x
    }
}

/// `min` when `x` is below it, `max` when `x` is above that, else `x`.
pub fn clamp<T: PartialOrd>(x: T, min: T, max: T) -> (r: T)
    ensures
        T::obeys_partial_cmp_spec() ==> r == clamp_spec(x, min, max),
{
    if x < min {
        min
    } else if x > max {
        max
    } else {
        x
    }
}

/// With `min` not above `max`, the clamped value is neither below `min`
/// nor above `max`, and clamping it again leaves it as it is.
pub proof fn lemma_clamp_in_range<T: PartialOrd>(x: T, min: T, max: T)
    requires
        obeys_partial_cmp_spec_properties::<T>(),
        !max.is_lt(&min),
    ensures
        !clamp_spec(x, min, max).is_lt(&min),
        !clamp_spec(x, min, max).is_gt(&max),
        clamp_spec(clamp_spec(x, min, max), min, max) == clamp_spec(x, min, max),
{
    reveal(obeys_partial_cmp_spec_properties);
    assert(!min.is_lt(&min));
    assert(!max.is_gt(&max));
}

/// A value that lies within the range is not changed by clamping.
pub proof fn lemma_clamp_keeps_inner<T: PartialOrd>(x: T, min: T, max: T)
    requires
        !x.is_lt(&min),
        !x.is_gt(&max),
    ensures
        clamp_spec(x, min, max) == x,
{
}

} // verus!
