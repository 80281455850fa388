//! Axis-aligned integer rectangles.

use vstd::prelude::*;

use crate::vec::{
    ivec2_le, ivec2_max_spec, ivec2_min_spec, lemma_min_le_max, lemma_min_max_commute,
    lemma_min_max_of_ordered, IVec2,
};

verus! {

/// An axis-aligned rectangle of integer points, given by its lowest and its
/// highest corner.
#[derive(Debug, PartialEq, Eq, Structural)]
pub struct Bounds2i {
    p_min: IVec2,
    p_max: IVec2,
}

impl Bounds2i {
    /// The lowest corner is no greater than the highest one.
    #[verifier::type_invariant]
    spec fn corners_ordered(self) -> bool {
        ivec2_le(self.p_min, self.p_max)
    }

    /// The lowest corner.
    pub closed spec fn min_corner(self) -> IVec2 {
        self.p_min
    }

    /// The highest corner.
    pub closed spec fn max_corner(self) -> IVec2 {
        self.p_max
    }

    /// The width of the rectangle, as a mathematical integer.
    pub open spec fn width_spec(self) -> int {
        self.max_corner().x - self.min_corner().x
    }

    /// The height of the rectangle, as a mathematical integer.
    pub open spec fn height_spec(self) -> int {
        self.max_corner().y - self.min_corner().y
    }

    /// The rectangle spanned by two opposite corners, in either order.
    pub fn new(a: IVec2, b: IVec2) -> (r: Bounds2i)
        ensures
            r.min_corner() == ivec2_min_spec(a, b),
            r.max_corner() == ivec2_max_spec(a, b),
            ivec2_le(r.min_corner(), r.max_corner()),
    {
        Bounds2i { p_min: a.min(b), p_max: a.max(b) }
    }

    pub fn p_min(&self) -> (r: IVec2)
        ensures
            r == self.min_corner(),
            ivec2_le(r, self.max_corner()),
    {
        proof {
            use_type_invariant(self);
        }
        self.p_min
    }

    pub fn p_max(&self) -> (r: IVec2)
        ensures
            r == self.max_corner(),
            ivec2_le(self.min_corner(), r),
    {
        proof {
            use_type_invariant(self);
        }
        self.p_max
    }

    /// The number of unit cells inside the rectangle.
    pub fn area(&self) -> (r: i32)
        requires
            self.width_spec() * self.height_spec() <= i32::MAX,
            self.width_spec() <= i32::MAX,
            self.height_spec() <= i32::MAX,
        ensures
            r == self.width_spec() * self.height_spec(),
            r >= 0,
    {
        proof {
            use_type_invariant(self);
        }
        let d = self.p_max - self.p_min;
        proof {
            assert(0 <= d.x * d.y) by (nonlinear_arith)
                requires
                    d.x >= 0,
                    d.y >= 0,
            ;
        }
        d.x * d.y
    }

    /// The width of the rectangle.
    pub fn x_extent(&self) -> (r: i32)
        requires
            self.width_spec() <= i32::MAX,
        ensures
            r == self.width_spec(),
            r >= 0,
    {
        proof {
            use_type_invariant(self);
        }
        self.p_max.x - self.p_min.x
    }

    /// The height of the rectangle.
    pub fn y_extent(&self) -> (r: i32)
        requires
            self.height_spec() <= i32::MAX,
        ensures
            r == self.height_spec(),
            r >= 0,
    {
        proof {
            use_type_invariant(self);
        }
        self.p_max.y - self.p_min.y
    }
}

/// The rectangle spanned by two corners does not depend on which corner is
/// given first: `Bounds2i::new(a, b) == Bounds2i::new(b, a)`.
pub proof fn lemma_new_order_free(a: IVec2, b: IVec2)
    ensures
        ivec2_min_spec(a, b) == ivec2_min_spec(b, a),
        ivec2_max_spec(a, b) == ivec2_max_spec(b, a),
{
    lemma_min_max_commute(a, b);
}

/// Both corners given to `Bounds2i::new` lie inside the rectangle it builds.
pub proof fn lemma_new_holds_corners(a: IVec2, b: IVec2)
    ensures
        ivec2_le(ivec2_min_spec(a, b), a) && ivec2_le(a, ivec2_max_spec(a, b)),
        ivec2_le(ivec2_min_spec(a, b), b) && ivec2_le(b, ivec2_max_spec(a, b)),
{
    lemma_min_le_max(a, b);
}

/// Building a rectangle from the lowest and the highest corner of another
/// one gives back that rectangle: `Bounds2i::new(r.p_min(), r.p_max()) == r`.
pub proof fn lemma_new_from_own_corners(lo: IVec2, hi: IVec2)
    requires
        ivec2_le(lo, hi),
    ensures
        ivec2_min_spec(lo, hi) == lo,
        ivec2_max_spec(lo, hi) == hi,
{
    lemma_min_max_of_ordered(lo, hi);
}

impl Bounds2i {
    /// A rectangle is given by its corners: two rectangles with the same
    /// lowest and the same highest corner are equal.
    pub proof fn lemma_equal_by_corners(self, other: Bounds2i)
        requires
            self.min_corner() == other.min_corner(),
            self.max_corner() == other.max_corner(),
        ensures
            self == other,
    {
    }
}

impl Clone for Bounds2i {
    fn clone(&self) -> (r: Bounds2i)
        ensures
            r == *self,
    {
        proof {
            use_type_invariant(self);
        }
        Bounds2i { p_min: self.p_min, p_max: self.p_max }
    }
}

} // verus!
