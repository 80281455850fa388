//! Integer vectors, axes and the component-access interface of vector types.

use vstd::prelude::*;
use vstd::std_specs::ops::{AddSpec, SubSpec};

verus! {

/// A 2D vector of signed 32-bit integers.
#[derive(Debug, Clone, Copy, PartialEq, Eq, Structural)]
pub struct IVec2 {
    pub x: i32,
    pub y: i32,
}

/// The component-wise minimum of two integer vectors.
pub open spec fn ivec2_min_spec(a: IVec2, b: IVec2) -> IVec2 {
    IVec2 {
        x: if a.x <= b.x { a.x } else { b.x },
        y: if a.y <= b.y { a.y } else { b.y },
    }
}

/// The component-wise maximum of two integer vectors.
pub open spec fn ivec2_max_spec(a: IVec2, b: IVec2) -> IVec2 {
    IVec2 {
        x: if a.x >= b.x { a.x } else { b.x },
        y: if a.y >= b.y { a.y } else { b.y },
    }
}

/// `a` is no greater than `b` in each component.
pub open spec fn ivec2_le(a: IVec2, b: IVec2) -> bool {
    a.x <= b.x && a.y <= b.y
}

/// Both components of `a + b` fit in an `i32`.
pub open spec fn ivec2_add_fits(a: IVec2, b: IVec2) -> bool {
    i32::MIN <= a.x + b.x <= i32::MAX && i32::MIN <= a.y + b.y <= i32::MAX
}

/// Both components of `a - b` fit in an `i32`.
pub open spec fn ivec2_sub_fits(a: IVec2, b: IVec2) -> bool {
    i32::MIN <= a.x - b.x <= i32::MAX && i32::MIN <= a.y - b.y <= i32::MAX
}

impl IVec2 {
    pub fn new(x: i32, y: i32) -> (r: IVec2)
        ensures
            r.x == x,
            r.y == y,
    {
        IVec2 { x, y }
    }

    /// Component-wise minimum.
    pub fn min(&self, b: IVec2) -> (r: IVec2)
        ensures
            r == ivec2_min_spec(*self, b),
    {
        IVec2::new(
            if self.x <= b.x { self.x } else { b.x },
            if self.y <= b.y { self.y } else { b.y },
        )
    }

    /// Component-wise maximum.
    pub fn max(&self, b: IVec2) -> (r: IVec2)
        ensures
            r == ivec2_max_spec(*self, b),
    {
        IVec2::new(
            if self.x >= b.x { self.x } else { b.x },
            if self.y >= b.y { self.y } else { b.y },
        )
    }
}

impl vstd::std_specs::ops::AddSpecImpl for IVec2 {
    open spec fn obeys_add_spec() -> bool {
        true
    }

    open spec fn add_req(self, rhs: IVec2) -> bool {
        ivec2_add_fits(self, rhs)
    }

    open spec fn add_spec(self, rhs: IVec2) -> IVec2 {
        IVec2 { x: (self.x + rhs.x) as i32, y: (self.y + rhs.y) as i32 }
    }
}

impl core::ops::Add for IVec2 {
    type Output = IVec2;

    fn add(self, rhs: IVec2) -> (r: IVec2)
        ensures
            r.x == self.x + rhs.x,
            r.y == self.y + rhs.y,
    {
        IVec2::new(self.x + rhs.x, self.y + rhs.y)
    }
}

impl vstd::std_specs::ops::SubSpecImpl for IVec2 {
    open spec fn obeys_sub_spec() -> bool {
        true
    }

    open spec fn sub_req(self, rhs: IVec2) -> bool {
        ivec2_sub_fits(self, rhs)
    }

    open spec fn sub_spec(self, rhs: IVec2) -> IVec2 {
        IVec2 { x: (self.x - rhs.x) as i32, y: (self.y - rhs.y) as i32 }
    }
}

impl core::ops::Sub for IVec2 {
    type Output = IVec2;

    fn sub(self, rhs: IVec2) -> (r: IVec2)
        ensures
            r.x == self.x - rhs.x,
            r.y == self.y - rhs.y,
    {
        IVec2::new(self.x - rhs.x, self.y - rhs.y)
    }
}

// The same operators with either operand, or both, taken by reference.

impl<'b> vstd::std_specs::ops::AddSpecImpl<&'b IVec2> for IVec2 {
    open spec fn obeys_add_spec() -> bool {
        true
    }

    open spec fn add_req(self, rhs: &'b IVec2) -> bool {
        i32::MIN <= self.x + rhs.x <= i32::MAX && i32::MIN <= self.y + rhs.y <= i32::MAX
    }

    open spec fn add_spec(self, rhs: &'b IVec2) -> IVec2 {
        IVec2 { x: (self.x + rhs.x) as i32, y: (self.y + rhs.y) as i32 }
    }
}

impl<'b> core::ops::Add<&'b IVec2> for IVec2 {
    type Output = IVec2;

    fn add(self, rhs: &'b IVec2) -> (r: IVec2)
        ensures
            r.x == self.x + rhs.x,
            r.y == self.y + rhs.y,
    {
        IVec2::new(self.x + rhs.x, self.y + rhs.y)
    }
}

impl<'a> vstd::std_specs::ops::AddSpecImpl<IVec2> for &'a IVec2 {
    open spec fn obeys_add_spec() -> bool {
        true
    }

    open spec fn add_req(self, rhs: IVec2) -> bool {
        i32::MIN <= self.x + rhs.x <= i32::MAX && i32::MIN <= self.y + rhs.y <= i32::MAX
    }

    open spec fn add_spec(self, rhs: IVec2) -> IVec2 {
        IVec2 { x: (self.x + rhs.x) as i32, y: (self.y + rhs.y) as i32 }
    }
}

impl<'a> core::ops::Add<IVec2> for &'a IVec2 {
    type Output = IVec2;

    fn add(self, rhs: IVec2) -> (r: IVec2)
        ensures
            r.x == self.x + rhs.x,
            r.y == self.y + rhs.y,
    {
        IVec2::new(self.x + rhs.x, self.y + rhs.y)
    }
}

impl<'a, 'b> vstd::std_specs::ops::AddSpecImpl<&'b IVec2> for &'a IVec2 {
    open spec fn obeys_add_spec() -> bool {
        true
    }

    open spec fn add_req(self, rhs: &'b IVec2) -> bool {
        i32::MIN <= self.x + rhs.x <= i32::MAX && i32::MIN <= self.y + rhs.y <= i32::MAX
    }

    open spec fn add_spec(self, rhs: &'b IVec2) -> IVec2 {
        IVec2 { x: (self.x + rhs.x) as i32, y: (self.y + rhs.y) as i32 }
    }
}

impl<'a, 'b> core::ops::Add<&'b IVec2> for &'a IVec2 {
    type Output = IVec2;

    fn add(self, rhs: &'b IVec2) -> (r: IVec2)
        ensures
            r.x == self.x + rhs.x,
            r.y == self.y + rhs.y,
    {
        IVec2::new(self.x + rhs.x, self.y + rhs.y)
    }
}

impl<'b> vstd::std_specs::ops::SubSpecImpl<&'b IVec2> for IVec2 {
    open spec fn obeys_sub_spec() -> bool {
        true
    }

    open spec fn sub_req(self, rhs: &'b IVec2) -> bool {
        i32::MIN <= self.x - rhs.x <= i32::MAX && i32::MIN <= self.y - rhs.y <= i32::MAX
    }

    open spec fn sub_spec(self, rhs: &'b IVec2) -> IVec2 {
        IVec2 { x: (self.x - rhs.x) as i32, y: (self.y - rhs.y) as i32 }
    }
}

impl<'b> core::ops::Sub<&'b IVec2> for IVec2 {
    type Output = IVec2;

    fn sub(self, rhs: &'b IVec2) -> (r: IVec2)
        ensures
            r.x == self.x - rhs.x,
            r.y == self.y - rhs.y,
    {
        IVec2::new(self.x - rhs.x, self.y - rhs.y)
    }
}

impl<'a> vstd::std_specs::ops::SubSpecImpl<IVec2> for &'a IVec2 {
    open spec fn obeys_sub_spec() -> bool {
        true
    }

    open spec fn sub_req(self, rhs: IVec2) -> bool {
        i32::MIN <= self.x - rhs.x <= i32::MAX && i32::MIN <= self.y - rhs.y <= i32::MAX
    }

    open spec fn sub_spec(self, rhs: IVec2) -> IVec2 {
        IVec2 { x: (self.x - rhs.x) as i32, y: (self.y - rhs.y) as i32 }
    }
}

impl<'a> core::ops::Sub<IVec2> for &'a IVec2 {
    type Output = IVec2;

    fn sub(self, rhs: IVec2) -> (r: IVec2)
        ensures
            r.x == self.x - rhs.x,
            r.y == self.y - rhs.y,
    {
        IVec2::new(self.x - rhs.x, self.y - rhs.y)
    }
}

impl<'a, 'b> vstd::std_specs::ops::SubSpecImpl<&'b IVec2> for &'a IVec2 {
    open spec fn obeys_sub_spec() -> bool {
        true
    }

    open spec fn sub_req(self, rhs: &'b IVec2) -> bool {
        i32::MIN <= self.x - rhs.x <= i32::MAX && i32::MIN <= self.y - rhs.y <= i32::MAX
    }

    open spec fn sub_spec(self, rhs: &'b IVec2) -> IVec2 {
        IVec2 { x: (self.x - rhs.x) as i32, y: (self.y - rhs.y) as i32 }
    }
}

impl<'a, 'b> core::ops::Sub<&'b IVec2> for &'a IVec2 {
    type Output = IVec2;

    fn sub(self, rhs: &'b IVec2) -> (r: IVec2)
        ensures
            r.x == self.x - rhs.x,
            r.y == self.y - rhs.y,
    {
        IVec2::new(self.x - rhs.x, self.y - rhs.y)
    }
}

/// The component-wise minimum and maximum do not depend on the order of
/// their arguments.
pub proof fn lemma_min_max_commute(a: IVec2, b: IVec2)
    ensures
        ivec2_min_spec(a, b) == ivec2_min_spec(b, a),
        ivec2_max_spec(a, b) == ivec2_max_spec(b, a),
{
}

/// The component-wise minimum of two vectors lies below both of them, the
/// maximum above both, and so the minimum below the maximum.
pub proof fn lemma_min_le_max(a: IVec2, b: IVec2)
    ensures
        ivec2_le(ivec2_min_spec(a, b), a),
        ivec2_le(ivec2_min_spec(a, b), b),
        ivec2_le(a, ivec2_max_spec(a, b)),
        ivec2_le(b, ivec2_max_spec(a, b)),
        ivec2_le(ivec2_min_spec(a, b), ivec2_max_spec(a, b)),
{
}

/// Of two ordered vectors, the minimum is the lower and the maximum the
/// higher one.
pub proof fn lemma_min_max_of_ordered(a: IVec2, b: IVec2)
    requires
        ivec2_le(a, b),
    ensures
        ivec2_min_spec(a, b) == a,
        ivec2_max_spec(a, b) == b,
{
}

/// Subtracting what was added gives back the vector one started with:
/// `(a + b) - b == a` whenever `a + b` does not overflow.
pub proof fn lemma_add_then_sub(a: IVec2, b: IVec2)
    requires
        ivec2_add_fits(a, b),
    ensures
        ivec2_sub_fits(a.add_spec(b), b),
        a.add_spec(b).sub_spec(b) == a,
{
}

/// A 2D vector of unsigned 32-bit integers.
#[derive(Debug, Clone, Copy)]
pub struct UVec2 {
    pub x: u32,
    pub y: u32,
}

impl UVec2 {
    pub fn new(x: u32, y: u32) -> (r: UVec2)
        ensures
            r.x == x,
            r.y == y,
    {
        UVec2 { x, y }
    }
}

impl vstd::std_specs::ops::AddSpecImpl for UVec2 {
    open spec fn obeys_add_spec() -> bool {
        true
    }

    open spec fn add_req(self, rhs: UVec2) -> bool {
        self.x + rhs.x <= u32::MAX && self.y + rhs.y <= u32::MAX
    }

    open spec fn add_spec(self, rhs: UVec2) -> UVec2 {
        UVec2 { x: (self.x + rhs.x) as u32, y: (self.y + rhs.y) as u32 }
    }
}

impl core::ops::Add for UVec2 {
    type Output = UVec2;

    fn add(self, rhs: UVec2) -> (r: UVec2)
        ensures
            r.x == self.x + rhs.x,
            r.y == self.y + rhs.y,
    {
        UVec2::new(self.x + rhs.x, self.y + rhs.y)
    }
}

impl vstd::std_specs::ops::SubSpecImpl for UVec2 {
    open spec fn obeys_sub_spec() -> bool {
        true
    }

    open spec fn sub_req(self, rhs: UVec2) -> bool {
        rhs.x <= self.x && rhs.y <= self.y
    }

    open spec fn sub_spec(self, rhs: UVec2) -> UVec2 {
        UVec2 { x: (self.x - rhs.x) as u32, y: (self.y - rhs.y) as u32 }
    }
}

impl core::ops::Sub for UVec2 {
    type Output = UVec2;

    fn sub(self, rhs: UVec2) -> (r: UVec2)
        ensures
            r.x == self.x - rhs.x,
            r.y == self.y - rhs.y,
    {
        UVec2::new(self.x - rhs.x, self.y - rhs.y)
    }
}

// The same operators with either operand, or both, taken by reference.

impl<'b> vstd::std_specs::ops::AddSpecImpl<&'b UVec2> for UVec2 {
    open spec fn obeys_add_spec() -> bool {
        true
    }

    open spec fn add_req(self, rhs: &'b UVec2) -> bool {
        self.x + rhs.x <= u32::MAX && self.y + rhs.y <= u32::MAX
    }

    open spec fn add_spec(self, rhs: &'b UVec2) -> UVec2 {
        UVec2 { x: (self.x + rhs.x) as u32, y: (self.y + rhs.y) as u32 }
    }
}

impl<'b> core::ops::Add<&'b UVec2> for UVec2 {
    type Output = UVec2;

    fn add(self, rhs: &'b UVec2) -> (r: UVec2)
        ensures
            r.x == self.x + rhs.x,
            r.y == self.y + rhs.y,
    {
        UVec2::new(self.x + rhs.x, self.y + rhs.y)
    }
}

impl<'a> vstd::std_specs::ops::AddSpecImpl<UVec2> for &'a UVec2 {
    open spec fn obeys_add_spec() -> bool {
        true
    }

    open spec fn add_req(self, rhs: UVec2) -> bool {
        self.x + rhs.x <= u32::MAX && self.y + rhs.y <= u32::MAX
    }

    open spec fn add_spec(self, rhs: UVec2) -> UVec2 {
        UVec2 { x: (self.x + rhs.x) as u32, y: (self.y + rhs.y) as u32 }
    }
}

impl<'a> core::ops::Add<UVec2> for &'a UVec2 {
    type Output = UVec2;

    fn add(self, rhs: UVec2) -> (r: UVec2)
        ensures
            r.x == self.x + rhs.x,
            r.y == self.y + rhs.y,
    {
        UVec2::new(self.x + rhs.x, self.y + rhs.y)
    }
}

impl<'a, 'b> vstd::std_specs::ops::AddSpecImpl<&'b UVec2> for &'a UVec2 {
    open spec fn obeys_add_spec() -> bool {
        true
    }

    open spec fn add_req(self, rhs: &'b UVec2) -> bool {
        self.x + rhs.x <= u32::MAX && self.y + rhs.y <= u32::MAX
    }

    open spec fn add_spec(self, rhs: &'b UVec2) -> UVec2 {
        UVec2 { x: (self.x + rhs.x) as u32, y: (self.y + rhs.y) as u32 }
    }
}

impl<'a, 'b> core::ops::Add<&'b UVec2> for &'a UVec2 {
    type Output = UVec2;

    fn add(self, rhs: &'b UVec2) -> (r: UVec2)
        ensures
            r.x == self.x + rhs.x,
            r.y == self.y + rhs.y,
    {
        UVec2::new(self.x + rhs.x, self.y + rhs.y)
    }
}

impl<'b> vstd::std_specs::ops::SubSpecImpl<&'b UVec2> for UVec2 {
    open spec fn obeys_sub_spec() -> bool {
        true
    }

    open spec fn sub_req(self, rhs: &'b UVec2) -> bool {
        rhs.x <= self.x && rhs.y <= self.y
    }

    open spec fn sub_spec(self, rhs: &'b UVec2) -> UVec2 {
        UVec2 { x: (self.x - rhs.x) as u32, y: (self.y - rhs.y) as u32 }
    }
}

impl<'b> core::ops::Sub<&'b UVec2> for UVec2 {
    type Output = UVec2;

    fn sub(self, rhs: &'b UVec2) -> (r: UVec2)
        ensures
            r.x == self.x - rhs.x,
            r.y == self.y - rhs.y,
    {
        UVec2::new(self.x - rhs.x, self.y - rhs.y)
    }
}

impl<'a> vstd::std_specs::ops::SubSpecImpl<UVec2> for &'a UVec2 {
    open spec fn obeys_sub_spec() -> bool {
        true
    }

    open spec fn sub_req(self, rhs: UVec2) -> bool {
        rhs.x <= self.x && rhs.y <= self.y
    }

    open spec fn sub_spec(self, rhs: UVec2) -> UVec2 {
        UVec2 { x: (self.x - rhs.x) as u32, y: (self.y - rhs.y) as u32 }
    }
}

impl<'a> core::ops::Sub<UVec2> for &'a UVec2 {
    type Output = UVec2;

    fn sub(self, rhs: UVec2) -> (r: UVec2)
        ensures
            r.x == self.x - rhs.x,
            r.y == self.y - rhs.y,
    {
        UVec2::new(self.x - rhs.x, self.y - rhs.y)
    }
}

impl<'a, 'b> vstd::std_specs::ops::SubSpecImpl<&'b UVec2> for &'a UVec2 {
    open spec fn obeys_sub_spec() -> bool {
        true
    }

    open spec fn sub_req(self, rhs: &'b UVec2) -> bool {
        rhs.x <= self.x && rhs.y <= self.y
    }

    open spec fn sub_spec(self, rhs: &'b UVec2) -> UVec2 {
        UVec2 { x: (self.x - rhs.x) as u32, y: (self.y - rhs.y) as u32 }
    }
}

impl<'a, 'b> core::ops::Sub<&'b UVec2> for &'a UVec2 {
    type Output = UVec2;

    fn sub(self, rhs: &'b UVec2) -> (r: UVec2)
        ensures
            r.x == self.x - rhs.x,
            r.y == self.y - rhs.y,
    {
        UVec2::new(self.x - rhs.x, self.y - rhs.y)
    }
}

/// Shorthand for `IVec2::new`.
pub fn ivec2(x: i32, y: i32) -> (r: IVec2)
    ensures
        r.x == x,
        r.y == y,
{
    IVec2::new(x, y)
}

/// Shorthand for `UVec2::new`.
pub fn uvec2(x: u32, y: u32) -> (r: UVec2)
    ensures
        r.x == x,
        r.y == y,
{
    UVec2::new(x, y)
}

/// One of the three coordinate axes.
#[derive(Debug, Copy, Clone)]
pub enum Axis {
    X,
    Y,
    Z,
}

/// A fixed-size vector whose `N` components of type `T` can be read by index
/// and converted to and from an array.
pub trait VectorLike<const N: usize, T>: Sized {
    /// The component at `index`, which must be less than `N`.
    fn component(&self, index: usize) -> T
        requires
            index < N,
    ;

    /// The components as an array.
    fn data(&self) -> [T; N];

    /// A vector made of the given components.
    fn from_data(data: [T; N]) -> Self;
}

} // verus!
