//! Where a film keeps the pixels it accumulates samples in.

use vstd::prelude::*;

use crate::bounds::Bounds2i;
use crate::vec::ivec2_le;

verus! {

/// `(x, y)` is one of the pixel locations of the film's pixel bounds: no
/// lower than the lowest corner and below the highest one.
pub open spec fn pixel_location_in(b: Bounds2i, x: int, y: int) -> bool {
    &&& b.min_corner().x <= x < b.max_corner().x
    &&& b.min_corner().y <= y < b.max_corner().y
}

/// The position of the pixel at `(x, y)` in the film's pixel buffer: the
/// buffer holds one run of `height` pixels for each column, starting with
/// the lowest corner of the pixel bounds.
pub open spec fn pixel_offset(b: Bounds2i, x: int, y: int) -> int {
    b.height_spec() * (x - b.min_corner().x) + (y - b.min_corner().y)
}

/// The position in a film's pixel buffer of the pixel at location `(x, y)`
/// of its pixel bounds. The buffer holds `area` pixels, one for each
/// location, column after column.
pub fn pixel_index(pixel_bounds: &Bounds2i, x: u64, y: u64) -> (r: usize)
    requires
        pixel_location_in(*pixel_bounds, x as int, y as int),
        pixel_bounds.width_spec() * pixel_bounds.height_spec() <= i32::MAX,
    ensures
        r == pixel_offset(*pixel_bounds, x as int, y as int),
        r < pixel_bounds.width_spec() * pixel_bounds.height_spec(),
{
    let ghost w = pixel_bounds.width_spec();
    let ghost h = pixel_bounds.height_spec();
    proof {
        assert(h <= w * h) by (nonlinear_arith)
            requires
                w >= 1,
                h >= 1,
        ;
    }
    let height = pixel_bounds.y_extent() as i64;
    let lo = pixel_bounds.p_min();
    let dx = x as i64 - lo.x as i64;
    let dy = y as i64 - lo.y as i64;
    proof {
        assert(height * dx + dy < w * h && 0 <= height * dx) by (nonlinear_arith)
            requires
                height == h,
                0 <= dx < w,
                0 <= dy < h,
        ;
    }
    (height * dx + dy) as usize
}

/// Each location of the pixel bounds has a pixel of its own: two locations
/// that share a position in the buffer are the same location.
pub proof fn lemma_pixel_offset_injective(b: Bounds2i, x1: int, y1: int, x2: int, y2: int)
    requires
        pixel_location_in(b, x1, y1),
        pixel_location_in(b, x2, y2),
        pixel_offset(b, x1, y1) == pixel_offset(b, x2, y2),
    ensures
        x1 == x2,
        y1 == y2,
{
    let h = b.height_spec();
    let dx1 = x1 - b.min_corner().x;
    let dx2 = x2 - b.min_corner().x;
    let dy1 = y1 - b.min_corner().y;
    let dy2 = y2 - b.min_corner().y;
    assert(dx1 == dx2 && dy1 == dy2) by (nonlinear_arith)
        requires
            0 <= dy1 < h,
            0 <= dy2 < h,
            0 <= dx1,
            0 <= dx2,
            h * dx1 + dy1 == h * dx2 + dy2,
    {
        if dx1 < dx2 {
            assert(h * dx1 + h <= h * dx2);
        } else if dx2 < dx1 {
            assert(h * dx2 + h <= h * dx1);
        }
    }
}

/// Every pixel of the buffer belongs to a location of the pixel bounds: the
/// pixel at position `i`, below `width * height`, is the one of the location
/// `i / height` columns and `i % height` rows past the lowest corner.
pub proof fn lemma_pixel_offset_covers(b: Bounds2i, i: int)
    requires
        ivec2_le(b.min_corner(), b.max_corner()),
        0 <= i < b.width_spec() * b.height_spec(),
    ensures
        pixel_location_in(
            b,
            b.min_corner().x + i / b.height_spec(),
            b.min_corner().y + i % b.height_spec(),
        ),
        pixel_offset(
            b,
            b.min_corner().x + i / b.height_spec(),
            b.min_corner().y + i % b.height_spec(),
        ) == i,
{
    let w = b.width_spec();
    let h = b.height_spec();
    assert(h > 0) by (nonlinear_arith)
        requires
            0 <= i < w * h,
            w >= 0,
            h >= 0,
    ;
    let q = i / h;
    let r = i % h;
    vstd::arithmetic::div_mod::lemma_fundamental_div_mod(i, h);
    vstd::arithmetic::div_mod::lemma_mod_pos_bound(i, h);
    assert(0 <= q < w) by (nonlinear_arith)
        requires
            h > 0,
            0 <= r < h,
            i == h * q + r,
            0 <= i < w * h,
    ;
}

} // verus!
