use raytracer::bounds::Bounds2i;
use raytracer::math::clamp;
use raytracer::vec::{ivec2, uvec2, IVec2, UVec2};

#[test]
fn ivec2_min_max() {
    let a = IVec2::new(3, -4);
    let b = ivec2(-1, 7);
    assert_eq!(a.min(b), ivec2(-1, -4));
    assert_eq!(a.max(b), ivec2(3, 7));
    assert_eq!(b.min(a), a.min(b));
}

#[test]
fn ivec2_add_sub() {
    let a = ivec2(5, -2);
    let b = ivec2(-7, 9);
    assert_eq!(a + b, ivec2(-2, 7));
    assert_eq!(a - b, ivec2(12, -11));
    assert_eq!((a + b) - b, a);
}

#[test]
fn uvec2_add_sub() {
    let a = UVec2::new(5, 9);
    let b = uvec2(2, 4);
    let s = a + b;
    assert_eq!((s.x, s.y), (7, 13));
    let d = a - b;
    assert_eq!((d.x, d.y), (3, 5));
}

#[test]
fn bounds_orders_corners() {
    let b = Bounds2i::new(ivec2(200, 50), ivec2(50, 200));
    assert_eq!(b.p_min(), ivec2(50, 50));
    assert_eq!(b.p_max(), ivec2(200, 200));
    assert_eq!(b, Bounds2i::new(ivec2(50, 200), ivec2(200, 50)));
}

#[test]
fn bounds_extents_and_area() {
    let b = Bounds2i::new(ivec2(50, 50), ivec2(200, 100));
    assert_eq!(b.x_extent(), 150);
    assert_eq!(b.y_extent(), 50);
    assert_eq!(b.area(), 7500);
    let again = Bounds2i::new(b.p_min(), b.p_max());
    assert_eq!(again, b);
    assert_eq!(b.clone(), b);
}

#[test]
fn bounds_of_a_point() {
    let b = Bounds2i::new(ivec2(-3, 4), ivec2(-3, 4));
    assert_eq!(b.area(), 0);
    assert_eq!(b.x_extent(), 0);
}

#[test]
fn clamp_cases() {
    assert_eq!(clamp(5, 0, 10), 5);
    assert_eq!(clamp(-5, 0, 10), 0);
    assert_eq!(clamp(15, 0, 10), 10);
    assert_eq!(clamp(2.5f32, 0.0, 1.0), 1.0);
}

#[test]
fn clamp_twice_is_clamp_once() {
    for x in -5..15 {
        let once = clamp(x, 0, 10);
        assert!((0..=10).contains(&once));
        assert_eq!(clamp(once, 0, 10), once);
    }
}

#[test]
fn bounds_hold_both_corners() {
    let a = ivec2(7, -2);
    let b = ivec2(-4, 9);
    let r = Bounds2i::new(a, b);
    for p in [a, b] {
        assert!(r.p_min().x <= p.x && p.x <= r.p_max().x);
        assert!(r.p_min().y <= p.y && p.y <= r.p_max().y);
    }
}

#[test]
fn min_lies_below_max() {
    let a = ivec2(i32::MIN, 5);
    let b = ivec2(3, i32::MAX);
    let lo = a.min(b);
    let hi = a.max(b);
    assert!(lo.x <= hi.x && lo.y <= hi.y);
    assert_eq!(lo, ivec2(i32::MIN, 5));
    assert_eq!(hi, ivec2(3, i32::MAX));
}

#[test]
fn ivec2_operators_by_reference() {
    let a = ivec2(3, -4);
    let b = ivec2(-1, 10);
    assert_eq!(a + &b, ivec2(2, 6));
    assert_eq!(&a + b, ivec2(2, 6));
    assert_eq!(&a + &b, ivec2(2, 6));
    assert_eq!(a - &b, ivec2(4, -14));
    assert_eq!(&a - b, ivec2(4, -14));
    assert_eq!(&a - &b, ivec2(4, -14));
}

#[test]
fn uvec2_operators_by_reference() {
    let a = uvec2(7, 9);
    let b = uvec2(2, 4);
    let sums = [a + &b, &a + b, &a + &b];
    for s in sums {
        assert_eq!((s.x, s.y), (9, 13));
    }
    let diffs = [a - &b, &a - b, &a - &b];
    for d in diffs {
        assert_eq!((d.x, d.y), (5, 5));
    }
}
