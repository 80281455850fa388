use raytracer::common::util::find_interval;
use raytracer::util::{is_sorted, is_sorted_by};

#[test]
fn util_test_is_sorted() {
    let numbers = vec![0.0, 1.0, 2.0, 3.0];
    assert!(is_sorted(&numbers));

    let numbers = vec![2.0, 1.0, 3.0, 4.0];
    assert!(!is_sorted(&numbers));
}

#[test]
fn util_test_is_sorted_by() {
    let numbers = vec![3.0, 2.0, 1.0, 0.0, -1.0];
    assert!(is_sorted_by(&numbers, |a, b| a > b));
}

#[test]
fn test_find_interval() {
    let values = vec![0.0, 1.0, 2.0, 3.0, 4.0, 5.0];
    let idx = find_interval(&values, 4.0);
    assert_eq!(idx, 4);

    let idx = find_interval(&values, 7.0);
    assert_eq!(idx, 4);

    let idx = find_interval(&values, -1.0);
    assert_eq!(idx, 0);
}

#[test]
fn is_sorted_rejects_equal_neighbours() {
    assert!(!is_sorted(&[1, 2, 2, 3]));
    assert!(is_sorted(&[1, 2, 3]));
}

#[test]
fn is_sorted_of_short_slices() {
    let empty: [i32; 0] = [];
    assert!(is_sorted(&empty));
    assert!(is_sorted(&[7]));
}

#[test]
fn is_sorted_by_stops_at_first_failure() {
    let calls = std::cell::Cell::new(0);
    let ok = is_sorted_by(&[1, 5, 2, 8, 9], |a, b| {
        calls.set(calls.get() + 1);
        a < b
    });
    assert!(!ok);
    assert_eq!(calls.get(), 2);
}

#[test]
fn find_interval_between_nodes() {
    let values = [1, 3, 5, 7, 9];
    assert_eq!(find_interval(&values, 4), 2);
    assert_eq!(find_interval(&values, 3), 1);
    assert_eq!(find_interval(&values, 0), 0);
    assert_eq!(find_interval(&values, 9), 3);
    assert_eq!(find_interval(&values, 100), 3);
}

#[test]
fn find_interval_two_nodes() {
    assert_eq!(find_interval(&[10, 20], 15), 0);
    assert_eq!(find_interval(&[10, 20], 25), 0);
}

#[test]
fn find_interval_by_predicate() {
    let nodes = [0.0f32, 0.25, 0.5, 0.75, 1.0];
    let idx = raytracer::util::find_interval(nodes.len(), |i| nodes[i] <= 0.6);
    assert_eq!(idx, 2);
    let idx = raytracer::util::find_interval(nodes.len(), |i| nodes[i] <= -1.0);
    assert_eq!(idx, 0);
    let idx = raytracer::util::find_interval(nodes.len(), |i| nodes[i] <= 2.0);
    assert_eq!(idx, 3);
}

#[test]
fn find_interval_by_predicate_each_boundary() {
    for boundary in 0..20usize {
        let idx = raytracer::util::find_interval(20, |i| i <= boundary);
        assert_eq!(idx, boundary.clamp(0, 18));
    }
}

#[test]
fn find_interval_by_predicate_without_interval() {
    assert_eq!(raytracer::util::find_interval(1, |_| true), usize::MAX);
    assert_eq!(raytracer::util::find_interval(0, |_| true), usize::MAX - 1);
    assert_eq!(raytracer::util::find_interval(2, |_| true), 0);
}
