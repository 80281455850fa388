use raytracer::common::random::random_int;
use raytracer::common::util::{measure, try_measure};
use raytracer::sample::stratified_1d;
use raytracer::util::is_sorted;

#[test]
fn test_stratified_1d() {
    let count = 5;
    let mut sampler = stratified_1d(count);
    let mut samples: Vec<f32> = Vec::new();
    while let Some(stratum) = sampler.next_stratum() {
        samples.push((stratum as f32 + rand::random::<f32>()) / count as f32);
    }
    assert!(is_sorted(&samples));
    assert_eq!(samples.len(), 5);
}

#[test]
fn stratified_hands_out_each_stratum_once() {
    let mut sampler = stratified_1d(3);
    assert_eq!(sampler.size_hint(), (3, Some(3)));
    assert_eq!(sampler.next_stratum(), Some(0));
    assert_eq!(sampler.next_stratum(), Some(1));
    assert_eq!(sampler.size_hint(), (1, Some(1)));
    assert_eq!(sampler.clone().count(), 3);
    assert_eq!(sampler.next_stratum(), Some(2));
    assert_eq!(sampler.next_stratum(), None);
    assert_eq!(sampler.next_stratum(), None);
    assert_eq!(sampler.size_hint(), (0, Some(0)));
}

#[test]
fn stratified_without_strata() {
    let mut sampler = stratified_1d(0);
    assert_eq!(sampler.next_stratum(), None);
    assert_eq!(sampler.count(), 0);
}

#[test]
fn random_int_stays_in_range() {
    for _ in 0..1000 {
        let n = random_int(-3, 4);
        assert!((-3..4).contains(&n));
    }
    assert_eq!(random_int(7, 8), 7);
}

#[test]
fn measure_returns_the_value() {
    assert_eq!(measure("sum", || 2 + 3), 5);
}

#[test]
fn try_measure_passes_results_through() {
    let ok: Result<i32, String> = try_measure("ok", || Ok(4));
    assert_eq!(ok, Ok(4));
    let err: Result<i32, String> = try_measure("err", || Err("bad".to_string()));
    assert_eq!(err, Err("bad".to_string()));
}

#[test]
fn random_int_draws_more_than_its_lower_bound() {
    let draws: Vec<i32> = (0..200).map(|_| random_int(0, 2)).collect();
    assert!(draws.contains(&0));
    assert!(draws.contains(&1));
}

#[test]
fn stratified_run_yields_each_stratum_then_none() {
    let count = 7;
    let mut sampler = stratified_1d(count);
    let outs: Vec<Option<usize>> = (0..count + 3).map(|_| sampler.next_stratum()).collect();
    for (i, out) in outs.iter().enumerate() {
        if i < count {
            assert_eq!(*out, Some(i));
        } else {
            assert_eq!(*out, None);
        }
    }
}
