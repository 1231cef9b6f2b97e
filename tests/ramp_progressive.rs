use raytracer::config::Config;
use raytracer::progressive::{Progressive, Recorded};
use raytracer::ramp::sampling_ramp;

fn config(width: u32, height: u32, samples: u32) -> Config {
    Config {
        image_width: width,
        image_height: height,
        samples_per_pixel: samples,
        max_depth: 50,
    }
}

#[test]
fn ramp_small_budget_is_one_pass() {
    assert_eq!(sampling_ramp(10), vec![10]);
    assert_eq!(sampling_ramp(64), vec![64]);
    assert_eq!(sampling_ramp(1), vec![1]);
}

#[test]
fn ramp_zero_budget() {
    assert_eq!(sampling_ramp(0), vec![0]);
}

#[test]
fn ramp_halves_larger_budgets() {
    assert_eq!(sampling_ramp(65), vec![33, 32]);
    assert_eq!(sampling_ramp(129), vec![33, 32, 64]);
    assert_eq!(sampling_ramp(200), vec![50, 50, 100]);
    assert_eq!(sampling_ramp(1000), vec![63, 62, 125, 250, 500]);
}

#[test]
fn ramp_adds_up_to_budget() {
    for total in [0u32, 1, 63, 64, 65, 100, 777, 4096, 100_000, u32::MAX] {
        let ramp = sampling_ramp(total);
        let sum: u64 = ramp.iter().map(|&s| s as u64).sum();
        assert_eq!(sum, total as u64);
        if total > 0 {
            assert!(ramp.iter().all(|&s| s >= 1));
        }
    }
}

#[test]
fn progressive_starts_empty() {
    let p = Progressive::new(config(2, 2, 200));
    assert_eq!(p.pass_count(), 3);
    assert_eq!(p.pass(), 0);
    assert_eq!(p.pass_samples(), 50);
    assert_eq!(p.received(), 0);
    assert!(!p.pass_complete());
    assert!(!p.finished());
    for i in 0..4 {
        assert_eq!(p.weight(i), 0);
    }
}

#[test]
fn progressive_results_in_any_order_complete_the_pass() {
    let c = config(3, 2, 5);
    let mut p = Progressive::new(c);
    let mut jobs = c.pass_jobs(p.pass_samples());
    jobs.reverse();
    jobs.swap(0, 3);
    let n = jobs.len();
    for (k, &(s, x, y)) in jobs.iter().enumerate() {
        let rec = p.record(s, x, y).expect("accepted");
        assert_eq!(rec.index, (y * 3 + x) as usize);
        assert_eq!(rec.weight, 5);
        assert_eq!(rec.pass_complete, k == n - 1);
    }
    assert!(p.pass_complete());
    for i in 0..6 {
        assert_eq!(p.weight(i), 5);
    }
    p.next_pass();
    assert!(p.finished());
}

#[test]
fn progressive_weights_accumulate_over_passes() {
    let c = config(1, 2, 129);
    let mut p = Progressive::new(c);
    let mut expected = 0u32;
    while !p.finished() {
        let s = p.pass_samples();
        expected += s;
        assert_eq!(
            p.record(s, 0, 1),
            Some(Recorded { index: 1, weight: expected, pass_complete: false })
        );
        assert_eq!(
            p.record(s, 0, 0),
            Some(Recorded { index: 0, weight: expected, pass_complete: true })
        );
        p.next_pass();
    }
    assert_eq!(expected, 129);
    assert_eq!(p.weight(0), 129);
    assert_eq!(p.weight(1), 129);
}

#[test]
fn progressive_refuses_pixel_outside_image() {
    let mut p = Progressive::new(config(2, 2, 4));
    assert_eq!(p.record(4, 2, 0), None);
    assert_eq!(p.record(4, 0, 2), None);
    assert_eq!(p.received(), 0);
}

#[test]
fn progressive_refuses_result_after_complete_pass() {
    let mut p = Progressive::new(config(1, 1, 4));
    assert!(p.record(4, 0, 0).unwrap().pass_complete);
    assert_eq!(p.record(4, 0, 0), None);
    assert_eq!(p.weight(0), 4);
    p.next_pass();
    assert!(p.finished());
    assert_eq!(p.record(4, 0, 0), None);
}

#[test]
fn progressive_refuses_weight_overflow() {
    let mut p = Progressive::new(config(2, 1, 4));
    assert!(p.record(u32::MAX, 0, 0).is_some());
    assert_eq!(p.record(1, 0, 0), None);
    assert_eq!(p.weight(0), u32::MAX);
    assert_eq!(p.received(), 1);
}

#[test]
fn progressive_empty_image_pass_is_complete() {
    let mut p = Progressive::new(config(0, 4, 8));
    assert!(p.pass_complete());
    p.next_pass();
    assert!(p.finished());
}
