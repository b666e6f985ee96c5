use epycd8_fan_control::config::{FanConfig, RampStep};
use epycd8_fan_control::curve::eval_ramp;
use epycd8_fan_control::duty::compute_dcycle;
use epycd8_fan_control::sample::SampleSet;

fn step(temp_c: u32, duty_cyc: u32) -> RampStep {
    RampStep { temp_c, duty_cyc }
}

#[test]
fn linear_interpolation_midpoint() {
    let ramp = vec![step(30, 20), step(50, 80)];
    assert_eq!(eval_ramp(&ramp, 40), 50);
}

#[test]
fn linear_interpolation_truncates() {
    let ramp = vec![step(30, 20), step(50, 80)];
    // 20 + 5 * 60 / 20 = 35
    assert_eq!(eval_ramp(&ramp, 35), 35);
    // 20 + 3 * 60 / 20 = 29
    assert_eq!(eval_ramp(&ramp, 33), 29);
    // 20 + 7 * 60 / 20 = 41
    assert_eq!(eval_ramp(&ramp, 37), 41);
}

#[test]
fn exact_match_returns_step_duty() {
    let ramp = vec![step(40, 30), step(60, 70), step(80, 100)];
    assert_eq!(eval_ramp(&ramp, 40), 30);
    assert_eq!(eval_ramp(&ramp, 60), 70);
    assert_eq!(eval_ramp(&ramp, 80), 100);
}

#[test]
fn below_range_clamps_to_lowest_duty() {
    let ramp = vec![step(30, 20), step(50, 80)];
    assert_eq!(eval_ramp(&ramp, 0), 20);
    assert_eq!(eval_ramp(&ramp, 29), 20);
}

#[test]
fn above_range_extrapolates_flat() {
    let ramp = vec![step(30, 20), step(50, 80)];
    assert_eq!(eval_ramp(&ramp, 51), 80);
    assert_eq!(eval_ramp(&ramp, 101), 80);
}

#[test]
fn empty_ramp_commands_full_speed() {
    let ramp: Vec<RampStep> = Vec::new();
    assert_eq!(eval_ramp(&ramp, 0), 100);
    assert_eq!(eval_ramp(&ramp, 55), 100);
    assert_eq!(eval_ramp(&ramp, 101), 100);
}

#[test]
fn duty_is_monotonic_over_readings() {
    let ramp = vec![step(25, 10), step(40, 30), step(60, 70), step(80, 100)];
    let mut last = 0u32;
    for t in 0..=120u32 {
        let d = eval_ramp(&ramp, t);
        assert!(d >= last, "duty fell from {} to {} at reading {}", last, d, t);
        last = d;
    }
}

#[test]
fn descending_duties_interpolate_downward() {
    let ramp = vec![step(30, 80), step(50, 20)];
    // 80 - 10 * 60 / 20 = 50
    assert_eq!(eval_ramp(&ramp, 40), 50);
    // truncation toward the higher duty: 80 - 3 * 7 / 10 = 78
    let ramp2 = vec![step(30, 80), step(40, 73)];
    assert_eq!(eval_ramp(&ramp2, 33), 78);
}

#[test]
fn single_step_ramp_is_flat() {
    let ramp = vec![step(50, 40)];
    assert_eq!(eval_ramp(&ramp, 0), 40);
    assert_eq!(eval_ramp(&ramp, 50), 40);
    assert_eq!(eval_ramp(&ramp, 90), 40);
}

#[test]
fn compute_dcycle_uses_sampled_reading() {
    let mut temps = SampleSet::new();
    temps.insert(String::from("cpu"), 60);
    let fan = FanConfig {
        temp_source_name: String::from("cpu"),
        ramp: vec![step(40, 30), step(60, 70), step(80, 100)],
    };
    assert_eq!(compute_dcycle(&temps, &fan), 70);
}

#[test]
fn compute_dcycle_missing_source_forces_max() {
    let temps = SampleSet::new();
    let fan = FanConfig {
        temp_source_name: String::from("cpu"),
        ramp: vec![step(40, 30), step(60, 70), step(80, 100)],
    };
    // sentinel 101 lies above the last step, so its duty answers
    assert_eq!(compute_dcycle(&temps, &fan), 100);
}
