use epycd8_fan_control::config::{Config, FanConfig, RampStep, TempSource};
use epycd8_fan_control::duty::control_fans;
use epycd8_fan_control::sample::{build_sample_set, SampleSet};
use epycd8_fan_control::sensor::SENTINEL_TEMP_C;

fn step(temp_c: u32, duty_cyc: u32) -> RampStep {
    RampStep { temp_c, duty_cyc }
}

#[test]
fn inserted_readings_are_found() {
    let mut s = SampleSet::new();
    assert_eq!(s.get(&String::from("cpu")), None);
    s.insert(String::from("cpu"), 60);
    s.insert(String::from("ambient"), 25);
    assert_eq!(s.get(&String::from("cpu")), Some(60));
    assert_eq!(s.get(&String::from("ambient")), Some(25));
    assert_eq!(s.get(&String::from("case")), None);
}

#[test]
fn a_later_insert_overrides_an_earlier_one() {
    let mut s = SampleSet::new();
    s.insert(String::from("cpu"), 60);
    s.insert(String::from("cpu"), 72);
    assert_eq!(s.get(&String::from("cpu")), Some(72));
}

#[test]
fn built_sample_set_parses_and_fails_safe() {
    let readings = vec![
        (String::from("cpu"), Some(String::from("60000\n"))),
        (String::from("low"), Some(String::from("5000\n"))),
        (String::from("junk"), Some(String::from("n/a\n"))),
        (String::from("dead"), None),
    ];
    let s = build_sample_set(&readings);
    assert_eq!(s.get(&String::from("cpu")), Some(60));
    assert_eq!(s.get(&String::from("low")), Some(SENTINEL_TEMP_C));
    assert_eq!(s.get(&String::from("junk")), Some(SENTINEL_TEMP_C));
    assert_eq!(s.get(&String::from("dead")), Some(SENTINEL_TEMP_C));
    assert_eq!(s.get(&String::from("absent")), None);
}

fn ramp_fan(source: &str) -> FanConfig {
    FanConfig {
        temp_source_name: String::from(source),
        ramp: vec![step(40, 30), step(60, 70), step(80, 100)],
    }
}

fn config(temp_sources: Vec<TempSource>) -> Config {
    Config {
        interval_ms: 1000,
        temp_sources,
        cpu_fan: ramp_fan("cpu"),
        frnt_fan1: ramp_fan("cpu"),
        frnt_fan2: ramp_fan("cpu"),
        frnt_fan3: ramp_fan("cpu"),
        frnt_fan4: ramp_fan("case"),
        rear_fan1: ramp_fan("case"),
        rear_fan2: ramp_fan("case"),
    }
}

#[test]
fn end_to_end_reading_to_duty() {
    // one source reporting 60 degrees: its fans land on duty 70
    let readings = vec![(String::from("cpu"), Some(String::from("60000\n")))];
    let temps = build_sample_set(&readings);
    let cfg = config(Vec::new());
    let duties = control_fans(&cfg, &temps);
    assert_eq!(duties.cpu, 70);
    assert_eq!(duties.frnt1, 70);
    // fans on the absent "case" source fall back to the sentinel, which
    // lies above the whole ramp and extrapolates to its last duty
    assert_eq!(duties.rear1, 100);
    assert_eq!(duties.rear2, 100);
}

#[test]
fn end_to_end_failed_read_forces_max() {
    // the source fails to read: sentinel 101 against the same ramp gives 100
    let readings = vec![
        (String::from("cpu"), None),
        (String::from("case"), Some(String::from("42000\n"))),
    ];
    let temps = build_sample_set(&readings);
    let cfg = config(Vec::new());
    let duties = control_fans(&cfg, &temps);
    assert_eq!(duties.cpu, 100);
    // 30 + 2 * 40 / 20 = 34
    assert_eq!(duties.frnt4, 34);
    assert_eq!(duties.rear2, 34);
}
