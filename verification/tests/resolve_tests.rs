use epycd8_fan_control::config::{Config, FanConfig, SensorSpec, TempSource};
use epycd8_fan_control::resolve::{
    find_sensor, get_path_to_temperature_file, prep_config, temp_label_index, test_if_device,
    HwmonEntry, ResolveError, SensorFile,
};

fn record(file_name: &str, content: &str) -> SensorFile {
    SensorFile { file_name: String::from(file_name), content: String::from(content) }
}

fn entry(path: &str, name_content: &str, files: Vec<SensorFile>) -> HwmonEntry {
    HwmonEntry { path: String::from(path), name_content: String::from(name_content), files }
}

fn registry() -> Vec<HwmonEntry> {
    vec![
        entry(
            "/sys/class/hwmon/hwmon0",
            "acpitz\n",
            vec![record("temp1_label", "acpi\n"), record("temp1_input", "30000\n")],
        ),
        entry(
            "/sys/class/hwmon/hwmon2",
            "nct6779\n",
            vec![
                record("name", "nct6779\n"),
                record("temp1_label", "SYSTIN\n"),
                record("temp3_label", "CPUTIN\n"),
                record("temp3_input", "45000\n"),
            ],
        ),
    ]
}

fn fan(source: &str) -> FanConfig {
    FanConfig { temp_source_name: String::from(source), ramp: Vec::new() }
}

fn config(temp_sources: Vec<TempSource>) -> Config {
    Config {
        interval_ms: 1000,
        temp_sources,
        cpu_fan: fan("cpu"),
        frnt_fan1: fan("cpu"),
        frnt_fan2: fan("cpu"),
        frnt_fan3: fan("cpu"),
        frnt_fan4: fan("cpu"),
        rear_fan1: fan("cpu"),
        rear_fan2: fan("cpu"),
    }
}

#[test]
fn label_pattern_accepts_numeric_indices() {
    assert_eq!(temp_label_index("temp1_label"), Some("1"));
    assert_eq!(temp_label_index("temp12_label"), Some("12"));
    assert_eq!(temp_label_index("temp3_label"), Some("3"));
}

#[test]
fn label_pattern_rejects_other_names() {
    assert_eq!(temp_label_index("temp_label"), None);
    assert_eq!(temp_label_index("temp1_input"), None);
    assert_eq!(temp_label_index("fan1_label"), None);
    assert_eq!(temp_label_index("temp1_crit_label"), None);
    assert_eq!(temp_label_index("tempx_label"), None);
    assert_eq!(temp_label_index("name"), None);
    assert_eq!(temp_label_index(""), None);
}

#[test]
fn device_identity_is_compared_trimmed() {
    let e = entry("/sys/class/hwmon/hwmon2", "  nct6779\n", Vec::new());
    assert!(test_if_device(&e, &String::from("nct6779")));
    assert!(!test_if_device(&e, &String::from("nct")));
}

#[test]
fn find_sensor_derives_input_path() {
    let reg = registry();
    assert_eq!(
        find_sensor(&reg[1], &String::from("CPUTIN")),
        Some(String::from("/sys/class/hwmon/hwmon2/temp3_input"))
    );
    assert_eq!(
        find_sensor(&reg[1], &String::from("SYSTIN")),
        Some(String::from("/sys/class/hwmon/hwmon2/temp1_input"))
    );
    assert_eq!(find_sensor(&reg[1], &String::from("AUXTIN")), None);
}

#[test]
fn resolve_scans_for_the_device_first() {
    let reg = registry();
    assert_eq!(
        get_path_to_temperature_file(&reg, &String::from("nct6779"), &String::from("CPUTIN")),
        Some(String::from("/sys/class/hwmon/hwmon2/temp3_input"))
    );
    assert_eq!(
        get_path_to_temperature_file(&reg, &String::from("k10temp"), &String::from("CPUTIN")),
        None
    );
    // the first matching device decides; its missing sensor is not searched elsewhere
    assert_eq!(
        get_path_to_temperature_file(&reg, &String::from("acpitz"), &String::from("CPUTIN")),
        None
    );
}

#[test]
fn prep_config_keeps_explicit_paths() {
    let mut cfg = config(vec![TempSource {
        name: String::from("cpu"),
        path: Some(String::from("/tmp/reading")),
        sensor: Some(SensorSpec {
            device_name: String::from("nct6779"),
            sensor_name: String::from("CPUTIN"),
        }),
    }]);
    assert!(prep_config(&mut cfg, &registry()).is_ok());
    assert_eq!(cfg.temp_sources[0].path, Some(String::from("/tmp/reading")));
}

#[test]
fn prep_config_resolves_locators() {
    let mut cfg = config(vec![TempSource {
        name: String::from("cpu"),
        path: None,
        sensor: Some(SensorSpec {
            device_name: String::from("nct6779"),
            sensor_name: String::from("CPUTIN"),
        }),
    }]);
    assert!(prep_config(&mut cfg, &registry()).is_ok());
    assert_eq!(
        cfg.temp_sources[0].path,
        Some(String::from("/sys/class/hwmon/hwmon2/temp3_input"))
    );
    assert_eq!(cfg.temp_sources[0].name, String::from("cpu"));
}

#[test]
fn prep_config_fails_without_path_or_locator() {
    let mut cfg = config(vec![TempSource {
        name: String::from("cpu"),
        path: None,
        sensor: None,
    }]);
    match prep_config(&mut cfg, &registry()) {
        Err(ResolveError::MissingSpec { source_name }) => {
            assert_eq!(source_name, String::from("cpu"));
        },
        _ => panic!("expected a missing-spec error"),
    }
    // the configuration is left untouched
    assert_eq!(cfg.temp_sources[0].path, None);
}

#[test]
fn prep_config_fails_on_unresolvable_locator() {
    let mut cfg = config(vec![TempSource {
        name: String::from("cpu"),
        path: None,
        sensor: Some(SensorSpec {
            device_name: String::from("missing"),
            sensor_name: String::from("CPUTIN"),
        }),
    }]);
    match prep_config(&mut cfg, &registry()) {
        Err(e) => {
            assert!(matches!(e, ResolveError::SensorNotFound { .. }));
            assert_eq!(e.source_name(), &String::from("cpu"));
        },
        Ok(()) => panic!("expected resolution to fail"),
    }
}
