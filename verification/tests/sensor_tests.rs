use epycd8_fan_control::sensor::{
    parse_u32_str, reading_from_content, sanitize_reading, temp_from_content, trim_str,
    MIN_PLAUSIBLE_TEMP_C, SENTINEL_TEMP_C,
};

#[test]
fn millidegrees_parse_to_whole_degrees() {
    assert_eq!(temp_from_content("45000"), 45);
    assert_eq!(reading_from_content("45000"), 45);
}

#[test]
fn implausibly_low_reading_becomes_sentinel() {
    // "5000" parses fine (5 degrees) but fails the plausibility test
    assert_eq!(temp_from_content("5000"), 5);
    assert_eq!(reading_from_content("5000"), SENTINEL_TEMP_C);
}

#[test]
fn plausibility_boundary() {
    assert_eq!(sanitize_reading(MIN_PLAUSIBLE_TEMP_C - 1), SENTINEL_TEMP_C);
    assert_eq!(sanitize_reading(MIN_PLAUSIBLE_TEMP_C), MIN_PLAUSIBLE_TEMP_C);
    assert_eq!(sanitize_reading(0), SENTINEL_TEMP_C);
    assert_eq!(sanitize_reading(75), 75);
}

#[test]
fn surrounding_whitespace_is_trimmed() {
    assert_eq!(reading_from_content("45000\n"), 45);
    assert_eq!(reading_from_content("  45000\t\r\n"), 45);
    assert_eq!(trim_str("  45000\n"), "45000");
    assert_eq!(trim_str("\n"), "");
    assert_eq!(trim_str("a b"), "a b");
}

#[test]
fn unparseable_content_becomes_sentinel() {
    assert_eq!(reading_from_content(""), SENTINEL_TEMP_C);
    assert_eq!(reading_from_content("abc"), SENTINEL_TEMP_C);
    assert_eq!(reading_from_content("45.0"), SENTINEL_TEMP_C);
    assert_eq!(reading_from_content("-45000"), SENTINEL_TEMP_C);
    assert_eq!(reading_from_content("45 000"), SENTINEL_TEMP_C);
    assert_eq!(reading_from_content("99999999999999"), SENTINEL_TEMP_C);
}

#[test]
fn parse_accepts_plain_and_plus_decimals() {
    assert_eq!(parse_u32_str("45000"), Some(45000));
    assert_eq!(parse_u32_str("+45000"), Some(45000));
    assert_eq!(parse_u32_str("0"), Some(0));
    assert_eq!(parse_u32_str("4294967295"), Some(u32::MAX));
}

#[test]
fn parse_rejects_junk_and_overflow() {
    assert_eq!(parse_u32_str(""), None);
    assert_eq!(parse_u32_str("+"), None);
    assert_eq!(parse_u32_str("++1"), None);
    assert_eq!(parse_u32_str("-1"), None);
    assert_eq!(parse_u32_str("12a"), None);
    assert_eq!(parse_u32_str("a12"), None);
    assert_eq!(parse_u32_str("4294967296"), None);
    assert_eq!(parse_u32_str("18446744073709551617"), None);
}

#[test]
fn parse_agrees_with_std() {
    for s in ["45000", "+7", "0", "007", "4294967295", "4294967296", "", "+", "1e3", " 1"] {
        assert_eq!(parse_u32_str(s), s.parse::<u32>().ok(), "input {:?}", s);
    }
}
