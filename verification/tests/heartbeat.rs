use uptime::codec::{encode_timestamp, parse_frequency, parse_timestamp, read_heartbeat};

#[test]
fn timestamp_round_trip() {
    let samples: Vec<i64> = vec![
        0,
        1,
        -1,
        9,
        10,
        -10,
        1700000000,
        i64::MAX,
        i64::MIN,
    ];
    for t in samples {
        let written = encode_timestamp(t);
        assert_eq!(parse_timestamp(&written), Some(t));
        assert_eq!(read_heartbeat(Some(&written)), Some(t));
    }
}

#[test]
fn encode_matches_decimal_text() {
    assert_eq!(encode_timestamp(0), "0");
    assert_eq!(encode_timestamp(1700000000), "1700000000");
    assert_eq!(encode_timestamp(-42), "-42");
    assert_eq!(encode_timestamp(i64::MAX), "9223372036854775807");
    assert_eq!(encode_timestamp(i64::MIN), "-9223372036854775808");
}

#[test]
fn read_missing_file_is_none() {
    assert_eq!(read_heartbeat(None), None);
}

#[test]
fn read_non_numeric_is_none() {
    for bad in ["abc", "", "12a", "a12", " 1", "1 ", "+", "-", "1.5", "--3", "+-3"] {
        assert_eq!(read_heartbeat(Some(bad)), None);
        assert_eq!(parse_timestamp(bad), None);
    }
}

#[test]
fn parse_accepts_standard_forms() {
    assert_eq!(parse_timestamp("007"), Some(7));
    assert_eq!(parse_timestamp("+5"), Some(5));
    assert_eq!(parse_timestamp("-0"), Some(0));
    assert_eq!(parse_timestamp("9223372036854775807"), Some(i64::MAX));
    assert_eq!(parse_timestamp("-9223372036854775808"), Some(i64::MIN));
    assert_eq!(parse_timestamp("9223372036854775808"), None);
    assert_eq!(parse_timestamp("-9223372036854775809"), None);
    assert_eq!(parse_timestamp("99999999999999999999999"), None);
}

#[test]
fn frequency_boundary_values() {
    assert_eq!(parse_frequency("0"), Some(0));
    assert_eq!(parse_frequency("10"), Some(10));
    assert_eq!(parse_frequency("65535"), Some(65535));
    assert_eq!(parse_frequency("+3"), Some(3));
    assert_eq!(parse_frequency("007"), Some(7));
}

#[test]
fn frequency_rejects_out_of_range_and_junk() {
    assert_eq!(parse_frequency("65536"), None);
    assert_eq!(parse_frequency("-1"), None);
    assert_eq!(parse_frequency("-0"), None);
    assert_eq!(parse_frequency(""), None);
    assert_eq!(parse_frequency("+"), None);
    assert_eq!(parse_frequency("ten"), None);
    assert_eq!(parse_frequency("1 0"), None);
}
