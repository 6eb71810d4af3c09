use std::collections::HashMap;

use chrono::TimeZone;

use uptime::clock::{current_heartbeat_content, display_from, heartbeat_display, timestamp_from_reading};
use uptime::codec::parse_timestamp;
use uptime::message::{build_reboot_message, user_agent, webhook_payload};

#[test]
fn message_exact_text() {
    let m = build_reboot_message("host", "2024-01-02 03:04");
    assert_eq!(
        m,
        "System **host** has booted. Last heartbeat was at **2024-01-02 03:04**"
    );
}

#[test]
fn payload_exact_text() {
    assert_eq!(webhook_payload("hello"), "{\"content\":\"hello\"}");
    assert_eq!(webhook_payload(""), "{\"content\":\"\"}");
}

#[test]
fn payload_escapes_like_a_json_serializer() {
    assert_eq!(
        webhook_payload("a\"b\\c\nd"),
        "{\"content\":\"a\\\"b\\\\c\\nd\"}"
    );
    assert_eq!(webhook_payload("\t"), "{\"content\":\"\\t\"}");
    assert_eq!(webhook_payload("\r"), "{\"content\":\"\\r\"}");
    assert_eq!(webhook_payload("\u{8}\u{c}"), "{\"content\":\"\\b\\f\"}");
    assert_eq!(webhook_payload("\u{1}"), "{\"content\":\"\\u0001\"}");
    assert_eq!(webhook_payload("\u{1f}"), "{\"content\":\"\\u001f\"}");
}

#[test]
fn payload_matches_serde_json() {
    let messages = [
        "System **box** has booted. Last heartbeat was at **2024-01-02 03:04**",
        "quote \" backslash \\ newline \n tab \t bell \u{7}",
        "h\u{e9}llo \u{2713} caf\u{e9}",
        "",
    ];
    for msg in messages {
        let mut body = HashMap::new();
        body.insert("content", msg);
        let expected = serde_json::to_string(&body).unwrap();
        assert_eq!(webhook_payload(msg), expected);
    }
}

#[test]
fn user_agent_names_the_tool() {
    assert_eq!(user_agent(), "uptime/0.1.0");
}

#[test]
fn display_matches_local_wall_clock() {
    for t in [0i64, 1700000000, -1, 86400] {
        let expected = chrono::Local
            .timestamp_opt(t, 0)
            .single()
            .unwrap()
            .format("%Y-%m-%d %H:%M")
            .to_string();
        assert_eq!(heartbeat_display(t), expected);
    }
}

#[test]
fn display_falls_back_to_decimal_out_of_range() {
    assert_eq!(heartbeat_display(i64::MAX), i64::MAX.to_string());
    assert_eq!(heartbeat_display(i64::MIN), i64::MIN.to_string());
}

#[test]
fn display_prefers_the_rendering_and_falls_back_to_decimal() {
    assert_eq!(
        display_from(Some(String::from("2024-01-02 03:04")), 1700000000),
        "2024-01-02 03:04"
    );
    assert_eq!(display_from(None, 1700000000), "1700000000");
    assert_eq!(display_from(None, -3), "-3");
}

#[test]
fn clock_reading_floors_toward_minus_infinity() {
    assert_eq!(timestamp_from_reading(false, 5, 0), 5);
    assert_eq!(timestamp_from_reading(false, 5, 999999999), 5);
    assert_eq!(timestamp_from_reading(true, 5, 0), -5);
    assert_eq!(timestamp_from_reading(true, 5, 1), -6);
    assert_eq!(timestamp_from_reading(true, 0, 1), -1);
    assert_eq!(timestamp_from_reading(true, 0, 0), 0);
}

#[test]
fn clock_reading_saturates_at_the_i64_bounds() {
    assert_eq!(timestamp_from_reading(false, u64::MAX, 0), i64::MAX);
    assert_eq!(timestamp_from_reading(false, i64::MAX as u64, 0), i64::MAX);
    assert_eq!(timestamp_from_reading(true, u64::MAX, 1), i64::MIN);
    assert_eq!(timestamp_from_reading(true, 9223372036854775808, 0), i64::MIN);
    assert_eq!(timestamp_from_reading(true, i64::MAX as u64, 1), i64::MIN);
}

#[test]
fn current_content_parses_back() {
    let content = current_heartbeat_content();
    let t = parse_timestamp(&content).expect("current heartbeat must parse");
    assert!(t > 0);
}
