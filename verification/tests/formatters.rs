use chrono::DateTime;
use loggy::extras::Extras;
use loggy::formatter::json::{assemble_json_line, assemble_json_object};
use loggy::formatter::plain_text::assemble_plain_line;
use loggy::formatter::{Formatter, JsonFormatter, PlainTextFormatter};
use loggy::timestamp::Timestamp;
use loggy::{Level, LogRecord};

const STAMP: &str = "2026-02-18T18:16:34.775+00:00";

fn sample_instant() -> Timestamp {
    Timestamp::from_millis(1771438594775).unwrap()
}

fn extras_of(pairs: &[(&str, &str)]) -> Extras {
    let mut extras = Extras::new();
    for (k, v) in pairs {
        extras.insert(k.to_string(), v.to_string());
    }
    extras
}

fn record<'a>(level: Level, message: &'a str, pairs: &[(&str, &str)]) -> LogRecord<'a> {
    LogRecord { level, message, timestamp: sample_instant(), extras: extras_of(pairs) }
}

#[test]
fn json_format_sample_record() {
    let extras = extras_of(&[("service", "logging-service")]);
    let record = LogRecord {
        level: Level::Info,
        message: "Hello world",
        timestamp: Timestamp::from_millis(1771438594775).unwrap(),
        extras,
    };
    let result = JsonFormatter.format(&record);
    let expected = "{\"extras\":{\"service\":\"logging-service\"},\"level\":\"INFO\",\"message\":\"Hello world\",\"timestamp\":\"2026-02-18T18:16:34.775+00:00\"}";
    assert_eq!(result, expected)
}

#[test]
fn plain_text_format_sample_record() {
    let extras = extras_of(&[("service", "logging-service")]);
    let record = LogRecord {
        level: Level::Info,
        message: "Hello world",
        timestamp: Timestamp::from_millis(1771438594775).unwrap(),
        extras,
    };
    let result = PlainTextFormatter.format(&record);
    let expected = "[2026-02-18T18:16:34.775+00:00] INFO: Hello world [service=logging-service]";
    assert_eq!(result, expected)
}

#[test]
fn plain_text_without_extras_has_no_bracket_group() {
    let r = record(Level::Info, "User Giovanni logged in", &[]);
    let text = PlainTextFormatter.format(&r);
    assert_eq!(text, format!("[{}] INFO: User Giovanni logged in", STAMP));
    assert!(!text.ends_with(' '));
    assert!(!text.ends_with(']'));
}

#[test]
fn plain_text_separates_extras_by_single_spaces() {
    let r = record(Level::Error, "boom", &[("b", "2"), ("a", "1"), ("c", "")]);
    assert_eq!(PlainTextFormatter.format(&r), format!("[{}] ERROR: boom [a=1 b=2 c=]", STAMP));
}

#[test]
fn plain_text_names_every_level() {
    let names = [
        (Level::Debug, "DEBUG"),
        (Level::Info, "INFO"),
        (Level::Warn, "WARN"),
        (Level::Error, "ERROR"),
        (Level::Fatal, "FATAL"),
    ];
    for (level, name) in names {
        let r = record(level, "m", &[]);
        assert_eq!(PlainTextFormatter.format(&r), format!("[{}] {}: m", STAMP, name));
    }
}

#[test]
fn plain_text_keeps_the_message_as_it_is() {
    let r = record(Level::Warn, "", &[]);
    assert_eq!(PlainTextFormatter.format(&r), format!("[{}] WARN: ", STAMP));
    let s = record(Level::Warn, "a \"quoted\" [x=y] é", &[]);
    assert_eq!(PlainTextFormatter.format(&s), format!("[{}] WARN: a \"quoted\" [x=y] é", STAMP));
}

#[test]
fn assemble_plain_line_uses_the_stamp_given() {
    let extras = extras_of(&[("k", "v")]);
    assert_eq!(assemble_plain_line("T", Level::Fatal, "m", &extras), "[T] FATAL: m [k=v]");
    assert_eq!(assemble_plain_line("", Level::Debug, "", &Extras::new()), "[] DEBUG: ");
}

#[test]
fn json_with_extras_matches_the_golden_line() {
    let r = record(Level::Info, "User Giovanni logged in", &[("service", "login-service")]);
    assert_eq!(
        JsonFormatter.format(&r),
        format!(
            "{{\"extras\":{{\"service\":\"login-service\"}},\"level\":\"INFO\",\"message\":\"User Giovanni logged in\",\"timestamp\":\"{}\"}}",
            STAMP
        )
    );
}

#[test]
fn json_without_extras_has_an_empty_object() {
    let r = record(Level::Debug, "m", &[]);
    assert_eq!(
        JsonFormatter.format(&r),
        format!("{{\"extras\":{{}},\"level\":\"DEBUG\",\"message\":\"m\",\"timestamp\":\"{}\"}}", STAMP)
    );
}

#[test]
fn json_orders_extras_by_key() {
    let r = record(Level::Warn, "m", &[("zeta", "1"), ("alpha", "2"), ("Mid", "3")]);
    assert_eq!(
        JsonFormatter.format(&r),
        format!(
            "{{\"extras\":{{\"Mid\":\"3\",\"alpha\":\"2\",\"zeta\":\"1\"}},\"level\":\"WARN\",\"message\":\"m\",\"timestamp\":\"{}\"}}",
            STAMP
        )
    );
}

#[test]
fn json_escapes_what_a_string_may_not_hold() {
    let r = record(Level::Error, "say \"hi\"\\\n\ttab\u{1}é", &[("k\"", "v\n")]);
    assert_eq!(
        JsonFormatter.format(&r),
        format!(
            "{{\"extras\":{{\"k\\\"\":\"v\\n\"}},\"level\":\"ERROR\",\"message\":\"say \\\"hi\\\"\\\\\\n\\ttab\\u0001é\",\"timestamp\":\"{}\"}}",
            STAMP
        )
    );
}

#[test]
fn json_line_is_a_single_line() {
    let r = record(Level::Info, "first\nsecond\r\nthird", &[("a\nb", "c\nd")]);
    let text = JsonFormatter.format(&r);
    assert!(!text.contains('\n'));
    assert!(!text.contains('\r'));
}

#[test]
fn json_round_trip_yields_the_four_keys() {
    let cases: Vec<(Level, &str, Vec<(&str, &str)>)> = vec![
        (Level::Debug, "", vec![]),
        (Level::Info, "User Giovanni logged in", vec![("service", "login-service")]),
        (Level::Warn, "quote \" backslash \\ newline \n unicode é日本", vec![("a", "1"), ("b", "2")]),
        (Level::Error, "{\"not\":\"an object\"}", vec![("", ""), ("k\"", "\u{7f}")]),
        (Level::Fatal, "\u{0}\u{1f}", vec![("timestamp", "x"), ("level", "y")]),
    ];
    for (level, message, pairs) in cases {
        let r = record(level, message, &pairs);
        let text = JsonFormatter.format(&r);
        let value: serde_json::Value = serde_json::from_str(&text).unwrap();
        let object = value.as_object().unwrap();
        let mut keys: Vec<&str> = object.keys().map(|k| k.as_str()).collect();
        keys.sort();
        assert_eq!(keys, vec!["extras", "level", "message", "timestamp"]);
        assert_eq!(object["level"].as_str().unwrap(), level.as_str());
        assert_eq!(object["message"].as_str().unwrap(), message);
        let stamp = object["timestamp"].as_str().unwrap();
        let parsed = DateTime::parse_from_rfc3339(stamp).unwrap();
        assert_eq!(parsed.timestamp_millis(), 1771438594775);
        let extras = object["extras"].as_object().unwrap();
        assert_eq!(extras.len(), pairs.len());
        for (k, v) in pairs {
            assert_eq!(extras[k].as_str().unwrap(), v);
        }
        assert_eq!(value.to_string(), text);
    }
}

#[test]
fn json_key_order_is_alphabetical() {
    let r = record(Level::Info, "m", &[]);
    let text = JsonFormatter.format(&r);
    let extras = text.find("\"extras\":").unwrap();
    let level = text.find("\"level\":").unwrap();
    let message = text.find("\"message\":").unwrap();
    let timestamp = text.find("\"timestamp\":").unwrap();
    assert!(extras < level && level < message && message < timestamp);
    assert!(text.starts_with("{\"extras\":"));
    assert!(text.ends_with("\"}"));
}

#[test]
fn assemble_json_object_joins_members_with_commas() {
    let none: Vec<(String, String)> = Vec::new();
    assert_eq!(assemble_json_object(&none), "{}");
    let one = vec![("\"a\"".to_string(), "1".to_string())];
    assert_eq!(assemble_json_object(&one), "{\"a\":1}");
    let two = vec![
        ("\"a\"".to_string(), "\"x\"".to_string()),
        ("\"b\"".to_string(), "{}".to_string()),
    ];
    assert_eq!(assemble_json_object(&two), "{\"a\":\"x\",\"b\":{}}");
}

#[test]
fn assemble_json_line_frames_the_four_values() {
    assert_eq!(
        assemble_json_line("E", "L", "M", "T"),
        "{\"extras\":E,\"level\":L,\"message\":M,\"timestamp\":T}"
    );
}

#[test]
fn formatting_is_repeatable() {
    let r = record(Level::Info, "same", &[("x", "1"), ("y", "2")]);
    assert_eq!(JsonFormatter.format(&r), JsonFormatter.format(&r));
    assert_eq!(PlainTextFormatter.format(&r), PlainTextFormatter.format(&r));
    let again = record(Level::Info, "same", &[("y", "2"), ("x", "1")]);
    assert_eq!(JsonFormatter.format(&r), JsonFormatter.format(&again));
    assert_eq!(PlainTextFormatter.format(&r), PlainTextFormatter.format(&again));
}

#[test]
fn record_new_stamps_the_current_time() {
    let before = chrono::Utc::now();
    let r = LogRecord::new(Level::Warn, "now", extras_of(&[("k", "v")]));
    let after = chrono::Utc::now();
    assert_eq!(r.level, Level::Warn);
    assert_eq!(r.message, "now");
    assert_eq!(r.extras.get("k"), Some("v"));
    assert_eq!(r.extras.len(), 1);
    let at = DateTime::from_timestamp(r.timestamp.seconds(), r.timestamp.subsec_nanos()).unwrap();
    assert!(before <= at && at <= after);
}
