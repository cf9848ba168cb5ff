use liblogger::format::{basename, format_json_payload, format_log_line, u64_to_string};
use liblogger::level::LogLevel;

#[test]
fn decimal_rendering() {
    assert_eq!(u64_to_string(0), "0");
    assert_eq!(u64_to_string(7), "7");
    assert_eq!(u64_to_string(42), "42");
    assert_eq!(u64_to_string(1000), "1000");
    assert_eq!(u64_to_string(4294967295), "4294967295");
    assert_eq!(u64_to_string(18446744073709551615), "18446744073709551615");
}

#[test]
fn basename_strips_directories() {
    assert_eq!(basename("src/main.rs"), "main.rs");
    assert_eq!(basename("a/b/c/mod.rs"), "mod.rs");
    assert_eq!(basename("main.rs"), "main.rs");
    assert_eq!(basename(""), "");
    assert_eq!(basename("/main.rs"), "main.rs");
}

#[test]
fn line_without_context() {
    let line = format_log_line(
        "2024-01-01T00:00:00Z",
        &LogLevel::Info,
        "hello world",
        "main.rs",
        42,
        "app",
        None,
    );
    assert_eq!(line, "2024-01-01T00:00:00Z [INFO] [main.rs:42] [app] hello world");
}

#[test]
fn line_with_context() {
    let line = format_log_line(
        "2024-01-01T00:00:00Z",
        &LogLevel::Error,
        "boom",
        "worker.rs",
        7,
        "jobs",
        Some("job=17"),
    );
    assert_eq!(line, "2024-01-01T00:00:00Z [ERROR] [worker.rs:7] [jobs] boom | Context: job=17");
}

#[test]
fn line_passes_delimiters_verbatim() {
    let line = format_log_line(
        "2024-01-01T00:00:00Z",
        &LogLevel::Warn,
        "odd [stuff] | Context: fake",
        "main.rs",
        1,
        "app",
        None,
    );
    assert_eq!(
        line,
        "2024-01-01T00:00:00Z [WARN] [main.rs:1] [app] odd [stuff] | Context: fake"
    );
}

#[test]
fn payload_without_context_omits_key() {
    let payload = format_json_payload(
        "2024-01-01T00:00:00Z",
        &LogLevel::Info,
        "hello",
        "main.rs",
        42,
        "app",
        None,
    );
    assert_eq!(
        payload,
        "{\"timestamp\":\"2024-01-01T00:00:00Z\",\"level\":\"INFO\",\"message\":\"hello\",\"file\":\"main.rs\",\"line\":42,\"module\":\"app\"}"
    );
    assert!(!payload.contains("context"));
    assert!(!payload.contains("null"));
}

#[test]
fn payload_with_context() {
    let payload = format_json_payload(
        "2024-01-01T00:00:00Z",
        &LogLevel::Warn,
        "slow",
        "db.rs",
        3,
        "db",
        Some("t=90ms"),
    );
    assert_eq!(
        payload,
        "{\"timestamp\":\"2024-01-01T00:00:00Z\",\"level\":\"WARN\",\"message\":\"slow\",\"file\":\"db.rs\",\"line\":3,\"module\":\"db\",\"context\":\"t=90ms\"}"
    );
}

#[test]
fn payload_escapes_json_characters() {
    let payload = format_json_payload(
        "2024-01-01T00:00:00Z",
        &LogLevel::Info,
        "say \"hi\" \\ and\nmore\tdone",
        "main.rs",
        1,
        "app",
        None,
    );
    assert!(payload.contains("\"message\":\"say \\\"hi\\\" \\\\ and\\nmore\\tdone\""));
}

#[test]
fn payload_escapes_control_characters() {
    let payload = format_json_payload(
        "t",
        &LogLevel::Info,
        "a\u{1}b\u{1f}c\u{8}d\u{c}e\r",
        "f",
        1,
        "m",
        None,
    );
    assert!(payload.contains("\"message\":\"a\\u0001b\\u001fc\\bd\\fe\\r\""));
}

#[test]
fn payload_passes_unicode_through() {
    let payload = format_json_payload(
        "t",
        &LogLevel::Info,
        "caf\u{e9} \u{2713}",
        "f",
        1,
        "m",
        None,
    );
    assert!(payload.contains("\"message\":\"caf\u{e9} \u{2713}\""));
}
