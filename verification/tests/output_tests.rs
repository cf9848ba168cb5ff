use liblogger::config::{LogConfig, LogType};
use liblogger::level::LogLevel;
use liblogger::outputs::{create_log_output, ConsoleOutput, FileOutput, HttpOutput, LogBackend, LogOutput};
use liblogger::record::LogRecord;

fn file_config(mb: u64) -> LogConfig {
    let mut cfg = LogConfig::default();
    cfg.log_type = LogType::File;
    cfg.max_file_size_mb = mb;
    cfg
}

#[test]
fn default_configuration_values() {
    let cfg = LogConfig::default();
    assert!(matches!(cfg.log_type, LogType::Console));
    assert_eq!(cfg.threshold, LogLevel::Info);
    assert_eq!(cfg.file_path, "app.log");
    assert_eq!(cfg.log_folder, "logs");
    assert_eq!(cfg.max_file_size_mb, 10);
    assert_eq!(cfg.http_endpoint, "http://localhost:8080/logs");
    assert_eq!(cfg.http_timeout_seconds, 5);
}

#[test]
fn factory_builds_the_configured_backend() {
    let console = create_log_output(&LogConfig::default()).unwrap();
    assert!(matches!(console, LogBackend::Console(_)));

    let file = create_log_output(&file_config(10)).unwrap();
    assert!(matches!(file, LogBackend::File(_)));

    let mut cfg = LogConfig::default();
    cfg.log_type = LogType::Http;
    match create_log_output(&cfg).unwrap() {
        LogBackend::Http(h) => {
            assert_eq!(h.endpoint, "http://localhost:8080/logs");
            assert_eq!(h.timeout_seconds, 5);
        },
        _ => panic!("expected the HTTP backend"),
    }
}

#[test]
fn console_write_succeeds() {
    let mut console = ConsoleOutput;
    let r = console.write_log(
        "2024-01-01T00:00:00Z",
        &LogLevel::Info,
        "console line",
        "main.rs",
        1,
        "app",
        None,
    );
    assert!(r.is_ok());
}

#[test]
fn open_rotates_file_already_at_threshold() {
    let mut fo = FileOutput::new(&file_config(1));
    let rotate = fo.observe_open(1024 * 1024);
    assert!(rotate);
    let mut fo2 = FileOutput::new(&file_config(1));
    let rotate2 = fo2.observe_open(1024 * 1024 - 1);
    assert!(!rotate2);
}

#[test]
fn write_that_would_overflow_rotates_first() {
    let mut fo = FileOutput::new(&file_config(1));
    fo.observe_open(0);
    let threshold: u64 = 1024 * 1024;
    assert!(!fo.needs_rotation(threshold));
    fo.note_written(threshold - 10);
    assert!(!fo.needs_rotation(10));
    fo.note_written(10);
    assert!(fo.needs_rotation(1));
    fo.note_rotated();
    assert!(!fo.needs_rotation(1));
    fo.note_written(1);
}

#[test]
fn rotation_keeps_each_file_within_threshold() {
    let mut fo = FileOutput::new(&file_config(1));
    fo.observe_open(0);
    let threshold: u64 = 1024 * 1024;
    let line_len: u64 = 100_000;
    let mut current: u64 = 0;
    for _ in 0..64 {
        if fo.needs_rotation(line_len) {
            fo.note_rotated();
            current = 0;
        }
        fo.note_written(line_len);
        current += line_len;
        assert!(current <= threshold);
    }
}

#[test]
fn http_payload_and_status_rules() {
    let mut cfg = LogConfig::default();
    cfg.log_type = LogType::Http;
    let h = HttpOutput::new(&cfg);
    let record = LogRecord {
        timestamp: "2024-01-01T00:00:00Z".to_string(),
        level: LogLevel::Error,
        message: "boom".to_string(),
        context: None,
        file: "main.rs".to_string(),
        line: 9,
        module: "app".to_string(),
    };
    let payload = h.payload_for(&record);
    assert_eq!(
        payload,
        "{\"timestamp\":\"2024-01-01T00:00:00Z\",\"level\":\"ERROR\",\"message\":\"boom\",\"file\":\"main.rs\",\"line\":9,\"module\":\"app\"}"
    );
    assert!(h.is_success_status(200));
    assert!(h.is_success_status(204));
    assert!(h.is_success_status(299));
    assert!(!h.is_success_status(199));
    assert!(!h.is_success_status(300));
    assert!(!h.is_success_status(404));
    assert!(!h.is_success_status(500));
}
