use liblogger::config::{LogConfig, LogType};
use liblogger::level::LogLevel;
use liblogger::logger::{LogAction, Logger};
use liblogger::queue::LogQueue;
use liblogger::record::LogRecord;

fn record(msg: &str, line: u32) -> LogRecord {
    LogRecord {
        timestamp: "2024-01-01T00:00:00Z".to_string(),
        level: LogLevel::Info,
        message: msg.to_string(),
        context: None,
        file: "main.rs".to_string(),
        line,
        module: "app".to_string(),
    }
}

fn config_with_threshold(threshold: LogLevel) -> LogConfig {
    let mut cfg = LogConfig::default();
    cfg.log_type = LogType::Console;
    cfg.threshold = threshold;
    cfg
}

#[test]
fn queue_is_first_in_first_out() {
    let mut q = LogQueue::new(8);
    assert!(q.try_enqueue(record("a", 1)).is_ok());
    assert!(q.try_enqueue(record("b", 2)).is_ok());
    assert!(q.try_enqueue(record("c", 3)).is_ok());
    assert_eq!(q.len(), 3);
    assert_eq!(q.dequeue().unwrap().message, "a");
    assert_eq!(q.dequeue().unwrap().message, "b");
    assert_eq!(q.dequeue().unwrap().message, "c");
    assert!(q.dequeue().is_none());
}

#[test]
fn full_queue_hands_the_record_back() {
    let mut q = LogQueue::new(1);
    assert!(q.try_enqueue(record("first", 1)).is_ok());
    match q.try_enqueue(record("second", 2)) {
        Ok(()) => panic!("the queue was full"),
        Err(back) => assert_eq!(back.message, "second"),
    }
    assert_eq!(q.len(), 1);
}

#[test]
fn queue_drain_returns_everything_in_order() {
    let mut q = LogQueue::new(8);
    for i in 0..5u32 {
        assert!(q.try_enqueue(record(&format!("m{}", i), i)).is_ok());
    }
    let out = q.drain();
    assert_eq!(out.len(), 5);
    for (i, r) in out.iter().enumerate() {
        assert_eq!(r.message, format!("m{}", i));
    }
    assert_eq!(q.len(), 0);
}

#[test]
fn uninitialized_logger_falls_back_to_stderr_line() {
    let mut l = Logger::new();
    let a = l.debug("before init", None, "src/main.rs", 11, "boot");
    match a {
        LogAction::WriteStderr(line) => {
            assert!(line.ends_with(" [DEBUG] [main.rs:11] [boot] before init"));
        },
        _ => panic!("an uninitialized runtime writes to stderr"),
    }
}

#[test]
fn reinitialization_is_rejected_unchanged() {
    let mut l = Logger::new();
    assert!(l.init_with_config(config_with_threshold(LogLevel::Info)).is_ok());
    let again = l.init_with_config(config_with_threshold(LogLevel::Error));
    assert!(again.is_err());
    let a = l.info("still on the first config", None, "main.rs", 1, "app");
    assert!(matches!(a, LogAction::Enqueued));
}

#[test]
fn threshold_gate_suppresses_low_levels() {
    let mut l = Logger::new();
    assert!(l.init_with_config(config_with_threshold(LogLevel::Warn)).is_ok());
    assert!(matches!(l.debug("d", None, "main.rs", 1, "app"), LogAction::Suppressed));
    assert!(matches!(l.info("i", None, "main.rs", 2, "app"), LogAction::Suppressed));
    assert!(matches!(l.warn("w", None, "main.rs", 3, "app"), LogAction::Enqueued));
    assert!(matches!(l.error("e", None, "main.rs", 4, "app"), LogAction::Enqueued));
}

#[test]
fn warn_threshold_scenario_keeps_only_warn_and_error_in_order() {
    let mut l = Logger::new();
    assert!(l.init_with_config(config_with_threshold(LogLevel::Warn)).is_ok());
    l.debug("x", None, "main.rs", 1, "app");
    l.warn("y", None, "main.rs", 2, "app");
    l.error("z", None, "main.rs", 3, "app");
    let out = l.shutdown();
    let messages: Vec<&str> = out.iter().map(|r| r.message.as_str()).collect();
    assert_eq!(messages, vec!["y", "z"]);
}

#[test]
fn moderate_load_is_delivered_exactly_once_in_order() {
    let mut l = Logger::new();
    assert!(l.init_with_settings(config_with_threshold(LogLevel::Debug), true, 64).is_ok());
    for i in 0..10u32 {
        let a = l.info(&format!("msg-{}", i), None, "main.rs", i, "app");
        assert!(matches!(a, LogAction::Enqueued));
    }
    let mut seen = Vec::new();
    while let Some(r) = l.take_next() {
        seen.push(r.message);
    }
    let expected: Vec<String> = (0..10).map(|i| format!("msg-{}", i)).collect();
    assert_eq!(seen, expected);
}

#[test]
fn saturated_queue_degrades_to_synchronous_write() {
    let mut l = Logger::new();
    assert!(l.init_with_settings(config_with_threshold(LogLevel::Debug), true, 1).is_ok());
    assert!(matches!(l.info("fills the buffer", None, "main.rs", 1, "app"), LogAction::Enqueued));
    match l.info("overflows the buffer", None, "main.rs", 2, "app") {
        LogAction::WriteSync(r) => assert_eq!(r.message, "overflows the buffer"),
        _ => panic!("an overflowing record is written synchronously, never dropped"),
    }
}

#[test]
fn synchronous_mode_never_buffers() {
    let mut l = Logger::new();
    assert!(l.init_with_settings(config_with_threshold(LogLevel::Debug), false, 8).is_ok());
    match l.info("sync", None, "main.rs", 1, "app") {
        LogAction::WriteSync(r) => {
            assert_eq!(r.message, "sync");
            assert_eq!(r.file, "main.rs");
            assert_eq!(r.line, 1);
            assert_eq!(r.module, "app");
            assert_eq!(r.level, LogLevel::Info);
        },
        _ => panic!("with the asynchronous path off every record is written synchronously"),
    }
}

#[test]
fn shutdown_drains_all_buffered_records() {
    let mut l = Logger::new();
    assert!(l.init_with_settings(config_with_threshold(LogLevel::Debug), true, 64).is_ok());
    for i in 0..5u32 {
        assert!(matches!(
            l.info(&format!("n{}", i), None, "main.rs", i, "app"),
            LogAction::Enqueued
        ));
    }
    let drained = l.shutdown();
    assert_eq!(drained.len(), 5);
    for (i, r) in drained.iter().enumerate() {
        assert_eq!(r.message, format!("n{}", i));
    }
    match l.info("after shutdown", None, "main.rs", 9, "app") {
        LogAction::WriteSync(_) => {},
        _ => panic!("after shutdown the queue accepts no new work"),
    }
}

#[test]
fn context_travels_with_the_record() {
    let mut l = Logger::new();
    assert!(l.init_with_settings(config_with_threshold(LogLevel::Debug), true, 4).is_ok());
    l.warn("w", Some("user=42".to_string()), "deep/path/handler.rs", 77, "api");
    let out = l.shutdown();
    assert_eq!(out.len(), 1);
    assert_eq!(out[0].context.as_deref(), Some("user=42"));
    assert_eq!(out[0].file, "handler.rs");
    assert_eq!(out[0].line, 77);
    assert_eq!(out[0].module, "api");
    assert_eq!(out[0].level, LogLevel::Warn);
    let line = out[0].to_line();
    assert!(line.ends_with(" [WARN] [handler.rs:77] [api] w | Context: user=42"));
}
