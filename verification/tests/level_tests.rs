use liblogger::level::LogLevel;
use std::cmp::Ordering;

#[test]
fn should_log_matches_total_order() {
    let levels = [LogLevel::Debug, LogLevel::Info, LogLevel::Warn, LogLevel::Error];
    let rank = |l: &LogLevel| match l {
        LogLevel::Debug => 0,
        LogLevel::Info => 1,
        LogLevel::Warn => 2,
        LogLevel::Error => 3,
    };
    for l in &levels {
        for t in &levels {
            assert_eq!(l.should_log(t), rank(l) >= rank(t));
        }
    }
}

#[test]
fn should_log_examples() {
    assert!(!LogLevel::Debug.should_log(&LogLevel::Warn));
    assert!(LogLevel::Error.should_log(&LogLevel::Error));
    assert!(LogLevel::Warn.should_log(&LogLevel::Info));
    assert!(!LogLevel::Info.should_log(&LogLevel::Warn));
}

#[test]
fn debug_threshold_passes_everything() {
    for l in [LogLevel::Debug, LogLevel::Info, LogLevel::Warn, LogLevel::Error] {
        assert!(l.should_log(&LogLevel::Debug));
    }
}

#[test]
fn error_threshold_passes_only_error() {
    assert!(!LogLevel::Debug.should_log(&LogLevel::Error));
    assert!(!LogLevel::Info.should_log(&LogLevel::Error));
    assert!(!LogLevel::Warn.should_log(&LogLevel::Error));
    assert!(LogLevel::Error.should_log(&LogLevel::Error));
}

#[test]
fn as_str_names() {
    assert_eq!(LogLevel::Debug.as_str(), "DEBUG");
    assert_eq!(LogLevel::Info.as_str(), "INFO");
    assert_eq!(LogLevel::Warn.as_str(), "WARN");
    assert_eq!(LogLevel::Error.as_str(), "ERROR");
}

#[test]
fn from_str_is_case_insensitive() {
    assert_eq!(LogLevel::from_str("debug"), LogLevel::Debug);
    assert_eq!(LogLevel::from_str("DEBUG"), LogLevel::Debug);
    assert_eq!(LogLevel::from_str("Info"), LogLevel::Info);
    assert_eq!(LogLevel::from_str("wArN"), LogLevel::Warn);
    assert_eq!(LogLevel::from_str("ERROR"), LogLevel::Error);
    assert_eq!(LogLevel::from_str("error"), LogLevel::Error);
}

#[test]
fn from_str_defaults_to_info() {
    assert_eq!(LogLevel::from_str("bogus"), LogLevel::Info);
    assert_eq!(LogLevel::from_str(""), LogLevel::Info);
    assert_eq!(LogLevel::from_str("warning!"), LogLevel::Info);
    assert_eq!(LogLevel::from_str("errors"), LogLevel::Info);
}

#[test]
fn parse_display_round_trip() {
    for l in [LogLevel::Debug, LogLevel::Info, LogLevel::Warn, LogLevel::Error] {
        let lowered = l.as_str().to_lowercase();
        assert_eq!(LogLevel::from_str(&lowered), l);
        assert_eq!(LogLevel::from_str(l.as_str()), l);
    }
}

#[test]
fn compare_follows_the_total_order() {
    let levels = [LogLevel::Debug, LogLevel::Info, LogLevel::Warn, LogLevel::Error];
    for (i, a) in levels.iter().enumerate() {
        for (j, b) in levels.iter().enumerate() {
            assert_eq!(a.compare(b), i.cmp(&j));
        }
    }
    assert_eq!(LogLevel::Debug.compare(&LogLevel::Error), Ordering::Less);
    assert_eq!(LogLevel::Warn.compare(&LogLevel::Warn), Ordering::Equal);
    assert_eq!(LogLevel::Error.compare(&LogLevel::Info), Ordering::Greater);
}
