//! The immutable configuration value consumed by the dispatch core.
//!
//! A configuration is produced once at startup by an external loader and
//! never mutated afterwards; every field has a documented default used when
//! the loader leaves it unspecified.

use vstd::prelude::*;
use vstd::string::StringExecFns;
use crate::level::LogLevel;

verus! {

/// The destination for log output.
#[derive(Debug, Clone, Copy, PartialEq, Eq, Structural)]
pub enum LogType {
    /// Standard output.
    Console,
    /// A size-rotating file.
    File,
    /// A remote HTTP endpoint.
    Http,
}

/// All settings of the logging runtime: the sink kind, the severity
/// threshold, file rotation parameters, and HTTP delivery parameters.
#[derive(Debug, Clone)]
pub struct LogConfig {
    /// The destination for log output.
    pub log_type: LogType,
    /// Minimum severity level that will be delivered.
    pub threshold: LogLevel,
    /// Name of the log file when using the `File` output type.
    pub file_path: String,
    /// Directory where log files are stored.
    pub log_folder: String,
    /// Maximum size of a log file in megabytes before rotation.
    pub max_file_size_mb: u64,
    /// URL endpoint for HTTP delivery.
    pub http_endpoint: String,
    /// Timeout in seconds for each HTTP request.
    pub http_timeout_seconds: u64,
}

impl LogConfig {
    /// The documented defaults: console sink, `Info` threshold, `app.log`
    /// in `logs/`, 10 MB rotation, a placeholder local HTTP endpoint, and a
    /// 5-second timeout.
    pub fn default() -> (c: LogConfig)
        ensures
            c.log_type == LogType::Console,
            c.threshold == LogLevel::Info,
            c.file_path@ == "app.log"@,
            c.log_folder@ == "logs"@,
            c.max_file_size_mb == 10,
            c.http_endpoint@ == "http://localhost:8080/logs"@,
            c.http_timeout_seconds == 5,
    {
        LogConfig {
            log_type: LogType::Console,
            threshold: LogLevel::Info,
            file_path: String::from_str("app.log"),
            log_folder: String::from_str("logs"),
            max_file_size_mb: 10,
            http_endpoint: String::from_str("http://localhost:8080/logs"),
            http_timeout_seconds: 5,
        }
    }
}

} // verus!
