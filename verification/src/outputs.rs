//! The output backends behind a common abstraction: console, size-rotating
//! file, and HTTP endpoint.
//!
//! The console backend writes directly. The file and HTTP backends are
//! state machines over plain values: they make every sizing, rotation and
//! serialization decision here, while the surrounding program performs the
//! actual file and network operations those decisions call for.

use std::io::Write;
use vstd::prelude::*;
use crate::config::{LogConfig, LogType};
use crate::level::LogLevel;
use crate::record::LogRecord;

verus! {

/// The largest rotation threshold, in megabytes, that fits a `u64` once
/// converted to bytes.
pub const MAX_FILE_SIZE_MB: u64 = 0xffff_ffff_ffff_ffff / 0x10_0000;

/// A destination for formatted log output.
pub trait LogOutput {
    /// Deliver one record. Any failure is reported to the caller as an
    /// error message; the dispatch path never panics on it.
    fn write_log(
        &mut self,
        timestamp: &str,
        level: &LogLevel,
        message: &str,
        file: &str,
        line: u32,
        module: &str,
        context: Option<&str>,
    ) -> Result<(), String>;
}

/// Relies on `std::io::Stdout` (via `writeln!`): writes the line and a
/// newline to standard output. Standard output is line buffered, so the
/// newline also flushes the line. The result only reports whether the
/// write succeeded; nothing more is assumed of it.
#[verifier::external_body]
fn write_line_stdout(line: &str) -> (r: Result<(), String>) {
    match writeln!(std::io::stdout(), "{}", line) {
        Ok(()) => Ok(()),
        Err(e) => Err(format!("Failed to write to console: {}", e)),
    }
}

/// The console backend: one formatted line per record, to standard output.
pub struct ConsoleOutput;

impl LogOutput for ConsoleOutput {
    fn write_log(
        &mut self,
        timestamp: &str,
        level: &LogLevel,
        message: &str,
        file: &str,
        line: u32,
        module: &str,
        context: Option<&str>,
    ) -> Result<(), String> {
        let log_line = crate::format::format_log_line(
            timestamp,
            level,
            message,
            file,
            line,
            module,
            context,
        );
        write_line_stdout(log_line.as_str())
    }
}

/// The size a file reaches after one line is written under the rotation
/// policy: when the line would push the current file past the threshold,
/// the file is rotated away first and the line opens a fresh file.
pub open spec fn file_size_after_write(size: int, line_len: int, threshold: int) -> int {
    if size + line_len > threshold {
        line_len
    } else {
        size + line_len
    }
}

/// The size-rotating file backend's state machine: the accumulated size of
/// the active file, the rotation threshold, and whether a file is open.
/// The surrounding program mirrors every decision onto the file system:
/// it rotates when `needs_rotation` says so, and reports each completed
/// write back through `note_written`.
pub struct FileOutput {
    max_file_size_bytes: u64,
    current_size: u64,
    file_open: bool,
}

impl FileOutput {
    /// The rotation threshold in bytes.
    pub closed spec fn threshold(&self) -> int {
        self.max_file_size_bytes as int
    }

    /// The accumulated size of the active file.
    pub closed spec fn size(&self) -> int {
        self.current_size as int
    }

    /// Whether a file is currently open.
    pub closed spec fn is_open(&self) -> bool {
        self.file_open
    }

    /// A closed file backend for the configured file, with the threshold
    /// `max_file_size_mb * 1024 * 1024` bytes.
    pub fn new(config: &LogConfig) -> (out: FileOutput)
        requires
            config.max_file_size_mb <= MAX_FILE_SIZE_MB,
        ensures
            out.threshold() == config.max_file_size_mb * 0x10_0000,
            out.size() == 0,
            !out.is_open(),
    {
        FileOutput {
            max_file_size_bytes: config.max_file_size_mb * 1024 * 1024,
            current_size: 0,
            file_open: false,
        }
    }

    /// Record the opening of the target file, whose on-disk size is
    /// `existing_size`. Returns whether the existing file must be rotated
    /// away first: it must exactly when it is already at or past the
    /// threshold, and the fresh file then starts empty.
    pub fn observe_open(&mut self, existing_size: u64) -> (rotate_first: bool)
        ensures
            rotate_first == (existing_size as int >= old(self).threshold()),
            final(self).threshold() == old(self).threshold(),
            final(self).is_open(),
            final(self).size() == if rotate_first {
                0int
            } else {
                existing_size as int
            },
    {
        if existing_size >= self.max_file_size_bytes {
            self.current_size = 0;
            self.file_open = true;
            true
        } else {
            self.current_size = existing_size;
            self.file_open = true;
            false
        }
    }

    /// Whether writing a line of `line_len` bytes requires rotating first:
    /// it does exactly when the line would push the active file past the
    /// threshold. The check comes strictly before the write, so the record
    /// that would overflow a file is written to the next file instead.
    pub fn needs_rotation(&self, line_len: u64) -> (r: bool)
        requires
            self.size() + line_len <= 0xffff_ffff_ffff_ffff,
        ensures
            r == (self.size() + line_len > self.threshold()),
    {
        self.current_size + line_len > self.max_file_size_bytes
    }

    /// The accumulated size of the active file, in bytes.
    pub fn size_bytes(&self) -> (r: u64)
        ensures
            r == self.size(),
    {
        self.current_size
    }

    /// Record that the active file was rotated away and a fresh one opened.
    pub fn note_rotated(&mut self)
        ensures
            final(self).threshold() == old(self).threshold(),
            final(self).size() == 0,
            final(self).is_open(),
    {
        self.current_size = 0;
        self.file_open = true;
    }

    /// Record that a line of `line_len` bytes was written and flushed.
    pub fn note_written(&mut self, line_len: u64)
        requires
            old(self).size() + line_len <= 0xffff_ffff_ffff_ffff,
        ensures
            final(self).threshold() == old(self).threshold(),
            final(self).size() == old(self).size() + line_len,
            final(self).is_open() == old(self).is_open(),
    {
        self.current_size = self.current_size + line_len;
    }
}

/// One write step keeps the active file within the threshold: as long as
/// no single line is itself larger than the threshold, a file that was
/// within the threshold before a write is within it afterwards — the line
/// that would overflow it goes to the fresh file the rotation opens.
pub proof fn lemma_rotation_keeps_bound(size: int, line_len: int, threshold: int)
    requires
        0 <= size,
        0 <= line_len <= threshold,
        size <= threshold,
    ensures
        file_size_after_write(size, line_len, threshold) <= threshold,
        0 <= file_size_after_write(size, line_len, threshold),
{
}

/// The sizes of the active file after each of a sequence of writes.
pub open spec fn file_sizes_after(size: int, lens: Seq<int>, threshold: int) -> int
    decreases lens.len(),
{
    if lens.len() == 0 {
        size
    } else {
        file_sizes_after(
            file_size_after_write(size, lens.first(), threshold),
            lens.drop_first(),
            threshold,
        )
    }
}

/// Any number of writes keeps the active file within the threshold, as
/// long as no single line exceeds it.
pub proof fn lemma_rotation_keeps_bound_always(size: int, lens: Seq<int>, threshold: int)
    requires
        0 <= size <= threshold,
        forall|i: int| 0 <= i < lens.len() ==> 0 <= #[trigger] lens[i] <= threshold,
    ensures
        0 <= file_sizes_after(size, lens, threshold) <= threshold,
    decreases lens.len(),
{
    if lens.len() > 0 {
        assert(lens.first() == lens[0]);
        lemma_rotation_keeps_bound(size, lens.first(), threshold);
        lemma_rotation_keeps_bound_always(
            file_size_after_write(size, lens.first(), threshold),
            lens.drop_first(),
            threshold,
        );
    }
}

/// The HTTP backend's delivery rules: a fixed endpoint and a hard
/// per-request timeout. Each record becomes one POST of its JSON payload
/// with no retry and no buffering of failed payloads; success requires a
/// 2xx-class status.
pub struct HttpOutput {
    /// The URL every payload is posted to.
    pub endpoint: String,
    /// The hard timeout applied to each request, in seconds.
    pub timeout_seconds: u64,
}

impl HttpOutput {
    /// The delivery rules the configuration calls for.
    pub fn new(config: &LogConfig) -> (out: HttpOutput)
        ensures
            out.endpoint@ == config.http_endpoint@,
            out.timeout_seconds == config.http_timeout_seconds,
    {
        HttpOutput {
            endpoint: config.http_endpoint.clone(),
            timeout_seconds: config.http_timeout_seconds,
        }
    }

    /// The body of the one POST this record is delivered with.
    pub fn payload_for(&self, record: &LogRecord) -> (r: String)
        ensures
            r@ == record.payload_view(),
    {
        record.to_json()
    }

    /// Whether a response status reports successful delivery: only a
    /// 2xx-class status does.
    pub fn is_success_status(&self, status: u16) -> (r: bool)
        ensures
            r == (200 <= status < 300),
    {
        200 <= status && status < 300
    }
}

/// The backend a configuration calls for, as a closed set of variants
/// dispatched by pattern matching.
pub enum LogBackend {
    /// Write lines to standard output.
    Console(ConsoleOutput),
    /// Write lines to a size-rotating file.
    File(FileOutput),
    /// Post payloads to a remote endpoint.
    Http(HttpOutput),
}

/// Construct the output backend a configuration calls for. Construction
/// is a total function of the configuration: it succeeds on every
/// configuration whose rotation threshold fits in bytes.
pub fn create_log_output(config: &LogConfig) -> (r: Result<LogBackend, String>)
    requires
        config.max_file_size_mb <= MAX_FILE_SIZE_MB,
    ensures
        r is Ok,
        match r {
            Result::Ok(b) => match b {
                LogBackend::Console(_) => config.log_type == LogType::Console,
                LogBackend::File(f) => config.log_type == LogType::File && f.threshold()
                    == config.max_file_size_mb * 0x10_0000 && f.size() == 0 && !f.is_open(),
                LogBackend::Http(h) => config.log_type == LogType::Http && h.endpoint@
                    == config.http_endpoint@ && h.timeout_seconds == config.http_timeout_seconds,
            },
            Result::Err(_) => false,
        },
{
    match config.log_type {
        LogType::Console => Result::Ok(LogBackend::Console(ConsoleOutput {})),
        LogType::File => Result::Ok(LogBackend::File(FileOutput::new(config))),
        LogType::Http => Result::Ok(LogBackend::Http(HttpOutput::new(config))),
    }
}

} // verus!
