//! The dispatch core: a runtime value holding the configuration, the
//! delivery queue, and the lifecycle state, with level-gated log and
//! shutdown operations.
//!
//! The runtime is an explicit handle rather than hidden global state, so
//! independent instances can be constructed and inspected; the surrounding
//! program wraps one instance in its process-wide mutex, executes the
//! returned [`LogAction`]s against the real backends, and runs the single
//! consumer that drains the queue.
//!
//! Re-initialization of a live runtime is rejected rather than silently
//! orphaning the running consumer: `init_with_config` on an initialized
//! runtime returns an error and changes nothing, and a new configuration
//! requires a shutdown first.

use vstd::prelude::*;
use vstd::string::StringExecFns;
use crate::config::LogConfig;
use crate::format::{basename, format_log_line, spec_basename, spec_log_line};
use crate::level::{level_num, LogLevel};
use crate::queue::LogQueue;
use crate::record::{opt_str_view, LogRecord};

verus! {

/// How many records the delivery queue absorbs before producers fall back
/// to synchronous delivery: a burst-absorption buffer, not an unbounded
/// one.
pub const DEFAULT_QUEUE_CAPACITY: usize = 1024;

/// Relies on `chrono::Utc::now` and its `format`: the current UTC time
/// rendered at second precision as `%Y-%m-%dT%H:%M:%SZ`. The value depends
/// on the clock, so nothing is assumed of it; every function that consumes
/// a timestamp is verified for all values.
#[verifier::external_body]
fn now_timestamp() -> String {
    chrono::Utc::now().format("%Y-%m-%dT%H:%M:%SZ").to_string()
}

/// What one log call asks the surrounding program to do. Producers never
/// block: a record is either buffered for the consumer, handed back for a
/// bounded synchronous write, or suppressed.
pub enum LogAction {
    /// The runtime is uninitialized: the line goes to the stderr fallback
    /// writer.
    WriteStderr(String),
    /// Below the configured threshold: nothing is delivered.
    Suppressed,
    /// Buffered; the consumer task will deliver it.
    Enqueued,
    /// The caller's own thread must deliver this record through the
    /// configured backend (synchronous mode, overflow fallback, or
    /// shutdown in progress).
    WriteSync(LogRecord),
}

/// The dispatch core: configuration, lifecycle state, and the bounded
/// delivery queue.
pub struct Logger {
    config: Option<LogConfig>,
    async_enabled: bool,
    shutting_down: bool,
    queue: LogQueue,
}

/// Whether record `r` carries exactly these field values (the source file
/// reduced to its base name).
pub open spec fn record_matches(
    r: LogRecord,
    ts: Seq<char>,
    level: LogLevel,
    msg: Seq<char>,
    ctx: Option<Seq<char>>,
    file: Seq<char>,
    line: u32,
    module: Seq<char>,
) -> bool {
    &&& r.timestamp@ == ts
    &&& r.level == level
    &&& r.message@ == msg
    &&& opt_str_view(r.context) == ctx
    &&& r.file@ == spec_basename(file)
    &&& r.line == line
    &&& r.module@ == module
}

impl Logger {
    /// The configuration, once initialized.
    pub closed spec fn config_spec(&self) -> Option<LogConfig> {
        self.config
    }

    /// Whether the runtime has been initialized.
    pub open spec fn initialized(&self) -> bool {
        self.config_spec() is Some
    }

    /// The configured severity threshold.
    pub open spec fn threshold(&self) -> LogLevel {
        self.config_spec().unwrap().threshold
    }

    /// Whether the asynchronous delivery path is enabled.
    pub closed spec fn async_on(&self) -> bool {
        self.async_enabled
    }

    /// Whether a shutdown has begun: the queue accepts no new work.
    pub closed spec fn is_shutting_down(&self) -> bool {
        self.shutting_down
    }

    /// The records buffered for the consumer, oldest first.
    pub closed spec fn pending(&self) -> Seq<LogRecord> {
        self.queue@
    }

    /// The delivery queue's capacity.
    pub closed spec fn cap(&self) -> nat {
        self.queue.cap()
    }

    /// Whether a log call may take the asynchronous path.
    pub open spec fn async_active(&self) -> bool {
        self.initialized() && self.async_on() && !self.is_shutting_down()
    }

    /// Well-formedness of the runtime state.
    pub closed spec fn inv(&self) -> bool {
        self.queue.inv()
    }

    /// A fresh, uninitialized runtime: every log call falls back to the
    /// stderr writer until a configuration is supplied.
    pub fn new() -> (l: Logger)
        ensures
            l.inv(),
            !l.initialized(),
            !l.is_shutting_down(),
            l.pending() == Seq::<LogRecord>::empty(),
    {
        Logger {
            config: Option::None,
            async_enabled: false,
            shutting_down: false,
            queue: LogQueue::new(1),
        }
    }

    /// Initialize with a configuration, an asynchronous-path switch, and a
    /// delivery queue capacity. Initializing an already-initialized
    /// runtime is rejected and changes nothing (a live consumer is never
    /// silently orphaned).
    pub fn init_with_settings(
        &mut self,
        config: LogConfig,
        async_enabled: bool,
        capacity: usize,
    ) -> (r: Result<(), String>)
        requires
            old(self).inv(),
            capacity >= 1,
        ensures
            final(self).inv(),
            old(self).initialized() ==> r is Err && *final(self) == *old(self),
            !old(self).initialized() ==> {
                &&& r is Ok
                &&& final(self).config_spec() == Option::Some(config)
                &&& final(self).async_on() == async_enabled
                &&& !final(self).is_shutting_down()
                &&& final(self).pending() == Seq::<LogRecord>::empty()
                &&& final(self).cap() == capacity
            },
    {
        if self.config.is_some() {
            return Result::Err(
                String::from_str("Logger is already initialized; shut it down first"),
            );
        }
        self.config = Option::Some(config);
        self.async_enabled = async_enabled;
        self.shutting_down = false;
        self.queue = LogQueue::new(capacity);
        Result::Ok(())
    }

    /// Initialize with a configuration: the asynchronous path enabled and
    /// the default queue capacity. Rejected, with nothing changed, when
    /// the runtime is already initialized.
    pub fn init_with_config(&mut self, config: LogConfig) -> (r: Result<(), String>)
        requires
            old(self).inv(),
        ensures
            final(self).inv(),
            old(self).initialized() ==> r is Err && *final(self) == *old(self),
            !old(self).initialized() ==> {
                &&& r is Ok
                &&& final(self).config_spec() == Option::Some(config)
                &&& final(self).async_on()
                &&& !final(self).is_shutting_down()
                &&& final(self).pending() == Seq::<LogRecord>::empty()
                &&& final(self).cap() == DEFAULT_QUEUE_CAPACITY
            },
    {
        self.init_with_settings(config, true, DEFAULT_QUEUE_CAPACITY)
    }

    /// One log call, with the timestamp supplied by the caller.
    ///
    /// Uninitialized: the formatted line is handed back for the stderr
    /// fallback writer, whatever the level. Initialized: the record is
    /// gated on the threshold, then either buffered (asynchronous path,
    /// room in the queue) or handed back for a synchronous write — a
    /// full queue degrades delivery to synchronous, it never drops the
    /// record.
    pub fn log_with_timestamp(
        &mut self,
        timestamp: String,
        level: LogLevel,
        message: &str,
        context: Option<String>,
        file: &str,
        line: u32,
        module: &str,
    ) -> (a: LogAction)
        requires
            old(self).inv(),
        ensures
            final(self).inv(),
            final(self).config_spec() == old(self).config_spec(),
            final(self).async_on() == old(self).async_on(),
            final(self).is_shutting_down() == old(self).is_shutting_down(),
            final(self).cap() == old(self).cap(),
            !old(self).initialized() ==> final(self).pending() == old(self).pending() && (match a {
                LogAction::WriteStderr(s) => s@ == spec_log_line(
                    timestamp@,
                    level,
                    message@,
                    spec_basename(file@),
                    line as nat,
                    module@,
                    opt_str_view(context),
                ),
                _ => false,
            }),
            old(self).initialized() && level_num(level) < level_num(old(self).threshold())
                ==> final(self).pending() == old(self).pending() && a == LogAction::Suppressed,
            old(self).initialized() && level_num(level) >= level_num(old(self).threshold())
                && old(self).async_active() && old(self).pending().len() < old(self).cap() ==> {
                &&& a == LogAction::Enqueued
                &&& final(self).pending().len() == old(self).pending().len() + 1
                &&& final(self).pending() == old(self).pending().push(final(self).pending().last())
                &&& record_matches(
                    final(self).pending().last(),
                    timestamp@,
                    level,
                    message@,
                    opt_str_view(context),
                    file@,
                    line,
                    module@,
                )
            },
            old(self).initialized() && level_num(level) >= level_num(old(self).threshold())
                && !(old(self).async_active() && old(self).pending().len() < old(self).cap())
                ==> final(self).pending() == old(self).pending() && (match a {
                LogAction::WriteSync(r) => record_matches(
                    r,
                    timestamp@,
                    level,
                    message@,
                    opt_str_view(context),
                    file@,
                    line,
                    module@,
                ),
                _ => false,
            }),
    {
        let file_name = basename(file);
        if self.config.is_none() {
            let line_str = format_log_line(
                timestamp.as_str(),
                &level,
                message,
                file_name,
                line,
                module,
                match &context {
                    Option::Some(c) => Option::Some(c.as_str()),
                    Option::None => Option::None,
                },
            );
            return LogAction::WriteStderr(line_str);
        }
        let threshold = match &self.config {
            Option::Some(cfg) => cfg.threshold,
            Option::None => LogLevel::Info,
        };
        if !level.should_log(&threshold) {
            return LogAction::Suppressed;
        }
        let record = LogRecord {
            timestamp,
            level,
            message: String::from_str(message),
            context,
            file: String::from_str(file_name),
            line,
            module: String::from_str(module),
        };
        if self.async_enabled && !self.shutting_down {
            match self.queue.try_enqueue(record) {
                Result::Ok(()) => LogAction::Enqueued,
                Result::Err(back) => LogAction::WriteSync(back),
            }
        } else {
            LogAction::WriteSync(record)
        }
    }

    /// Log at `Debug`, stamped with the current time.
    pub fn debug(
        &mut self,
        message: &str,
        context: Option<String>,
        file: &'static str,
        line: u32,
        module: &'static str,
    ) -> (a: LogAction)
        requires
            old(self).inv(),
        ensures
            final(self).inv(),
            log_call_outcome(
                *old(self),
                *final(self),
                a,
                LogLevel::Debug,
                message@,
                opt_str_view(context),
                file@,
                line,
                module@,
            ),
    {
        let ts = now_timestamp();
        self.log_with_timestamp(ts, LogLevel::Debug, message, context, file, line, module)
    }

    /// Log at `Info`, stamped with the current time.
    pub fn info(
        &mut self,
        message: &str,
        context: Option<String>,
        file: &'static str,
        line: u32,
        module: &'static str,
    ) -> (a: LogAction)
        requires
            old(self).inv(),
        ensures
            final(self).inv(),
            log_call_outcome(
                *old(self),
                *final(self),
                a,
                LogLevel::Info,
                message@,
                opt_str_view(context),
                file@,
                line,
                module@,
            ),
    {
        let ts = now_timestamp();
        self.log_with_timestamp(ts, LogLevel::Info, message, context, file, line, module)
    }

    /// Log at `Warn`, stamped with the current time.
    pub fn warn(
        &mut self,
        message: &str,
        context: Option<String>,
        file: &'static str,
        line: u32,
        module: &'static str,
    ) -> (a: LogAction)
        requires
            old(self).inv(),
        ensures
            final(self).inv(),
            log_call_outcome(
                *old(self),
                *final(self),
                a,
                LogLevel::Warn,
                message@,
                opt_str_view(context),
                file@,
                line,
                module@,
            ),
    {
        let ts = now_timestamp();
        self.log_with_timestamp(ts, LogLevel::Warn, message, context, file, line, module)
    }

    /// Log at `Error`, stamped with the current time.
    pub fn error(
        &mut self,
        message: &str,
        context: Option<String>,
        file: &'static str,
        line: u32,
        module: &'static str,
    ) -> (a: LogAction)
        requires
            old(self).inv(),
        ensures
            final(self).inv(),
            log_call_outcome(
                *old(self),
                *final(self),
                a,
                LogLevel::Error,
                message@,
                opt_str_view(context),
                file@,
                line,
                module@,
            ),
    {
        let ts = now_timestamp();
        self.log_with_timestamp(ts, LogLevel::Error, message, context, file, line, module)
    }

    /// Hand the consumer the oldest buffered record, if any.
    pub fn take_next(&mut self) -> (r: Option<LogRecord>)
        requires
            old(self).inv(),
        ensures
            final(self).inv(),
            final(self).config_spec() == old(self).config_spec(),
            final(self).async_on() == old(self).async_on(),
            final(self).is_shutting_down() == old(self).is_shutting_down(),
            final(self).cap() == old(self).cap(),
            match r {
                Option::Some(rec) => old(self).pending().len() > 0
                    && rec == old(self).pending().first()
                    && final(self).pending() == old(self).pending().drop_first(),
                Option::None => old(self).pending().len() == 0
                    && final(self).pending() == old(self).pending(),
            },
    {
        self.queue.dequeue()
    }

    /// Begin shutdown: stop accepting new asynchronous work and hand back
    /// everything buffered, oldest first, for the caller to deliver within
    /// its grace period.
    pub fn shutdown(&mut self) -> (drained: Vec<LogRecord>)
        requires
            old(self).inv(),
        ensures
            final(self).inv(),
            final(self).config_spec() == old(self).config_spec(),
            final(self).async_on() == old(self).async_on(),
            final(self).cap() == old(self).cap(),
            final(self).is_shutting_down(),
            drained@ == old(self).pending(),
            final(self).pending() == Seq::<LogRecord>::empty(),
    {
        self.shutting_down = true;
        self.queue.drain()
    }
}

/// The contract all four leveled calls share. The timestamp is drawn from
/// the clock, so it is existentially quantified; everything else is pinned
/// exactly as in `Logger::log_with_timestamp`.
pub open spec fn log_call_outcome(
    pre: Logger,
    post: Logger,
    a: LogAction,
    level: LogLevel,
    msg: Seq<char>,
    ctx: Option<Seq<char>>,
    file: Seq<char>,
    line: u32,
    module: Seq<char>,
) -> bool {
    &&& post.config_spec() == pre.config_spec()
    &&& post.async_on() == pre.async_on()
    &&& post.is_shutting_down() == pre.is_shutting_down()
    &&& post.cap() == pre.cap()
    &&& (!pre.initialized() ==> post.pending() == pre.pending() && (match a {
        LogAction::WriteStderr(s) => exists|ts: Seq<char>|
            s@ == spec_log_line(ts, level, msg, spec_basename(file), line as nat, module, ctx),
        _ => false,
    }))
    &&& (pre.initialized() && level_num(level) < level_num(pre.threshold()) ==> post.pending()
        == pre.pending() && a == LogAction::Suppressed)
    &&& (pre.initialized() && level_num(level) >= level_num(pre.threshold()) && pre.async_active()
        && pre.pending().len() < pre.cap() ==> {
        &&& a == LogAction::Enqueued
        &&& post.pending().len() == pre.pending().len() + 1
        &&& post.pending() == pre.pending().push(post.pending().last())
        &&& (exists|ts: Seq<char>|
            record_matches(post.pending().last(), ts, level, msg, ctx, file, line, module))
    })
    &&& (pre.initialized() && level_num(level) >= level_num(pre.threshold()) && !(
    pre.async_active() && pre.pending().len() < pre.cap()) ==> post.pending() == pre.pending() && (
    match a {
        LogAction::WriteSync(r) => exists|ts: Seq<char>|
            record_matches(r, ts, level, msg, ctx, file, line, module),
        _ => false,
    }))
}

} // verus!
