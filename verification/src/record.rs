//! One logging event: created at the call site, delivered exactly once
//! (either by the synchronous path or by the asynchronous consumer), then
//! discarded.

use vstd::prelude::*;
use crate::format::{format_json_payload, format_log_line, spec_json_payload, spec_log_line};
use crate::level::LogLevel;

verus! {

/// The view of an optional context string.
pub open spec fn opt_str_view(o: Option<String>) -> Option<Seq<char>> {
    match o {
        Option::Some(c) => Option::Some(c@),
        Option::None => Option::None,
    }
}

/// One logging event, with its call-site metadata. The `file` field holds
/// the source file's base name only.
#[derive(Debug)]
pub struct LogRecord {
    /// UTC time of the call, second precision, fixed textual format.
    pub timestamp: String,
    /// Severity of the event.
    pub level: LogLevel,
    /// The message text.
    pub message: String,
    /// Optional free-form context.
    pub context: Option<String>,
    /// Base name of the source file the call came from.
    pub file: String,
    /// Source line number of the call.
    pub line: u32,
    /// Module or component name.
    pub module: String,
}

impl LogRecord {
    /// The one text line this record formats to.
    pub open spec fn line_view(self) -> Seq<char> {
        spec_log_line(
            self.timestamp@,
            self.level,
            self.message@,
            self.file@,
            self.line as nat,
            self.module@,
            opt_str_view(self.context),
        )
    }

    /// The structured payload this record serializes to for the HTTP
    /// backend.
    pub open spec fn payload_view(self) -> Seq<char> {
        spec_json_payload(
            self.timestamp@,
            self.level,
            self.message@,
            self.file@,
            self.line as nat,
            self.module@,
            opt_str_view(self.context),
        )
    }

    /// Format this record as one text line, without a trailing newline.
    pub fn to_line(&self) -> (r: String)
        ensures
            r@ == self.line_view(),
    {
        format_log_line(
            self.timestamp.as_str(),
            &self.level,
            self.message.as_str(),
            self.file.as_str(),
            self.line,
            self.module.as_str(),
            match &self.context {
                Option::Some(c) => Option::Some(c.as_str()),
                Option::None => Option::None,
            },
        )
    }

    /// Serialize this record as the JSON payload for the HTTP backend.
    pub fn to_json(&self) -> (r: String)
        ensures
            r@ == self.payload_view(),
    {
        format_json_payload(
            self.timestamp.as_str(),
            &self.level,
            self.message.as_str(),
            self.file.as_str(),
            self.line,
            self.module.as_str(),
            match &self.context {
                Option::Some(c) => Option::Some(c.as_str()),
                Option::None => Option::None,
            },
        )
    }
}

} // verus!
