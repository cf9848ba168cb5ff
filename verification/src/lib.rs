//! A leveled, structured logging runtime: records are filtered by severity,
//! formatted into delivery-ready lines or payloads, and dispatched to one of
//! several output backends (console, size-rotating file, remote HTTP
//! endpoint), with a bounded asynchronous delivery queue and a synchronous
//! fallback path so that producers never block.

pub mod config;
pub mod format;
pub mod level;
pub mod logger;
pub mod outputs;
pub mod queue;
pub mod record;
pub mod rotation;
