//! The engine's log lines: their severities and the target they go to.

use crate::foreign;
use crate::foreign::{engine_log_level, lossy_text};
use vstd::prelude::*;
use vstd::string::*;

verus! {

/// Log target of all engine lines, by which an application filters them.
pub const LOG_TARGET: &'static str = "llingr";

/// Severity of an engine log line.
#[derive(Debug, Clone, Copy, PartialEq, Eq)]
pub enum LogLevel {
    /// Diagnostic detail.
    Debug,
    /// Normal lifecycle events.
    Info,
    /// Recoverable anomalies.
    Warn,
    /// Failures.
    Error,
}

/// The severity that the engine's level number stands for; an unknown number
/// stands for `Info`.
pub open spec fn level_of(raw: i32) -> LogLevel {
    if raw == 0 {
        LogLevel::Debug
    } else if raw == 2 {
        LogLevel::Warn
    } else if raw == 3 {
        LogLevel::Error
    } else {
        LogLevel::Info
    }
}

/// A log record as it is handed to the application's logger.
pub struct LogRecord {
    /// Its severity.
    pub level: LogLevel,
    /// The target it goes under.
    pub target: &'static str,
    /// Its text.
    pub message: String,
}

/// Routes engine lines to the application's logger: all under one target, with
/// the engine's levels kept.
#[derive(Debug, Clone, Copy)]
pub struct LogRouter;

impl LogRouter {
    /// The router; it has no state.
    pub fn new() -> Self {
        LogRouter
    }

    /// The record for an engine line.
    pub fn log(&self, level: LogLevel, message: &str) -> (r: LogRecord)
        ensures
            r.level == level,
            r.target@ == LOG_TARGET@,
            r.message@ == message@,
    {
        LogRecord { level, target: LOG_TARGET, message: message.to_owned() }
    }
}

/// The record for a raw engine line: the level number is decoded, and so is
/// the text, lossily, because it can hold bytes that are not UTF-8.
pub fn log_record(level: i32, message: &[u8]) -> (r: LogRecord)
    ensures
        r.level == level_of(level),
        r.target@ == LOG_TARGET@,
        foreign::reads_as(message@, r.message@),
{
    let text = lossy_text(message);
    LogRouter::new().log(engine_log_level(level), text.as_str())
}

/// Each of the engine's four levels has its own severity, and any other number
/// that of an ordinary line.
pub proof fn levels_are_kept(raw: i32)
    ensures
        level_of(raw) is Debug <==> raw == 0,
        level_of(raw) is Warn <==> raw == 2,
        level_of(raw) is Error <==> raw == 3,
        level_of(raw) is Info <==> raw == 1 || raw < 0 || raw > 3,
{
}

} // verus!
