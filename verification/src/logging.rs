//! Log records: their level, their message and the line they take in the log file.
use vstd::prelude::*;
use crate::text::{concat2, copy_str, decimal, decimal_string};

verus! {

/// How much a record matters, as `log::Level` names it.
#[derive(PartialEq, Eq, Structural, Clone, Copy)]
pub enum Level {
    Error,
    Warn,
    Info,
    Debug,
}

/// The name of a level, as the log shows it.
pub open spec fn level_name(l: Level) -> Seq<char> {
    match l {
        Level::Error => "ERROR"@,
        Level::Warn => "WARN"@,
        Level::Info => "INFO"@,
        Level::Debug => "DEBUG"@,
    }
}

impl Level {
    pub fn name(&self) -> (r: &'static str)
        ensures
            r@ == level_name(*self),
    {
        match self {
            Level::Error => "ERROR",
            Level::Warn => "WARN",
            Level::Info => "INFO",
            Level::Debug => "DEBUG",
        }
    }
}

/// One record of the log.
pub struct LogRecord {
    pub level: Level,
    pub message: String,
}

/// The record of a message at a level.
pub fn write(level: Level, message: &str) -> (r: LogRecord)
    ensures
        r.level == level,
        r.message@ == message@,
{
    LogRecord { level, message: copy_str(message) }
}

/// A record of something the program did.
pub fn event(message: &str) -> (r: LogRecord)
    ensures
        r.level == Level::Info,
        r.message@ == message@,
{
    write(Level::Info, message)
}

/// A record with details for debugging.
pub fn debug(message: &str) -> (r: LogRecord)
    ensures
        r.level == Level::Debug,
        r.message@ == message@,
{
    write(Level::Debug, message)
}

/// A record of something suspicious.
pub fn warn(message: &str) -> (r: LogRecord)
    ensures
        r.level == Level::Warn,
        r.message@ == message@,
{
    write(Level::Warn, message)
}

/// A record of a failure.
pub fn error(message: &str) -> (r: LogRecord)
    ensures
        r.level == Level::Error,
        r.message@ == message@,
{
    write(Level::Error, message)
}

/// The line of a record in the log file: the time in seconds, the level and the
/// message, separated by tabs.
pub open spec fn log_line(timestamp: u64, r: LogRecord) -> Seq<char> {
    decimal(timestamp as nat) + "\t"@ + level_name(r.level) + "\t"@ + r.message@
}

impl LogRecord {
    pub fn line(&self, timestamp: u64) -> (r: String)
        ensures
            r@ == log_line(timestamp, *self),
    {
        let a = concat2(decimal_string(timestamp as u128).as_str(), "\t");
        let b = concat2(a.as_str(), self.level.name());
        let c = concat2(b.as_str(), "\t");
        concat2(c.as_str(), self.message.as_str())
    }
}

} // verus!
