//! Severity levels, the record a log line stands for, and line classification.

use vstd::prelude::*;
use crate::text::{contains, contains_in};

verus! {

/// The severity level of a log line.
#[derive(Debug, Clone, Copy, PartialEq, Eq, Hash, Structural)]
pub enum LogLevel {
    Error,
    Warning,
    Info,
    Debug,
}

/// When a log line was written.
#[derive(Debug, Clone, Copy, PartialEq, Eq)]
pub struct Timestamp {
    pub year: u16,
    pub month: u8,
    pub day: u8,
    pub hour: u8,
    pub minute: u8,
    pub second: u8,
}

/// One log record: `YYYY-MM-DDTHH:MM:SS LEVEL MESSAGE`.
#[derive(Debug)]
pub struct Line {
    pub timestamp: Timestamp,
    pub log_level: LogLevel,
    pub message: String,
}

/// The text by which a level is recognised in a line.
pub open spec fn token(level: LogLevel) -> Seq<char> {
    match level {
        LogLevel::Error => seq!['E', 'r', 'r', 'o', 'r'],
        LogLevel::Warning => seq!['W', 'a', 'r', 'n', 'i', 'n', 'g'],
        LogLevel::Info => seq!['I', 'n', 'f', 'o'],
        LogLevel::Debug => seq!['D', 'e', 'b', 'u', 'g'],
    }
}

/// The level a line is counted under: the first of Error, Info, Debug and
/// Warning whose token occurs anywhere in the line, or none.
pub open spec fn level_of(line: Seq<char>) -> Option<LogLevel> {
    if contains(line, token(LogLevel::Error)) {
        Some(LogLevel::Error)
    } else if contains(line, token(LogLevel::Info)) {
        Some(LogLevel::Info)
    } else if contains(line, token(LogLevel::Debug)) {
        Some(LogLevel::Debug)
    } else if contains(line, token(LogLevel::Warning)) {
        Some(LogLevel::Warning)
    } else {
        None
    }
}

impl LogLevel {
    /// The token of this level, as chars.
    pub fn token_chars(&self) -> (r: Vec<char>)
        ensures
            r@ == token(*self),
    {
        let r = match self {
            LogLevel::Error => vec!['E', 'r', 'r', 'o', 'r'],
            LogLevel::Warning => vec!['W', 'a', 'r', 'n', 'i', 'n', 'g'],
            LogLevel::Info => vec!['I', 'n', 'f', 'o'],
            LogLevel::Debug => vec!['D', 'e', 'b', 'u', 'g'],
        };
        assert(r@ =~= token(*self));
        r
    }
}

/// The level of the line `content[from..to)`.
pub fn check_log_levels(content: &Vec<char>, from: usize, to: usize) -> (r: Option<LogLevel>)
    requires
        from <= to <= content@.len(),
    ensures
        r == level_of(content@.subrange(from as int, to as int)),
{
    if contains_in(content, from, to, &LogLevel::Error.token_chars()) {
        Some(LogLevel::Error)
    } else if contains_in(content, from, to, &LogLevel::Info.token_chars()) {
        Some(LogLevel::Info)
    } else if contains_in(content, from, to, &LogLevel::Debug.token_chars()) {
        Some(LogLevel::Debug)
    } else if contains_in(content, from, to, &LogLevel::Warning.token_chars()) {
        Some(LogLevel::Warning)
    } else {
        None
    }
}

} // verus!
