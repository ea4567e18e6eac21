//! Single-byte wire form of log levels, for the severities of records that a client
//! reports and for the verbosity that a server announces.
use super::wire::WireError;
use vstd::prelude::*;

verus! {

/// How severe a log record is.
#[derive(Debug, Clone, Copy, PartialEq, Eq, Structural)]
pub enum Level {
    Error,
    Warn,
    Info,
    Debug,
    Trace,
}

/// The most verbose level that is let through; `Off` lets nothing through.
#[derive(Debug, Clone, Copy, PartialEq, Eq, Structural)]
pub enum LevelFilter {
    Off,
    Error,
    Warn,
    Info,
    Debug,
    Trace,
}

pub open spec fn filter_byte(filter: LevelFilter) -> u8 {
    match filter {
        LevelFilter::Off => 0,
        LevelFilter::Error => 1,
        LevelFilter::Warn => 2,
        LevelFilter::Info => 3,
        LevelFilter::Debug => 4,
        LevelFilter::Trace => 5,
    }
}

pub open spec fn level_byte(level: Level) -> u8 {
    match level {
        Level::Error => 1,
        Level::Warn => 2,
        Level::Info => 3,
        Level::Debug => 4,
        Level::Trace => 5,
    }
}

/// The filter that a byte stands for.
pub open spec fn byte_filter(byte: u8) -> Option<LevelFilter> {
    if byte == 0 {
        Some(LevelFilter::Off)
    } else if byte == 1 {
        Some(LevelFilter::Error)
    } else if byte == 2 {
        Some(LevelFilter::Warn)
    } else if byte == 3 {
        Some(LevelFilter::Info)
    } else if byte == 4 {
        Some(LevelFilter::Debug)
    } else if byte == 5 {
        Some(LevelFilter::Trace)
    } else {
        None
    }
}

/// The severity that a byte stands for.
pub open spec fn byte_level(byte: u8) -> Option<Level> {
    if byte == 1 {
        Some(Level::Error)
    } else if byte == 2 {
        Some(Level::Warn)
    } else if byte == 3 {
        Some(Level::Info)
    } else if byte == 4 {
        Some(Level::Debug)
    } else if byte == 5 {
        Some(Level::Trace)
    } else {
        None
    }
}

/// Whether a record of this level passes the filter.
pub open spec fn passes(level: Level, filter: LevelFilter) -> bool {
    level_byte(level) <= filter_byte(filter)
}

/// The byte of a filter: 0 for off, 1 for errors only, up to 5 for everything.
pub fn filter_to_byte(filter: LevelFilter) -> (b: u8)
    ensures
        b == filter_byte(filter),
{
    match filter {
        LevelFilter::Off => 0,
        LevelFilter::Error => 1,
        LevelFilter::Warn => 2,
        LevelFilter::Info => 3,
        LevelFilter::Debug => 4,
        LevelFilter::Trace => 5,
    }
}

/// The filter that a byte stands for.
pub fn filter_from_byte(byte: u8) -> (r: Result<LevelFilter, WireError>)
    ensures
        r == (match byte_filter(byte) {
            Some(filter) => Ok::<LevelFilter, WireError>(filter),
            None => Err(WireError::LogLevel(byte)),
        }),
{
    match byte {
        0 => Ok(LevelFilter::Off),
        1 => Ok(LevelFilter::Error),
        2 => Ok(LevelFilter::Warn),
        3 => Ok(LevelFilter::Info),
        4 => Ok(LevelFilter::Debug),
        5 => Ok(LevelFilter::Trace),
        b => Err(WireError::LogLevel(b)),
    }
}

/// The byte of a severity. Never 0, since "off" is not a severity.
pub fn level_to_byte(level: Level) -> (b: u8)
    ensures
        b == level_byte(level),
        b != 0,
{
    match level {
        Level::Error => 1,
        Level::Warn => 2,
        Level::Info => 3,
        Level::Debug => 4,
        Level::Trace => 5,
    }
}

/// The severity that a byte stands for.
pub fn level_from_byte(byte: u8) -> (r: Result<Level, WireError>)
    ensures
        r == (match byte_level(byte) {
            Some(level) => Ok::<Level, WireError>(level),
            None => Err(WireError::LogLevel(byte)),
        }),
{
    match byte {
        1 => Ok(Level::Error),
        2 => Ok(Level::Warn),
        3 => Ok(Level::Info),
        4 => Ok(Level::Debug),
        5 => Ok(Level::Trace),
        b => Err(WireError::LogLevel(b)),
    }
}

/// Whether a record of this level passes the filter.
pub fn enabled(level: Level, filter: LevelFilter) -> (r: bool)
    ensures
        r == passes(level, filter),
{
    level_to_byte(level) <= filter_to_byte(filter)
}

/// Filters and severities survive the way through their bytes, and a byte that stands for
/// one is the byte of that one.
pub proof fn level_bytes_read_back(filter: LevelFilter, level: Level, b: u8)
    ensures
        byte_filter(filter_byte(filter)) == Some(filter),
        byte_level(level_byte(level)) == Some(level),
        byte_filter(b) matches Some(f) ==> filter_byte(f) == b,
        byte_level(b) matches Some(l) ==> level_byte(l) == b,
{
}

/// The levels are numbered 1 to 5 from errors to traces, and a filter has the number of the last
/// level that it lets pass: 0 where it lets none.
pub proof fn levels_are_numbered(b: u8)
    ensures
        byte_level(b) == Some(Level::Error) <==> b == 1,
        byte_level(b) == Some(Level::Warn) <==> b == 2,
        byte_level(b) == Some(Level::Info) <==> b == 3,
        byte_level(b) == Some(Level::Debug) <==> b == 4,
        byte_level(b) == Some(Level::Trace) <==> b == 5,
        byte_level(b) is Some <==> 1 <= b <= 5,
        byte_filter(b) == Some(LevelFilter::Off) <==> b == 0,
        byte_filter(b) == Some(LevelFilter::Error) <==> b == 1,
        byte_filter(b) == Some(LevelFilter::Warn) <==> b == 2,
        byte_filter(b) == Some(LevelFilter::Info) <==> b == 3,
        byte_filter(b) == Some(LevelFilter::Debug) <==> b == 4,
        byte_filter(b) == Some(LevelFilter::Trace) <==> b == 5,
        byte_filter(b) is Some <==> b <= 5,
{
}

/// A filter lets pass the level it is named after and all that are graver, and no other.
pub proof fn filters_let_graver_levels_pass(level: Level)
    ensures
        !passes(level, LevelFilter::Off),
        passes(level, LevelFilter::Error) <==> level is Error,
        passes(level, LevelFilter::Warn) <==> level is Error || level is Warn,
        passes(level, LevelFilter::Info) <==> level !is Debug && level !is Trace,
        passes(level, LevelFilter::Debug) <==> level !is Trace,
        passes(level, LevelFilter::Trace),
{
}

} // verus!
