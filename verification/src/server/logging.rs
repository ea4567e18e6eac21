//! The log of the server: one line for each record, up to the configured level.
use crate::shared::log_level::{enabled, Level, LevelFilter};
use vstd::prelude::*;

verus! {

/// The logger.
#[derive(Debug, Clone, Copy, PartialEq, Eq, Structural)]
pub struct Logger {
    pub max_level: LevelFilter,
}

/// The name of a level, five characters wide.
pub open spec fn wide_label(level: Level) -> Seq<char> {
    match level {
        Level::Error => "ERROR"@,
        Level::Warn => " WARN"@,
        Level::Info => " INFO"@,
        Level::Debug => "DEBUG"@,
        Level::Trace => "TRACE"@,
    }
}

/// The line of a record.
pub open spec fn line(level: Level, target: Seq<char>, message: Seq<char>) -> Seq<char> {
    "["@ + wide_label(level) + " "@ + target + "] "@ + message
}

/// The logger to begin with: more is logged while debugging.
pub fn init(debug: bool) -> (l: Logger)
    ensures
        l.max_level == (if debug {
            LevelFilter::Debug
        } else {
            LevelFilter::Info
        }),
{
    Logger { max_level: if debug { LevelFilter::Debug } else { LevelFilter::Info } }
}

/// Sets the level up to which records are logged.
pub fn set_level(logger: &mut Logger, level: LevelFilter)
    ensures
        final(logger).max_level == level,
{
    logger.max_level = level;
}

impl Logger {
    /// Whether records of a level are logged.
    pub fn enabled(&self, level: Level) -> (r: bool)
        ensures
            r == crate::shared::log_level::passes(level, self.max_level),
    {
        enabled(level, self.max_level)
    }

    /// The line of a record.
    pub fn format(&self, level: Level, target: &str, message: &str) -> (s: String)
        ensures
            s@ == line(level, target@, message@),
    {
        let mut s = "[".to_owned();
        s.append(
            match level {
                Level::Error => "ERROR",
                Level::Warn => " WARN",
                Level::Info => " INFO",
                Level::Debug => "DEBUG",
                Level::Trace => "TRACE",
            },
        );
        s.append(" ");
        s.append(target);
        s.append("] ");
        s.append(message);
        s
    }
}

/// The names of the levels stand flush right in five columns.
pub proof fn labels_have_five_columns(level: Level)
    ensures
        wide_label(level).len() == 5,
        wide_label(level) == (match level {
            Level::Error => "ERROR"@,
            Level::Warn => " "@ + "WARN"@,
            Level::Info => " "@ + "INFO"@,
            Level::Debug => "DEBUG"@,
            Level::Trace => "TRACE"@,
        }),
{
    reveal_strlit(" ");
    reveal_strlit("ERROR");
    reveal_strlit("WARN");
    reveal_strlit("INFO");
    reveal_strlit("DEBUG");
    reveal_strlit("TRACE");
    reveal_strlit(" WARN");
    reveal_strlit(" INFO");
    assert(" "@ + "WARN"@ =~= " WARN"@);
    assert(" "@ + "INFO"@ =~= " INFO"@);
}

/// A line is the level in brackets with what it is about, and then the message, all as given.
pub proof fn lines_hold_level_target_and_message(
    level: Level,
    target: Seq<char>,
    message: Seq<char>,
)
    ensures
        ({
            let s = line(level, target, message);
            let n = target.len() as int;
            &&& s.len() == 9 + n + message.len()
            &&& s[0] == '['
            &&& s.subrange(1, 6) == wide_label(level)
            &&& s[6] == ' '
            &&& s.subrange(7, 7 + n) == target
            &&& s[7 + n] == ']'
            &&& s[8 + n] == ' '
            &&& s.skip(9 + n) == message
        }),
{
    labels_have_five_columns(level);
    reveal_strlit("[");
    reveal_strlit(" ");
    reveal_strlit("] ");
    let s = line(level, target, message);
    let n = target.len() as int;
    assert(s.subrange(1, 6) =~= wide_label(level));
    assert(s.subrange(7, 7 + n) =~= target);
    assert(s.skip(9 + n) =~= message);
}

} // verus!
