//! Log records in the browser: they go to the server, and to the console as well.
use crate::shared::client_datagram::ClientDatagram;
use crate::shared::log_level::{Level, LevelFilter};
use crate::text;
use vstd::prelude::*;

verus! {

/// The level that a name stands for; unknown names stand for `Info`.
pub open spec fn named_level(name: Seq<char>) -> Level {
    if name == "error"@ {
        Level::Error
    } else if name == "warn"@ || name == "warning"@ {
        Level::Warn
    } else if name == "debug"@ {
        Level::Debug
    } else if name == "trace"@ {
        Level::Trace
    } else {
        Level::Info
    }
}

/// The level that a name stands for, in whatever case it is written; unknown or missing
/// names stand for `Info`.
pub fn parse_level(level: Option<&str>) -> (r: Level)
    ensures
        r == (match level {
            Some(name) => named_level(text::ascii_lowercase(name@)),
            None => Level::Info,
        }),
{
    match level {
        Some(name) => {
            let lower = text::to_ascii_lowercase(name);
            let name = lower.as_str();
            if text::str_eq(name, "error") {
                Level::Error
            } else if text::str_eq(name, "warn") || text::str_eq(name, "warning") {
                Level::Warn
            } else if text::str_eq(name, "debug") {
                Level::Debug
            } else if text::str_eq(name, "trace") {
                Level::Trace
            } else {
                Level::Info
            }
        },
        None => Level::Info,
    }
}

/// The name of a level as records show it.
pub open spec fn level_label(level: Level) -> Seq<char> {
    match level {
        Level::Error => "ERROR"@,
        Level::Warn => "WARN"@,
        Level::Info => "INFO"@,
        Level::Debug => "DEBUG"@,
        Level::Trace => "TRACE"@,
    }
}

/// The name of a level as records show it.
pub fn level_name(level: Level) -> (s: &'static str)
    ensures
        s@ == level_label(level),
{
    match level {
        Level::Error => "ERROR",
        Level::Warn => "WARN",
        Level::Info => "INFO",
        Level::Debug => "DEBUG",
        Level::Trace => "TRACE",
    }
}

/// Where in the console a record goes.
#[derive(Debug, Clone, Copy, PartialEq, Eq, Structural)]
pub enum ConsoleKind {
    Error,
    Warn,
    Log,
}

/// What the console shows of a record.
pub struct ConsoleLine {
    pub kind: ConsoleKind,
    pub text: String,
}

/// What the console shows of a record, depending on whether it was delivered to the server.
pub fn console_line(level: Level, target: &str, message: &str, delivered: bool) -> (line: ConsoleLine)
    ensures
        delivered ==> line.text@ == "["@ + level_label(level) + "] "@ + message@ && line.kind == (
        match level {
            Level::Error => ConsoleKind::Error,
            Level::Warn => ConsoleKind::Warn,
            _ => ConsoleKind::Log,
        }),
        !delivered ==> line.text@ == "["@ + level_label(level) + " "@ + target@ + "] "@ + message@
            + " (transport unavailable, not sent)"@ && line.kind == ConsoleKind::Warn,
{
    let mut text = "[".to_owned();
    text.append(level_name(level));
    if delivered {
        text.append("] ");
        text.append(message);
        let kind = match level {
            Level::Error => ConsoleKind::Error,
            Level::Warn => ConsoleKind::Warn,
            _ => ConsoleKind::Log,
        };
        ConsoleLine { kind, text }
    } else {
        text.append(" ");
        text.append(target);
        text.append("] ");
        text.append(message);
        text.append(" (transport unavailable, not sent)");
        ConsoleLine { kind: ConsoleKind::Warn, text }
    }
}

/// The level that records are capped at until the server announces its own.
pub fn initial_level() -> (r: LevelFilter)
    ensures
        r == LevelFilter::Info,
{
    LevelFilter::Info
}

/// Takes over the level that the server announces; says whether it is another one.
pub fn apply_server_level(current: &mut LevelFilter, announced: LevelFilter) -> (changed: bool)
    ensures
        *final(current) == announced,
        changed == (*old(current) != announced),
{
    if *current == announced {
        return false;
    }
    *current = announced;
    true
}

/// The bytes of the message that reports an error to the server.
pub fn encode_error(message: &str) -> (r: Vec<u8>)
    ensures
        r@ == seq![5u8] + vstd::utf8::encode_utf8(message@),
{
    let d = ClientDatagram::Error { message: message.to_owned() };
    d.to_bytes()
}

proof fn level_names_differ()
    ensures
        "error"@.len() == 5 && "error"@[0] == 'e',
        "debug"@.len() == 5 && "debug"@[0] == 'd',
        "trace"@.len() == 5 && "trace"@[0] == 't',
        "warn"@.len() == 4 && "warn"@[0] == 'w',
        "info"@.len() == 4 && "info"@[0] == 'i',
        "warning"@.len() == 7,
{
    reveal_strlit("error");
    reveal_strlit("debug");
    reveal_strlit("trace");
    reveal_strlit("warn");
    reveal_strlit("info");
    reveal_strlit("warning");
}

/// Five names stand for levels, warnings have two, and any other name stands for information.
pub proof fn names_stand_for_levels(name: Seq<char>)
    ensures
        named_level(name) == Level::Error <==> name == "error"@,
        named_level(name) == Level::Warn <==> name == "warn"@ || name == "warning"@,
        named_level(name) == Level::Debug <==> name == "debug"@,
        named_level(name) == Level::Trace <==> name == "trace"@,
        name == "info"@ ==> named_level(name) == Level::Info,
{
    level_names_differ();
}

/// The label of a level, in small letters, is a name of that level.
pub proof fn labels_name_their_levels(level: Level)
    ensures
        named_level(text::ascii_lowercase(level_label(level))) == level,
{
    level_names_differ();
    reveal_strlit("error");
    reveal_strlit("debug");
    reveal_strlit("trace");
    reveal_strlit("warn");
    reveal_strlit("info");
    reveal_strlit("ERROR");
    reveal_strlit("DEBUG");
    reveal_strlit("TRACE");
    reveal_strlit("WARN");
    reveal_strlit("INFO");
    let label = text::ascii_lowercase(level_label(level));
    match level {
        Level::Error => {
            assert(label =~= "error"@);
        },
        Level::Warn => {
            assert(label =~= "warn"@);
        },
        Level::Info => {
            assert(label =~= "info"@);
        },
        Level::Debug => {
            assert(label =~= "debug"@);
        },
        Level::Trace => {
            assert(label =~= "trace"@);
        },
    }
}

} // verus!
