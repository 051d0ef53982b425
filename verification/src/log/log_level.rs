//! The severity of a log line.
use vstd::prelude::*;

use crate::style::{Color, Style, StyledText};
use crate::text::{str_chars, string_from_chars, trim, trim_chars};

verus! {

/// The severity of a log line.
#[derive(Debug, Clone, Copy, PartialEq, Eq, Structural)]
pub enum LogLevel {
    Trace,
    Debug,
    Info,
    Warning,
    Error,
    Notice,
    Critical,
    Unknown,
}

impl Default for LogLevel {
    fn default() -> (l: LogLevel)
        ensures
            l == LogLevel::Unknown,
    {
        LogLevel::Unknown
    }
}

/// The level a word names, after trimming: `TRACE`, `DEBUG`, `INFO`,
/// `WARN`/`WARNING`, `ERR`/`ERROR`, `NOTICE`, `CRIT`/`CRITICAL`; anything else is
/// `Unknown`.
pub open spec fn parse_log_level(s: Seq<char>) -> LogLevel {
    let t = trim(s);
    if t == "TRACE"@ {
        LogLevel::Trace
    } else if t == "DEBUG"@ {
        LogLevel::Debug
    } else if t == "INFO"@ {
        LogLevel::Info
    } else if t == "WARN"@ || t == "WARNING"@ {
        LogLevel::Warning
    } else if t == "ERR"@ || t == "ERROR"@ {
        LogLevel::Error
    } else if t == "NOTICE"@ {
        LogLevel::Notice
    } else if t == "CRIT"@ || t == "CRITICAL"@ {
        LogLevel::Critical
    } else {
        LogLevel::Unknown
    }
}

/// The label a level is shown with.
pub open spec fn log_level_label(l: LogLevel) -> Seq<char> {
    match l {
        LogLevel::Trace => " Trace "@,
        LogLevel::Debug => " Debug "@,
        LogLevel::Info => " Info "@,
        LogLevel::Warning => " Warning "@,
        LogLevel::Error => " Error "@,
        LogLevel::Notice => " Notice "@,
        LogLevel::Critical => " Critical "@,
        LogLevel::Unknown => " Unknown "@,
    }
}

/// The colour a level is shown in.
pub open spec fn log_level_color(l: LogLevel) -> Color {
    match l {
        LogLevel::Warning => Color::Yellow,
        LogLevel::Error => Color::Red,
        LogLevel::Unknown => Color::White,
        LogLevel::Trace => Color::DarkGray,
        LogLevel::Debug => Color::Cyan,
        LogLevel::Info => Color::Green,
        LogLevel::Notice => Color::LightRed,
        LogLevel::Critical => Color::Red,
    }
}

fn is_word(chars: &Vec<char>, word: &str) -> (b: bool)
    ensures
        b == (chars@ == word@),
{
    crate::text::chars_equal(chars, &str_chars(word))
}

impl LogLevel {
    /// The level a word names; see [`parse_log_level`].
    pub fn parse(s: &str) -> (l: LogLevel)
        ensures
            l == parse_log_level(s@),
    {
        let t = trim_chars(&str_chars(s));
        if is_word(&t, "TRACE") {
            LogLevel::Trace
        } else if is_word(&t, "DEBUG") {
            LogLevel::Debug
        } else if is_word(&t, "INFO") {
            LogLevel::Info
        } else if is_word(&t, "WARN") || is_word(&t, "WARNING") {
            LogLevel::Warning
        } else if is_word(&t, "ERR") || is_word(&t, "ERROR") {
            LogLevel::Error
        } else if is_word(&t, "NOTICE") {
            LogLevel::Notice
        } else if is_word(&t, "CRIT") || is_word(&t, "CRITICAL") {
            LogLevel::Critical
        } else {
            LogLevel::Unknown
        }
    }

    /// The label the level is shown with.
    pub fn as_str(self) -> (s: &'static str)
        ensures
            s@ == log_level_label(self),
    {
        match self {
            LogLevel::Trace => " Trace ",
            LogLevel::Debug => " Debug ",
            LogLevel::Info => " Info ",
            LogLevel::Warning => " Warning ",
            LogLevel::Error => " Error ",
            LogLevel::Notice => " Notice ",
            LogLevel::Critical => " Critical ",
            LogLevel::Unknown => " Unknown ",
        }
    }

    /// The label in the level's colour; notices and critical lines blink.
    pub fn span(self) -> (t: StyledText)
        ensures
            t.content@ == log_level_label(self),
            t.style == (Style {
                fg: Some(log_level_color(self)),
                slow_blink: self == LogLevel::Notice || self == LogLevel::Critical,
                ..Style::spec_plain()
            }),
    {
        let color = match self {
            LogLevel::Warning => Color::Yellow,
            LogLevel::Error => Color::Red,
            LogLevel::Unknown => Color::White,
            LogLevel::Trace => Color::DarkGray,
            LogLevel::Debug => Color::Cyan,
            LogLevel::Info => Color::Green,
            LogLevel::Notice => Color::LightRed,
            LogLevel::Critical => Color::Red,
        };
        let blink = match self {
            LogLevel::Notice | LogLevel::Critical => true,
            _ => false,
        };
        let label = self.as_str();
        StyledText {
            content: string_from_chars(str_chars(label).as_slice()),
            style: Style { fg: Some(color), bg: None, bold: false, slow_blink: blink },
        }
    }
}

impl std::str::FromStr for LogLevel {
    type Err = std::convert::Infallible;

    fn from_str(s: &str) -> (r: std::result::Result<LogLevel, std::convert::Infallible>)
        ensures
            r == Ok::<LogLevel, std::convert::Infallible>(parse_log_level(s@)),
    {
        Ok(LogLevel::parse(s))
    }
}

} // verus!

verus! {

impl From<LogLevel> for &'static str {
    fn from(val: LogLevel) -> (s: &'static str) {
        match val {
            LogLevel::Trace => " Trace ",
            LogLevel::Debug => " Debug ",
            LogLevel::Info => " Info ",
            LogLevel::Warning => " Warning ",
            LogLevel::Error => " Error ",
            LogLevel::Notice => " Notice ",
            LogLevel::Critical => " Critical ",
            LogLevel::Unknown => " Unknown ",
        }
    }
}

impl vstd::std_specs::convert::FromSpecImpl<LogLevel> for &'static str {
    open spec fn obeys_from_spec() -> bool {
        true
    }

    open spec fn from_spec(v: LogLevel) -> &'static str {
        match v {
            LogLevel::Trace => " Trace ",
            LogLevel::Debug => " Debug ",
            LogLevel::Info => " Info ",
            LogLevel::Warning => " Warning ",
            LogLevel::Error => " Error ",
            LogLevel::Notice => " Notice ",
            LogLevel::Critical => " Critical ",
            LogLevel::Unknown => " Unknown ",
        }
    }
}

} // verus!
