//! The first form of a log line: its text and the time it starts with.
use vstd::prelude::*;

use crate::text::is_blank;
use crate::time::{LogTime, detect_log_time, detect_time, timestamp_cut_ok};

verus! {

/// A line of a log with its timestamp.
#[derive(Debug, Clone, Copy)]
pub struct LogLine<'a> {
    pub time: LogTime,
    pub log: &'a str,
}

impl<'a> LogLine<'a> {
    /// A line with the timestamp it starts with, in RFC 2822 form (ending with a
    /// `+hhmm` zone) or as an RFC 3339 first word; `None` when it has neither.
    /// The line must hold more than white space, and the place the RFC 2822 form
    /// is taken to end must lie within it, between two characters.
    pub fn new(line: &'a str) -> (r: Option<LogLine<'a>>)
        requires
            !is_blank(line@),
            timestamp_cut_ok(line@, false),
        ensures
            match r {
                Some(l) => l.log == line && detect_time(line@, false) == Some(l.time@),
                None => detect_time(line@, false) is None,
            },
    {
        match detect_log_time(line, false) {
            Some(time) => Some(LogLine { time, log: line }),
            None => None,
        }
    }
}

} // verus!
