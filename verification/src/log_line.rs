//! A line of a log file, with the time it was logged at.
use vstd::prelude::*;

use crate::log_file::LogFile;
use crate::text::is_blank;
use crate::time::{LogTime, detect_log_time, detect_time, timestamp_cut_ok};

verus! {

/// A line of a log file with its timestamp.
#[derive(Debug, Clone, Copy)]
pub struct LogLine<'a> {
    pub src_file: &'a LogFile,
    pub time: LogTime,
    pub log: &'a str,
    pub marked: bool,
}

impl<'a> LogLine<'a> {
    /// A line with the timestamp it starts with, in RFC 2822 form (ending with a
    /// `+hhmm` zone or `GMT`) or as an RFC 3339 first word; `None` when it has
    /// neither. The line must hold more than white space, and the place the
    /// RFC 2822 form is taken to end must lie within it, between two characters.
    pub fn new(src_file: &'a LogFile, line: &'a str) -> (r: Option<LogLine<'a>>)
        requires
            !is_blank(line@),
            timestamp_cut_ok(line@, true),
        ensures
            match r {
                Some(l) => l.src_file == src_file && l.log == line && !l.marked && detect_time(
                    line@,
                    true,
                ) == Some(l.time@),
                None => detect_time(line@, true) is None,
            },
    {
        match detect_log_time(line, true) {
            Some(time) => Some(LogLine { src_file, time, log: line, marked: false }),
            None => None,
        }
    }
}

} // verus!
