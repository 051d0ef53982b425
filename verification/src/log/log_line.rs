//! A line of a log file with its time, its severity, whether it is marked and
//! the comment on it.
use vstd::prelude::*;

use std::borrow::Cow;

use crate::log::log_file::LogFile;
use crate::log::log_level::{LogLevel, parse_log_level};
use crate::pattern::{Pattern, regex_compile_error, regex_first_capture};
use crate::text::{chars_equal, is_blank, lemma_trim_not_blank, str_chars, string_from_chars, trim, trim_chars};
use crate::time::{LogTime, LogTimeView, detect_log_time, detect_time, max_time, same_instant, timestamp_cut_ok};

verus! {

/// The pattern that finds the severity of a line: one of the level words, not
/// inside a longer word.
pub open spec fn log_level_pattern() -> Seq<char> {
    "([^\\w]|^)(?<level>TRACE|DEBUG|INFO|ERR|ERROR|WARN|WARNING|NOTICE|CRIT|CRITICAL)([^\\w]|$)"@
}

/// The severity of a trimmed line: the level word that the first match of
/// [`log_level_pattern`] captures, `Unknown` when there is none.
pub open spec fn line_level(log: Seq<char>) -> LogLevel {
    if regex_compile_error(log_level_pattern()) is None {
        match regex_first_capture(log_level_pattern(), log, "level"@) {
            Some(word) => parse_log_level(word),
            None => LogLevel::Unknown,
        }
    } else {
        LogLevel::Unknown
    }
}

/// The time of a trimmed line: the one it starts with, else the latest time
/// there is.
pub open spec fn line_time(log: Seq<char>) -> LogTimeView {
    match detect_time(log, true) {
        Some(t) => t,
        None => max_time(),
    }
}

/// A line of a log file.
#[derive(Debug)]
pub struct LogLine<'a> {
    pub src_file: &'a LogFile,
    pub time: LogTime,
    pub log: Cow<'a, str>,
    pub level: LogLevel,
    pub marked: bool,
    pub comment: Option<String>,
}

/// The view of an optional comment.
pub open spec fn comment_view(c: Option<String>) -> Option<Seq<char>> {
    match c {
        Some(s) => Some(s@),
        None => None,
    }
}

fn cow_str<'b>(c: &'b Cow<'_, str>) -> (s: &'b str)
    ensures
        s@ == c@,
{
    match c {
        Cow::Borrowed(b) => b,
        Cow::Owned(o) => o.as_str(),
    }
}

impl<'a> LogLine<'a> {
    /// A line of `src_file`. The trimmed text is searched for its time (see
    /// [`crate::time::detect_time`]; lines without one get the latest time there
    /// is) and its severity; the line keeps its text as given, unmarked and
    /// without a comment. The line must hold more than white space, and the place
    /// the RFC 2822 form is taken to end must lie within the trimmed text,
    /// between two characters.
    pub fn new(src_file: &'a LogFile, line: Cow<'a, str>) -> (l: LogLine<'a>)
        requires
            !is_blank(line@),
            timestamp_cut_ok(trim(line@), true),
        ensures
            l.src_file == src_file,
            l.log@ == line@,
            l.time@ == line_time(trim(line@)),
            l.level == line_level(trim(line@)),
            !l.marked,
            l.comment is None,
    {
        let log = string_from_chars(trim_chars(&str_chars(cow_str(&line))).as_slice());
        proof {
            lemma_trim_not_blank(line@);
        }
        let time = match detect_log_time(log.as_str(), true) {
            Some(t) => t,
            None => LogTime::max_utc(),
        };
        let level = match Pattern::new(
            "([^\\w]|^)(?<level>TRACE|DEBUG|INFO|ERR|ERROR|WARN|WARNING|NOTICE|CRIT|CRITICAL)([^\\w]|$)",
        ) {
            Ok(re) => match re.first_capture(log.as_str(), "level") {
                Some(word) => LogLevel::parse(word.as_str()),
                None => LogLevel::Unknown,
            },
            Err(_) => LogLevel::Unknown,
        };
        LogLine { src_file, time, log: line, level, marked: false, comment: None }
    }
}

impl<'a> Clone for LogLine<'a> {
    fn clone(&self) -> (c: Self)
        ensures
            c.src_file == self.src_file,
            c.time == self.time,
            c.log@ == self.log@,
            c.level == self.level,
            c.marked == self.marked,
            comment_view(c.comment) == comment_view(self.comment),
    {
        let log = match &self.log {
            Cow::Borrowed(b) => Cow::Borrowed(*b),
            Cow::Owned(o) => Cow::Owned(o.clone()),
        };
        let comment = match &self.comment {
            Some(c) => Some(c.clone()),
            None => None,
        };
        LogLine {
            src_file: self.src_file,
            time: self.time,
            log,
            level: self.level,
            marked: self.marked,
            comment,
        }
    }
}

impl<'a> PartialEq for LogLine<'a> {
    fn eq(&self, other: &Self) -> (b: bool) {
        let same_name = self.src_file.name.eq(&other.src_file.name);
        let same_time = self.time.same_instant(&other.time);
        let same_log = chars_equal(&str_chars(cow_str(&self.log)), &str_chars(cow_str(&other.log)));
        let same_comment = match (&self.comment, &other.comment) {
            (Some(a), Some(b)) => a.eq(b),
            (None, None) => true,
            _ => false,
        };
        same_name && same_time && same_log && self.marked == other.marked && same_comment
    }
}

impl<'a> vstd::std_specs::cmp::PartialEqSpecImpl for LogLine<'a> {
    open spec fn obeys_eq_spec() -> bool {
        true
    }

    open spec fn eq_spec(&self, other: &Self) -> bool {
        self.src_file.name@ == other.src_file.name@ && same_instant(self.time@, other.time@)
            && self.log@ == other.log@ && self.marked == other.marked && comment_view(self.comment)
            == comment_view(other.comment)
    }
}

} // verus!
