use std::borrow::Cow;

use rnav::log::log_file::{ArchiveType, LogFile as StoredFile};
use rnav::log::log_level::LogLevel;
use rnav::log::log_line::LogLine as LevelledLine;
use rnav::log_file::LogFile;
use rnav::log_line::LogLine;
use rnav::logline::LogLine as BareLine;
use rnav::style::{Color, Style};
use rnav::time::{detect_log_time, line_is_readable, LogTime};

fn file() -> LogFile {
    LogFile::new_with_random_color("test".to_string(), "test".to_string())
}

#[test]
fn random_colour_file_keeps_name_and_text() {
    let f = file();
    assert_eq!(f.name, "test");
    assert_eq!(f.contents, "test");
    match f.color {
        Color::Rgb(r, g, b) => {
            let u = (r as u32) * 65536 + (g as u32) * 256 + b as u32;
            assert!((255..=0x00FF_FFFF).contains(&u));
        }
        other => panic!("expected an RGB colour, got {:?}", other),
    }
}

#[test]
fn log_line_rfc3339() {
    let f = file();
    let l = LogLine::new(&f, "2021-08-01T12:00:00Z INFO Hello, world!").unwrap();
    assert_eq!(l.time.instant(), (1627819200, 0));
    assert_eq!(l.log, "2021-08-01T12:00:00Z INFO Hello, world!");
    assert!(!l.marked);
    assert_eq!(l.time.to_rfc3339(), "2021-08-01T12:00:00+00:00");
}

#[test]
fn log_line_rfc2822() {
    let f = file();
    let l = LogLine::new(&f, "Wed, 18 Feb 2015 23:16:09 GMT Log contents").unwrap();
    assert_eq!(l.time.instant(), (1424301369, 0));
    assert_eq!(l.log, "Wed, 18 Feb 2015 23:16:09 GMT Log contents");
}

#[test]
fn log_line_unknown_format() {
    let f = file();
    assert!(LogLine::new(&f, "18/Mar/2003:08:05:30 +0200 Unknown format").is_none());
}

#[test]
fn bare_line_needs_a_zone_for_rfc2822() {
    let l = BareLine::new("2021-08-01T12:00:00Z x").unwrap();
    assert_eq!(l.time.instant(), (1627819200, 0));
    // Without `+hhmm` the RFC 2822 form is not looked for.
    assert!(BareLine::new("Wed, 18 Feb 2015 23:16:09 GMT Log contents").is_none());
    let l = BareLine::new("Wed, 18 Feb 2015 23:16:09 +0000 Log contents").unwrap();
    assert_eq!(l.time.instant(), (1424301369, 0));
}

#[test]
fn levelled_lines_as_documented() {
    let text = "2021-08-01T12:00:00Z INFO Hello, world!\n                Wed, 18 Feb 2015 23:16:09 GMT ERROR Log contents\n                18/Mar/2003:08:05:30 +0200 Unknown format";
    let file = StoredFile::new("/tmp/test".to_string(), text.as_bytes().to_vec());
    let contents = file.contents();
    let mut lines = contents
        .split(|c| *c == b'\n')
        .map(|l| Cow::Borrowed(std::str::from_utf8(l).unwrap().trim()));

    let first = LevelledLine::new(&file, lines.next().unwrap());
    let expected = LevelledLine {
        src_file: &file,
        time: LogTime::parse_from_rfc3339("2021-08-01T12:00:00+00:00").unwrap(),
        log: "2021-08-01T12:00:00Z INFO Hello, world!".into(),
        level: LogLevel::Unknown,
        marked: false,
        comment: None,
    };
    assert_eq!(first, expected);
    assert_eq!(first.level, LogLevel::Info);

    let second = LevelledLine::new(&file, lines.next().unwrap());
    let expected = LevelledLine {
        src_file: &file,
        time: LogTime::parse_from_rfc2822("Wed, 18 Feb 2015 23:16:09 +0000").unwrap(),
        log: "Wed, 18 Feb 2015 23:16:09 GMT ERROR Log contents".into(),
        level: LogLevel::Error,
        marked: false,
        comment: None,
    };
    assert_eq!(second, expected);
    assert_eq!(second.level, LogLevel::Error);

    let third = LevelledLine::new(&file, lines.next().unwrap());
    let expected = LevelledLine {
        src_file: &file,
        time: LogTime::max_utc(),
        log: "18/Mar/2003:08:05:30 +0200 Unknown format".into(),
        level: LogLevel::Unknown,
        marked: false,
        comment: None,
    };
    assert_eq!(third, expected);
}

#[test]
fn levelled_line_keeps_untrimmed_text_and_compares_by_text() {
    let file = StoredFile::new("f".to_string(), Vec::new());
    let a = LevelledLine::new(&file, Cow::Borrowed("  WARNING: disk  "));
    assert_eq!(a.level, LogLevel::Warning);
    assert_eq!(a.log, "  WARNING: disk  ");
    let b = LevelledLine::new(&file, Cow::Owned("  WARNING: disk  ".to_string()));
    assert_eq!(a, b);
    let c = LevelledLine::new(&file, Cow::Borrowed("XWARNING disk"));
    assert_eq!(c.level, LogLevel::Unknown);
}

#[test]
fn stored_file_colour_depends_on_name_only() {
    let a = StoredFile::new("same.log".to_string(), vec![1, 2, 3]);
    let b = StoredFile::new("same.log".to_string(), vec![]);
    assert_eq!(a.color, b.color);
    match a.color {
        Color::Indexed(i) => assert!(i % 2 == 0 && (2..=230).contains(&i)),
        other => panic!("expected an indexed colour, got {:?}", other),
    }
    assert_eq!(a.contents(), &[1, 2, 3]);
}

#[test]
fn archive_types() {
    assert_eq!(StoredFile::archive_type(Some("ZIP"), b""), Some(ArchiveType::Zip));
    assert_eq!(StoredFile::archive_type(Some("gz"), b""), Some(ArchiveType::Gzip));
    assert_eq!(StoredFile::archive_type(Some("GZip"), b""), Some(ArchiveType::Gzip));
    assert_eq!(StoredFile::archive_type(Some("log"), b"PK\x03\x04"), Some(ArchiveType::Zip));
    assert_eq!(StoredFile::archive_type(None, &[0x1f, 0x8b]), Some(ArchiveType::Gzip));
    assert_eq!(StoredFile::archive_type(None, b"PK\x03"), None);
    assert_eq!(StoredFile::archive_type(Some("txt"), b"plain"), None);
    assert_eq!(StoredFile::archive_type(Some("zip"), &[0x1f, 0x8b]), Some(ArchiveType::Zip));
}

#[test]
fn log_levels() {
    assert_eq!(LogLevel::parse(" WARN "), LogLevel::Warning);
    assert_eq!(LogLevel::parse("ERR"), LogLevel::Error);
    assert_eq!(LogLevel::parse("CRITICAL"), LogLevel::Critical);
    assert_eq!(LogLevel::parse("info"), LogLevel::Unknown);
    assert_eq!("TRACE".parse::<LogLevel>().unwrap(), LogLevel::Trace);
    assert_eq!(LogLevel::default(), LogLevel::Unknown);
    let label: &str = LogLevel::Notice.into();
    assert_eq!(label, " Notice ");
    assert_eq!(LogLevel::Debug.as_str(), " Debug ");
    let span = LogLevel::Critical.span();
    assert_eq!(span.content, " Critical ");
    assert_eq!(span.style, Style { fg: Some(Color::Red), bg: None, bold: false, slow_blink: true });
    let span = LogLevel::Info.span();
    assert_eq!(span.style, Style::fg(Color::Green));
}

#[test]
fn times() {
    let t = LogTime::parse_from_rfc3339("2020-01-02T03:04:05+02:00").unwrap();
    assert_eq!(t.instant(), (1577927045, 0));
    assert_eq!(t.to_rfc3339(), "2020-01-02T03:04:05+02:00");
    assert!(LogTime::parse_from_rfc3339("yesterday").is_none());
    assert!(LogTime::parse_from_rfc2822("").is_none());
    let max = LogTime::max_utc();
    assert_eq!(max.instant(), (8210266876799, 999_999_999));
    assert!(max.same_instant(&LogTime::max_utc()));
    assert!(!max.same_instant(&t));
    let same = LogTime::parse_from_rfc3339("2020-01-02T01:04:05Z").unwrap();
    assert!(same.same_instant(&t));
}

#[test]
fn detecting_times() {
    let t = detect_log_time("Wed, 18 Feb 2015 23:16:09 +0000 text", false).unwrap();
    assert_eq!(t.instant(), (1424301369, 0));
    let t = detect_log_time("  2021-08-01T12:00:00Z  text", true).unwrap();
    assert_eq!(t.instant(), (1627819200, 0));
    assert!(detect_log_time("plain text", true).is_none());
    assert!(line_is_readable("plain text", true));
    assert!(!line_is_readable("   ", true));
    assert!(!line_is_readable("a +1", true));
    assert!(line_is_readable("GMT", true));
    assert!(line_is_readable("xGM", false));
}
