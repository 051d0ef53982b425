//! Timestamps of log lines, parsed and printed by the `chrono` crate. A time is
//! viewed as its instant (seconds and nanoseconds since the Unix epoch, in UTC)
//! and the UTC offset it was written with.
use vstd::prelude::*;
use vstd::string::StringSliceAdditionalSpecFns;
use vstd::utf8::{decode_utf8, encode_utf8, is_char_boundary};

use crate::text::{
    is_blank, is_white_space, split_at_first_white_space, split_once_white_space, str_chars,
    string_from_chars, trim_start, trim_start_chars,
};

verus! {

/// What `chrono::DateTime::parse_from_rfc2822` gives for `s`: the seconds and
/// nanoseconds since the epoch and the offset in seconds, or `None` on an error.
pub uninterp spec fn rfc2822_time(s: Seq<char>) -> Option<(int, int, int)>;

/// What `chrono::DateTime::parse_from_rfc3339` gives for `s`, as above.
pub uninterp spec fn rfc3339_time(s: Seq<char>) -> Option<(int, int, int)>;

/// What `chrono::DateTime::to_rfc3339` prints for the instant `(secs, nanos)`
/// written with the offset `offset`; `None` when `chrono` cannot rebuild that
/// instant or that offset.
pub uninterp spec fn rfc3339_text(secs: int, nanos: int, offset: int) -> Option<Seq<char>>;

/// The RFC 3339 text of a time; empty for a time `chrono` cannot rebuild, which
/// no parsed time is.
pub open spec fn rfc3339_of(t: LogTimeView) -> Seq<char> {
    match rfc3339_text(t.secs, t.nanos, t.offset) {
        Some(s) => s,
        None => Seq::empty(),
    }
}

/// The seconds since the epoch of `chrono::DateTime::<Utc>::MAX_UTC`,
/// 31 December 262142, 23:59:59.999999999.
pub open spec fn max_utc_secs() -> int {
    8210266876799
}

/// A timestamp.
#[derive(Debug, Clone, Copy)]
pub struct LogTime {
    secs: i64,
    nanos: u32,
    offset: i32,
}

/// What a [`LogTime`] holds, as plain values.
pub struct LogTimeView {
    pub secs: int,
    pub nanos: int,
    pub offset: int,
}

impl View for LogTime {
    type V = LogTimeView;

    closed spec fn view(&self) -> LogTimeView {
        LogTimeView { secs: self.secs as int, nanos: self.nanos as int, offset: self.offset as int }
    }
}

/// The time a parse result names, as a view.
pub open spec fn parsed_view(t: Option<(int, int, int)>) -> Option<LogTimeView> {
    match t {
        Some(v) => Some(LogTimeView { secs: v.0, nanos: v.1, offset: v.2 }),
        None => None,
    }
}

/// The view of an optional time.
pub open spec fn option_view(t: Option<LogTime>) -> Option<LogTimeView> {
    match t {
        Some(v) => Some(v@),
        None => None,
    }
}

/// The latest time `chrono` represents, with offset zero.
pub open spec fn max_time() -> LogTimeView {
    LogTimeView { secs: max_utc_secs(), nanos: 999_999_999, offset: 0 }
}

/// Whether `a` is no later than `b`.
pub open spec fn time_le(a: LogTimeView, b: LogTimeView) -> bool {
    a.secs < b.secs || (a.secs == b.secs && a.nanos <= b.nanos)
}

/// Whether `a` and `b` are the same instant, whatever their offsets.
pub open spec fn same_instant(a: LogTimeView, b: LogTimeView) -> bool {
    a.secs == b.secs && a.nanos == b.nanos
}

/// `chrono::DateTime::parse_from_rfc2822`, its result taken apart into the
/// instant and the offset. Named `rfc2822_time`; the grammar it parses needs at
/// least a day and a month, so an empty text is an error.
#[verifier::external_body]
fn parse_rfc2822(s: &str) -> (r: Option<LogTime>)
    ensures
        option_view(r) == parsed_view(rfc2822_time(s@)),
        s@.len() == 0 ==> r is None,
{
    chrono::DateTime::parse_from_rfc2822(s).ok().map(|t| LogTime {
        secs: t.timestamp(),
        nanos: t.timestamp_subsec_nanos(),
        offset: t.offset().local_minus_utc(),
    })
}

/// `chrono::DateTime::parse_from_rfc3339`, taken apart as above. Named
/// `rfc3339_time`.
#[verifier::external_body]
fn parse_rfc3339(s: &str) -> (r: Option<LogTime>)
    ensures
        option_view(r) == parsed_view(rfc3339_time(s@)),
{
    chrono::DateTime::parse_from_rfc3339(s).ok().map(|t| LogTime {
        secs: t.timestamp(),
        nanos: t.timestamp_subsec_nanos(),
        offset: t.offset().local_minus_utc(),
    })
}

/// `chrono::DateTime::<Utc>::MAX_UTC.fixed_offset()`: in the crate's source
/// `NaiveDate::MAX` is 31 December 262142 and `NaiveTime::MAX` is
/// 23:59:59.999999999; the offset is zero.
#[verifier::external_body]
fn max_utc() -> (t: LogTime)
    ensures
        t@ == max_time(),
{
    let t = chrono::DateTime::<chrono::Utc>::MAX_UTC.fixed_offset();
    LogTime {
        secs: t.timestamp(),
        nanos: t.timestamp_subsec_nanos(),
        offset: t.offset().local_minus_utc(),
    }
}

/// `chrono::DateTime::to_rfc3339` of the instant, rebuilt with
/// `DateTime::from_timestamp`, in the offset rebuilt with `FixedOffset::east_opt`;
/// `None` when either cannot be rebuilt. Named `rfc3339_text` over the instant
/// and the offset.
#[verifier::external_body]
fn format_rfc3339(secs: i64, nanos: u32, offset: i32) -> (s: Option<String>)
    ensures
        match s {
            Some(s) => rfc3339_text(secs as int, nanos as int, offset as int) == Some(s@),
            None => rfc3339_text(secs as int, nanos as int, offset as int) is None,
        },
{
    match (chrono::DateTime::from_timestamp(secs, nanos), chrono::FixedOffset::east_opt(offset)) {
        (Some(t), Some(o)) => Some(t.with_timezone(&o).to_rfc3339()),
        _ => None,
    }
}

impl LogTime {
    /// Parses an RFC 2822 date and time.
    pub fn parse_from_rfc2822(s: &str) -> (r: Option<LogTime>)
        ensures
            option_view(r) == parsed_view(rfc2822_time(s@)),
            s@.len() == 0 ==> r is None,
    {
        parse_rfc2822(s)
    }

    /// Parses an RFC 3339 date and time.
    pub fn parse_from_rfc3339(s: &str) -> (r: Option<LogTime>)
        ensures
            option_view(r) == parsed_view(rfc3339_time(s@)),
    {
        parse_rfc3339(s)
    }

    /// The latest time there is, given to lines without a timestamp.
    pub fn max_utc() -> (t: LogTime)
        ensures
            t@ == max_time(),
    {
        max_utc()
    }

    /// The time in RFC 3339 form, with its own offset.
    pub fn to_rfc3339(&self) -> (s: String)
        ensures
            s@ == rfc3339_of(self@),
    {
        match format_rfc3339(self.secs, self.nanos, self.offset) {
            Some(s) => s,
            None => String::new(),
        }
    }

    /// The seconds and nanoseconds of a time fit the integers that hold them.
    pub proof fn lemma_parts_in_range(t: LogTime)
        ensures
            i64::MIN <= t@.secs <= i64::MAX,
            0 <= t@.nanos <= u32::MAX,
    {
    }

    /// The instant of the time: seconds and nanoseconds since the epoch.
    pub fn instant(&self) -> (r: (i64, u32))
        ensures
            r.0 as int == self@.secs,
            r.1 as int == self@.nanos,
    {
        (self.secs, self.nanos)
    }

    /// Whether `self` and `other` are the same instant.
    pub fn same_instant(&self, other: &LogTime) -> (b: bool)
        ensures
            b == same_instant(self@, other@),
    {
        self.secs == other.secs && self.nanos == other.nanos
    }
}

} // verus!

verus! {

/// The index of the first byte `x` of `b`.
pub open spec fn byte_index(b: Seq<u8>, x: u8) -> Option<int>
    decreases b.len(),
{
    if b.len() == 0 {
        None
    } else if b[0] == x {
        Some(0)
    } else {
        match byte_index(b.drop_first(), x) {
            Some(i) => Some(i + 1),
            None => None,
        }
    }
}

/// Whether the bytes `GMT` start at index `i` of `b`.
pub open spec fn gmt_at(b: Seq<u8>, i: int) -> bool {
    0 <= i && i + 3 <= b.len() && b[i] == 0x47u8 && b[i + 1] == 0x4du8 && b[i + 2] == 0x54u8
}

/// The index of the first `GMT` of `b`.
pub open spec fn gmt_index(b: Seq<u8>) -> Option<int>
    decreases b.len(),
{
    if b.len() < 3 {
        None
    } else if gmt_at(b, 0) {
        Some(0)
    } else {
        match gmt_index(b.drop_first()) {
            Some(i) => Some(i + 1),
            None => None,
        }
    }
}

/// The byte index where the RFC 2822 timestamp at the start of a line is taken
/// to end: five bytes after the first `+` (the zone `+hhmm`); without a `+`,
/// three bytes after the first `GMT` when `with_gmt`; else 0.
pub open spec fn rfc2822_end(b: Seq<u8>, with_gmt: bool) -> int {
    match byte_index(b, 0x2bu8) {
        Some(i) => i + 5,
        None => if with_gmt {
            match gmt_index(b) {
                Some(i) => i + 3,
                None => 0,
            }
        } else {
            0
        },
    }
}

/// Whether the line can be cut where its RFC 2822 timestamp is taken to end: the
/// cut lies within the line and between two characters.
pub open spec fn timestamp_cut_ok(s: Seq<char>, with_gmt: bool) -> bool {
    let b = encode_utf8(s);
    rfc2822_end(b, with_gmt) <= b.len() && is_char_boundary(b, rfc2822_end(b, with_gmt))
}

/// The first white-space separated word of `s` (`str::split_whitespace`).
pub open spec fn first_word(s: Seq<char>) -> Seq<char> {
    match split_at_first_white_space(trim_start(s)) {
        Some(parts) => parts.0,
        None => trim_start(s),
    }
}

/// The timestamp of a log line: the text up to the cut parsed as RFC 2822, else
/// the first word parsed as RFC 3339.
pub open spec fn detect_time(s: Seq<char>, with_gmt: bool) -> Option<LogTimeView> {
    let b = encode_utf8(s);
    match rfc2822_time(decode_utf8(b.take(rfc2822_end(b, with_gmt)))) {
        Some(t) => parsed_view(Some(t)),
        None => parsed_view(rfc3339_time(first_word(s))),
    }
}

proof fn lemma_byte_index_found(b: Seq<u8>, x: u8, i: int)
    requires
        0 <= i < b.len(),
        b[i] == x,
        forall|k: int| 0 <= k < i ==> b[k] != x,
    ensures
        byte_index(b, x) == Some(i),
    decreases i,
{
    if i > 0 {
        lemma_byte_index_found(b.drop_first(), x, i - 1);
    }
}

proof fn lemma_byte_index_none(b: Seq<u8>, x: u8)
    requires
        forall|k: int| 0 <= k < b.len() ==> b[k] != x,
    ensures
        byte_index(b, x) is None,
    decreases b.len(),
{
    if b.len() > 0 {
        lemma_byte_index_none(b.drop_first(), x);
    }
}

proof fn lemma_gmt_index_found(b: Seq<u8>, i: int)
    requires
        gmt_at(b, i),
        forall|k: int| 0 <= k < i ==> !gmt_at(b, k),
    ensures
        gmt_index(b) == Some(i),
    decreases i,
{
    if i > 0 {
        let t = b.drop_first();
        assert forall|k: int| 0 <= k < i - 1 implies !gmt_at(t, k) by {
            assert(!gmt_at(b, k + 1));
        }
        lemma_gmt_index_found(t, i - 1);
    }
}

proof fn lemma_gmt_index_none(b: Seq<u8>)
    requires
        forall|k: int| 0 <= k < b.len() ==> !gmt_at(b, k),
    ensures
        gmt_index(b) is None,
    decreases b.len(),
{
    if b.len() >= 3 {
        let t = b.drop_first();
        assert forall|k: int| 0 <= k < t.len() implies !gmt_at(t, k) by {
            assert(!gmt_at(b, k + 1));
        }
        lemma_gmt_index_none(t);
    }
}

/// Where the RFC 2822 timestamp at the start of `bytes` is taken to end.
fn find_rfc2822_end(bytes: &[u8], with_gmt: bool) -> (e: Option<usize>)
    ensures
        match e {
            Some(e) => e as int == rfc2822_end(bytes@, with_gmt),
            None => rfc2822_end(bytes@, with_gmt) > usize::MAX,
        },
{
    let n = bytes.len();
    let mut i: usize = 0;
    while i < n
        invariant
            i <= n == bytes@.len(),
            forall|k: int| 0 <= k < i ==> bytes@[k] != 0x2bu8,
        decreases n - i,
    {
        if bytes[i] == 0x2b {
            proof {
                lemma_byte_index_found(bytes@, 0x2bu8, i as int);
            }
            if i > usize::MAX - 5 {
                return None;
            }
            return Some(i + 5);
        }
        i = i + 1;
    }
    proof {
        lemma_byte_index_none(bytes@, 0x2bu8);
    }
    if !with_gmt {
        return Some(0);
    }
    let mut j: usize = 0;
    while n >= 3 && j <= n - 3
        invariant
            n == bytes@.len(),
            with_gmt,
            byte_index(bytes@, 0x2bu8) is None,
            forall|k: int| 0 <= k < j ==> !gmt_at(bytes@, k),
        decreases n - j,
    {
        if bytes[j] == 0x47 && bytes[j + 1] == 0x4d && bytes[j + 2] == 0x54 {
            proof {
                lemma_gmt_index_found(bytes@, j as int);
            }
            return Some(j + 3);
        }
        j = j + 1;
    }
    proof {
        assert forall|k: int| 0 <= k < bytes@.len() implies !gmt_at(bytes@, k) by {
            if k >= j {
                assert(k + 3 > n || n < 3);
            }
        }
        lemma_gmt_index_none(bytes@);
    }
    Some(0)
}

/// The timestamp of a log line: the text up to where an RFC 2822 timestamp is
/// taken to end is parsed as RFC 2822; if that fails, the first word of the line
/// is parsed as RFC 3339. The line must hold more than white space, and the cut
/// must fall within it between two characters.
pub fn detect_log_time(log: &str, with_gmt: bool) -> (r: Option<LogTime>)
    requires
        !is_blank(log@),
        timestamp_cut_ok(log@, with_gmt),
    ensures
        option_view(r) == detect_time(log@, with_gmt),
        rfc2822_time(rfc2822_part(log@, with_gmt)) is None ==> option_view(r) == parsed_view(
            rfc3339_time(first_word(log@)),
        ),
        rfc2822_time(rfc2822_part(log@, with_gmt)) is Some ==> option_view(r) == parsed_view(
            rfc2822_time(rfc2822_part(log@, with_gmt)),
        ),
{
    let bytes = log.as_bytes();
    proof {
        assert(bytes@ == encode_utf8(log@));
    }
    let end = match find_rfc2822_end(bytes, with_gmt) {
        Some(e) => e,
        None => {
            assert(bytes@.len() == bytes.len());
            return None;
        },
    };
    let (head, _) = log.split_at(end);
    proof {
        assert(head.spec_bytes() == encode_utf8(head@));
        vstd::utf8::encode_utf8_decode_utf8(head@);
        assert(encode_utf8(log@).take(end as int) =~= head.spec_bytes());
    }
    if let Some(t) = parse_rfc2822(head) {
        return Some(t);
    }
    let chars = str_chars(log);
    let start = trim_start_chars(&chars);
    let word = match split_once_white_space(&start) {
        Some(parts) => parts.0,
        None => start,
    };
    let word_string = string_from_chars(word.as_slice());
    parse_rfc3339(word_string.as_str())
}

} // verus!

verus! {

/// Whether a timestamp can be looked for in `log`: it holds more than white
/// space, and the place its RFC 2822 part is taken to end lies within it,
/// between two characters.
pub fn line_is_readable(log: &str, with_gmt: bool) -> (b: bool)
    ensures
        b == (!is_blank(log@) && timestamp_cut_ok(log@, with_gmt)),
{
    let chars = str_chars(log);
    if crate::text::chars_are_blank(&chars) {
        return false;
    }
    let bytes = log.as_bytes();
    proof {
        assert(bytes@ == encode_utf8(log@));
    }
    match find_rfc2822_end(bytes, with_gmt) {
        None => {
            assert(bytes@.len() == bytes.len());
            false
        },
        Some(e) => e <= bytes.len() && log.is_char_boundary(e),
    }
}

} // verus!

verus! {

/// The text of a line up to where its RFC 2822 timestamp is taken to end.
pub open spec fn rfc2822_part(s: Seq<char>, with_gmt: bool) -> Seq<char> {
    let b = encode_utf8(s);
    decode_utf8(b.take(rfc2822_end(b, with_gmt)))
}

/// A line's time is the RFC 2822 parse of the text up to the cut when that
/// parse succeeds; whenever it fails, wherever the cut lies, it is the RFC 3339
/// parse of the line's first white-space separated word.
pub proof fn lemma_time_falls_back_to_first_word(s: Seq<char>, with_gmt: bool)
    ensures
        rfc2822_time(rfc2822_part(s, with_gmt)) is None ==> detect_time(s, with_gmt) == parsed_view(
            rfc3339_time(first_word(s)),
        ),
        rfc2822_time(rfc2822_part(s, with_gmt)) is Some ==> detect_time(s, with_gmt) == parsed_view(
            rfc2822_time(rfc2822_part(s, with_gmt)),
        ),
{
}

} // verus!
