//! Regular expressions, compiled and run by the `regex` crate. A compiled
//! expression keeps the pattern it was compiled from, which is its view.
use vstd::prelude::*;
use vstd::string::StringSliceAdditionalSpecFns;

verus! {

#[verifier::external_type_specification]
#[verifier::external_body]
pub struct ExRegex(regex::Regex);

/// What `regex::Regex::new` answers for a pattern: `None` when the pattern
/// compiles, else the text of the error it returns (its `Display`).
pub uninterp spec fn regex_compile_error(pattern: Seq<char>) -> Option<Seq<char>>;

/// Whether `regex::Regex::is_match` finds a match of the compiled `pattern`
/// anywhere in `haystack`.
pub uninterp spec fn regex_is_match(pattern: Seq<char>, haystack: Seq<char>) -> bool;

/// The byte ranges `(start, end)` of the successive non-overlapping matches that
/// `regex::Regex::find_iter` yields for the compiled `pattern` in `haystack`.
pub uninterp spec fn regex_find_ranges(pattern: Seq<char>, haystack: Seq<char>) -> Seq<(int, int)>;

/// A compiled regular expression.
#[derive(Debug)]
pub struct Pattern {
    pattern: String,
    inner: regex::Regex,
}

/// The error of a pattern that does not compile; its view is its message.
#[derive(Debug)]
pub struct RegexError {
    message: String,
}

impl View for Pattern {
    type V = Seq<char>;

    closed spec fn view(&self) -> Seq<char> {
        self.pattern@
    }
}

impl View for RegexError {
    type V = Seq<char>;

    closed spec fn view(&self) -> Seq<char> {
        self.message@
    }
}

/// `regex::Regex::new`: compiles `pattern`; keeps the pattern beside the
/// compiled expression. The contract claims that the outcome is a function of
/// the pattern alone (the default size limits apply), named
/// `regex_compile_error`.
#[verifier::external_body]
fn compile(pattern: &str) -> (r: Result<Pattern, RegexError>)
    ensures
        match r {
            Ok(re) => re@ == pattern@ && regex_compile_error(pattern@) is None,
            Err(e) => regex_compile_error(pattern@) == Some(e@),
        },
{
    match regex::Regex::new(pattern) {
        Ok(inner) => Ok(Pattern { pattern: pattern.to_string(), inner }),
        Err(e) => Err(RegexError { message: e.to_string() }),
    }
}

/// `regex::Regex::is_match`: whether the expression matches somewhere in
/// `haystack`; named `regex_is_match` over the pattern and the haystack.
#[verifier::external_body]
fn is_match_in(re: &Pattern, haystack: &str) -> (b: bool)
    ensures
        b == regex_is_match(re@, haystack@),
{
    re.inner.is_match(haystack)
}

/// `regex::Regex::as_str`: documented as the original string of the expression.
#[verifier::external_body]
fn source_of(re: &Pattern) -> (s: &str)
    ensures
        s@ == re@,
{
    re.inner.as_str()
}

/// `regex::Regex::find_iter`, each match taken as its byte range. Named
/// `regex_find_ranges`; the crate documents that the matches are successive
/// and non-overlapping, that each starts no later than it ends, and that both
/// offsets fall on UTF-8 boundaries of the haystack.
#[verifier::external_body]
fn find_ranges_in(re: &Pattern, haystack: &str) -> (r: Vec<(usize, usize)>)
    ensures
        r@.len() == regex_find_ranges(re@, haystack@).len(),
        forall|i: int|
            0 <= i < r@.len() ==> (#[trigger] r@[i]).0 as int == regex_find_ranges(re@, haystack@)[i].0
                && r@[i].1 as int == regex_find_ranges(re@, haystack@)[i].1,
        forall|i: int|
            0 <= i < r@.len() ==> (#[trigger] r@[i]).0 <= r@[i].1 <= haystack.spec_bytes().len()
                && vstd::utf8::is_char_boundary(haystack.spec_bytes(), r@[i].0 as int)
                && vstd::utf8::is_char_boundary(haystack.spec_bytes(), r@[i].1 as int),
        forall|i: int| 0 < i < r@.len() ==> r@[i - 1].1 <= (#[trigger] r@[i]).0,
{
    re.inner.find_iter(haystack).map(|m| (m.start(), m.end())).collect()
}

impl Pattern {
    /// Compiles `pattern`; fails with the message of the `regex` crate when the
    /// pattern is invalid or too large.
    pub fn new(pattern: &str) -> (r: Result<Pattern, RegexError>)
        ensures
            match r {
                Ok(re) => re@ == pattern@ && regex_compile_error(pattern@) is None,
                Err(e) => regex_compile_error(pattern@) == Some(e@),
            },
    {
        compile(pattern)
    }

    /// Whether the expression matches somewhere in `haystack`.
    pub fn is_match(&self, haystack: &str) -> (b: bool)
        ensures
            b == regex_is_match(self@, haystack@),
    {
        is_match_in(self, haystack)
    }

    /// The pattern the expression was compiled from.
    pub fn as_str(&self) -> (s: &str)
        ensures
            s@ == self@,
    {
        source_of(self)
    }

    /// The byte ranges of the successive non-overlapping matches in `haystack`.
    pub fn find_ranges(&self, haystack: &str) -> (r: Vec<(usize, usize)>)
        ensures
            r@.len() == regex_find_ranges(self@, haystack@).len(),
            forall|i: int|
                0 <= i < r@.len() ==> (#[trigger] r@[i]).0 as int == regex_find_ranges(self@, haystack@)[i].0
                    && r@[i].1 as int == regex_find_ranges(self@, haystack@)[i].1,
            forall|i: int|
                0 <= i < r@.len() ==> (#[trigger] r@[i]).0 <= r@[i].1 <= haystack.spec_bytes().len()
                    && vstd::utf8::is_char_boundary(haystack.spec_bytes(), r@[i].0 as int)
                    && vstd::utf8::is_char_boundary(haystack.spec_bytes(), r@[i].1 as int),
            forall|i: int| 0 < i < r@.len() ==> r@[i - 1].1 <= (#[trigger] r@[i]).0,
    {
        find_ranges_in(self, haystack)
    }
}

impl RegexError {
    /// The message of the error, as the `regex` crate words it.
    pub fn message(&self) -> (s: &String)
        ensures
            s@ == self@,
    {
        &self.message
    }
}

} // verus!

verus! {

/// What `regex::Regex::captures_iter` yields first for the compiled `pattern` in
/// `haystack`, taken at the capture group named `group`: the text of that group,
/// or `None` when there is no match or the group did not take part in it.
pub uninterp spec fn regex_first_capture(pattern: Seq<char>, haystack: Seq<char>, group: Seq<char>) -> Option<Seq<char>>;

/// `regex::Regex::captures_iter(..).next()` and `Captures::name`: the text of the
/// named group in the first match. Named `regex_first_capture`.
#[verifier::external_body]
fn first_capture_in(re: &Pattern, haystack: &str, group: &str) -> (r: Option<String>)
    ensures
        match r {
            Some(s) => regex_first_capture(re@, haystack@, group@) == Some(s@),
            None => regex_first_capture(re@, haystack@, group@) is None,
        },
{
    re.inner.captures_iter(haystack).next().and_then(|m| m.name(group).map(|g| g.as_str().to_string()))
}

impl Pattern {
    /// The text of the capture group `group` in the first match in `haystack`.
    pub fn first_capture(&self, haystack: &str, group: &str) -> (r: Option<String>)
        ensures
            match r {
                Some(s) => regex_first_capture(self@, haystack@, group@) == Some(s@),
                None => regex_first_capture(self@, haystack@, group@) is None,
            },
    {
        first_capture_in(self, haystack, group)
    }
}

} // verus!
