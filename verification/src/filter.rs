//! The first form of a text filter: a pattern that keeps (`In`) or drops (`Out`)
//! the lines it matches.
use vstd::prelude::*;

use crate::pattern::{Pattern, regex_is_match};

verus! {

/// Whether a filter keeps the lines it matches or drops them.
#[derive(Debug, Clone, Copy, PartialEq, Eq, Structural)]
pub enum FilterKind {
    In,
    Out,
}

/// A text filter.
#[derive(Debug)]
pub struct Filter {
    kind: FilterKind,
    regex: Pattern,
    enabled: bool,
}

impl Filter {
    pub closed spec fn kind_of(&self) -> FilterKind {
        self.kind
    }

    pub closed spec fn pattern_of(&self) -> Seq<char> {
        self.regex@
    }

    pub closed spec fn enabled_of(&self) -> bool {
        self.enabled
    }

    /// Whether the filter lets `line` through: a disabled filter keeps every
    /// line, an `In` filter the lines it matches, an `Out` filter the others.
    pub open spec fn keeps(&self, line: Seq<char>) -> bool {
        !self.enabled_of() || match self.kind_of() {
            FilterKind::In => regex_is_match(self.pattern_of(), line),
            FilterKind::Out => !regex_is_match(self.pattern_of(), line),
        }
    }

    /// An enabled filter of the given kind.
    pub fn new(kind: FilterKind, regex: Pattern) -> (f: Filter)
        ensures
            f.kind_of() == kind,
            f.pattern_of() == regex@,
            f.enabled_of(),
    {
        Filter { kind, regex, enabled: true }
    }

    /// Whether the filter lets `line` through.
    pub fn keep_line(&self, line: &str) -> (b: bool)
        ensures
            b == self.keeps(line@),
    {
        if !self.enabled {
            return true;
        }
        match self.kind {
            FilterKind::In => self.regex.is_match(line),
            FilterKind::Out => !self.regex.is_match(line),
        }
    }

    pub fn is_enabled(&self) -> (b: bool)
        ensures
            b == self.enabled_of(),
    {
        self.enabled
    }

    pub fn filter_kind(&self) -> (k: FilterKind)
        ensures
            k == self.kind_of(),
    {
        self.kind
    }
}

} // verus!
