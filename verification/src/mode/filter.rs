//! Text filters: patterns that keep (`In`) or drop (`Out`) log lines, and the
//! menu that edits them.
use vstd::prelude::*;

use crate::app_state::{AppAction, AppMode};
use crate::input::{Event, KeyCode, KeyEvent};
use crate::pattern::{Pattern, regex_is_match};
use crate::text::{append_chars, decimal, str_chars, string_from_chars, usize_to_string};

verus! {

/// Whether a filter keeps the lines it matches or drops them.
#[derive(Debug, Clone, Copy, PartialEq, Eq, Structural)]
pub enum FilterKind {
    In,
    Out,
}

/// A text filter.
#[derive(Debug)]
pub struct Filter {
    kind: FilterKind,
    regex: Pattern,
    enabled: bool,
}

/// What a [`Filter`] holds, as plain values.
pub struct FilterView {
    pub kind: FilterKind,
    pub pattern: Seq<char>,
    pub enabled: bool,
}

impl View for Filter {
    type V = FilterView;

    closed spec fn view(&self) -> FilterView {
        FilterView { kind: self.kind, pattern: self.regex@, enabled: self.enabled }
    }
}

/// Whether filter `f` lets `line` through: a disabled filter keeps every line,
/// an `In` filter keeps the lines it matches, an `Out` filter the others.
pub open spec fn filter_keeps(f: FilterView, line: Seq<char>) -> bool {
    !f.enabled || match f.kind {
        FilterKind::In => regex_is_match(f.pattern, line),
        FilterKind::Out => !regex_is_match(f.pattern, line),
    }
}

/// Whether filter `f` is of kind `In` and lets `line` through.
pub open spec fn in_filter_keeps(f: FilterView, line: Seq<char>) -> bool {
    f.kind == FilterKind::In && filter_keeps(f, line)
}

/// Whether filter `f` is of kind `Out` and drops `line`.
pub open spec fn out_filter_drops(f: FilterView, line: Seq<char>) -> bool {
    f.kind == FilterKind::Out && !filter_keeps(f, line)
}

/// Whether the filters `fs` keep `line`: always when there are no filters or
/// filtering is off; otherwise when some `In` filter keeps it (or there is no
/// `In` filter) and no `Out` filter drops it.
pub open spec fn filters_keep(fs: Seq<FilterView>, filtering_enabled: bool, line: Seq<char>) -> bool {
    fs.len() == 0 || !filtering_enabled || (((forall|i: int|
        0 <= i < fs.len() ==> (#[trigger] fs[i]).kind != FilterKind::In) || (exists|i: int|
        0 <= i < fs.len() && in_filter_keeps(#[trigger] fs[i], line))) && !(exists|i: int|
        0 <= i < fs.len() && out_filter_drops(#[trigger] fs[i], line)))
}

/// How many of `lines` the filters keep.
pub open spec fn count_kept(fs: Seq<FilterView>, filtering_enabled: bool, lines: Seq<Seq<char>>) -> nat
    decreases lines.len(),
{
    if lines.len() == 0 {
        0
    } else {
        count_kept(fs, filtering_enabled, lines.drop_last()) + if filters_keep(
            fs,
            filtering_enabled,
            lines.last(),
        ) {
            1nat
        } else {
            0nat
        }
    }
}

impl Filter {
    /// An enabled filter of the given kind.
    pub fn new(kind: FilterKind, regex: Pattern) -> (f: Filter)
        ensures
            f@ == (FilterView { kind, pattern: regex@, enabled: true }),
    {
        Filter { kind, regex, enabled: true }
    }

    /// Whether the filter lets `line` through.
    pub fn keep_line(&self, line: &str) -> (b: bool)
        ensures
            b == filter_keeps(self@, line@),
    {
        if !self.enabled {
            return true;
        }
        match self.kind {
            FilterKind::In => self.regex.is_match(line),
            FilterKind::Out => !self.regex.is_match(line),
        }
    }

    pub fn is_enabled(&self) -> (b: bool)
        ensures
            b == self@.enabled,
    {
        self.enabled
    }

    pub fn filter_kind(&self) -> (k: FilterKind)
        ensures
            k == self@.kind,
    {
        self.kind
    }

    /// The pattern of the filter.
    pub fn regex(&self) -> (s: &str)
        ensures
            s@ == self@.pattern,
    {
        self.regex.as_str()
    }
}

/// The most filters the menu shows at once.
pub const MAX_FILTERS_TABLE_ROWS_DISPLAYED: usize = 5;

/// The filters, the one selected in the menu, whether filtering is on, and the
/// number of kept lines computed last, while the filters stay the same.
#[derive(Debug)]
pub struct Filters {
    filters: Vec<Filter>,
    selected_filter: usize,
    filtering_enabled: bool,
    filtered_lines_count_cache: Option<usize>,
}

/// What a [`Filters`] holds, as plain values.
pub struct FiltersView {
    pub filters: Seq<FilterView>,
    pub selected: nat,
    pub filtering_enabled: bool,
    pub cache: Option<nat>,
}

impl View for Filters {
    type V = FiltersView;

    closed spec fn view(&self) -> FiltersView {
        FiltersView {
            filters: self.filters@.map_values(|f: Filter| f@),
            selected: self.selected_filter as nat,
            filtering_enabled: self.filtering_enabled,
            cache: match self.filtered_lines_count_cache {
                Some(c) => Some(c as nat),
                None => None,
            },
        }
    }
}

/// The selection points at a filter, or at the first place when there is none.
pub open spec fn filters_wf(s: FiltersView) -> bool {
    s.selected == 0 || s.selected < s.filters.len()
}

/// `n - 1`, or 0 for 0.
pub open spec fn sat_dec(n: nat) -> nat {
    if n == 0 {
        0
    } else {
        (n - 1) as nat
    }
}

/// The filters with the selected one toggled between enabled and disabled.
pub open spec fn toggled_enabled(s: FiltersView) -> FiltersView {
    let f = s.filters[s.selected as int];
    FiltersView {
        filters: s.filters.update(s.selected as int, FilterView { enabled: !f.enabled, ..f }),
        cache: None,
        ..s
    }
}

/// The filters with the selected one switched between `In` and `Out`.
pub open spec fn toggled_kind(s: FiltersView) -> FiltersView {
    let f = s.filters[s.selected as int];
    FiltersView {
        filters: s.filters.update(
            s.selected as int,
            FilterView {
                kind: match f.kind {
                    FilterKind::In => FilterKind::Out,
                    FilterKind::Out => FilterKind::In,
                },
                ..f
            },
        ),
        cache: None,
        ..s
    }
}

/// The filters without the selected one; the selection moves up.
pub open spec fn deleted_selected(s: FiltersView) -> FiltersView {
    FiltersView {
        filters: s.filters.remove(s.selected as int),
        selected: sat_dec(s.selected),
        cache: None,
        ..s
    }
}

/// What a key does in the filters menu: the new state, the mode to switch to and
/// the action for the program.
pub open spec fn filters_menu_event(s: FiltersView, ev: Event) -> (
    FiltersView,
    Option<AppMode>,
    Option<AppAction>,
) {
    match ev {
        Event::Key(k) => match k.code {
            KeyCode::Tab => (s, Some(AppMode::Logs), None),
            KeyCode::Up => (FiltersView { selected: sat_dec(s.selected), ..s }, None, None),
            KeyCode::Down => (
                FiltersView {
                    selected: if s.selected + 1 <= sat_dec(s.filters.len()) {
                        s.selected + 1
                    } else {
                        sat_dec(s.filters.len())
                    },
                    ..s
                },
                None,
                None,
            ),
            KeyCode::Char(c) => {
                if c == 'k' {
                    (FiltersView { selected: sat_dec(s.selected), ..s }, None, None)
                } else if c == 'j' {
                    (
                        FiltersView {
                            selected: if s.selected + 1 <= sat_dec(s.filters.len()) {
                                s.selected + 1
                            } else {
                                sat_dec(s.filters.len())
                            },
                            ..s
                        },
                        None,
                        None,
                    )
                } else if c == ' ' {
                    (if s.filters.len() > 0 {
                        toggled_enabled(s)
                    } else {
                        s
                    }, None, None)
                } else if c == 't' {
                    (if s.filters.len() > 0 {
                        toggled_kind(s)
                    } else {
                        s
                    }, None, None)
                } else if c == 'D' {
                    (if s.filters.len() > 0 {
                        deleted_selected(s)
                    } else {
                        s
                    }, None, None)
                } else if c == 'f' {
                    (
                        FiltersView {
                            filtering_enabled: !s.filtering_enabled,
                            cache: None,
                            ..s
                        },
                        None,
                        None,
                    )
                } else if c == 'q' {
                    (s, Some(AppMode::Logs), None)
                } else {
                    (s, None, None)
                }
            },
            _ => (s, None, None),
        },
        _ => (s, None, None),
    }
}

/// Every event of the filters menu keeps the selection on a filter.
pub proof fn lemma_filters_menu_event_keeps_wf(s: FiltersView, ev: Event)
    requires
        filters_wf(s),
    ensures
        filters_wf(filters_menu_event(s, ev).0),
{
}

/// An event of the filters menu that changes the filters, or switches
/// filtering, forgets the cached count of kept lines; one that changes neither
/// keeps the cache.
pub proof fn lemma_filters_menu_event_cache(s: FiltersView, ev: Event)
    requires
        filters_wf(s),
    ensures
        ({
            let t = filters_menu_event(s, ev).0;
            (t.filters != s.filters || t.filtering_enabled != s.filtering_enabled ==> t.cache is None)
                && (t.cache is None || t.cache == s.cache)
        }),
{
}

impl Filters {
    /// No filters, filtering on, nothing cached.
    pub fn new() -> (r: Filters)
        ensures
            r@ == (FiltersView {
                filters: Seq::empty(),
                selected: 0,
                filtering_enabled: true,
                cache: None,
            }),
    {
        let r = Filters {
            filters: Vec::new(),
            selected_filter: 0,
            filtering_enabled: true,
            filtered_lines_count_cache: None,
        };
        assert(r@.filters =~= Seq::<FilterView>::empty());
        r
    }

    /// Removes every filter.
    pub fn clear(&mut self)
        ensures
            final(self)@ == (FiltersView {
                filters: Seq::empty(),
                selected: 0,
                cache: None,
                ..old(self)@
            }),
    {
        self.filters.clear();
        self.selected_filter = 0;
        self.filtered_lines_count_cache = None;
        assert(self@.filters =~= Seq::<FilterView>::empty());
    }

    /// Adds an enabled filter that keeps the lines `r` matches.
    pub fn create_in_filter(&mut self, r: Pattern)
        ensures
            final(self)@ == (FiltersView {
                filters: old(self)@.filters.push(
                    FilterView { kind: FilterKind::In, pattern: r@, enabled: true },
                ),
                cache: None,
                ..old(self)@
            }),
            filters_wf(old(self)@) ==> filters_wf(final(self)@),
    {
        self.filters.push(Filter::new(FilterKind::In, r));
        self.filtered_lines_count_cache = None;
        assert(self@.filters =~= old(self)@.filters.push(
            FilterView { kind: FilterKind::In, pattern: r@, enabled: true },
        ));
    }

    /// Adds an enabled filter that drops the lines `r` matches.
    pub fn create_out_filter(&mut self, r: Pattern)
        ensures
            final(self)@ == (FiltersView {
                filters: old(self)@.filters.push(
                    FilterView { kind: FilterKind::Out, pattern: r@, enabled: true },
                ),
                cache: None,
                ..old(self)@
            }),
            filters_wf(old(self)@) ==> filters_wf(final(self)@),
    {
        self.filters.push(Filter::new(FilterKind::Out, r));
        self.filtered_lines_count_cache = None;
        assert(self@.filters =~= old(self)@.filters.push(
            FilterView { kind: FilterKind::Out, pattern: r@, enabled: true },
        ));
    }

    /// How many of `lines` the filters keep. A count computed before, while the
    /// filters have not changed since, is answered from the cache, whatever
    /// `lines` holds.
    pub fn get_filtered_lines_count(&mut self, lines: &[&str]) -> (count: usize)
        ensures
            match old(self)@.cache {
                Some(c) => count == c && final(self)@ == old(self)@,
                None => count == count_kept(
                    old(self)@.filters,
                    old(self)@.filtering_enabled,
                    lines@.map_values(|l: &str| l@),
                ) && final(self)@ == (FiltersView { cache: Some(count as nat), ..old(self)@ }),
            },
    {
        if let Some(count) = self.filtered_lines_count_cache {
            return count;
        }
        let ghost views = lines@.map_values(|l: &str| l@);
        let mut count: usize = 0;
        let mut i: usize = 0;
        while i < lines.len()
            invariant
                i <= lines.len(),
                count <= i,
                views == lines@.map_values(|l: &str| l@),
                count == count_kept(self@.filters, self@.filtering_enabled, views.take(i as int)),
            decreases lines.len() - i,
        {
            assert(views.take(i + 1).drop_last() =~= views.take(i as int));
            if self.keep_line(lines[i]) {
                count = count + 1;
            }
            i = i + 1;
        }
        assert(views.take(lines.len() as int) =~= views);
        self.filtered_lines_count_cache = Some(count);
        count
    }

    /// Whether the filters keep `line`.
    pub fn keep_line(&self, line: &str) -> (b: bool)
        ensures
            b == filters_keep(self@.filters, self@.filtering_enabled, line@),
    {
        if self.filters.len() == 0 || !self.filtering_enabled {
            return true;
        }
        let ghost fs = self@.filters;
        let mut has_in = false;
        let mut some_in_keeps = false;
        let mut some_out_drops = false;
        let mut i: usize = 0;
        while i < self.filters.len()
            invariant
                i <= self.filters.len(),
                fs == self@.filters,
                fs.len() == self.filters.len(),
                has_in == exists|j: int| 0 <= j < i && (#[trigger] fs[j]).kind == FilterKind::In,
                some_in_keeps == exists|j: int| 0 <= j < i && in_filter_keeps(#[trigger] fs[j], line@),
                some_out_drops == exists|j: int|
                    0 <= j < i && out_filter_drops(#[trigger] fs[j], line@),
            decreases self.filters.len() - i,
        {
            let f = &self.filters[i];
            assert(fs[i as int] == f@);
            match f.filter_kind() {
                FilterKind::In => {
                    has_in = true;
                    if f.keep_line(line) {
                        some_in_keeps = true;
                    }
                },
                FilterKind::Out => {
                    if !f.keep_line(line) {
                        some_out_drops = true;
                    }
                },
            }
            i = i + 1;
        }
        (!has_in || some_in_keeps) && !some_out_drops
    }

    /// The number of enabled filters.
    pub fn total_filters_enabled(&self) -> (n: usize)
        ensures
            n == self@.filters.filter(|f: FilterView| f.enabled).len(),
    {
        let ghost fs = self@.filters;
        let mut n: usize = 0;
        let mut i: usize = 0;
        while i < self.filters.len()
            invariant
                i <= self.filters.len(),
                fs == self@.filters,
                fs.len() == self.filters.len(),
                n <= i,
                n == fs.take(i as int).filter(|f: FilterView| f.enabled).len(),
            decreases self.filters.len() - i,
        {
            reveal_with_fuel(Seq::filter, 1);
            assert(fs.take(i + 1).drop_last() =~= fs.take(i as int));
            assert(fs[i as int] == self.filters[i as int]@);
            if self.filters[i].is_enabled() {
                n = n + 1;
            }
            i = i + 1;
        }
        assert(fs.take(self.filters.len() as int) =~= fs);
        n
    }

    /// The number of lines above the table of the menu.
    pub fn filters_menu_info_lines_size(&self) -> (n: usize)
        ensures
            n == if self@.filters.len() == 0 {
                1usize
            } else {
                2usize
            },
    {
        if self.filters.len() == 0 {
            1
        } else {
            2
        }
    }

    /// The height of the menu: its info lines and at most five filters.
    pub fn filters_menu_size(&self) -> (n: usize)
        ensures
            n == if self@.filters.len() < MAX_FILTERS_TABLE_ROWS_DISPLAYED {
                self@.filters.len()
            } else {
                MAX_FILTERS_TABLE_ROWS_DISPLAYED as nat
            } + if self@.filters.len() == 0 {
                1nat
            } else {
                2nat
            },
    {
        let shown = if self.filters.len() < MAX_FILTERS_TABLE_ROWS_DISPLAYED {
            self.filters.len()
        } else {
            MAX_FILTERS_TABLE_ROWS_DISPLAYED
        };
        shown + self.filters_menu_info_lines_size()
    }

    /// Handles a key of the filters menu: moving the selection, enabling,
    /// switching or deleting the selected filter, switching filtering, leaving.
    pub fn read_event(&mut self, event: Event) -> (r: (Option<AppMode>, Option<AppAction>))
        requires
            filters_wf(old(self)@),
        ensures
            (final(self)@, r.0, r.1) == filters_menu_event(old(self)@, event),
            filters_wf(final(self)@),
    {
        proof {
            lemma_filters_menu_event_keeps_wf(self@, event);
        }
        let Event::Key(k) = event else {
            return (None, None);
        };
        match k.code {
            KeyCode::Tab => {
                return (Some(AppMode::Logs), None);
            },
            KeyCode::Up => {
                self.select_previous();
            },
            KeyCode::Down => {
                self.select_next();
            },
            KeyCode::Char(c) => {
                if c == 'k' {
                    self.select_previous();
                } else if c == 'j' {
                    self.select_next();
                } else if c == ' ' {
                    if self.filters.len() > 0 {
                        let i = self.selected_filter;
                        let mut f = self.filters.remove(i);
                        f.enabled = !f.enabled;
                        self.filters.insert(i, f);
                        self.filtered_lines_count_cache = None;
                        assert(self@.filters =~= toggled_enabled(old(self)@).filters);
                    }
                } else if c == 't' {
                    if self.filters.len() > 0 {
                        let i = self.selected_filter;
                        let mut f = self.filters.remove(i);
                        f.kind = match f.kind {
                            FilterKind::In => FilterKind::Out,
                            FilterKind::Out => FilterKind::In,
                        };
                        self.filters.insert(i, f);
                        self.filtered_lines_count_cache = None;
                        assert(self@.filters =~= toggled_kind(old(self)@).filters);
                    }
                } else if c == 'D' {
                    if self.filters.len() > 0 {
                        let i = self.selected_filter;
                        let _removed = self.filters.remove(i);
                        self.selected_filter = if i == 0 {
                            0
                        } else {
                            i - 1
                        };
                        self.filtered_lines_count_cache = None;
                        assert(self@.filters =~= deleted_selected(old(self)@).filters);
                    }
                } else if c == 'f' {
                    self.filtering_enabled = !self.filtering_enabled;
                    self.filtered_lines_count_cache = None;
                } else if c == 'q' {
                    return (Some(AppMode::Logs), None);
                }
            },
            _ => {},
        }
        (None, None)
    }

    fn select_previous(&mut self)
        ensures
            final(self)@ == (FiltersView { selected: sat_dec(old(self)@.selected), ..old(self)@ }),
    {
        if self.selected_filter > 0 {
            self.selected_filter = self.selected_filter - 1;
        }
    }

    fn select_next(&mut self)
        requires
            filters_wf(old(self)@),
        ensures
            final(self)@ == (FiltersView {
                selected: if old(self)@.selected + 1 <= sat_dec(old(self)@.filters.len()) {
                    old(self)@.selected + 1
                } else {
                    sat_dec(old(self)@.filters.len())
                },
                ..old(self)@
            }),
    {
        let last = if self.filters.len() == 0 {
            0
        } else {
            self.filters.len() - 1
        };
        let next = self.selected_filter + 1;
        self.selected_filter = if next <= last {
            next
        } else {
            last
        };
    }
}

} // verus!

verus! {

/// The number of enabled filters.
pub open spec fn enabled_count(s: FiltersView) -> nat {
    s.filters.filter(|f: FilterView| f.enabled).len()
}

/// The first line of the filters menu: how many filters are enabled, and
/// whether filtering is off.
pub open spec fn info_first_line(s: FiltersView) -> Seq<char> {
    "Text filters: "@ + decimal(enabled_count(s)) + " of "@ + decimal(s.filters.len()) + " enabled "@
        + if s.filtering_enabled {
        ""@
    } else {
        " (Filtering disabled)"@
    }
}

/// The second line of the filters menu: what the keys do to the selected filter.
pub open spec fn info_second_line(s: FiltersView) -> Seq<char> {
    let f = s.filters[s.selected as int];
    "SPC: "@ + (if f.enabled {
        "disable"@
    } else {
        "enable"@
    }) + "   t: To "@ + (match f.kind {
        FilterKind::In => "OUT"@,
        FilterKind::Out => "IN"@,
    }) + "   D: Delete   f: "@ + (if s.filtering_enabled {
        "Disable"@
    } else {
        "Enable"@
    }) + " Filtering"@
}

/// The lines above the table of the menu: the first line, and the keys line
/// when there are filters.
pub open spec fn info_lines(s: FiltersView) -> Seq<Seq<char>> {
    if s.filters.len() == 0 {
        seq![info_first_line(s)]
    } else {
        seq![info_first_line(s), info_second_line(s)]
    }
}

/// What a row of the filters table shows of a filter.
pub struct FilterRow {
    pub enabled: bool,
    pub kind: FilterKind,
    pub pattern: String,
}

fn push_str(v: &mut Vec<char>, s: &str)
    ensures
        final(v)@ == old(v)@ + s@,
{
    append_chars(v, &str_chars(s));
}

impl Filters {
    /// The index of the selected filter.
    pub fn selected_filter(&self) -> (i: usize)
        ensures
            i == self@.selected,
    {
        self.selected_filter
    }

    /// The lines above the table of the filters menu.
    pub fn filters_menu_info_lines(&self) -> (lines: Vec<String>)
        requires
            filters_wf(self@),
        ensures
            lines@.map_values(|l: String| l@) == info_lines(self@),
    {
        let total_filters = self.filters.len();
        let enabled_filters = self.total_filters_enabled();
        let mut first: Vec<char> = Vec::new();
        push_str(&mut first, "Text filters: ");
        append_chars(&mut first, &str_chars(usize_to_string(enabled_filters).as_str()));
        push_str(&mut first, " of ");
        append_chars(&mut first, &str_chars(usize_to_string(total_filters).as_str()));
        push_str(&mut first, " enabled ");
        if self.filtering_enabled {
            push_str(&mut first, "");
        } else {
            push_str(&mut first, " (Filtering disabled)");
        }
        let mut lines: Vec<String> = Vec::new();
        lines.push(string_from_chars(first.as_slice()));
        if total_filters == 0 {
            assert(lines@.map_values(|l: String| l@) =~= info_lines(self@));
            return lines;
        }
        let filter = &self.filters[self.selected_filter];
        assert(self@.filters[self@.selected as int] == filter@);
        let mut second: Vec<char> = Vec::new();
        push_str(&mut second, "SPC: ");
        if filter.is_enabled() {
            push_str(&mut second, "disable");
        } else {
            push_str(&mut second, "enable");
        }
        push_str(&mut second, "   t: To ");
        match filter.filter_kind() {
            FilterKind::In => push_str(&mut second, "OUT"),
            FilterKind::Out => push_str(&mut second, "IN"),
        }
        push_str(&mut second, "   D: Delete   f: ");
        if self.filtering_enabled {
            push_str(&mut second, "Disable");
        } else {
            push_str(&mut second, "Enable");
        }
        push_str(&mut second, " Filtering");
        lines.push(string_from_chars(second.as_slice()));
        assert(lines@.map_values(|l: String| l@) =~= info_lines(self@));
        lines
    }

    /// What the rows of the filters table show, one per filter in order.
    pub fn filters_menu_rows(&self) -> (rows: Vec<FilterRow>)
        ensures
            rows@.len() == self@.filters.len(),
            forall|i: int|
                0 <= i < rows@.len() ==> (#[trigger] rows@[i]).enabled == self@.filters[i].enabled
                    && rows@[i].kind == self@.filters[i].kind && rows@[i].pattern@
                    == self@.filters[i].pattern,
    {
        let mut rows: Vec<FilterRow> = Vec::new();
        let mut i: usize = 0;
        while i < self.filters.len()
            invariant
                i <= self.filters.len(),
                rows@.len() == i,
                self@.filters.len() == self.filters.len(),
                forall|j: int|
                    0 <= j < i ==> (#[trigger] rows@[j]).enabled == self@.filters[j].enabled
                        && rows@[j].kind == self@.filters[j].kind && rows@[j].pattern@
                        == self@.filters[j].pattern,
            decreases self.filters.len() - i,
        {
            let f = &self.filters[i];
            assert(self@.filters[i as int] == f@);
            rows.push(
                FilterRow {
                    enabled: f.is_enabled(),
                    kind: f.filter_kind(),
                    pattern: string_from_chars(str_chars(f.regex()).as_slice()),
                },
            );
            i = i + 1;
        }
        rows
    }

    /// What the filters menu shows: the lines above the table, its rows, and the
    /// selected row, which is also the first row shown.
    pub fn filters_menu_text(&self) -> (r: (Vec<String>, Vec<FilterRow>, usize))
        requires
            filters_wf(self@),
        ensures
            r.0@.map_values(|l: String| l@) == info_lines(self@),
            r.1@.len() == self@.filters.len(),
            forall|i: int|
                0 <= i < r.1@.len() ==> (#[trigger] r.1@[i]).enabled == self@.filters[i].enabled
                    && r.1@[i].kind == self@.filters[i].kind && r.1@[i].pattern@
                    == self@.filters[i].pattern,
            r.2 == self@.selected,
    {
        let rows = self.filters_menu_rows();
        let info_lines = self.filters_menu_info_lines();
        (info_lines, rows, self.selected_filter)
    }
}

} // verus!

verus! {

/// Pressing space, `t` or `f` twice in the filters menu undoes the first press:
/// the filters and the selection are as they were; only the cached count may
/// be forgotten.
pub proof fn lemma_filters_menu_key_twice_undone(s: FiltersView, k: KeyEvent)
    requires
        filters_wf(s),
        k.code == KeyCode::Char(' ') || k.code == KeyCode::Char('t') || k.code == KeyCode::Char('f'),
    ensures
        ({
            let t = filters_menu_event(filters_menu_event(s, Event::Key(k)).0, Event::Key(k)).0;
            t.filters == s.filters && t.selected == s.selected && t.filtering_enabled
                == s.filtering_enabled && (t.cache is None || t.cache == s.cache)
        }),
{
    let t1 = filters_menu_event(s, Event::Key(k)).0;
    let t = filters_menu_event(t1, Event::Key(k)).0;
    if s.filters.len() > 0 && k.code != KeyCode::Char('f') {
        assert(t.filters =~= s.filters);
    }
}

} // verus!

verus! {

/// `D` in the filters menu deletes the selected filter and only it: the
/// filters before the selection stay where they were, those after it move up
/// by one.
pub proof fn lemma_delete_removes_selected(s: FiltersView, k: KeyEvent)
    requires
        filters_wf(s),
        s.filters.len() > 0,
        k.code == KeyCode::Char('D'),
    ensures
        ({
            let t = filters_menu_event(s, Event::Key(k)).0;
            &&& t.filters.len() == s.filters.len() - 1
            &&& forall|i: int| 0 <= i < s.selected ==> #[trigger] t.filters[i] == s.filters[i]
            &&& forall|i: int|
                s.selected <= i < t.filters.len() ==> #[trigger] t.filters[i] == s.filters[i + 1]
        }),
{
}

} // verus!
