//! The state of the log viewer: the merged lines of all files, the view on them
//! and the mode the keyboard is in.
use vstd::prelude::*;
use vstd::relations::{sorted_by, total_ordering};
use vstd::string::StringSliceAdditionalSpecFns;
use vstd::utf8::{decode_utf8, encode_utf8, is_char_boundary, valid_utf8};

use crate::command::{CommandType, Commands, typed_command_line_event};
use crate::error::{ErrorView, error_message};
use crate::input::{Event, KeyCode, KeyEventKind, KeyModifiers, MouseEventKind};
use crate::log_file::LogFile;
use crate::log_line::LogLine;
use crate::mode::command::{CommandsView, empty_command_line};
use crate::mode::filter::{
    FilterKind, FilterView, Filters, FiltersView, filters_keep, filters_menu_event, filters_wf,
    sat_dec,
};
use crate::pattern::{Pattern, regex_compile_error, regex_find_ranges};
use crate::style::{Color, Style, StyledText, random_color_number};
use crate::text::{is_blank, lines_of, str_lines, string_from_chars, str_chars};
use crate::time::{LogTime, LogTimeView, detect_time, max_time, timestamp_cut_ok};

verus! {

/// What the program does after an event.
#[derive(Debug, Clone, Copy, PartialEq, Eq, Structural)]
pub enum AppAction {
    EndApp,
    NoAction,
}

/// Where the keys go.
#[derive(Debug, Clone, Copy, PartialEq, Eq, Structural)]
pub enum AppMode {
    Logs,
    Command,
    FiltersMenu,
    Search,
}

/// A log line as plain values.
pub struct LineView {
    pub file_name: Seq<char>,
    pub file_color: Color,
    pub time: LogTimeView,
    pub log: Seq<char>,
    pub marked: bool,
}

/// The view of a log line.
pub open spec fn line_view(l: LogLine) -> LineView {
    LineView {
        file_name: l.src_file.name@,
        file_color: l.src_file.color,
        time: l.time@,
        log: l.log@,
        marked: l.marked,
    }
}

/// What an [`AppState`] holds, as plain values.
pub struct AppStateView {
    pub file_names: Seq<Seq<char>>,
    pub lines: Seq<LineView>,
    pub line_offset: nat,
    pub column_offset: nat,
    pub filters: FiltersView,
    pub commands: CommandsView,
    pub mode: AppMode,
    pub highlights: Seq<(Seq<char>, Color)>,
    pub show_file_names: bool,
}

/// The state of the viewer.
pub struct AppState<'a> {
    file_names: Vec<String>,
    lines: Vec<LogLine<'a>>,
    line_offset: usize,
    column_offset: usize,
    pub filters: Filters,
    commands: Commands,
    mode: AppMode,
    highlights: Vec<(Pattern, Color)>,
    show_file_names: bool,
}

impl<'a> View for AppState<'a> {
    type V = AppStateView;

    closed spec fn view(&self) -> AppStateView {
        AppStateView {
            file_names: self.file_names@.map_values(|n: String| n@),
            lines: self.lines@.map_values(|l: LogLine<'a>| line_view(l)),
            line_offset: self.line_offset as nat,
            column_offset: self.column_offset as nat,
            filters: self.filters@,
            commands: self.commands@,
            mode: self.mode,
            highlights: self.highlights@.map_values(|h: (Pattern, Color)| (h.0@, h.1)),
            show_file_names: self.show_file_names,
        }
    }
}

/// The indices of the lines that the filters keep, in order.
pub open spec fn kept_indices(lines: Seq<LineView>, f: FiltersView) -> Seq<int>
    decreases lines.len(),
{
    if lines.len() == 0 {
        Seq::empty()
    } else if filters_keep(f.filters, f.filtering_enabled, lines.last().log) {
        kept_indices(lines.drop_last(), f).push(lines.len() - 1)
    } else {
        kept_indices(lines.drop_last(), f)
    }
}

/// The indices of the lines on show.
pub open spec fn shown(s: AppStateView) -> Seq<int> {
    kept_indices(s.lines, s.filters)
}

/// The number of lines the filters keep.
pub open spec fn shown_count(s: AppStateView) -> nat {
    shown(s).len()
}

/// The length in bytes of a line, as `str::len` reports it.
pub open spec fn byte_len(log: Seq<char>) -> nat {
    (vstd::utf8::encode_utf8(log).len() as usize) as nat
}

/// The longest byte length of the lines `idx` of `lines`, 0 when there are none.
pub open spec fn longest_of(lines: Seq<LineView>, idx: Seq<int>) -> nat
    decreases idx.len(),
{
    if idx.len() == 0 {
        0
    } else {
        let rest = longest_of(lines, idx.drop_last());
        let last = byte_len(lines[idx.last()].log);
        if last > rest {
            last
        } else {
            rest
        }
    }
}

/// The longest shown line from the top one down, in bytes.
pub open spec fn longest_shown(s: AppStateView) -> nat {
    if s.line_offset >= shown(s).len() {
        0
    } else {
        longest_of(s.lines, shown(s).skip(s.line_offset as int))
    }
}

/// The lesser of two numbers.
pub open spec fn min_nat(a: nat, b: nat) -> nat {
    if a <= b {
        a
    } else {
        b
    }
}

/// `n + k`, at most `usize::MAX`.
pub open spec fn sat_add(n: nat, k: nat) -> nat {
    min_nat(n + k, usize::MAX as nat)
}

/// The state is well formed: the filter selection is in range and the mode is
/// one this state handles.
pub open spec fn app_wf(s: AppStateView) -> bool {
    filters_wf(s.filters) && s.mode != AppMode::Search
}

/// The filters with one more filter of the given kind.
pub open spec fn with_filter(f: FiltersView, kind: FilterKind, pattern: Seq<char>) -> FiltersView {
    FiltersView {
        filters: f.filters.push(FilterView { kind, pattern, enabled: true }),
        cache: None,
        ..f
    }
}

/// What an entered command does: a pattern that does not compile is shown as
/// an error and the command line stays; otherwise the filter or the highlight
/// (in `color`) is added.
pub open spec fn handled_command(
    s: AppStateView,
    t: CommandType,
    args: Seq<char>,
    color: Color,
) -> AppStateView {
    match regex_compile_error(args) {
        Some(m) => AppStateView {
            commands: CommandsView { error: error_message(ErrorView::BadRegex(m)), ..s.commands },
            mode: AppMode::Command,
            ..s
        },
        None => match t {
            CommandType::FilterIn => AppStateView {
                filters: with_filter(s.filters, FilterKind::In, args),
                ..s
            },
            CommandType::FilterOut => AppStateView {
                filters: with_filter(s.filters, FilterKind::Out, args),
                ..s
            },
            CommandType::Highlight => AppStateView {
                highlights: s.highlights.push((args, color)),
                ..s
            },
        },
    }
}

/// An event in command mode.
pub open spec fn command_mode_event(s: AppStateView, ev: Event, color: Color) -> AppStateView {
    let (c, m, cmd) = typed_command_line_event(s.commands, ev);
    let s2 = AppStateView {
        commands: c,
        mode: match m {
            Some(m) => m,
            None => AppMode::Command,
        },
        ..s
    };
    match cmd {
        None => s2,
        Some(cmd) => handled_command(s2, cmd.0, cmd.1, color),
    }
}

/// A movement key in the logs: left and right scroll by ten columns (left of
/// the first column the file names show, right of it they hide), up and down by
/// a line.
pub open spec fn moved(s: AppStateView, code: KeyCode) -> AppStateView {
    match code {
        KeyCode::Left => scrolled_left(s),
        KeyCode::Right => scrolled_right(s),
        KeyCode::Up => AppStateView { line_offset: sat_dec(s.line_offset), ..s },
        KeyCode::Down => AppStateView { line_offset: sat_add(s.line_offset, 1), ..s },
        KeyCode::Char(c) => if c == 'h' {
            scrolled_left(s)
        } else if c == 'l' {
            scrolled_right(s)
        } else if c == 'k' {
            AppStateView { line_offset: sat_dec(s.line_offset), ..s }
        } else if c == 'j' {
            AppStateView { line_offset: sat_add(s.line_offset, 1), ..s }
        } else {
            s
        },
        _ => s,
    }
}

pub open spec fn scrolled_left(s: AppStateView) -> AppStateView {
    AppStateView {
        show_file_names: if s.column_offset == 0 {
            true
        } else {
            s.show_file_names
        },
        column_offset: if s.column_offset >= 10 {
            (s.column_offset - 10) as nat
        } else {
            0
        },
        ..s
    }
}

pub open spec fn scrolled_right(s: AppStateView) -> AppStateView {
    if !s.show_file_names {
        AppStateView {
            column_offset: min_nat(
                sat_add(s.column_offset, 10),
                sat_dec(longest_shown(s)) / 10 * 10,
            ),
            ..s
        }
    } else {
        AppStateView { show_file_names: false, ..s }
    }
}

/// The lines with the mark of line `i` flipped.
pub open spec fn flip_mark(lines: Seq<LineView>, i: int) -> Seq<LineView> {
    lines.update(i, LineView { marked: !lines[i].marked, ..lines[i] })
}

/// The state with the mark of the top shown line flipped.
pub open spec fn top_mark_flipped(s: AppStateView) -> AppStateView {
    if s.line_offset < shown_count(s) {
        AppStateView { lines: flip_mark(s.lines, shown(s)[s.line_offset as int]), ..s }
    } else {
        s
    }
}

/// A pressed key in the logs, after the movement: `:` opens the command line,
/// Control-r removes the filters and highlights, `m` flips the mark of the top
/// line, Tab opens the filters menu.
pub open spec fn logs_key_action(s: AppStateView, code: KeyCode, modifiers: KeyModifiers) -> AppStateView {
    match code {
        KeyCode::Char(c) => if c == ':' {
            AppStateView { mode: AppMode::Command, ..s }
        } else if c == 'r' && modifiers.control {
            AppStateView {
                filters: FiltersView {
                    filters: Seq::empty(),
                    selected: 0,
                    cache: None,
                    ..s.filters
                },
                highlights: Seq::empty(),
                ..s
            }
        } else if c == 'm' {
            top_mark_flipped(s)
        } else {
            s
        },
        KeyCode::Tab => AppStateView { mode: AppMode::FiltersMenu, ..s },
        _ => s,
    }
}

/// Whether a key ends the program: Control-c, Esc, or `q` alone.
pub open spec fn is_quit_key(code: KeyCode, modifiers: KeyModifiers) -> bool {
    (code == KeyCode::Char('c') && modifiers.is_control_only()) || code == KeyCode::Esc || (code
        == KeyCode::Char('q') && modifiers.is_none())
}

/// An event in the logs.
pub open spec fn logs_event(s: AppStateView, ev: Event) -> (AppStateView, AppAction) {
    match ev {
        Event::Key(k) => if is_quit_key(k.code, k.modifiers) {
            (s, AppAction::EndApp)
        } else if k.kind == KeyEventKind::Press {
            let s1 = moved(s, k.code);
            let s1 = AppStateView {
                line_offset: min_nat(s1.line_offset, (shown_count(s) - 1) as nat),
                ..s1
            };
            (logs_key_action(s1, k.code, k.modifiers), AppAction::NoAction)
        } else {
            (s, AppAction::NoAction)
        },
        Event::Mouse(m) => {
            let off = match m {
                MouseEventKind::ScrollDown => sat_dec(s.line_offset),
                MouseEventKind::ScrollUp => sat_add(s.line_offset, 1),
                MouseEventKind::Other => s.line_offset,
            };
            (
                AppStateView { line_offset: min_nat(off, (s.lines.len() - 1) as nat), ..s },
                AppAction::NoAction,
            )
        },
        _ => (s, AppAction::NoAction),
    }
}

/// What an event does to the viewer, given the colour a new highlight would get.
/// Resizes change nothing; otherwise the top line is first kept among the shown
/// lines, then the event goes to the mode.
pub open spec fn app_event(s: AppStateView, ev: Event, color: Color) -> (AppStateView, AppAction) {
    match ev {
        Event::Resize(_, _) => (s, AppAction::NoAction),
        _ => {
            let s = AppStateView {
                line_offset: min_nat(s.line_offset, (shown_count(s) - 1) as nat),
                ..s
            };
            match s.mode {
                AppMode::Command => (command_mode_event(s, ev, color), AppAction::NoAction),
                AppMode::FiltersMenu => {
                    let (f, m, a) = filters_menu_event(s.filters, ev);
                    (
                        AppStateView {
                            filters: f,
                            mode: match m {
                                Some(m) => m,
                                None => AppMode::FiltersMenu,
                            },
                            ..s
                        },
                        match a {
                            Some(a) => a,
                            None => AppAction::NoAction,
                        },
                    )
                },
                AppMode::Logs => logs_event(s, ev),
                AppMode::Search => (s, AppAction::NoAction),
            }
        },
    }
}

/// The kept indices are increasing indices of lines.
pub proof fn lemma_kept_indices(lines: Seq<LineView>, f: FiltersView)
    ensures
        kept_indices(lines, f).len() <= lines.len(),
        forall|k: int|
            0 <= k < kept_indices(lines, f).len() ==> 0 <= #[trigger] kept_indices(lines, f)[k]
                < lines.len(),
        forall|k: int, l: int|
            0 <= k < l < kept_indices(lines, f).len() ==> #[trigger] kept_indices(lines, f)[k]
                < #[trigger] kept_indices(lines, f)[l],
    decreases lines.len(),
{
    if lines.len() > 0 {
        lemma_kept_indices(lines.drop_last(), f);
    }
}

} // verus!

verus! {

impl<'a> AppState<'a> {
    /// The current mode.
    pub fn mode(&self) -> (m: AppMode)
        ensures
            m == self@.mode,
    {
        self.mode
    }

    /// Whether the state is well formed (see [`app_wf`]), as handling an event
    /// needs.
    pub fn is_well_formed(&self) -> (b: bool)
        ensures
            b == app_wf(self@),
    {
        let n = self.filters.filters_menu_rows().len();
        let selected = self.filters.selected_filter();
        (selected == 0 || selected < n) && self.mode != AppMode::Search
    }

    /// How many shown lines are scrolled past the top.
    pub fn get_line_offset(&self) -> (n: usize)
        ensures
            n == self@.line_offset,
    {
        self.line_offset
    }

    /// The indices of the lines the filters keep.
    fn kept_line_indices(&self) -> (r: Vec<usize>)
        ensures
            r@.map_values(|i: usize| i as int) == shown(self@),
            r@.len() <= self@.lines.len(),
    {
        let ghost lines = self@.lines;
        let mut r: Vec<usize> = Vec::new();
        let mut i: usize = 0;
        while i < self.lines.len()
            invariant
                i <= self.lines.len(),
                lines == self@.lines,
                lines.len() == self.lines.len(),
                r@.map_values(|j: usize| j as int) == kept_indices(lines.take(i as int), self@.filters),
                r@.len() <= i,
            decreases self.lines.len() - i,
        {
            assert(lines.take(i + 1).drop_last() =~= lines.take(i as int));
            assert(lines.take(i + 1).last() == line_view(self.lines[i as int]));
            if self.filters.keep_line(self.lines[i].log) {
                r.push(i);
            }
            assert(r@.map_values(|j: usize| j as int) =~= kept_indices(lines.take(i + 1), self@.filters));
            i = i + 1;
        }
        assert(lines.take(self.lines.len() as int) =~= lines);
        r
    }

    /// The number of lines the filters keep.
    pub fn filtered_lines_count(&self) -> (n: usize)
        ensures
            n == shown_count(self@),
    {
        let kept = self.kept_line_indices();
        assert(kept@.map_values(|i: usize| i as int).len() == kept@.len());
        kept.len()
    }

    /// The byte length of the longest shown line from the top one down.
    fn longest_filtered_log(&self) -> (n: usize)
        ensures
            n == longest_shown(self@),
    {
        let kept = self.kept_line_indices();
        let ghost idx = shown(self@);
        proof {
            lemma_kept_indices(self@.lines, self@.filters);
        }
        let mut longest: usize = 0;
        let mut k: usize = self.line_offset;
        let ghost from = self.line_offset as int;
        if k >= kept.len() {
            return 0;
        }
        assert(idx.subrange(from, from) =~= Seq::<int>::empty());
        while k < kept.len()
            invariant
                from == self.line_offset,
                from <= k <= kept.len(),
                idx == shown(self@),
                kept@.map_values(|i: usize| i as int) == idx,
                forall|j: int| 0 <= j < idx.len() ==> 0 <= #[trigger] idx[j] < self@.lines.len(),
                longest == longest_of(self@.lines, idx.subrange(from, k as int)),
            decreases kept.len() - k,
        {
            let i = kept[k];
            assert(idx[k as int] == i as int);
            assert(idx.subrange(from, k + 1).drop_last() =~= idx.subrange(from, k as int));
            let line = self.lines[i].log;
            let len = line.len();
            assert(self@.lines[i as int] == line_view(self.lines@[i as int]));
            assert(line.spec_bytes() == vstd::utf8::encode_utf8(line@));
            assert(len == byte_len(self@.lines[i as int].log));
            if len > longest {
                longest = len;
            }
            k = k + 1;
        }
        assert(idx.subrange(from, kept.len() as int) =~= idx.skip(from));
        longest
    }

    /// Flips the mark of the top shown line, if there is one.
    fn flip_mark_of_top_log_line(&mut self)
        ensures
            final(self)@ == top_mark_flipped(old(self)@),
    {
        let kept = self.kept_line_indices();
        proof {
            lemma_kept_indices(self@.lines, self@.filters);
        }
        if self.line_offset >= kept.len() {
            return;
        }
        let i = kept[self.line_offset];
        assert(shown(self@)[self.line_offset as int] == i as int);
        let mut l = self.lines[i];
        l.marked = !l.marked;
        self.lines.set(i, l);
        assert(self@.lines =~= flip_mark(old(self)@.lines, i as int));
    }
}

} // verus!

verus! {

impl<'a> AppState<'a> {
    /// Carries out an entered command: compiles its pattern and adds the filter
    /// or the highlight, a highlight in a random colour. Fails, changing nothing,
    /// when the pattern does not compile. Also returns the number the colour was
    /// drawn from (255 when none was drawn).
    fn handle_command(&mut self, command: &crate::command::Command) -> (r: (
        crate::error::Result<()>,
        Ghost<u32>,
    ))
        requires
            app_wf(old(self)@),
        ensures
            255 <= r.1@ <= 0x00FF_FFFF,
            app_wf(final(self)@),
            match r.0 {
                Err(e) => final(self)@ == old(self)@ && regex_compile_error(command.args@) == Some(
                    match e@ {
                        ErrorView::BadRegex(m) => m,
                        _ => Seq::empty(),
                    },
                ) && e@ is BadRegex,
                Ok(_) => regex_compile_error(command.args@) is None && final(self)@
                    == handled_command(
                    old(self)@,
                    command.cmd_type,
                    command.args@,
                    Color::spec_from_u32(r.1@),
                ),
            },
    {
        let r = match Pattern::new(command.args.as_str()) {
            Ok(r) => r,
            Err(e) => {
                return (Err(crate::error::Error::BadRegex(e)), Ghost(255));
            },
        };
        match command.cmd_type {
            CommandType::FilterIn => {
                self.filters.create_in_filter(r);
                (Ok(()), Ghost(255))
            },
            CommandType::FilterOut => {
                self.filters.create_out_filter(r);
                (Ok(()), Ghost(255))
            },
            CommandType::Highlight => {
                let u = random_color_number();
                self.highlights.push((r, Color::from_u32(u)));
                assert(self@.highlights =~= old(self)@.highlights.push(
                    (command.args@, Color::spec_from_u32(u)),
                ));
                (Ok(()), Ghost(u))
            },
        }
    }

    /// Handles an input event and says whether the program ends. The top line is
    /// first kept among the shown lines; then the event goes to the command line,
    /// the filters menu or the logs, as the mode says (see [`app_event`]). A new
    /// highlight gets a random colour. Unless the event is a resize, at least one
    /// line must be shown; [`AppState::try_read_event`] checks that.
    pub fn read_event(&mut self, event: Event) -> (r: AppAction)
        requires
            app_wf(old(self)@),
            event is Resize || shown_count(old(self)@) >= 1,
        ensures
            app_wf(final(self)@),
            exists|u: u32|
                255 <= u <= 0x00FF_FFFF && (final(self)@, r) == #[trigger] app_event(
                    old(self)@,
                    event,
                    Color::spec_from_u32(u),
                ),
    {
        if let Event::Resize(_, _) = event {
            assert((self@, AppAction::NoAction) == app_event(old(self)@, event, Color::spec_from_u32(255)));
            return AppAction::NoAction;
        }
        let shown_lines_count = self.filtered_lines_count();
        if self.line_offset > shown_lines_count - 1 {
            self.line_offset = shown_lines_count - 1;
        }
        let ghost s0 = self@;
        assert(s0 == AppStateView {
            line_offset: min_nat(old(self)@.line_offset, (shown_count(old(self)@) - 1) as nat),
            ..old(self)@
        });
        let ghost mut u: u32 = 255;
        let mut action = AppAction::NoAction;
        match self.mode {
            AppMode::Command => {
                let (new_mode, cmd) = self.commands.read_event(event);
                self.mode = match new_mode {
                    Some(m) => m,
                    None => AppMode::Command,
                };
                if let Some(cmd) = cmd {
                    let (res, drawn) = self.handle_command(&cmd);
                    proof {
                        u = drawn@;
                    }
                    if let Err(err) = res {
                        self.commands.set_command_error(err.message());
                        self.mode = AppMode::Command;
                    }
                }
            },
            AppMode::FiltersMenu => {
                let (new_mode, app_action) = self.filters.read_event(event);
                self.mode = match new_mode {
                    Some(m) => m,
                    None => AppMode::FiltersMenu,
                };
                action = match app_action {
                    Some(a) => a,
                    None => AppAction::NoAction,
                };
            },
            AppMode::Logs => {
                action = self.logs_event(event);
            },
            AppMode::Search => {},
        }
        assert((self@, action) == app_event(old(self)@, event, Color::spec_from_u32(u)));
        action
    }

    /// An event in the logs.
    fn logs_event(&mut self, event: Event) -> (r: AppAction)
        requires
            app_wf(old(self)@),
            old(self)@.mode == AppMode::Logs,
            shown_count(old(self)@) >= 1,
            old(self)@.line_offset <= shown_count(old(self)@) - 1,
        ensures
            app_wf(final(self)@),
            (final(self)@, r) == logs_event(old(self)@, event),
    {
        proof {
            lemma_kept_indices(self@.lines, self@.filters);
        }
        match event {
            Event::Key(k) => {
                if (k.code == KeyCode::Char('c') && k.modifiers == KeyModifiers::control())
                    || k.code == KeyCode::Esc || (k.code == KeyCode::Char('q') && k.modifiers
                    == KeyModifiers::none()) {
                    return AppAction::EndApp;
                }
                if k.kind == KeyEventKind::Press {
                    self.move_by_key(k.code);
                    let count = self.filtered_lines_count();
                    if self.line_offset > count - 1 {
                        self.line_offset = count - 1;
                    }
                    match k.code {
                        KeyCode::Char(c) => {
                            if c == ':' {
                                self.mode = AppMode::Command;
                            } else if c == 'r' && k.modifiers.control {
                                self.filters.clear();
                                self.highlights.clear();
                                assert(self@.highlights =~= Seq::<(Seq<char>, Color)>::empty());
                            } else if c == 'm' {
                                self.flip_mark_of_top_log_line();
                            }
                        },
                        KeyCode::Tab => {
                            self.mode = AppMode::FiltersMenu;
                        },
                        _ => {},
                    }
                }
                AppAction::NoAction
            },
            Event::Mouse(m) => {
                let off = match m {
                    MouseEventKind::ScrollDown => if self.line_offset == 0 {
                        0
                    } else {
                        self.line_offset - 1
                    },
                    MouseEventKind::ScrollUp => if self.line_offset == usize::MAX {
                        usize::MAX
                    } else {
                        self.line_offset + 1
                    },
                    MouseEventKind::Other => self.line_offset,
                };
                let last = self.lines.len() - 1;
                self.line_offset = if off <= last {
                    off
                } else {
                    last
                };
                AppAction::NoAction
            },
            _ => AppAction::NoAction,
        }
    }

    /// Scrolls for a movement key.
    fn move_by_key(&mut self, code: KeyCode)
        requires
            app_wf(old(self)@),
        ensures
            final(self)@ == moved(old(self)@, code),
    {
        let left = code == KeyCode::Left || code == KeyCode::Char('h');
        let up = code == KeyCode::Up || code == KeyCode::Char('k');
        let right = code == KeyCode::Right || code == KeyCode::Char('l');
        let down = code == KeyCode::Down || code == KeyCode::Char('j');
        if left {
            if self.column_offset == 0 {
                self.show_file_names = true;
            }
            self.column_offset = if self.column_offset >= 10 {
                self.column_offset - 10
            } else {
                0
            };
        } else if up {
            if self.line_offset > 0 {
                self.line_offset = self.line_offset - 1;
            }
        } else if right {
            if !self.show_file_names {
                let longest = self.longest_filtered_log();
                let limit = (if longest == 0 {
                    0
                } else {
                    longest - 1
                }) / 10 * 10;
                let next = if self.column_offset > usize::MAX - 10 {
                    usize::MAX
                } else {
                    self.column_offset + 10
                };
                self.column_offset = if next <= limit {
                    next
                } else {
                    limit
                };
            } else {
                self.show_file_names = false;
            }
        } else if down {
            if self.line_offset < usize::MAX {
                self.line_offset = self.line_offset + 1;
            }
        }
    }

    /// Handles an input event as [`AppState::read_event`] does, when it can: an
    /// event other than a resize while no line is shown is refused with `None`,
    /// and nothing changes.
    pub fn try_read_event(&mut self, event: Event) -> (r: Option<AppAction>)
        requires
            app_wf(old(self)@),
        ensures
            app_wf(final(self)@),
            match r {
                None => !(event is Resize) && shown_count(old(self)@) == 0 && final(self)@ == old(self)@,
                Some(a) => exists|u: u32|
                    255 <= u <= 0x00FF_FFFF && (final(self)@, a) == #[trigger] app_event(
                        old(self)@,
                        event,
                        Color::spec_from_u32(u),
                    ),
            },
    {
        let is_resize = match event {
            Event::Resize(_, _) => true,
            _ => false,
        };
        if !is_resize && self.filtered_lines_count() == 0 {
            return None;
        }
        Some(self.read_event(event))
    }
}

} // verus!

verus! {

/// The view of a line of file `f` with the text `l`: the time it starts with,
/// else the latest time there is; unmarked.
pub open spec fn file_line_view(f: LogFile, l: Seq<char>) -> LineView {
    LineView {
        file_name: f.name@,
        file_color: f.color,
        time: match detect_time(l, true) {
            Some(t) => t,
            None => max_time(),
        },
        log: l,
        marked: false,
    }
}

/// The lines of one file.
pub open spec fn lines_of_file(f: LogFile) -> Seq<LineView> {
    lines_of(f.contents@).map_values(|l: Seq<char>| file_line_view(f, l))
}

/// The lines of all files, file after file.
pub open spec fn parsed_lines(files: Seq<LogFile>) -> Seq<LineView>
    decreases files.len(),
{
    if files.len() == 0 {
        Seq::empty()
    } else {
        parsed_lines(files.drop_last()) + lines_of_file(files.last())
    }
}

/// Whether every line of every file can be read for its time: it holds more than
/// white space and its RFC 2822 part can be cut out.
pub open spec fn readable_files(files: Seq<LogFile>) -> bool {
    forall|i: int, j: int|
        0 <= i < files.len() && 0 <= j < lines_of(files[i].contents@).len() ==> {
            let l = #[trigger] lines_of(files[i].contents@)[j];
            !is_blank(l) && timestamp_cut_ok(l, true)
        }
}

/// The order of sort keys: time, then position.
pub open spec fn key_leq(a: (i64, u32, usize), b: (i64, u32, usize)) -> bool {
    a.0 < b.0 || (a.0 == b.0 && (a.1 < b.1 || (a.1 == b.1 && a.2 <= b.2)))
}

/// The sort key of each line: its instant and its position.
pub open spec fn sort_keys(lines: Seq<LineView>) -> Seq<(i64, u32, usize)> {
    Seq::new(lines.len(), |i: int| (lines[i].time.secs as i64, lines[i].time.nanos as u32, i as usize))
}

/// The lines in time order; lines of the same time keep their order.
pub open spec fn sorted_by_time(lines: Seq<LineView>) -> Seq<LineView> {
    sort_keys(lines).sort_by(|a: (i64, u32, usize), b: (i64, u32, usize)| key_leq(a, b)).map_values(
        |k: (i64, u32, usize)| lines[k.2 as int],
    )
}

/// The state the viewer starts in with the given files.
pub open spec fn initial_state(files: Seq<LogFile>) -> AppStateView {
    AppStateView {
        file_names: files.map_values(|f: LogFile| f.name@),
        lines: sorted_by_time(parsed_lines(files)),
        line_offset: 0,
        column_offset: 0,
        filters: FiltersView {
            filters: Seq::empty(),
            selected: 0,
            filtering_enabled: true,
            cache: None,
        },
        commands: empty_command_line(),
        mode: AppMode::Logs,
        highlights: Seq::empty(),
        show_file_names: false,
    }
}

proof fn lemma_key_leq_total()
    ensures
        total_ordering(|a: (i64, u32, usize), b: (i64, u32, usize)| key_leq(a, b)),
{
}

/// `slice::sort_unstable` on keys of integers: the standard library documents
/// that the result is the slice in ascending order (tuples compare
/// lexicographically), a permutation of what it held.
#[verifier::external_body]
fn sort_keys_in_place(v: &mut Vec<(i64, u32, usize)>)
    ensures
        final(v)@.to_multiset() == old(v)@.to_multiset(),
        sorted_by(final(v)@, |a: (i64, u32, usize), b: (i64, u32, usize)| key_leq(a, b)),
{
    v.sort_unstable()
}

impl<'a> AppState<'a> {
    /// The viewer on the lines of `files`, merged in time order (lines of the
    /// same time keep their order), starting at the top in the logs mode. Every
    /// line must be readable for its time (see [`readable_files`]).
    pub fn new(files: &'a [LogFile]) -> (s: AppState<'a>)
        requires
            readable_files(files@),
        ensures
            s@ == initial_state(files@),
            app_wf(s@),
            forall|i: int, j: int|
                0 <= i < j < s@.lines.len() ==> crate::time::time_le(
                    #[trigger] s@.lines[i].time,
                    #[trigger] s@.lines[j].time,
                ),
            exists|src: Seq<int>| stable_time_sort(s@.lines, parsed_lines(files@), src),
    {
        let ghost all = parsed_lines(files@);
        let mut parsed: Vec<LogLine<'a>> = Vec::new();
        let mut fi: usize = 0;
        while fi < files.len()
            invariant
                fi <= files.len(),
                readable_files(files@),
                parsed@.map_values(|l: LogLine<'a>| line_view(l)) == parsed_lines(files@.take(fi as int)),
            decreases files.len() - fi,
        {
            let f: &'a LogFile = &files[fi];
            let ls = str_lines(f.contents.as_str());
            let ghost base = parsed_lines(files@.take(fi as int));
            let ghost texts = lines_of(f.contents@);
            assert(ls@.map_values(|l: &str| l@) == texts);
            let mut li: usize = 0;
            while li < ls.len()
                invariant
                    li <= ls.len(),
                    fi < files.len(),
                    f == files@[fi as int],
                    readable_files(files@),
                    ls@.map_values(|l: &str| l@) == texts,
                    texts == lines_of(f.contents@),
                    parsed@.map_values(|l: LogLine<'a>| line_view(l)) == base + texts.take(li as int).map_values(
                        |l: Seq<char>| file_line_view(*f, l),
                    ),
                decreases ls.len() - li,
            {
                let l: &'a str = ls[li];
                assert(l@ == texts[li as int]);
                assert(!is_blank(l@) && timestamp_cut_ok(l@, true));
                let line = match LogLine::new(f, l) {
                    Some(x) => x,
                    None => LogLine { src_file: f, time: LogTime::max_utc(), log: l, marked: false },
                };
                assert(line_view(line) == file_line_view(*f, l@));
                let ghost prev = parsed@;
                parsed.push(line);
                assert(parsed@.map_values(|l: LogLine<'a>| line_view(l)) =~= prev.map_values(
                    |l: LogLine<'a>| line_view(l),
                ).push(line_view(line)));
                assert(texts.take(li + 1) =~= texts.take(li as int).push(texts[li as int]));
                assert(texts.take(li + 1).map_values(|l: Seq<char>| file_line_view(*f, l))
                    =~= texts.take(li as int).map_values(|l: Seq<char>| file_line_view(*f, l)).push(
                    file_line_view(*f, texts[li as int]),
                ));
                assert(parsed@.map_values(|l: LogLine<'a>| line_view(l)) =~= base + texts.take(
                    li + 1,
                ).map_values(|l: Seq<char>| file_line_view(*f, l)));
                li = li + 1;
            }
            assert(texts.take(ls.len() as int) =~= texts);
            assert(files@.take(fi + 1).drop_last() =~= files@.take(fi as int));
            assert(files@.take(fi + 1).last() == *f);
            fi = fi + 1;
        }
        assert(files@.take(files.len() as int) =~= files@);
        let ghost views = parsed@.map_values(|l: LogLine<'a>| line_view(l));
        assert(views == all);
        let mut keys: Vec<(i64, u32, usize)> = Vec::new();
        let mut i: usize = 0;
        while i < parsed.len()
            invariant
                i <= parsed.len(),
                views == parsed@.map_values(|l: LogLine<'a>| line_view(l)),
                keys@ == sort_keys(views).take(i as int),
            decreases parsed.len() - i,
        {
            let (secs, nanos) = parsed[i].time.instant();
            keys.push((secs, nanos, i));
            assert(keys@ =~= sort_keys(views).take(i + 1));
            i = i + 1;
        }
        assert(keys@ =~= sort_keys(views));
        let ghost keys0 = keys@;
        let ghost leq = |a: (i64, u32, usize), b: (i64, u32, usize)| key_leq(a, b);
        sort_keys_in_place(&mut keys);
        proof {
            lemma_key_leq_total();
            keys0.lemma_sort_by_ensures(leq);
            vstd::seq_lib::lemma_sorted_unique(keys@, keys0.sort_by(leq), leq);
        }
        let mut lines: Vec<LogLine<'a>> = Vec::new();
        let mut k: usize = 0;
        while k < keys.len()
            invariant
                k <= keys.len(),
                keys@ == keys0.sort_by(leq),
                keys0 == sort_keys(views),
                views == parsed@.map_values(|l: LogLine<'a>| line_view(l)),
                forall|x: (i64, u32, usize)| !keys0.contains(x) ==> !(#[trigger] keys@.contains(x)),
                lines@.map_values(|l: LogLine<'a>| line_view(l)) == keys@.take(k as int).map_values(
                    |key: (i64, u32, usize)| views[key.2 as int],
                ),
            decreases keys.len() - k,
        {
            let key = keys[k];
            assert(keys@.contains(key));
            assert(keys0.contains(key));
            assert(key.2 < parsed.len());
            let ghost prev = lines@;
            lines.push(parsed[key.2]);
            assert(lines@.map_values(|l: LogLine<'a>| line_view(l)) =~= prev.map_values(
                |l: LogLine<'a>| line_view(l),
            ).push(views[key.2 as int]));
            assert(keys@.take(k + 1) =~= keys@.take(k as int).push(key));
            assert(lines@.map_values(|l: LogLine<'a>| line_view(l)) =~= keys@.take(k + 1).map_values(
                |key: (i64, u32, usize)| views[key.2 as int],
            ));
            k = k + 1;
        }
        assert(keys@.take(keys.len() as int) =~= keys@);
        let mut file_names: Vec<String> = Vec::new();
        let mut n: usize = 0;
        while n < files.len()
            invariant
                n <= files.len(),
                file_names@.map_values(|s: String| s@) == files@.take(n as int).map_values(
                    |f: LogFile| f.name@,
                ),
            decreases files.len() - n,
        {
            let ghost prev = file_names@;
            file_names.push(files[n].name.clone());
            assert(file_names@.map_values(|s: String| s@) =~= prev.map_values(|s: String| s@).push(
                files@[n as int].name@,
            ));
            assert(files@.take(n + 1) =~= files@.take(n as int).push(files@[n as int]));
            assert(file_names@.map_values(|s: String| s@) =~= files@.take(n + 1).map_values(
                |f: LogFile| f.name@,
            ));
            n = n + 1;
        }
        assert(files@.take(files.len() as int) =~= files@);
        let s = AppState {
            file_names,
            lines,
            line_offset: 0,
            column_offset: 0,
            filters: Filters::new(),
            mode: AppMode::Logs,
            highlights: Vec::new(),
            show_file_names: false,
            commands: Commands::new(),
        };
        assert(s@.highlights =~= Seq::<(Seq<char>, Color)>::empty());
        assert(s@.lines =~= sorted_by_time(parsed_lines(files@)));
        proof {
            assert forall|i: int, j: int| 0 <= i < j < s@.lines.len() implies crate::time::time_le(
                #[trigger] s@.lines[i].time,
                #[trigger] s@.lines[j].time,
            ) by {
                let ki = keys@[i];
                let kj = keys@[j];
                assert(keys@.contains(ki));
                assert(keys@.contains(kj));
                let mi = choose|m: int| 0 <= m < keys0.len() && keys0[m] == ki;
                let mj = choose|m: int| 0 <= m < keys0.len() && keys0[m] == kj;
                assert(leq(ki, kj));
                LogTime::lemma_parts_in_range(parsed@[mi].time);
                LogTime::lemma_parts_in_range(parsed@[mj].time);
                assert(views[mi] == line_view(parsed@[mi]));
                assert(views[mj] == line_view(parsed@[mj]));
                assert(s@.lines[i] == views[ki.2 as int]);
                assert(s@.lines[j] == views[kj.2 as int]);
            }
            assert forall|m: int| 0 <= m < views.len() implies time_in_range(#[trigger] views[m].time) by {
                LogTime::lemma_parts_in_range(parsed@[m].time);
                assert(views[m] == line_view(parsed@[m]));
            }
            lemma_sorted_by_time_is_stable(views);
        }
        s
    }
}

} // verus!

verus! {

/// The mark in front of a line that ties it to the lines of the same file
/// around it: `┌` opens a run of lines of one file, `├` continues it, `└`
/// closes it, `[` stands alone.
pub open spec fn separator(prev: Option<Seq<char>>, cur: Seq<char>, next: Option<Seq<char>>) -> Seq<char> {
    match (prev, next) {
        (None, None) => "["@,
        (None, Some(n)) => if cur == n {
            "┌"@
        } else {
            "["@
        },
        (Some(p), None) => if cur == p {
            "└"@
        } else {
            "["@
        },
        (Some(p), Some(n)) => if cur == p && cur == n {
            "├"@
        } else if cur == p && cur != n {
            "└"@
        } else if cur != p && cur == n {
            "┌"@
        } else {
            "["@
        },
    }
}

/// `s` padded with spaces to `width` characters (`format!("{:width$}")`).
pub open spec fn padded(s: Seq<char>, width: nat) -> Seq<char> {
    if s.len() < width {
        s + Seq::new((width - s.len()) as nat, |i: int| ' ')
    } else {
        s
    }
}

/// The byte length of the longest file name.
pub open spec fn longest_name(names: Seq<Seq<char>>) -> nat
    decreases names.len(),
{
    if names.len() == 0 {
        0
    } else {
        let rest = longest_name(names.drop_last());
        if byte_len(names.last()) > rest {
            byte_len(names.last())
        } else {
            rest
        }
    }
}

/// The indices of the lines on screen, from the top one down.
pub open spec fn on_screen(s: AppStateView) -> Seq<int> {
    if s.line_offset >= shown(s).len() {
        Seq::empty()
    } else {
        shown(s).skip(s.line_offset as int)
    }
}

/// The file name of the `k`-th line on screen, if there is one.
pub open spec fn screen_file(s: AppStateView, k: int) -> Option<Seq<char>> {
    if 0 <= k < on_screen(s).len() {
        Some(s.lines[on_screen(s)[k]].file_name)
    } else {
        None
    }
}

/// What stands in front of the `k`-th line on screen: its mark, after the file
/// name padded to the longest name when the names are shown.
pub open spec fn name_column(s: AppStateView, k: int) -> Seq<char> {
    let cur = s.lines[on_screen(s)[k]].file_name;
    let sep = separator(screen_file(s, k - 1), cur, screen_file(s, k + 1));
    if s.show_file_names {
        padded(cur, longest_name(s.file_names)) + sep
    } else {
        sep
    }
}

/// The top line on screen: the colour of its file, its time (`⟩` alone for
/// lines without one) and its file name with `/` shown as `⟩`.
pub struct TitleBar {
    pub color: Color,
    pub time: String,
    pub file_name: String,
}

/// `s` with every `/` replaced by `⟩`.
pub open spec fn slashes_replaced(s: Seq<char>) -> Seq<char>
    decreases s.len(),
{
    if s.len() == 0 {
        s
    } else {
        slashes_replaced(s.drop_last()) + if s.last() == '/' {
            "⟩"@
        } else {
            seq![s.last()]
        }
    }
}

/// The time shown in the title bar for a line.
pub open spec fn title_time(t: LogTimeView) -> Seq<char> {
    if crate::time::same_instant(t, max_time()) {
        "⟩"@
    } else {
        "⟩"@ + crate::time::rfc3339_of(t) + "⟩"@
    }
}

fn replace_slashes(s: &str) -> (r: String)
    ensures
        r@ == slashes_replaced(s@),
{
    let chars = str_chars(s);
    let arrow = str_chars("⟩");
    let mut out: Vec<char> = Vec::new();
    let mut i: usize = 0;
    while i < chars.len()
        invariant
            i <= chars.len(),
            chars@ == s@,
            arrow@ == "⟩"@,
            out@ == slashes_replaced(chars@.take(i as int)),
        decreases chars.len() - i,
    {
        assert(chars@.take(i + 1).drop_last() =~= chars@.take(i as int));
        if chars[i] == '/' {
            crate::text::append_chars(&mut out, &arrow);
        } else {
            out.push(chars[i]);
            assert(out@ =~= slashes_replaced(chars@.take(i as int)) + seq![chars@[i as int]]);
        }
        i = i + 1;
    }
    assert(chars@.take(chars.len() as int) =~= chars@);
    string_from_chars(out.as_slice())
}

impl<'a> AppState<'a> {
    /// What the bar at the bottom shows for the command line.
    pub fn command_bar_text(&self) -> (b: crate::style::BarText)
        ensures
            b@ == crate::command::command_bar_view(self@.commands, self@.mode),
    {
        self.commands.command_bar_text(self.mode)
    }

    /// How many lines the bar at the bottom takes: those of the command line in
    /// the command mode, the filters menu in its mode, none in the logs.
    pub fn state_bar_text_number_of_lines(&self) -> (n: usize)
        ensures
            n as nat == match self@.mode {
                AppMode::Command => min_nat(
                    crate::style::bar_line_count(
                        crate::command::command_bar_view(self@.commands, self@.mode),
                    ),
                    usize::MAX as nat,
                ),
                AppMode::FiltersMenu => min_nat(self@.filters.filters.len(), 5) + if self@.filters.filters.len()
                    == 0 {
                    1nat
                } else {
                    2nat
                },
                _ => 0,
            },
    {
        match self.mode {
            AppMode::Command => self.commands.command_bar_text(self.mode).line_count(),
            AppMode::Logs => 0,
            AppMode::FiltersMenu => self.filters.filters_menu_size(),
            AppMode::Search => 0,
        }
    }

    /// The title bar: what it shows of the top line on screen, `None` when no
    /// line is on screen.
    pub fn top_log_line_title_bar_text(&self) -> (t: Option<TitleBar>)
        ensures
            match t {
                None => on_screen(self@).len() == 0,
                Some(t) => on_screen(self@).len() > 0 && ({
                    let l = self@.lines[on_screen(self@)[0]];
                    t.color == l.file_color && t.time@ == title_time(l.time) && t.file_name@
                        == slashes_replaced(l.file_name)
                }),
            },
    {
        let kept = self.kept_line_indices();
        proof {
            lemma_kept_indices(self@.lines, self@.filters);
        }
        if self.line_offset >= kept.len() {
            return None;
        }
        let i = kept[self.line_offset];
        assert(on_screen(self@)[0] == i as int);
        let l = self.lines[i];
        assert(self@.lines[i as int] == line_view(l));
        let time = if l.time.same_instant(&LogTime::max_utc()) {
            string_from_chars(str_chars("⟩").as_slice())
        } else {
            let mut t = str_chars("⟩");
            crate::text::append_chars(&mut t, &str_chars(l.time.to_rfc3339().as_str()));
            crate::text::append_chars(&mut t, &str_chars("⟩"));
            string_from_chars(t.as_slice())
        };
        Some(
            TitleBar {
                color: l.src_file.color,
                time,
                file_name: replace_slashes(l.src_file.name.as_str()),
            },
        )
    }

    /// The byte length of the longest file name.
    fn max_file_name_length(&self) -> (n: usize)
        ensures
            n == longest_name(self@.file_names),
    {
        let ghost names = self@.file_names;
        let mut n: usize = 0;
        let mut i: usize = 0;
        while i < self.file_names.len()
            invariant
                i <= self.file_names.len(),
                names == self@.file_names,
                names.len() == self.file_names.len(),
                n == longest_name(names.take(i as int)),
            decreases self.file_names.len() - i,
        {
            assert(names.take(i + 1).drop_last() =~= names.take(i as int));
            let name = self.file_names[i].as_str();
            assert(name.spec_bytes() == vstd::utf8::encode_utf8(name@));
            let len = name.len();
            if len > n {
                n = len;
            }
            i = i + 1;
        }
        assert(names.take(self.file_names.len() as int) =~= names);
        n
    }

    /// What stands in front of each line on screen, with the colour of its file.
    pub fn filtered_lines_file_names(&self) -> (r: Vec<(String, Color)>)
        ensures
            r@.len() == on_screen(self@).len(),
            forall|k: int|
                0 <= k < r@.len() ==> (#[trigger] r@[k]).0@ == name_column(self@, k) && r@[k].1
                    == self@.lines[on_screen(self@)[k]].file_color,
    {
        let kept = self.kept_line_indices();
        proof {
            lemma_kept_indices(self@.lines, self@.filters);
        }
        let mut r: Vec<(String, Color)> = Vec::new();
        if self.line_offset >= kept.len() {
            return r;
        }
        let width = self.max_file_name_length();
        let ghost screen = on_screen(self@);
        let off = self.line_offset;
        let n = kept.len() - off;
        let mut k: usize = 0;
        while k < n
            invariant
                off == self.line_offset,
                off < kept.len(),
                n == kept.len() - off,
                k <= n,
                screen == on_screen(self@),
                screen.len() == n,
                kept@.map_values(|i: usize| i as int) == shown(self@),
                forall|j: int| 0 <= j < shown(self@).len() ==> 0 <= #[trigger] shown(self@)[j] < self@.lines.len(),
                width == longest_name(self@.file_names),
                r@.len() == k,
                forall|j: int|
                    0 <= j < k ==> (#[trigger] r@[j]).0@ == name_column(self@, j) && r@[j].1
                        == self@.lines[screen[j]].file_color,
            decreases n - k,
        {
            let cur_line = self.lines[kept[off + k]];
            assert(screen[k as int] == kept@[off + k] as int);
            assert(self@.lines[screen[k as int]] == line_view(cur_line));
            let cur = str_chars(cur_line.src_file.name.as_str());
            let prev: Option<Vec<char>> = if k == 0 {
                None
            } else {
                assert(screen[k - 1] == kept@[off + k - 1] as int);
                assert(self@.lines[screen[k - 1]] == line_view(self.lines@[kept@[off + k - 1] as int]));
                Some(str_chars(self.lines[kept[off + k - 1]].src_file.name.as_str()))
            };
            let next: Option<Vec<char>> = if k + 1 >= n {
                None
            } else {
                assert(screen[k + 1] == kept@[off + k + 1] as int);
                assert(self@.lines[screen[k + 1]] == line_view(self.lines@[kept@[off + k + 1] as int]));
                Some(str_chars(self.lines[kept[off + k + 1]].src_file.name.as_str()))
            };
            let sep = match (&prev, &next) {
                (None, None) => "[",
                (None, Some(nx)) => if crate::text::chars_equal(&cur, nx) {
                    "┌"
                } else {
                    "["
                },
                (Some(p), None) => if crate::text::chars_equal(&cur, p) {
                    "└"
                } else {
                    "["
                },
                (Some(p), Some(nx)) => {
                    let same_prev = crate::text::chars_equal(&cur, p);
                    let same_next = crate::text::chars_equal(&cur, nx);
                    if same_prev && same_next {
                        "├"
                    } else if same_prev && !same_next {
                        "└"
                    } else if !same_prev && same_next {
                        "┌"
                    } else {
                        "["
                    }
                },
            };
            let ghost prev_view = match prev {
                Some(p) => Some(p@),
                None => None,
            };
            let ghost next_view = match next {
                Some(p) => Some(p@),
                None => None,
            };
            assert(prev_view == screen_file(self@, k - 1));
            assert(next_view == screen_file(self@, k + 1));
            assert(sep@ == separator(prev_view, cur@, next_view));
            let mut content: Vec<char> = Vec::new();
            if self.show_file_names {
                content = cur.clone();
                if cur.len() < width {
                    let mut pad: usize = width - cur.len();
                    let ghost spaces = Seq::new((width - cur@.len()) as nat, |i: int| ' ');
                    while pad > 0
                        invariant
                            pad <= width - cur@.len(),
                            cur@.len() < width,
                            spaces == Seq::new((width - cur@.len()) as nat, |i: int| ' '),
                            content@ == cur@ + spaces.take(width - cur@.len() - pad),
                        decreases pad,
                    {
                        content.push(' ');
                        pad = pad - 1;
                        assert(content@ =~= cur@ + spaces.take(width - cur@.len() - pad));
                    }
                    assert(spaces.take(width - cur@.len()) =~= spaces);
                } else {
                    assert(content@ == cur@);
                }
                assert(content@ == padded(cur@, width as nat));
            }
            crate::text::append_chars(&mut content, &str_chars(sep));
            r.push((string_from_chars(content.as_slice()), cur_line.src_file.color));
            k = k + 1;
        }
        r
    }
}

} // verus!

verus! {

/// The text between the byte offsets `a` and `b` of `t`.
pub open spec fn byte_slice(t: Seq<char>, a: int, b: int) -> Seq<char> {
    decode_utf8(encode_utf8(t).subrange(a, b))
}

/// The pieces `split_keep` makes of `t` for the first matches `ms`: the text
/// before each match in the `base` style, the match in the `hl` style; with the
/// byte offset where the last match ends.
pub open spec fn split_pieces(t: Seq<char>, ms: Seq<(int, int)>, base: Style, hl: Style) -> (
    Seq<(Seq<char>, Style)>,
    int,
)
    decreases ms.len(),
{
    if ms.len() == 0 {
        (Seq::empty(), 0)
    } else {
        let (prev, last) = split_pieces(t, ms.drop_last(), base, hl);
        let m = ms.last();
        let gap = if last != m.0 {
            seq![(byte_slice(t, last, m.0), base)]
        } else {
            Seq::empty()
        };
        (prev + gap + seq![(byte_slice(t, m.0, m.1), hl)], m.1)
    }
}

/// `t` cut at the matches `ms`: the matches in the `hl` style, the text around
/// them in the `base` style, with no empty piece between matches.
pub open spec fn split_keep(t: Seq<char>, ms: Seq<(int, int)>, base: Style, hl: Style) -> Seq<
    (Seq<char>, Style),
> {
    let (pieces, last) = split_pieces(t, ms, base, hl);
    if last < encode_utf8(t).len() {
        pieces.push((byte_slice(t, last, encode_utf8(t).len() as int), base))
    } else {
        pieces
    }
}

/// Each piece cut at the matches of `pattern`, the matches coloured `c`.
pub open spec fn highlight_pieces(pieces: Seq<(Seq<char>, Style)>, pattern: Seq<char>, c: Color) -> Seq<
    (Seq<char>, Style),
>
    decreases pieces.len(),
{
    if pieces.len() == 0 {
        Seq::empty()
    } else {
        let p = pieces.last();
        highlight_pieces(pieces.drop_last(), pattern, c) + split_keep(
            p.0,
            regex_find_ranges(pattern, p.0),
            p.1,
            p.1.with_fg(c),
        )
    }
}

/// The pieces after the highlights `hs`, applied in turn.
pub open spec fn highlighted(pieces: Seq<(Seq<char>, Style)>, hs: Seq<(Seq<char>, Color)>) -> Seq<
    (Seq<char>, Style),
>
    decreases hs.len(),
{
    if hs.len() == 0 {
        pieces
    } else {
        highlight_pieces(highlighted(pieces, hs.drop_last()), hs.last().0, hs.last().1)
    }
}

/// What is left of a line scrolled `column_offset` bytes to the left (all of it
/// when the offset passes its end); `None` when the offset falls inside a
/// character, where the line cannot be cut.
pub open spec fn visible_part(log: Seq<char>, column_offset: nat) -> Option<Seq<char>> {
    let bytes = encode_utf8(log);
    let off = min_nat(column_offset, bytes.len());
    if is_char_boundary(bytes, off as int) {
        Some(bytes_text(bytes.subrange(off as int, bytes.len() as int)))
    } else {
        None
    }
}

/// The characters that the UTF-8 `bytes` encode.
pub open spec fn bytes_text(bytes: Seq<u8>) -> Seq<char> {
    decode_utf8(bytes)
}

/// The style of a line: black on white when it is marked.
pub open spec fn mark_style(marked: bool) -> Style {
    if marked {
        Style { fg: Some(Color::Black), bg: Some(Color::White), ..Style::spec_plain() }
    } else {
        Style::spec_plain()
    }
}

/// The background of a whole line: white when it is marked.
pub open spec fn mark_bg(marked: bool) -> Color {
    if marked {
        Color::White
    } else {
        Color::Reset
    }
}

/// A line as it is drawn: its pieces and the background of the whole line.
pub struct RenderedLine {
    pub pieces: Vec<StyledText>,
    pub bg: Color,
}

impl View for RenderedLine {
    type V = (Seq<(Seq<char>, Style)>, Color);

    open spec fn view(&self) -> (Seq<(Seq<char>, Style)>, Color) {
        (self.pieces@.map_values(|p: StyledText| p@), self.bg)
    }
}

/// The `k`-th line on screen as it is drawn: the mark column in the colour of
/// its file, then the visible part of the line in its mark style with the
/// highlights applied; `None` when the line cannot be cut at the column offset.
pub open spec fn rendered_line(s: AppStateView, k: int) -> Option<(Seq<(Seq<char>, Style)>, Color)> {
    let l = s.lines[on_screen(s)[k]];
    match visible_part(l.log, s.column_offset) {
        None => None,
        Some(v) => Some(
            (
                seq![
                    (
                        name_column(s, k),
                        Style { fg: Some(l.file_color), bg: Some(Color::Reset), ..Style::spec_plain() },
                    ),
                ] + highlighted(seq![(v, mark_style(l.marked))], s.highlights),
                mark_bg(l.marked),
            ),
        ),
    }
}

/// A boundary of a UTF-8 text is one of each prefix that reaches past it.
proof fn lemma_boundary_in_prefix(bytes: Seq<u8>, a: int, b: int)
    requires
        valid_utf8(bytes),
        0 <= a <= b <= bytes.len(),
        is_char_boundary(bytes, a),
        is_char_boundary(bytes, b),
    ensures
        valid_utf8(bytes.subrange(0, b)),
        is_char_boundary(bytes.subrange(0, b), a),
{
    broadcast use vstd::utf8::valid_utf8_split, vstd::utf8::is_char_boundary_start_end_of_seq;

    let pre = bytes.subrange(0, b);
    assert(valid_utf8(pre));
    if a == b {
        assert(pre.len() == b);
    } else if a > 0 {
        vstd::utf8::is_char_boundary_iff_not_is_continuation_byte(bytes, a);
        vstd::utf8::is_char_boundary_iff_not_is_continuation_byte(pre, a);
        assert(pre[a] == bytes[a]);
    }
}

/// The text of `s` between two of its character boundaries.
fn byte_slice_of(s: &str, a: usize, b: usize) -> (r: &str)
    requires
        a <= b <= s.spec_bytes().len(),
        is_char_boundary(s.spec_bytes(), a as int),
        is_char_boundary(s.spec_bytes(), b as int),
    ensures
        r@ == byte_slice(s@, a as int, b as int),
{
    broadcast use vstd::utf8::encode_utf8_valid_utf8, vstd::utf8::encode_utf8_decode_utf8;

    proof {
        lemma_boundary_in_prefix(s.spec_bytes(), a as int, b as int);
    }
    let (left, _) = s.split_at(b);
    let (_, mid) = left.split_at(a);
    assert(mid.spec_bytes() =~= s.spec_bytes().subrange(a as int, b as int));
    assert(decode_utf8(encode_utf8(mid@)) == mid@);
    mid
}

impl<'a> AppState<'a> {
    /// `text` cut at the matches of `r`: the matches in `style`, the text
    /// around them in `base_style`.
    fn split_keep(r: &Pattern, text: &str, base_style: Style, style: Style) -> (v: Vec<StyledText>)
        ensures
            v@.map_values(|p: StyledText| p@) == split_keep(
                text@,
                regex_find_ranges(r@, text@),
                base_style,
                style,
            ),
    {
        let ranges = r.find_ranges(text);
        let ghost ms = regex_find_ranges(r@, text@);
        let ghost bytes = text.spec_bytes();
        proof {
            broadcast use vstd::utf8::encode_utf8_valid_utf8, vstd::utf8::is_char_boundary_start_end_of_seq;

            assert(is_char_boundary(bytes, 0));
        }
        let mut out: Vec<StyledText> = Vec::new();
        let mut last: usize = 0;
        let mut i: usize = 0;
        while i < ranges.len()
            invariant
                i <= ranges.len(),
                bytes == text.spec_bytes(),
                ranges@.len() == ms.len(),
                forall|j: int|
                    0 <= j < ranges@.len() ==> (#[trigger] ranges@[j]).0 as int == ms[j].0
                        && ranges@[j].1 as int == ms[j].1,
                forall|j: int|
                    0 <= j < ranges@.len() ==> (#[trigger] ranges@[j]).0 <= ranges@[j].1 <= bytes.len()
                        && is_char_boundary(bytes, ranges@[j].0 as int) && is_char_boundary(
                        bytes,
                        ranges@[j].1 as int,
                    ),
                forall|j: int| 0 < j < ranges@.len() ==> ranges@[j - 1].1 <= (#[trigger] ranges@[j]).0,
                last <= bytes.len(),
                is_char_boundary(bytes, last as int),
                i == 0 ==> last == 0,
                i > 0 ==> last == ranges@[i - 1].1,
                (out@.map_values(|p: StyledText| p@), last as int) == split_pieces(
                    text@,
                    ms.take(i as int),
                    base_style,
                    style,
                ),
            decreases ranges.len() - i,
        {
            let (start, end) = ranges[i];
            assert(ms.take(i + 1).drop_last() =~= ms.take(i as int));
            assert(ms.take(i + 1).last() == (start as int, end as int));
            let ghost before = out@.map_values(|p: StyledText| p@);
            if last != start {
                let gap = byte_slice_of(text, last, start);
                out.push(StyledText { content: gap.to_owned(), style: base_style });
            }
            let m = byte_slice_of(text, start, end);
            out.push(StyledText { content: m.to_owned(), style: style });
            assert(out@.map_values(|p: StyledText| p@) =~= split_pieces(
                text@,
                ms.take(i + 1),
                base_style,
                style,
            ).0);
            last = end;
            i = i + 1;
        }
        assert(ms.take(ranges.len() as int) =~= ms);
        proof {
            broadcast use vstd::utf8::encode_utf8_valid_utf8, vstd::utf8::is_char_boundary_start_end_of_seq;

            assert(is_char_boundary(bytes, bytes.len() as int));
        }
        assert(split_pieces(text@, ms, base_style, style) == (out@.map_values(|p: StyledText| p@), last as int));
        let len = text.as_bytes().len();
        if last < len {
            let rest = byte_slice_of(text, last, len);
            out.push(StyledText { content: rest.to_owned(), style: base_style });
            assert(out@.map_values(|p: StyledText| p@) =~= split_keep(text@, ms, base_style, style));
        }
        out
    }
}

} // verus!

verus! {

impl<'a> AppState<'a> {
    /// Applies the highlights in turn to a piece of a line: each piece is cut at
    /// the matches of the highlight, which take its colour. The line keeps the
    /// background of the piece (the default when it has none).
    fn apply_highlights_to_line(&self, log_line: StyledText) -> (r: RenderedLine)
        ensures
            r@ == (
                highlighted(seq![log_line@], self@.highlights),
                match log_line.style.bg {
                    Some(c) => c,
                    None => Color::Reset,
                },
            ),
    {
        let bg_color = match log_line.style.bg {
            Some(c) => c,
            None => Color::Reset,
        };
        let ghost first = seq![log_line@];
        let ghost hs = self@.highlights;
        let mut pieces: Vec<StyledText> = Vec::new();
        pieces.push(log_line);
        assert(pieces@.map_values(|p: StyledText| p@) =~= first);
        assert(hs.take(0) =~= Seq::<(Seq<char>, Color)>::empty());
        let mut h: usize = 0;
        while h < self.highlights.len()
            invariant
                h <= self.highlights.len(),
                hs == self@.highlights,
                hs.len() == self.highlights.len(),
                pieces@.map_values(|p: StyledText| p@) == highlighted(first, hs.take(h as int)),
            decreases self.highlights.len() - h,
        {
            let re = &self.highlights[h].0;
            let color = self.highlights[h].1;
            assert(hs[h as int] == (re@, color));
            let ghost old_pieces = pieces@.map_values(|p: StyledText| p@);
            let mut next: Vec<StyledText> = Vec::new();
            let mut j: usize = 0;
            while j < pieces.len()
                invariant
                    j <= pieces.len(),
                    old_pieces == pieces@.map_values(|p: StyledText| p@),
                    next@.map_values(|p: StyledText| p@) == highlight_pieces(
                        old_pieces.take(j as int),
                        re@,
                        color,
                    ),
                decreases pieces.len() - j,
            {
                let p = &pieces[j];
                assert(old_pieces.take(j + 1).drop_last() =~= old_pieces.take(j as int));
                assert(old_pieces.take(j + 1).last() == p@);
                let ghost before = next@.map_values(|p: StyledText| p@);
                let mut parts = Self::split_keep(
                    re,
                    p.content.as_str(),
                    p.style,
                    Style { fg: Some(color), ..p.style },
                );
                let ghost added = parts@.map_values(|p: StyledText| p@);
                next.append(&mut parts);
                assert(next@.map_values(|p: StyledText| p@) =~= before + added);
                j = j + 1;
            }
            assert(old_pieces.take(pieces.len() as int) =~= old_pieces);
            assert(hs.take(h + 1).drop_last() =~= hs.take(h as int));
            pieces = next;
            h = h + 1;
        }
        assert(hs.take(self.highlights.len() as int) =~= hs);
        RenderedLine { pieces, bg: bg_color }
    }

    /// What is shown of a line scrolled to the column offset, in the style of
    /// its mark; `None` when the offset falls inside a character.
    fn apply_marks_and_offset(&self, l: &LogLine) -> (r: Option<StyledText>)
        ensures
            match visible_part(l.log@, self@.column_offset) {
                None => r is None,
                Some(v) => r is Some && r->0@ == (v, mark_style(l.marked)),
            },
    {
        broadcast use vstd::utf8::encode_utf8_valid_utf8, vstd::utf8::encode_utf8_decode_utf8;

        let len = l.log.as_bytes().len();
        let offset = if self.column_offset < len {
            self.column_offset
        } else {
            len
        };
        assert(offset as nat == min_nat(self@.column_offset, encode_utf8(l.log@).len()));
        if !l.log.is_char_boundary(offset) {
            return None;
        }
        let (_, log) = l.log.split_at(offset);
        assert(decode_utf8(encode_utf8(log@)) == log@);
        let style = if l.marked {
            Style { fg: Some(Color::Black), bg: Some(Color::White), bold: false, slow_blink: false }
        } else {
            Style::plain()
        };
        Some(StyledText { content: log.to_owned(), style })
    }
}

} // verus!

verus! {

impl<'a> AppState<'a> {
    /// The lines on screen as they are drawn, from the top one down; `None`
    /// when one of them cannot be cut at the column offset (the offset falls
    /// inside one of its characters).
    pub fn lines_iter(&self) -> (r: Option<Vec<RenderedLine>>)
        ensures
            match r {
                None => exists|k: int|
                    0 <= k < on_screen(self@).len() && #[trigger] rendered_line(self@, k) is None,
                Some(v) => v@.len() == on_screen(self@).len() && forall|k: int|
                    0 <= k < v@.len() ==> rendered_line(self@, k) == Some((#[trigger] v@[k])@),
            },
    {
        let names = self.filtered_lines_file_names();
        let kept = self.kept_line_indices();
        proof {
            lemma_kept_indices(self@.lines, self@.filters);
        }
        let mut out: Vec<RenderedLine> = Vec::new();
        if self.line_offset >= kept.len() {
            return Some(out);
        }
        let ghost screen = on_screen(self@);
        let off = self.line_offset;
        let n = kept.len() - off;
        let mut k: usize = 0;
        while k < n
            invariant
                off == self.line_offset,
                off < kept.len(),
                n == kept.len() - off,
                k <= n,
                screen == on_screen(self@),
                screen.len() == n,
                names@.len() == n,
                forall|j: int|
                    0 <= j < names@.len() ==> (#[trigger] names@[j]).0@ == name_column(self@, j)
                        && names@[j].1 == self@.lines[screen[j]].file_color,
                kept@.map_values(|i: usize| i as int) == shown(self@),
                forall|j: int| 0 <= j < shown(self@).len() ==> 0 <= #[trigger] shown(self@)[j] < self@.lines.len(),
                out@.len() == k,
                forall|j: int| 0 <= j < k ==> rendered_line(self@, j) == Some((#[trigger] out@[j])@),
            decreases n - k,
        {
            let line = self.lines[kept[off + k]];
            assert(screen[k as int] == kept@[off + k] as int);
            assert(self@.lines[screen[k as int]] == line_view(line));
            let shown_part = match self.apply_marks_and_offset(&line) {
                Some(t) => t,
                None => {
                    assert(rendered_line(self@, k as int) is None);
                    return None;
                },
            };
            let h = self.apply_highlights_to_line(shown_part);
            let mut pieces: Vec<StyledText> = Vec::new();
            pieces.push(
                StyledText {
                    content: names[k].0.clone(),
                    style: Style { fg: Some(names[k].1), bg: Some(Color::Reset), bold: false, slow_blink: false },
                },
            );
            let ghost head = pieces@.map_values(|p: StyledText| p@);
            let ghost tail = h.pieces@.map_values(|p: StyledText| p@);
            let mut rest = h.pieces;
            pieces.append(&mut rest);
            assert(pieces@.map_values(|p: StyledText| p@) =~= head + tail);
            out.push(RenderedLine { pieces, bg: h.bg });
            assert(rendered_line(self@, k as int) == Some(out@[k as int]@));
            k = k + 1;
        }
        Some(out)
    }
}

} // verus!

verus! {

/// Lines with the same texts are kept alike, whatever their marks.
proof fn lemma_kept_same_logs(a: Seq<LineView>, b: Seq<LineView>, f: FiltersView)
    requires
        a.len() == b.len(),
        forall|k: int| 0 <= k < a.len() ==> (#[trigger] a[k]).log == b[k].log,
    ensures
        kept_indices(a, f) == kept_indices(b, f),
    decreases a.len(),
{
    if a.len() > 0 {
        lemma_kept_same_logs(a.drop_last(), b.drop_last(), f);
        assert(a.last().log == b.last().log);
    }
}

/// Without filters every line is kept.
proof fn lemma_kept_all(lines: Seq<LineView>, f: FiltersView)
    requires
        f.filters.len() == 0,
    ensures
        kept_indices(lines, f).len() == lines.len(),
    decreases lines.len(),
{
    if lines.len() > 0 {
        lemma_kept_all(lines.drop_last(), f);
    }
}

/// Flipping the mark of the top line twice leaves the viewer as it was.
pub proof fn lemma_mark_flip_undone(s: AppStateView)
    ensures
        top_mark_flipped(top_mark_flipped(s)) == s,
{
    if s.line_offset < shown_count(s) {
        lemma_kept_indices(s.lines, s.filters);
        let i = shown(s)[s.line_offset as int];
        let t = top_mark_flipped(s);
        lemma_kept_same_logs(t.lines, s.lines, s.filters);
        assert(flip_mark(t.lines, i) =~= s.lines);
    }
}

/// In the logs, after a key the top line on screen is one of the shown lines,
/// however the key moved the view, changed the filters or the marks.
pub proof fn lemma_logs_key_keeps_top_line_shown(s: AppStateView, k: crate::input::KeyEvent, color: Color)
    requires
        s.mode == AppMode::Logs,
        shown_count(s) >= 1,
    ensures
        app_event(s, Event::Key(k), color).0.line_offset < shown_count(
            app_event(s, Event::Key(k), color).0,
        ),
{
    let t = app_event(s, Event::Key(k), color).0;
    lemma_kept_indices(s.lines, s.filters);
    if !is_quit_key(k.code, k.modifiers) && k.kind == KeyEventKind::Press {
        let s0 = AppStateView { line_offset: min_nat(s.line_offset, (shown_count(s) - 1) as nat), ..s };
        let s1 = moved(s0, k.code);
        let s2 = AppStateView { line_offset: min_nat(s1.line_offset, (shown_count(s0) - 1) as nat), ..s1 };
        assert(shown(s0) == shown(s));
        assert(shown(s1) == shown(s));
        assert(shown(s2) == shown(s));
        assert(t == logs_key_action(s2, k.code, k.modifiers));
        assert(s2.line_offset < shown_count(s2));
        match k.code {
            KeyCode::Char(c) => {
                if c == ':' {
                } else if c == 'r' && k.modifiers.control {
                    lemma_kept_all(t.lines, t.filters);
                } else if c == 'm' {
                    if s2.line_offset < shown_count(s2) {
                        lemma_kept_indices(s2.lines, s2.filters);
                        lemma_kept_same_logs(t.lines, s2.lines, s2.filters);
                    }
                }
            },
            _ => {},
        }
    }
}

} // verus!

verus! {

/// Whether every line of every file can be read for its time (see
/// [`readable_files`]), as [`AppState::new`] needs.
pub fn files_are_readable(files: &[LogFile]) -> (b: bool)
    ensures
        b == readable_files(files@),
{
    let mut fi: usize = 0;
    while fi < files.len()
        invariant
            fi <= files.len(),
            forall|i: int, j: int|
                0 <= i < fi && 0 <= j < lines_of(files@[i].contents@).len() ==> {
                    let l = #[trigger] lines_of(files@[i].contents@)[j];
                    !is_blank(l) && timestamp_cut_ok(l, true)
                },
        decreases files.len() - fi,
    {
        let ls = str_lines(files[fi].contents.as_str());
        let ghost texts = lines_of(files@[fi as int].contents@);
        assert(ls@.map_values(|l: &str| l@) == texts);
        let mut li: usize = 0;
        while li < ls.len()
            invariant
                li <= ls.len(),
                fi < files.len(),
                ls@.map_values(|l: &str| l@) == texts,
                texts == lines_of(files@[fi as int].contents@),
                forall|j: int|
                    0 <= j < li ==> {
                        let l = #[trigger] texts[j];
                        !is_blank(l) && timestamp_cut_ok(l, true)
                    },
            decreases ls.len() - li,
        {
            assert(ls@[li as int]@ == texts[li as int]);
            if !crate::time::line_is_readable(ls[li], true) {
                return false;
            }
            li = li + 1;
        }
        assert forall|i: int, j: int|
            0 <= i < fi + 1 && 0 <= j < lines_of(files@[i].contents@).len() implies {
                let l = #[trigger] lines_of(files@[i].contents@)[j];
                !is_blank(l) && timestamp_cut_ok(l, true)
            } by {
            if i == fi {
                assert(lines_of(files@[i].contents@)[j] == texts[j]);
            }
        }
        fi = fi + 1;
    }
    true
}

} // verus!

verus! {

/// The texts of the pieces, one after the other.
pub open spec fn joined(pieces: Seq<(Seq<char>, Style)>) -> Seq<char>
    decreases pieces.len(),
{
    if pieces.len() == 0 {
        Seq::empty()
    } else {
        joined(pieces.drop_last()) + pieces.last().0
    }
}

/// Byte ranges as `find_iter` yields them in `t`: each within `t`, from and to
/// character boundaries, one after the other without overlapping.
pub open spec fn ranges_ok(ms: Seq<(int, int)>, t: Seq<char>) -> bool {
    let b = encode_utf8(t);
    &&& forall|i: int|
        0 <= i < ms.len() ==> 0 <= (#[trigger] ms[i]).0 <= ms[i].1 <= b.len() && is_char_boundary(
            b,
            ms[i].0,
        ) && is_char_boundary(b, ms[i].1)
    &&& forall|i: int| 0 < i < ms.len() ==> ms[i - 1].1 <= (#[trigger] ms[i]).0
}

/// Between two boundaries of a UTF-8 text lies a UTF-8 text, whose boundaries
/// are those of the whole in between.
proof fn lemma_boundary_in_range(bytes: Seq<u8>, a: int, c: int, x: int)
    requires
        valid_utf8(bytes),
        0 <= a <= x <= c <= bytes.len(),
        is_char_boundary(bytes, a),
        is_char_boundary(bytes, c),
        is_char_boundary(bytes, x),
    ensures
        valid_utf8(bytes.subrange(a, c)),
        is_char_boundary(bytes.subrange(a, c), x - a),
{
    broadcast use vstd::utf8::valid_utf8_split, vstd::utf8::is_char_boundary_start_end_of_seq;

    lemma_boundary_in_prefix(bytes, a, c);
    let pre = bytes.subrange(0, c);
    let mid = pre.subrange(a, c);
    assert(mid =~= bytes.subrange(a, c));
    assert(valid_utf8(mid));
    if x == a {
    } else if x == c {
        assert(mid.len() == c - a);
    } else {
        vstd::utf8::is_char_boundary_iff_not_is_continuation_byte(bytes, x);
        vstd::utf8::is_char_boundary_iff_not_is_continuation_byte(mid, x - a);
        assert(mid[x - a] == bytes[x]);
    }
}

/// The texts between consecutive boundaries join up.
proof fn lemma_byte_slice_join(t: Seq<char>, a: int, b: int, c: int)
    requires
        0 <= a <= b <= c <= encode_utf8(t).len(),
        is_char_boundary(encode_utf8(t), a),
        is_char_boundary(encode_utf8(t), b),
        is_char_boundary(encode_utf8(t), c),
    ensures
        byte_slice(t, a, b) + byte_slice(t, b, c) == byte_slice(t, a, c),
{
    broadcast use vstd::utf8::encode_utf8_valid_utf8;

    let bytes = encode_utf8(t);
    lemma_boundary_in_range(bytes, a, c, b);
    let sub = bytes.subrange(a, c);
    vstd::utf8::decode_utf8_split(sub, b - a);
    assert(sub.subrange(0, b - a) =~= bytes.subrange(a, b));
    assert(sub.subrange(b - a, sub.len() as int) =~= bytes.subrange(b, c));
}

/// One piece joins to its text.
proof fn lemma_joined_one(p: (Seq<char>, Style))
    ensures
        joined(seq![p]) == p.0,
{
    assert(seq![p].drop_last() =~= Seq::<(Seq<char>, Style)>::empty());
    assert(joined(Seq::<(Seq<char>, Style)>::empty()) == Seq::<char>::empty());
    assert(Seq::<char>::empty() + p.0 =~= p.0);
}

/// Joining the pieces of two lists is joining the two joins.
proof fn lemma_joined_concat(a: Seq<(Seq<char>, Style)>, b: Seq<(Seq<char>, Style)>)
    ensures
        joined(a + b) == joined(a) + joined(b),
    decreases b.len(),
{
    if b.len() == 0 {
        assert(a + b =~= a);
    } else {
        lemma_joined_concat(a, b.drop_last());
        assert((a + b).drop_last() =~= a + b.drop_last());
    }
}

/// The pieces cut out before and at the matches make up the text up to the end
/// of the last match.
proof fn lemma_split_pieces_text(t: Seq<char>, ms: Seq<(int, int)>, base: Style, hl: Style)
    requires
        ranges_ok(ms, t),
    ensures
        ({
            let (pieces, last) = split_pieces(t, ms, base, hl);
            &&& 0 <= last <= encode_utf8(t).len()
            &&& is_char_boundary(encode_utf8(t), last)
            &&& ms.len() > 0 ==> last == ms.last().1
            &&& joined(pieces) == byte_slice(t, 0, last)
        }),
    decreases ms.len(),
{
    broadcast use vstd::utf8::encode_utf8_valid_utf8, vstd::utf8::is_char_boundary_start_end_of_seq;

    let bytes = encode_utf8(t);
    if ms.len() == 0 {
        assert(bytes.subrange(0, 0) =~= Seq::<u8>::empty());
        assert(joined(Seq::<(Seq<char>, Style)>::empty()) =~= byte_slice(t, 0, 0));
    } else {
        let rest = ms.drop_last();
        assert(ranges_ok(rest, t)) by {
            assert forall|i: int| 0 <= i < rest.len() implies 0 <= (#[trigger] rest[i]).0 <= rest[i].1
                <= bytes.len() && is_char_boundary(bytes, rest[i].0) && is_char_boundary(
                bytes,
                rest[i].1,
            ) by {
                assert(rest[i] == ms[i]);
            }
            assert forall|i: int| 0 < i < rest.len() implies rest[i - 1].1 <= (#[trigger] rest[i]).0 by {
                assert(rest[i] == ms[i]);
                assert(rest[i - 1] == ms[i - 1]);
            }
        }
        lemma_split_pieces_text(t, rest, base, hl);
        let (prev, last) = split_pieces(t, rest, base, hl);
        let m = ms.last();
        assert(m == ms[ms.len() - 1]);
        if rest.len() > 0 {
            assert(rest.last() == ms[ms.len() - 2]);
        }
        assert(last <= m.0);
        let gap = if last != m.0 {
            seq![(byte_slice(t, last, m.0), base)]
        } else {
            Seq::empty()
        };
        let tail = seq![(byte_slice(t, m.0, m.1), hl)];
        lemma_joined_concat(prev, gap);
        lemma_joined_concat(prev + gap, tail);
        lemma_joined_one((byte_slice(t, m.0, m.1), hl));
        if last != m.0 {
            lemma_joined_one((byte_slice(t, last, m.0), base));
            lemma_byte_slice_join(t, 0, last, m.0);
        } else {
            assert(joined(gap) =~= Seq::<char>::empty());
        }
        lemma_byte_slice_join(t, 0, m.0, m.1);
    }
}

/// Cutting a text at the matches keeps the text.
proof fn lemma_split_keep_text(t: Seq<char>, ms: Seq<(int, int)>, base: Style, hl: Style)
    requires
        ranges_ok(ms, t),
    ensures
        joined(split_keep(t, ms, base, hl)) == t,
{
    broadcast use vstd::utf8::encode_utf8_valid_utf8, vstd::utf8::is_char_boundary_start_end_of_seq,
        vstd::utf8::encode_utf8_decode_utf8;

    let bytes = encode_utf8(t);
    lemma_split_pieces_text(t, ms, base, hl);
    let (pieces, last) = split_pieces(t, ms, base, hl);
    assert(bytes.subrange(0, bytes.len() as int) =~= bytes);
    if last < bytes.len() {
        let tail = seq![(byte_slice(t, last, bytes.len() as int), base)];
        lemma_joined_concat(pieces, tail);
        lemma_joined_one((byte_slice(t, last, bytes.len() as int), base));
        assert(pieces.push(tail[0]) =~= pieces + tail);
        lemma_byte_slice_join(t, 0, last, bytes.len() as int);
    }
    assert(byte_slice(t, 0, bytes.len() as int) == t);
}

/// Highlighting with one pattern keeps the text of the pieces.
proof fn lemma_highlight_pieces_text(pieces: Seq<(Seq<char>, Style)>, pattern: Seq<char>, c: Color)
    requires
        forall|t: Seq<char>| ranges_ok(#[trigger] regex_find_ranges(pattern, t), t),
    ensures
        joined(highlight_pieces(pieces, pattern, c)) == joined(pieces),
    decreases pieces.len(),
{
    if pieces.len() > 0 {
        let p = pieces.last();
        lemma_highlight_pieces_text(pieces.drop_last(), pattern, c);
        let cut = split_keep(p.0, regex_find_ranges(pattern, p.0), p.1, p.1.with_fg(c));
        lemma_split_keep_text(p.0, regex_find_ranges(pattern, p.0), p.1, p.1.with_fg(c));
        lemma_joined_concat(highlight_pieces(pieces.drop_last(), pattern, c), cut);
    }
}

/// Highlighting keeps the text of the pieces.
proof fn lemma_highlighted_text(pieces: Seq<(Seq<char>, Style)>, hs: Seq<(Seq<char>, Color)>)
    requires
        forall|i: int, t: Seq<char>|
            0 <= i < hs.len() ==> ranges_ok(#[trigger] regex_find_ranges(hs[i].0, t), t),
    ensures
        joined(highlighted(pieces, hs)) == joined(pieces),
    decreases hs.len(),
{
    if hs.len() > 0 {
        let rest = hs.drop_last();
        assert forall|i: int, t: Seq<char>| 0 <= i < rest.len() implies ranges_ok(
            #[trigger] regex_find_ranges(rest[i].0, t),
            t,
        ) by {
            assert(rest[i] == hs[i]);
        }
        lemma_highlighted_text(pieces, rest);
        let last = hs.last();
        assert forall|t: Seq<char>| ranges_ok(#[trigger] regex_find_ranges(last.0, t), t) by {
            assert(last == hs[hs.len() - 1]);
        }
        lemma_highlight_pieces_text(highlighted(pieces, rest), last.0, last.1);
    }
}

/// Highlights only colour a line: after its mark column, a drawn line reads as
/// the visible part of the log line, given that the matches of each highlight
/// pattern are laid out as `find_iter` documents.
pub proof fn lemma_highlights_keep_text(s: AppStateView, k: int)
    requires
        0 <= k < on_screen(s).len(),
        forall|i: int, t: Seq<char>|
            0 <= i < s.highlights.len() ==> ranges_ok(
                #[trigger] regex_find_ranges(s.highlights[i].0, t),
                t,
            ),
    ensures
        match visible_part(s.lines[on_screen(s)[k]].log, s.column_offset) {
            None => rendered_line(s, k) is None,
            Some(v) => rendered_line(s, k) is Some && joined(rendered_line(s, k).unwrap().0.drop_first())
                == v,
        },
{
    let l = s.lines[on_screen(s)[k]];
    match visible_part(l.log, s.column_offset) {
        None => {},
        Some(v) => {
            let first = seq![(v, mark_style(l.marked))];
            lemma_highlighted_text(first, s.highlights);
            lemma_joined_one((v, mark_style(l.marked)));
            let head = seq![
                (
                    name_column(s, k),
                    Style { fg: Some(l.file_color), bg: Some(Color::Reset), ..Style::spec_plain() },
                ),
            ];
            let body = highlighted(first, s.highlights);
            assert((head + body).drop_first() =~= body);
        },
    }
}

} // verus!

verus! {

/// The seconds and nanoseconds of a time fit the integers a [`LogTime`] holds.
pub open spec fn time_in_range(t: LogTimeView) -> bool {
    i64::MIN <= t.secs <= i64::MAX && 0 <= t.nanos <= u32::MAX
}

/// `out` is `inp` sorted by time, stably: line `i` of `out` is line `src[i]`
/// of `inp`, each line of `inp` is taken once, the times never go back, and
/// lines of the same instant keep the order they had in `inp`.
pub open spec fn stable_time_sort(out: Seq<LineView>, inp: Seq<LineView>, src: Seq<int>) -> bool {
    &&& out.len() == inp.len()
    &&& src.len() == out.len()
    &&& forall|i: int| 0 <= i < out.len() ==> 0 <= #[trigger] src[i] < inp.len() && out[i] == inp[src[i]]
    &&& forall|i: int, j: int| 0 <= i < j < out.len() ==> #[trigger] src[i] != #[trigger] src[j]
    &&& forall|i: int, j: int|
        0 <= i < j < out.len() ==> crate::time::time_le(#[trigger] out[i].time, #[trigger] out[j].time)
    &&& forall|i: int, j: int|
        #![trigger src[i], src[j]]
        0 <= i < j < out.len() && crate::time::same_instant(out[i].time, out[j].time) ==> src[i]
            < src[j]
}

/// Sorting lines by their sort keys is a stable sort by time.
proof fn lemma_sorted_by_time_is_stable(lines: Seq<LineView>)
    requires
        lines.len() <= usize::MAX,
        forall|i: int| 0 <= i < lines.len() ==> time_in_range(#[trigger] lines[i].time),
    ensures
        stable_time_sort(
            sorted_by_time(lines),
            lines,
            sort_keys(lines).sort_by(|a: (i64, u32, usize), b: (i64, u32, usize)| key_leq(a, b)).map_values(
                |k: (i64, u32, usize)| k.2 as int,
            ),
        ),
{
    broadcast use vstd::seq_lib::group_to_multiset_ensures;

    let leq = |a: (i64, u32, usize), b: (i64, u32, usize)| key_leq(a, b);
    let keys0 = sort_keys(lines);
    let keys = keys0.sort_by(leq);
    let src = keys.map_values(|k: (i64, u32, usize)| k.2 as int);
    let out = sorted_by_time(lines);
    lemma_key_leq_total();
    keys0.lemma_sort_by_ensures(leq);
    assert(keys0.to_multiset().len() == keys0.len());
    assert(keys.to_multiset().len() == keys.len());
    assert(keys.len() == lines.len());
    assert(keys0.no_duplicates()) by {
        assert forall|i: int, j: int|
            0 <= i < keys0.len() && 0 <= j < keys0.len() && i != j implies keys0[i] != keys0[j] by {
            assert(keys0[i].2 as int == i);
            assert(keys0[j].2 as int == j);
        }
    }
    keys0.lemma_multiset_has_no_duplicates();
    keys.lemma_multiset_has_no_duplicates_conv();
    assert forall|i: int| 0 <= i < keys.len() implies 0 <= #[trigger] keys[i].2 < lines.len()
        && keys[i] == keys0[keys[i].2 as int] by {
        assert(keys.to_multiset().count(keys[i]) > 0);
        assert(keys0.contains(keys[i]));
        let m = choose|m: int| 0 <= m < keys0.len() && keys0[m] == keys[i];
        assert(keys0[m].2 as int == m);
    }
    assert forall|i: int| 0 <= i < out.len() implies 0 <= #[trigger] src[i] < lines.len() && out[i]
        == lines[src[i]] by {
        assert(keys[i].2 < lines.len());
    }
    assert forall|i: int, j: int| 0 <= i < j < out.len() implies #[trigger] src[i] != #[trigger] src[j] by {
        assert(keys[i].2 < lines.len());
        assert(keys[j].2 < lines.len());
        if src[i] == src[j] {
            assert(keys[i] == keys[j]);
        }
    }
    assert forall|i: int, j: int|
        0 <= i < j < out.len() implies crate::time::time_le(#[trigger] out[i].time, #[trigger] out[j].time)
        && (crate::time::same_instant(out[i].time, out[j].time) ==> src[i] < src[j]) by {
        assert(keys[i].2 < lines.len());
        assert(keys[j].2 < lines.len());
        assert(leq(keys[i], keys[j]));
        let a = keys[i].2 as int;
        let b = keys[j].2 as int;
        assert(time_in_range(lines[a].time));
        assert(time_in_range(lines[b].time));
        assert(keys0[a] == keys[i]);
        assert(keys0[b] == keys[j]);
        if src[i] == src[j] {
            assert(keys[i] == keys[j]);
        }
    }
}

} // verus!

verus! {

/// The viewer starts on a stable sort by time of the lines of its files, taken
/// file after file and line after line: every line once, times never going
/// back, and lines of the same instant in the order of the files.
pub proof fn lemma_initial_lines_stable_sort(files: Seq<LogFile>)
    requires
        parsed_lines(files).len() <= usize::MAX,
        forall|i: int|
            0 <= i < parsed_lines(files).len() ==> time_in_range(#[trigger] parsed_lines(files)[i].time),
    ensures
        exists|src: Seq<int>| stable_time_sort(initial_state(files).lines, parsed_lines(files), src),
{
    let lines = parsed_lines(files);
    let src = sort_keys(lines).sort_by(|a: (i64, u32, usize), b: (i64, u32, usize)| key_leq(a, b)).map_values(
        |k: (i64, u32, usize)| k.2 as int,
    );
    lemma_sorted_by_time_is_stable(lines);
    assert(initial_state(files).lines == sorted_by_time(lines));
    assert(stable_time_sort(initial_state(files).lines, lines, src));
}

} // verus!
