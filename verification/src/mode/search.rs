//! The search prompt (`/`): typing a pattern, walking the history of past
//! patterns, and the pattern that is active.
use vstd::prelude::*;

use crate::app_state::{AppAction, AppMode};
use crate::input::{Event, KeyCode, KeyEvent};
use crate::pattern::{Pattern, regex_compile_error};
use crate::style::{BarText, BarTextView};
use crate::text::{append_chars, str_chars, string_from_chars};

verus! {

/// The search prompt.
#[derive(Debug)]
pub struct Search {
    past_patterns: Vec<Vec<char>>,
    last_selected_pattern: Option<usize>,
    pattern: Vec<char>,
    active_pattern: Option<Pattern>,
    search_error: String,
}

/// What a [`Search`] holds, as plain values.
pub struct SearchView {
    pub past: Seq<Seq<char>>,
    pub last_selected: Option<usize>,
    pub pattern: Seq<char>,
    pub active: Option<Seq<char>>,
    pub error: Seq<char>,
}

impl View for Search {
    type V = SearchView;

    closed spec fn view(&self) -> SearchView {
        SearchView {
            past: self.past_patterns@.map_values(|p: Vec<char>| p@),
            last_selected: self.last_selected_pattern,
            pattern: self.pattern@,
            active: match self.active_pattern {
                Some(p) => Some(p@),
                None => None,
            },
            error: self.search_error@,
        }
    }
}

/// A prompt with no history, nothing typed, no active pattern and no error.
pub open spec fn empty_search() -> SearchView {
    SearchView {
        past: Seq::empty(),
        last_selected: None,
        pattern: Seq::empty(),
        active: None,
        error: Seq::empty(),
    }
}

/// The typed pattern after moving to history entry `index`: the entry, when
/// there is one there, else what was typed.
pub open spec fn recalled(s: SearchView, index: usize) -> Seq<char> {
    if index < s.past.len() {
        s.past[index as int]
    } else {
        s.pattern
    }
}

/// What a key does to the search prompt: the new state and the mode to switch to.
pub open spec fn search_event(s: SearchView, ev: Event) -> (SearchView, Option<AppMode>, Option<AppAction>) {
    match ev {
        Event::Key(k) => {
            if s.error.len() > 0 {
                (SearchView { error: Seq::empty(), ..s }, Some(AppMode::Logs), None)
            } else {
                match k.code {
                    KeyCode::Enter => search_entered(s),
                    KeyCode::Char(c) => {
                        if c == '\n' {
                            search_entered(s)
                        } else {
                            (SearchView { pattern: s.pattern.push(c), ..s }, None, None)
                        }
                    },
                    KeyCode::Esc => {
                        if s.pattern.len() == 0 {
                            (SearchView { last_selected: None, ..s }, Some(AppMode::Logs), None)
                        } else {
                            (
                                SearchView { last_selected: None, pattern: Seq::empty(), ..s },
                                Some(AppMode::Search),
                                None,
                            )
                        }
                    },
                    KeyCode::Backspace => {
                        if s.pattern.len() == 0 {
                            (s, Some(AppMode::Logs), None)
                        } else {
                            (SearchView { pattern: s.pattern.drop_last(), ..s }, None, None)
                        }
                    },
                    KeyCode::Up => {
                        let start: usize = match s.last_selected {
                            Some(i) => i,
                            None => s.past.len() as usize,
                        };
                        let index: usize = if start == 0 {
                            0
                        } else {
                            (start - 1) as usize
                        };
                        (
                            SearchView {
                                last_selected: Some(index),
                                pattern: recalled(s, index),
                                ..s
                            },
                            None,
                            None,
                        )
                    },
                    KeyCode::Down => match s.last_selected {
                        None => (s, None, None),
                        Some(i) => {
                            let index: usize = if i == usize::MAX {
                                i
                            } else {
                                (i + 1) as usize
                            };
                            (
                                SearchView {
                                    last_selected: Some(index),
                                    pattern: recalled(s, index),
                                    ..s
                                },
                                None,
                                None,
                            )
                        },
                    },
                    _ => (s, None, None),
                }
            }
        },
        _ => (s, None, None),
    }
}

/// Enter on the search prompt: a pattern that compiles becomes the active one
/// and goes into the history; one that does not shows its error.
pub open spec fn search_entered(s: SearchView) -> (SearchView, Option<AppMode>, Option<AppAction>) {
    match regex_compile_error(s.pattern) {
        Some(m) => (SearchView { active: None, error: m, ..s }, Some(AppMode::Search), None),
        None => (
            SearchView {
                active: Some(s.pattern),
                past: s.past.push(s.pattern),
                pattern: Seq::empty(),
                ..s
            },
            Some(AppMode::Logs),
            None,
        ),
    }
}

/// The history only grows, at its end, and only by a pattern that compiles.
pub proof fn lemma_search_history_grows(s: SearchView, ev: Event)
    ensures
        ({
            let t = search_event(s, ev).0;
            t.past == s.past || (t.past == s.past.push(s.pattern) && regex_compile_error(s.pattern)
                is None && t.active == Some(s.pattern))
        }),
{
}

impl Search {
    /// An empty prompt.
    pub fn new() -> (r: Search)
        ensures
            r@ == empty_search(),
    {
        let r = Search {
            past_patterns: Vec::new(),
            last_selected_pattern: None,
            pattern: Vec::new(),
            active_pattern: None,
            search_error: String::new(),
        };
        assert(r@.past =~= Seq::<Seq<char>>::empty());
        r
    }

    /// Handles a key of the search prompt; other events do nothing. Returns the
    /// mode to switch to.
    pub fn read_event(&mut self, event: Event) -> (r: (Option<AppMode>, Option<AppAction>))
        ensures
            (final(self)@, r.0, r.1) == search_event(old(self)@, event),
    {
        let Event::Key(k) = event else {
            return (None, None);
        };
        if !self.search_error.as_str().is_empty() {
            self.search_error = String::new();
            return (Some(AppMode::Logs), None);
        }
        match k.code {
            KeyCode::Enter => self.enter(),
            KeyCode::Char(c) => {
                if c == '\n' {
                    self.enter()
                } else {
                    self.pattern.push(c);
                    (None, None)
                }
            },
            KeyCode::Esc => {
                self.last_selected_pattern = None;
                if self.pattern.len() == 0 {
                    (Some(AppMode::Logs), None)
                } else {
                    self.pattern.clear();
                    (Some(AppMode::Search), None)
                }
            },
            KeyCode::Backspace => {
                if self.pattern.len() == 0 {
                    (Some(AppMode::Logs), None)
                } else {
                    self.pattern.pop();
                    (None, None)
                }
            },
            KeyCode::Up => {
                let start = match self.last_selected_pattern {
                    Some(i) => i,
                    None => self.past_patterns.len(),
                };
                let index = if start == 0 {
                    0
                } else {
                    start - 1
                };
                self.last_selected_pattern = Some(index);
                self.recall(index);
                (None, None)
            },
            KeyCode::Down => {
                match self.last_selected_pattern {
                    None => (None, None),
                    Some(i) => {
                        let index = if i == usize::MAX {
                            i
                        } else {
                            i + 1
                        };
                        self.last_selected_pattern = Some(index);
                        self.recall(index);
                        (None, None)
                    },
                }
            },
            _ => (None, None),
        }
    }

    fn recall(&mut self, index: usize)
        ensures
            final(self)@ == (SearchView { pattern: recalled(old(self)@, index), ..old(self)@ }),
    {
        if index < self.past_patterns.len() {
            self.pattern = self.past_patterns[index].clone();
        }
    }

    fn enter(&mut self) -> (r: (Option<AppMode>, Option<AppAction>))
        ensures
            (final(self)@, r.0, r.1) == search_entered(old(self)@),
    {
        let source = string_from_chars(self.pattern.as_slice());
        match Pattern::new(source.as_str()) {
            Err(e) => {
                self.active_pattern = None;
                self.search_error = string_from_chars(str_chars(e.message().as_str()).as_slice());
                (Some(AppMode::Search), None)
            },
            Ok(regex) => {
                self.active_pattern = Some(regex);
                self.past_patterns.push(self.pattern.clone());
                self.pattern = Vec::new();
                assert(self@.past =~= old(self)@.past.push(old(self)@.pattern));
                assert(self@.pattern =~= Seq::<char>::empty());
                (Some(AppMode::Logs), None)
            },
        }
    }

    /// The pattern of the last search that compiled, if any.
    pub fn active_search_pattern(&self) -> (r: Option<&Pattern>)
        ensures
            match r {
                Some(p) => self@.active == Some(p@),
                None => self@.active is None,
            },
    {
        match &self.active_pattern {
            Some(p) => Some(p),
            None => None,
        }
    }

    /// Forgets the history, the typed and the active pattern, and the error.
    pub fn clear(&mut self)
        ensures
            final(self)@ == empty_search(),
    {
        self.pattern.clear();
        self.last_selected_pattern = None;
        self.active_pattern = None;
        self.search_error = String::new();
        self.past_patterns.clear();
        assert(self@.past =~= Seq::<Seq<char>>::empty());
    }
}

} // verus!

verus! {

/// What the bar shows for the search prompt in `mode`: the error of the last
/// pattern, nothing outside the search mode, else `/` with the typed pattern.
pub open spec fn search_bar_view(s: SearchView, mode: AppMode) -> BarTextView {
    if s.error.len() > 0 {
        BarTextView::Error(s.error)
    } else if mode != AppMode::Search {
        BarTextView::Empty
    } else {
        BarTextView::Prompt("/"@ + s.pattern, Seq::empty())
    }
}

impl Search {
    /// What the bar shows for the search prompt.
    pub fn command_bar_text(&self, app_mode: &AppMode) -> (b: BarText)
        ensures
            b@ == search_bar_view(self@, *app_mode),
    {
        if !self.search_error.as_str().is_empty() {
            return BarText::Error(self.search_error.clone());
        }
        if *app_mode != AppMode::Search {
            return BarText::Empty;
        }
        let mut text = str_chars("/");
        append_chars(&mut text, &self.pattern);
        let b = BarText::Prompt { text: string_from_chars(text.as_slice()), completions: Vec::new() };
        assert(Seq::<&str>::empty().map_values(|c: &str| c@) =~= Seq::<Seq<char>>::empty());
        b
    }
}

} // verus!

verus! {

/// Up walks the history from its most recent end: from no selection it brings
/// back the last pattern entered, and from a selected entry the one entered
/// just before it.
pub proof fn lemma_up_recalls_most_recent_first(s: SearchView, k: KeyEvent)
    requires
        s.error.len() == 0,
        k.code == KeyCode::Up,
        0 < s.past.len() <= usize::MAX,
    ensures
        s.last_selected is None ==> {
            let t = search_event(s, Event::Key(k)).0;
            t.pattern == s.past.last() && t.last_selected == Some((s.past.len() - 1) as usize)
        },
        forall|i: usize|
            s.last_selected == Some(i) && 0 < i <= s.past.len() ==> {
                let t = #[trigger] search_event(s, Event::Key(k)).0;
                t.pattern == s.past[i - 1] && t.last_selected == Some((i - 1) as usize)
            },
{
}

} // verus!
