//! The command line of the viewer (entered with `:`): editing, completion and
//! parsing of the commands.
use vstd::prelude::*;

use crate::app_state::AppMode;
use crate::error::{Error, ErrorView, Result, error_message};
use crate::input::{Event, KeyCode, KeyEvent, KeyModifiers};
use crate::pattern::{Pattern, regex_compile_error};
use crate::style::{BarText, BarTextView, copy_names};
use crate::text::{
    append_chars, lemma_longest_common_prefix, lemma_with_prefix,
    ascii_upper, before_last_space, char_to_ascii_uppercase, chars_equal, chars_start_with, copy_range,
    longest_common_prefix, longest_common_prefix_of, split_at_first_white_space,
    split_once_white_space, str_chars, string_from_chars, trim, trim_chars, with_prefix,
};

verus! {

/// A parsed command.
#[derive(Debug)]
pub enum Command {
    FilterIn(Pattern),
    FilterOut(Pattern),
    Highlight(Pattern),
    ToggleWrapping,
    Comment(String),
    ClearComment,
}

/// A parsed command, the patterns and comments taken as plain text.
pub enum CommandView {
    FilterIn(Seq<char>),
    FilterOut(Seq<char>),
    Highlight(Seq<char>),
    ToggleWrapping,
    Comment(Seq<char>),
    ClearComment,
}

impl View for Command {
    type V = CommandView;

    open spec fn view(&self) -> CommandView {
        match self {
            Command::FilterIn(r) => CommandView::FilterIn(r@),
            Command::FilterOut(r) => CommandView::FilterOut(r@),
            Command::Highlight(r) => CommandView::Highlight(r@),
            Command::ToggleWrapping => CommandView::ToggleWrapping,
            Command::Comment(c) => CommandView::Comment(c@),
            Command::ClearComment => CommandView::ClearComment,
        }
    }
}

/// The outcome of a parse, as plain values.
pub open spec fn parse_view(r: Result<Command>) -> std::result::Result<CommandView, ErrorView> {
    match r {
        Ok(c) => Ok(c@),
        Err(e) => Err(e@),
    }
}

/// The name of a command.
pub open spec fn command_name(c: CommandView) -> Seq<char> {
    match c {
        CommandView::FilterIn(_) => "filter-in"@,
        CommandView::FilterOut(_) => "filter-out"@,
        CommandView::Highlight(_) => "highlight"@,
        CommandView::ToggleWrapping => "toggle-wrapping"@,
        CommandView::Comment(_) => "comment"@,
        CommandView::ClearComment => "clear-comment"@,
    }
}

/// The names of the commands, in the order completion lists them.
pub open spec fn command_names() -> Seq<Seq<char>> {
    seq![
        "filter-in"@,
        "filter-out"@,
        "highlight"@,
        "toggle-wrapping"@,
        "comment"@,
        "clear-comment"@,
    ]
}

/// The pattern argument of a regex command: there must be one, and it must
/// compile.
pub open spec fn pattern_argument(args: Seq<char>) -> std::result::Result<Seq<char>, ErrorView> {
    if args.len() == 0 {
        Err(ErrorView::NoArgumentsGivenToCommand)
    } else {
        match regex_compile_error(args) {
            None => Ok(args),
            Some(m) => Err(ErrorView::BadRegex(m)),
        }
    }
}

/// The name of a command line and the rest of it: the line is trimmed and cut at
/// its first white space; the rest is kept as it is.
pub open spec fn name_and_arguments(s: Seq<char>) -> (Seq<char>, Seq<char>) {
    match split_at_first_white_space(trim(s)) {
        Some(parts) => parts,
        None => (trim(s), Seq::empty()),
    }
}

/// What parsing the command line `s` gives.
pub open spec fn parse_command(s: Seq<char>) -> std::result::Result<CommandView, ErrorView> {
    let (name, args) = name_and_arguments(s);
    if name == "toggle-wrapping"@ {
        Ok(CommandView::ToggleWrapping)
    } else if name == "filter-in"@ {
        match pattern_argument(args) {
            Ok(p) => Ok(CommandView::FilterIn(p)),
            Err(e) => Err(e),
        }
    } else if name == "filter-out"@ {
        match pattern_argument(args) {
            Ok(p) => Ok(CommandView::FilterOut(p)),
            Err(e) => Err(e),
        }
    } else if name == "highlight"@ {
        match pattern_argument(args) {
            Ok(p) => Ok(CommandView::Highlight(p)),
            Err(e) => Err(e),
        }
    } else if name == "comment"@ {
        if trim(args).len() == 0 {
            Err(ErrorView::NoArgumentsGivenToCommand)
        } else {
            Ok(CommandView::Comment(trim(args)))
        }
    } else if name == "clear-comment"@ {
        Ok(CommandView::ClearComment)
    } else {
        Err(ErrorView::UnknownCommand(name))
    }
}

fn pattern_from_argument(args: &Vec<char>) -> (r: Result<Pattern>)
    ensures
        match (r, pattern_argument(args@)) {
            (Ok(p), Ok(q)) => p@ == q,
            (Err(e), Err(f)) => e@ == f,
            _ => false,
        },
{
    if args.len() == 0 {
        return Err(Error::NoArgumentsGivenToCommand);
    }
    let source = string_from_chars(args.as_slice());
    match Pattern::new(source.as_str()) {
        Ok(p) => Ok(p),
        Err(e) => Err(Error::BadRegex(e)),
    }
}

impl Command {
    /// Parses a command line: a command name, white space, then its argument.
    /// The regex commands need a pattern that compiles; `comment` needs some
    /// text, which is trimmed.
    pub fn parse(s: &str) -> (r: Result<Command>)
        ensures
            parse_view(r) == parse_command(s@),
    {
        let chars = str_chars(s);
        let t = trim_chars(&chars);
        let parts = split_once_white_space(&t);
        let (name, args) = match parts {
            Some(p) => p,
            None => (t, Vec::new()),
        };
        assert(name@ == name_and_arguments(s@).0 && args@ == name_and_arguments(s@).1);
        if chars_equal(&name, &str_chars("toggle-wrapping")) {
            Ok(Command::ToggleWrapping)
        } else if chars_equal(&name, &str_chars("filter-in")) {
            match pattern_from_argument(&args) {
                Ok(p) => Ok(Command::FilterIn(p)),
                Err(e) => Err(e),
            }
        } else if chars_equal(&name, &str_chars("filter-out")) {
            match pattern_from_argument(&args) {
                Ok(p) => Ok(Command::FilterOut(p)),
                Err(e) => Err(e),
            }
        } else if chars_equal(&name, &str_chars("highlight")) {
            match pattern_from_argument(&args) {
                Ok(p) => Ok(Command::Highlight(p)),
                Err(e) => Err(e),
            }
        } else if chars_equal(&name, &str_chars("comment")) {
            let comment = trim_chars(&args);
            if comment.len() == 0 {
                Err(Error::NoArgumentsGivenToCommand)
            } else {
                Ok(Command::Comment(string_from_chars(comment.as_slice())))
            }
        } else if chars_equal(&name, &str_chars("clear-comment")) {
            Ok(Command::ClearComment)
        } else {
            Err(Error::UnknownCommand(string_from_chars(name.as_slice())))
        }
    }

    /// The name of the command.
    pub fn name(&self) -> (s: &'static str)
        ensures
            s@ == command_name(self@),
    {
        match self {
            Command::FilterIn(_) => "filter-in",
            Command::FilterOut(_) => "filter-out",
            Command::Highlight(_) => "highlight",
            Command::ToggleWrapping => "toggle-wrapping",
            Command::Comment(_) => "comment",
            Command::ClearComment => "clear-comment",
        }
    }

    /// The command names that start with `prefix`, in their order, and the
    /// longest common prefix of those names (`None` when there is none).
    pub fn auto_complete(prefix: &str) -> (r: (Option<String>, Vec<&'static str>))
        ensures
            r.1@.map_values(|s: &str| s@) == with_prefix(command_names(), prefix@),
            match r.0 {
                Some(p) => longest_common_prefix(with_prefix(command_names(), prefix@)) == Some(p@),
                None => longest_common_prefix(with_prefix(command_names(), prefix@)) is None,
            },
    {
        let names: Vec<&'static str> = vec![
            "filter-in",
            "filter-out",
            "highlight",
            "toggle-wrapping",
            "comment",
            "clear-comment",
        ];
        assert(names@.map_values(|s: &str| s@) =~= command_names());
        complete_from(&names, prefix)
    }
}

/// The names of `names` that start with `prefix` and their longest common prefix.
pub(crate) fn complete_from(names: &Vec<&'static str>, prefix: &str) -> (r: (
    Option<String>,
    Vec<&'static str>,
))
    ensures
        r.1@.map_values(|s: &str| s@) == with_prefix(names@.map_values(|s: &str| s@), prefix@),
        match r.0 {
            Some(p) => longest_common_prefix(with_prefix(names@.map_values(|s: &str| s@), prefix@))
                == Some(p@),
            None => longest_common_prefix(
                with_prefix(names@.map_values(|s: &str| s@), prefix@),
            ) is None,
        },
{
    let ghost all = names@.map_values(|s: &str| s@);
    let p = str_chars(prefix);
    let mut completions: Vec<&'static str> = Vec::new();
    let mut completion_chars: Vec<Vec<char>> = Vec::new();
    let mut i: usize = 0;
    while i < names.len()
        invariant
            i <= names.len(),
            all == names@.map_values(|s: &str| s@),
            p@ == prefix@,
            completions@.map_values(|s: &str| s@) == with_prefix(all.take(i as int), prefix@),
            completion_chars@.map_values(|v: Vec<char>| v@) == with_prefix(
                all.take(i as int),
                prefix@,
            ),
        decreases names.len() - i,
    {
        let name = names[i];
        let c = str_chars(name);
        assert(all.take(i + 1).drop_last() =~= all.take(i as int));
        assert(all.take(i + 1).last() == name@);
        if chars_start_with(&c, &p) {
            completions.push(name);
            completion_chars.push(c);
        }
        assert(completions@.map_values(|s: &str| s@) =~= with_prefix(all.take(i + 1), prefix@));
        assert(completion_chars@.map_values(|v: Vec<char>| v@) =~= with_prefix(
            all.take(i + 1),
            prefix@,
        ));
        i = i + 1;
    }
    assert(all.take(names.len() as int) =~= all);
    let lcp = longest_common_prefix_of(&completion_chars);
    let lcp_string = match lcp {
        Some(v) => Some(string_from_chars(v.as_slice())),
        None => None,
    };
    (lcp_string, completions)
}

/// The command line: what is typed so far, the completions on show and the
/// error of the last command, if any.
#[derive(Debug)]
pub struct Commands {
    current_command: Vec<char>,
    command_completions: Vec<&'static str>,
    command_error: String,
}

/// What a [`Commands`] holds, as plain values.
pub struct CommandsView {
    pub current: Seq<char>,
    pub completions: Seq<Seq<char>>,
    pub error: Seq<char>,
}

impl View for Commands {
    type V = CommandsView;

    closed spec fn view(&self) -> CommandsView {
        CommandsView {
            current: self.current_command@,
            completions: self.command_completions@.map_values(|s: &str| s@),
            error: self.command_error@,
        }
    }
}

/// A command line with nothing typed, no completions and no error.
pub open spec fn empty_command_line() -> CommandsView {
    CommandsView { current: Seq::empty(), completions: Seq::empty(), error: Seq::empty() }
}

/// The command line after Tab: the typed text becomes the longest common prefix
/// of the matching command names, and the names are shown when there are
/// several.
pub open spec fn tab_completed(s: CommandsView) -> CommandsView {
    let names = with_prefix(command_names(), s.current);
    CommandsView {
        current: match longest_common_prefix(names) {
            Some(p) => p,
            None => s.current,
        },
        completions: if names.len() > 1 {
            names
        } else {
            s.completions
        },
        error: s.error,
    }
}

/// What an event does to the command line: the new state, the mode to switch
/// to and the command that was entered.
pub open spec fn command_line_event(s: CommandsView, ev: Event) -> (
    CommandsView,
    Option<AppMode>,
    Option<CommandView>,
) {
    if s.error.len() > 0 {
        (empty_command_line(), Some(AppMode::Logs), None)
    } else {
        let s = CommandsView { completions: Seq::empty(), ..s };
        match ev {
            Event::Key(k) => match k.code {
                KeyCode::Char(c) => {
                    if k.modifiers.is_none() {
                        (CommandsView { current: s.current.push(c), ..s }, None, None)
                    } else if k.modifiers.is_shift_only() {
                        (CommandsView { current: s.current.push(ascii_upper(c)), ..s }, None, None)
                    } else if c == 'w' && k.modifiers.is_control_only() {
                        (CommandsView { current: before_last_space(s.current), ..s }, None, None)
                    } else {
                        (s, None, None)
                    }
                },
                KeyCode::Enter => {
                    if k.modifiers.is_none() {
                        match parse_command(s.current) {
                            Ok(cmd) => (empty_command_line(), Some(AppMode::Logs), Some(cmd)),
                            Err(e) => (
                                CommandsView {
                                    current: Seq::empty(),
                                    completions: Seq::empty(),
                                    error: error_message(e),
                                },
                                None,
                                None,
                            ),
                        }
                    } else {
                        (s, None, None)
                    }
                },
                KeyCode::Backspace => {
                    if k.modifiers.is_none() && s.current.len() > 0 {
                        (CommandsView { current: s.current.drop_last(), ..s }, None, None)
                    } else {
                        (s, None, None)
                    }
                },
                KeyCode::Esc => (empty_command_line(), Some(AppMode::Logs), None),
                KeyCode::Tab => {
                    if k.modifiers.is_none() {
                        (tab_completed(s), None, None)
                    } else {
                        (s, None, None)
                    }
                },
                _ => (s, None, None),
            },
            _ => (s, None, None),
        }
    }
}

/// The text before the last space of `v`, or nothing when it holds no space.
fn delete_last_word(v: &Vec<char>) -> (r: Vec<char>)
    ensures
        r@ == before_last_space(v@),
{
    let mut j: usize = v.len();
    assert(v@.take(j as int) =~= v@);
    while j > 0 && v[j - 1] != ' '
        invariant
            j <= v.len(),
            before_last_space(v@) == before_last_space(v@.take(j as int)),
        decreases j,
    {
        assert(v@.take(j as int).drop_last() =~= v@.take(j - 1));
        j = j - 1;
    }
    if j == 0 {
        assert(v@.take(0) =~= Seq::<char>::empty());
        Vec::new()
    } else {
        assert(v@.take(j as int).drop_last() =~= v@.take(j - 1));
        copy_range(v, 0, j - 1)
    }
}

impl Commands {
    /// An empty command line.
    pub fn new() -> (r: Commands)
        ensures
            r@ == empty_command_line(),
    {
        let r = Commands {
            current_command: Vec::new(),
            command_completions: Vec::new(),
            command_error: String::new(),
        };
        assert(r@.completions =~= Seq::<Seq<char>>::empty());
        r
    }

    /// Clears the typed text, the completions and the error.
    pub fn exit_command_mode(&mut self)
        ensures
            final(self)@ == empty_command_line(),
    {
        self.command_completions.clear();
        self.command_error = String::new();
        self.current_command.clear();
        assert(self@.completions =~= Seq::<Seq<char>>::empty());
    }

    /// Handles a key: typing, deleting, completing, entering or leaving. While an
    /// error is shown, any event clears the line and goes back to the logs.
    /// Returns the mode to switch to and the command that was entered.
    pub fn read_event(&mut self, event: Event) -> (r: (Option<AppMode>, Option<Command>))
        ensures
            (final(self)@, r.0, match r.1 {
                Some(c) => Some(c@),
                None => None,
            }) == command_line_event(old(self)@, event),
    {
        if !self.command_error.as_str().is_empty() {
            self.exit_command_mode();
            return (Some(AppMode::Logs), None);
        }
        self.command_completions.clear();
        assert(self@.completions =~= Seq::<Seq<char>>::empty());
        match event {
            Event::Key(k) => {
                match k.code {
                    KeyCode::Char(c) => {
                        if k.modifiers == KeyModifiers::none() {
                            self.current_command.push(c);
                        } else if k.modifiers == KeyModifiers::shift() {
                            self.current_command.push(char_to_ascii_uppercase(c));
                        } else if c == 'w' && k.modifiers == KeyModifiers::control() {
                            self.current_command = delete_last_word(&self.current_command);
                        }
                    },
                    KeyCode::Enter => {
                        if k.modifiers == KeyModifiers::none() {
                            let curr_cmd = string_from_chars(self.current_command.as_slice());
                            self.current_command = Vec::new();
                            match Command::parse(curr_cmd.as_str()) {
                                Ok(cmd) => {
                                    self.exit_command_mode();
                                    return (Some(AppMode::Logs), Some(cmd));
                                },
                                Err(err) => {
                                    self.command_error = err.message();
                                    return (None, None);
                                },
                            }
                        }
                    },
                    KeyCode::Backspace => {
                        if k.modifiers == KeyModifiers::none() {
                            self.current_command.pop();
                        }
                    },
                    KeyCode::Esc => {
                        self.exit_command_mode();
                        return (Some(AppMode::Logs), None);
                    },
                    KeyCode::Tab => {
                        if k.modifiers == KeyModifiers::none() {
                            let typed = string_from_chars(self.current_command.as_slice());
                            let (longest_common_prefix, completions) = Command::auto_complete(
                                typed.as_str(),
                            );
                            if let Some(p) = longest_common_prefix {
                                self.current_command = str_chars(p.as_str());
                            }
                            if completions.len() > 1 {
                                self.command_completions = completions;
                            }
                        }
                    },
                    _ => {},
                }
            },
            _ => {},
        }
        (None, None)
    }
}

} // verus!

verus! {

/// What the bar shows for the command line in `mode`: the error of the last
/// command, nothing outside the command mode, else `:` with the typed text and
/// the completions.
pub open spec fn command_bar_view(s: CommandsView, mode: AppMode) -> BarTextView {
    if s.error.len() > 0 {
        BarTextView::Error(s.error)
    } else if mode != AppMode::Command {
        BarTextView::Empty
    } else {
        BarTextView::Prompt(":"@ + s.current, s.completions)
    }
}

impl Commands {
    /// The completions on show, `None` when there are none.
    pub fn command_bar_completions(&self) -> (r: Option<Vec<&'static str>>)
        ensures
            match r {
                None => self@.completions.len() == 0,
                Some(c) => self@.completions.len() > 0 && c@.map_values(|s: &str| s@)
                    == self@.completions,
            },
    {
        if self.command_completions.len() == 0 {
            return None;
        }
        Some(copy_names(&self.command_completions))
    }

    /// What the bar shows for the command line.
    pub fn command_bar_text(&self, app_mode: &AppMode) -> (b: BarText)
        ensures
            b@ == command_bar_view(self@, *app_mode),
    {
        if !self.command_error.as_str().is_empty() {
            return BarText::Error(self.command_error.clone());
        }
        if *app_mode != AppMode::Command {
            return BarText::Empty;
        }
        let mut text = str_chars(":");
        append_chars(&mut text, &self.current_command);
        BarText::Prompt {
            text: string_from_chars(text.as_slice()),
            completions: copy_names(&self.command_completions),
        }
    }
}

} // verus!

verus! {

impl std::str::FromStr for Command {
    type Err = Error;

    fn from_str(s: &str) -> (r: std::result::Result<Command, Error>)
        ensures
            parse_view(r) == parse_command(s@),
    {
        Command::parse(s)
    }
}

impl<'a> From<&'a Command> for &'static str {
    fn from(command: &'a Command) -> (s: &'static str) {
        match command {
            Command::FilterIn(_) => "filter-in",
            Command::FilterOut(_) => "filter-out",
            Command::Highlight(_) => "highlight",
            Command::ToggleWrapping => "toggle-wrapping",
            Command::Comment(_) => "comment",
            Command::ClearComment => "clear-comment",
        }
    }
}

impl<'a> vstd::std_specs::convert::FromSpecImpl<&'a Command> for &'static str {
    open spec fn obeys_from_spec() -> bool {
        true
    }

    open spec fn from_spec(v: &'a Command) -> &'static str {
        match v {
            Command::FilterIn(_) => "filter-in",
            Command::FilterOut(_) => "filter-out",
            Command::Highlight(_) => "highlight",
            Command::ToggleWrapping => "toggle-wrapping",
            Command::Comment(_) => "comment",
            Command::ClearComment => "clear-comment",
        }
    }
}

} // verus!

verus! {

/// What `auto_complete` offers for a typed prefix: command names that start
/// with it, and a common part that starts with it and begins every name
/// offered; no common part exactly when no name is offered.
pub proof fn lemma_completions_start_with_prefix(prefix: Seq<char>)
    ensures
        forall|i: int|
            0 <= i < with_prefix(command_names(), prefix).len() ==> prefix.is_prefix_of(
                #[trigger] with_prefix(command_names(), prefix)[i],
            ),
        match longest_common_prefix(with_prefix(command_names(), prefix)) {
            None => with_prefix(command_names(), prefix).len() == 0,
            Some(p) => prefix.is_prefix_of(p) && forall|i: int|
                0 <= i < with_prefix(command_names(), prefix).len() ==> p.is_prefix_of(
                    #[trigger] with_prefix(command_names(), prefix)[i],
                ),
        },
{
    lemma_with_prefix(command_names(), prefix);
    lemma_longest_common_prefix(with_prefix(command_names(), prefix), prefix);
}

/// Esc leaves the command line, emptied, for the logs, whatever it held.
pub proof fn lemma_escape_leaves_command_line(s: CommandsView, k: KeyEvent)
    requires
        k.code == KeyCode::Esc,
    ensures
        command_line_event(s, Event::Key(k)) == (empty_command_line(), Some(AppMode::Logs), None::<
            CommandView,
        >),
{
}

/// Backspace takes back a typed character: the line is as it was, without the
/// completions on show.
pub proof fn lemma_backspace_undoes_typing(s: CommandsView, typed: KeyEvent, back: KeyEvent)
    requires
        s.error.len() == 0,
        typed.code is Char,
        typed.modifiers.is_none(),
        back.code == KeyCode::Backspace,
        back.modifiers.is_none(),
    ensures
        command_line_event(command_line_event(s, Event::Key(typed)).0, Event::Key(back)).0 == (
        CommandsView { completions: Seq::empty(), ..s }),
{
    let t = command_line_event(s, Event::Key(typed)).0;
    assert(t.current.drop_last() =~= s.current);
}

/// Tab only ever extends what was typed.
pub proof fn lemma_tab_extends_typed_text(s: CommandsView, k: KeyEvent)
    requires
        s.error.len() == 0,
        k.code == KeyCode::Tab,
        k.modifiers.is_none(),
    ensures
        s.current.is_prefix_of(command_line_event(s, Event::Key(k)).0.current),
{
    lemma_completions_start_with_prefix(s.current);
}

} // verus!

verus! {

/// A parsed command bears the name it was typed with, and that name is one of
/// the names completion offers.
pub proof fn lemma_parsed_command_has_typed_name(s: Seq<char>)
    ensures
        parse_command(s) matches Ok(c) ==> command_name(c) == name_and_arguments(s).0
            && command_names().contains(command_name(c)),
{
    if let Ok(c) = parse_command(s) {
        assert(command_names()[0] == "filter-in"@);
        assert(command_names()[1] == "filter-out"@);
        assert(command_names()[2] == "highlight"@);
        assert(command_names()[3] == "toggle-wrapping"@);
        assert(command_names()[4] == "comment"@);
        assert(command_names()[5] == "clear-comment"@);
    }
}

} // verus!
