//! The first command line of the viewer: three commands that take a pattern,
//! kept as the command type and its raw argument.
use vstd::prelude::*;

use crate::app_state::AppMode;
use crate::error::{Error, ErrorView, Result, error_message};
use crate::input::{Event, KeyCode, KeyEvent, KeyModifiers};
use crate::mode::command::{CommandsView, complete_from, empty_command_line, name_and_arguments};
use crate::style::{BarText, BarTextView, copy_names};
use crate::text::{
    append_chars,
    ascii_upper, before_last_space, char_to_ascii_uppercase, chars_equal, copy_range,
    longest_common_prefix, split_once_white_space, str_chars, string_from_chars, trim_chars,
    with_prefix,
};

verus! {

/// The kind of a command.
#[derive(Debug, Clone, Copy, PartialEq, Eq, Structural)]
pub enum CommandType {
    FilterIn,
    FilterOut,
    Highlight,
}

/// The name of a command type.
pub open spec fn command_type_name(t: CommandType) -> Seq<char> {
    match t {
        CommandType::FilterIn => "filter-in"@,
        CommandType::FilterOut => "filter-out"@,
        CommandType::Highlight => "highlight"@,
    }
}

/// The names of the command types, in declaration order.
pub open spec fn command_type_names() -> Seq<Seq<char>> {
    seq!["filter-in"@, "filter-out"@, "highlight"@]
}

/// The command type named exactly `s`.
pub open spec fn parse_command_type(s: Seq<char>) -> std::result::Result<CommandType, ErrorView> {
    if s == "filter-in"@ {
        Ok(CommandType::FilterIn)
    } else if s == "filter-out"@ {
        Ok(CommandType::FilterOut)
    } else if s == "highlight"@ {
        Ok(CommandType::Highlight)
    } else {
        Err(ErrorView::UnknownCommand(s))
    }
}

impl CommandType {
    /// The command type named exactly `s`.
    pub fn parse(s: &str) -> (r: Result<CommandType>)
        ensures
            match (r, parse_command_type(s@)) {
                (Ok(t), Ok(u)) => t == u,
                (Err(e), Err(f)) => e@ == f,
                _ => false,
            },
    {
        let chars = str_chars(s);
        if chars_equal(&chars, &str_chars("filter-in")) {
            Ok(CommandType::FilterIn)
        } else if chars_equal(&chars, &str_chars("filter-out")) {
            Ok(CommandType::FilterOut)
        } else if chars_equal(&chars, &str_chars("highlight")) {
            Ok(CommandType::Highlight)
        } else {
            Err(Error::UnknownCommand(string_from_chars(chars.as_slice())))
        }
    }

    /// The name of the command type.
    pub fn as_str(&self) -> (s: &'static str)
        ensures
            s@ == command_type_name(*self),
    {
        match self {
            CommandType::FilterIn => "filter-in",
            CommandType::FilterOut => "filter-out",
            CommandType::Highlight => "highlight",
        }
    }

    /// The names of the command types that start with `prefix`, in their order,
    /// and the longest common prefix of those names (`None` when there is none).
    pub fn auto_complete(prefix: &str) -> (r: (Option<String>, Vec<&'static str>))
        ensures
            r.1@.map_values(|s: &str| s@) == with_prefix(command_type_names(), prefix@),
            match r.0 {
                Some(p) => longest_common_prefix(with_prefix(command_type_names(), prefix@))
                    == Some(p@),
                None => longest_common_prefix(with_prefix(command_type_names(), prefix@)) is None,
            },
    {
        let names: Vec<&'static str> = vec![
            CommandType::FilterIn.as_str(),
            CommandType::FilterOut.as_str(),
            CommandType::Highlight.as_str(),
        ];
        assert(names@.map_values(|s: &str| s@) =~= command_type_names());
        complete_from(&names, prefix)
    }
}

/// A command with its raw argument.
#[derive(Debug)]
pub struct Command {
    pub cmd_type: CommandType,
    pub args: String,
}

/// What parsing the command line `s` gives: a known command name and a
/// non-empty argument, kept as it is.
pub open spec fn parse_typed_command(s: Seq<char>) -> std::result::Result<
    (CommandType, Seq<char>),
    ErrorView,
> {
    let (name, args) = name_and_arguments(s);
    match parse_command_type(name) {
        Err(e) => Err(e),
        Ok(t) => if args.len() == 0 {
            Err(ErrorView::NoArgumentsGivenToCommand)
        } else {
            Ok((t, args))
        },
    }
}

/// The outcome of a parse, as plain values.
pub open spec fn typed_parse_view(r: Result<Command>) -> std::result::Result<
    (CommandType, Seq<char>),
    ErrorView,
> {
    match r {
        Ok(c) => Ok((c.cmd_type, c.args@)),
        Err(e) => Err(e@),
    }
}

impl Command {
    /// Parses a command line: a command name, white space, then the argument,
    /// which every command needs.
    pub fn parse(curr_cmd: &str) -> (r: Result<Command>)
        ensures
            typed_parse_view(r) == parse_typed_command(curr_cmd@),
    {
        let chars = str_chars(curr_cmd);
        let t = trim_chars(&chars);
        let parts = split_once_white_space(&t);
        let (name, args) = match parts {
            Some(p) => p,
            None => (t, Vec::new()),
        };
        assert(name@ == name_and_arguments(curr_cmd@).0 && args@ == name_and_arguments(
            curr_cmd@,
        ).1);
        let name_string = string_from_chars(name.as_slice());
        let cmd_type = match CommandType::parse(name_string.as_str()) {
            Ok(t) => t,
            Err(e) => {
                return Err(e);
            },
        };
        if args.len() == 0 {
            return Err(Error::NoArgumentsGivenToCommand);
        }
        Ok(Command { cmd_type, args: string_from_chars(args.as_slice()) })
    }
}

/// The command line.
#[derive(Debug)]
pub struct Commands {
    current_command: Vec<char>,
    command_completions: Vec<&'static str>,
    command_error: String,
}

impl View for Commands {
    type V = CommandsView;

    closed spec fn view(&self) -> CommandsView {
        CommandsView {
            current: self.current_command@,
            completions: self.command_completions@.map_values(|s: &str| s@),
            error: self.command_error@,
        }
    }
}

/// The command line after Tab: the typed text becomes the longest common prefix
/// of the matching names, and the names are shown when there are several.
pub open spec fn typed_tab_completed(s: CommandsView) -> CommandsView {
    let names = with_prefix(command_type_names(), s.current);
    CommandsView {
        current: match longest_common_prefix(names) {
            Some(p) => p,
            None => s.current,
        },
        completions: if names.len() > 1 {
            names
        } else {
            s.completions
        },
        error: s.error,
    }
}

/// What an event does to the command line: the new state, the mode to switch to
/// and the command that was entered. Completions stay until Tab replaces them or
/// the line is left.
pub open spec fn typed_command_line_event(s: CommandsView, ev: Event) -> (
    CommandsView,
    Option<AppMode>,
    Option<(CommandType, Seq<char>)>,
) {
    if s.error.len() > 0 {
        (empty_command_line(), Some(AppMode::Logs), None)
    } else {
        match ev {
            Event::Key(k) => match k.code {
                KeyCode::Char(c) => {
                    if k.modifiers.is_none() {
                        (CommandsView { current: s.current.push(c), ..s }, None, None)
                    } else if k.modifiers.is_shift_only() {
                        (CommandsView { current: s.current.push(ascii_upper(c)), ..s }, None, None)
                    } else if c == 'w' && k.modifiers.is_control_only() {
                        (CommandsView { current: before_last_space(s.current), ..s }, None, None)
                    } else {
                        (s, None, None)
                    }
                },
                KeyCode::Enter => {
                    if k.modifiers.is_none() {
                        match parse_typed_command(s.current) {
                            Ok(cmd) => (empty_command_line(), Some(AppMode::Logs), Some(cmd)),
                            Err(e) => (
                                CommandsView {
                                    current: Seq::empty(),
                                    error: error_message(e),
                                    ..s
                                },
                                None,
                                None,
                            ),
                        }
                    } else {
                        (s, None, None)
                    }
                },
                KeyCode::Backspace => {
                    if k.modifiers.is_none() && s.current.len() > 0 {
                        (CommandsView { current: s.current.drop_last(), ..s }, None, None)
                    } else {
                        (s, None, None)
                    }
                },
                KeyCode::Esc => (empty_command_line(), Some(AppMode::Logs), None),
                KeyCode::Tab => {
                    if k.modifiers.is_none() {
                        (typed_tab_completed(s), None, None)
                    } else {
                        (s, None, None)
                    }
                },
                _ => (s, None, None),
            },
            _ => (s, None, None),
        }
    }
}

/// The text before the last space of `v`, or nothing when it holds no space.
fn delete_last_word(v: &Vec<char>) -> (r: Vec<char>)
    ensures
        r@ == before_last_space(v@),
{
    let mut j: usize = v.len();
    assert(v@.take(j as int) =~= v@);
    while j > 0 && v[j - 1] != ' '
        invariant
            j <= v.len(),
            before_last_space(v@) == before_last_space(v@.take(j as int)),
        decreases j,
    {
        assert(v@.take(j as int).drop_last() =~= v@.take(j - 1));
        j = j - 1;
    }
    if j == 0 {
        assert(v@.take(0) =~= Seq::<char>::empty());
        Vec::new()
    } else {
        assert(v@.take(j as int).drop_last() =~= v@.take(j - 1));
        copy_range(v, 0, j - 1)
    }
}

impl Commands {
    /// An empty command line.
    pub fn new() -> (r: Commands)
        ensures
            r@ == empty_command_line(),
    {
        let r = Commands {
            current_command: Vec::new(),
            command_completions: Vec::new(),
            command_error: String::new(),
        };
        assert(r@.completions =~= Seq::<Seq<char>>::empty());
        r
    }

    /// Clears the typed text, the completions and the error.
    pub fn exit_command_mode(&mut self)
        ensures
            final(self)@ == empty_command_line(),
    {
        self.command_completions.clear();
        self.command_error = String::new();
        self.current_command.clear();
        assert(self@.completions =~= Seq::<Seq<char>>::empty());
    }

    /// Shows `err` on the command line until the next event.
    pub fn set_command_error(&mut self, err: String)
        ensures
            final(self)@ == (CommandsView { error: err@, ..old(self)@ }),
    {
        self.command_error = err;
    }

    /// Handles a key: typing, deleting, completing, entering or leaving. While an
    /// error is shown, any event clears the line and goes back to the logs.
    /// Returns the mode to switch to and the command that was entered.
    pub fn read_event(&mut self, event: Event) -> (r: (Option<AppMode>, Option<Command>))
        ensures
            (final(self)@, r.0, match r.1 {
                Some(c) => Some((c.cmd_type, c.args@)),
                None => None,
            }) == typed_command_line_event(old(self)@, event),
    {
        if !self.command_error.as_str().is_empty() {
            self.exit_command_mode();
            return (Some(AppMode::Logs), None);
        }
        match event {
            Event::Key(k) => {
                match k.code {
                    KeyCode::Char(c) => {
                        if k.modifiers == KeyModifiers::none() {
                            self.current_command.push(c);
                        } else if k.modifiers == KeyModifiers::shift() {
                            self.current_command.push(char_to_ascii_uppercase(c));
                        } else if c == 'w' && k.modifiers == KeyModifiers::control() {
                            self.current_command = delete_last_word(&self.current_command);
                        }
                    },
                    KeyCode::Enter => {
                        if k.modifiers == KeyModifiers::none() {
                            let curr_cmd = string_from_chars(self.current_command.as_slice());
                            self.current_command = Vec::new();
                            match Command::parse(curr_cmd.as_str()) {
                                Ok(cmd) => {
                                    self.exit_command_mode();
                                    return (Some(AppMode::Logs), Some(cmd));
                                },
                                Err(err) => {
                                    self.command_error = err.message();
                                    return (None, None);
                                },
                            }
                        }
                    },
                    KeyCode::Backspace => {
                        if k.modifiers == KeyModifiers::none() {
                            self.current_command.pop();
                        }
                    },
                    KeyCode::Esc => {
                        self.exit_command_mode();
                        return (Some(AppMode::Logs), None);
                    },
                    KeyCode::Tab => {
                        if k.modifiers == KeyModifiers::none() {
                            let typed = string_from_chars(self.current_command.as_slice());
                            let (longest_common_prefix, completions) = CommandType::auto_complete(
                                typed.as_str(),
                            );
                            if let Some(p) = longest_common_prefix {
                                self.current_command = str_chars(p.as_str());
                            }
                            if completions.len() > 1 {
                                self.command_completions = completions;
                            }
                        }
                    },
                    _ => {},
                }
            },
            _ => {},
        }
        (None, None)
    }
}

} // verus!

verus! {

/// What the bar shows for the command line in `mode`: the error of the last
/// command, nothing outside the command mode, else `:` with the typed text and
/// the completions.
pub open spec fn command_bar_view(s: CommandsView, mode: AppMode) -> BarTextView {
    if s.error.len() > 0 {
        BarTextView::Error(s.error)
    } else if mode != AppMode::Command {
        BarTextView::Empty
    } else {
        BarTextView::Prompt(":"@ + s.current, s.completions)
    }
}

impl Commands {
    /// The completions on show, `None` when there are none.
    pub fn command_bar_completions(&self) -> (r: Option<Vec<&'static str>>)
        ensures
            match r {
                None => self@.completions.len() == 0,
                Some(c) => self@.completions.len() > 0 && c@.map_values(|s: &str| s@)
                    == self@.completions,
            },
    {
        if self.command_completions.len() == 0 {
            return None;
        }
        Some(copy_names(&self.command_completions))
    }

    /// What the bar shows for the command line.
    pub fn command_bar_text(&self, app_mode: AppMode) -> (b: BarText)
        ensures
            b@ == command_bar_view(self@, app_mode),
    {
        if !self.command_error.as_str().is_empty() {
            return BarText::Error(self.command_error.clone());
        }
        if app_mode != AppMode::Command {
            return BarText::Empty;
        }
        let mut text = str_chars(":");
        append_chars(&mut text, &self.current_command);
        BarText::Prompt {
            text: string_from_chars(text.as_slice()),
            completions: copy_names(&self.command_completions),
        }
    }
}

} // verus!

verus! {

impl std::str::FromStr for CommandType {
    type Err = Error;

    fn from_str(s: &str) -> (r: std::result::Result<CommandType, Error>)
        ensures
            match (r, parse_command_type(s@)) {
                (Ok(t), Ok(u)) => t == u,
                (Err(e), Err(f)) => e@ == f,
                _ => false,
            },
    {
        CommandType::parse(s)
    }
}

impl From<CommandType> for &'static str {
    fn from(command: CommandType) -> (s: &'static str) {
        match command {
            CommandType::FilterIn => "filter-in",
            CommandType::FilterOut => "filter-out",
            CommandType::Highlight => "highlight",
        }
    }
}

impl vstd::std_specs::convert::FromSpecImpl<CommandType> for &'static str {
    open spec fn obeys_from_spec() -> bool {
        true
    }

    open spec fn from_spec(v: CommandType) -> &'static str {
        match v {
            CommandType::FilterIn => "filter-in",
            CommandType::FilterOut => "filter-out",
            CommandType::Highlight => "highlight",
        }
    }
}

impl std::str::FromStr for Command {
    type Err = Error;

    fn from_str(curr_cmd: &str) -> (r: std::result::Result<Command, Error>)
        ensures
            typed_parse_view(r) == parse_typed_command(curr_cmd@),
    {
        Command::parse(curr_cmd)
    }
}

} // verus!

verus! {

/// A command type is read back from its name.
pub proof fn lemma_command_type_name_parses_back(t: CommandType)
    ensures
        parse_command_type(command_type_name(t)) == Ok::<CommandType, ErrorView>(t),
{
    reveal_strlit("filter-in");
    reveal_strlit("filter-out");
    reveal_strlit("highlight");
    assert("filter-out"@.len() != "filter-in"@.len());
    assert("highlight"@[0] != "filter-in"@[0]);
    assert("highlight"@.len() != "filter-out"@.len());
}

/// What `CommandType::auto_complete` offers for a typed prefix: names that
/// start with it, and a common part that starts with it and begins every name
/// offered; no common part exactly when no name is offered.
pub proof fn lemma_type_completions_start_with_prefix(prefix: Seq<char>)
    ensures
        forall|i: int|
            0 <= i < with_prefix(command_type_names(), prefix).len() ==> prefix.is_prefix_of(
                #[trigger] with_prefix(command_type_names(), prefix)[i],
            ),
        match longest_common_prefix(with_prefix(command_type_names(), prefix)) {
            None => with_prefix(command_type_names(), prefix).len() == 0,
            Some(p) => prefix.is_prefix_of(p) && forall|i: int|
                0 <= i < with_prefix(command_type_names(), prefix).len() ==> p.is_prefix_of(
                    #[trigger] with_prefix(command_type_names(), prefix)[i],
                ),
        },
{
    crate::text::lemma_with_prefix(command_type_names(), prefix);
    crate::text::lemma_longest_common_prefix(with_prefix(command_type_names(), prefix), prefix);
}

} // verus!

verus! {

/// A parsed command has the type its first word names and keeps the rest of
/// the line as its argument.
pub proof fn lemma_parsed_command_keeps_name_and_argument(s: Seq<char>)
    ensures
        parse_typed_command(s) matches Ok(c) ==> command_type_name(c.0) == name_and_arguments(s).0
            && c.1 == name_and_arguments(s).1 && c.1.len() > 0,
{
}

} // verus!

verus! {

/// Backspace removes exactly the last typed character: the text left is the
/// typed text but one character shorter, so typing a character and then
/// Backspace gives back what was typed before.
pub proof fn lemma_typed_backspace_removes_last_char(s: CommandsView, typed: KeyEvent, back: KeyEvent)
    requires
        s.error.len() == 0,
        back.code == KeyCode::Backspace,
        back.modifiers.is_none(),
    ensures
        s.current.len() > 0 ==> {
            let t = typed_command_line_event(s, Event::Key(back)).0;
            t.current.len() + 1 == s.current.len() && t.current.is_prefix_of(s.current)
                && t.completions == s.completions && t.error == s.error
        },
        typed.code is Char && typed.modifiers.is_none() ==> typed_command_line_event(
            typed_command_line_event(s, Event::Key(typed)).0,
            Event::Key(back),
        ).0 == s,
{
    if typed.code is Char && typed.modifiers.is_none() {
        let t = typed_command_line_event(s, Event::Key(typed)).0;
        assert(t.current.drop_last() =~= s.current);
    }
}

} // verus!
