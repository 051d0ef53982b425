use rnav::app_state::AppMode;
use rnav::command::{Command, CommandType, Commands};
use rnav::error::Error;
use rnav::input::{Event, KeyCode, KeyEvent, KeyModifiers};
use rnav::mode::command::Command as ModeCommand;
use rnav::mode::command::Commands as ModeCommands;
use rnav::style::BarText;

fn press(code: KeyCode) -> Event {
    Event::key(code)
}

fn type_text(commands: &mut Commands, text: &str) {
    for c in text.chars() {
        let r = commands.read_event(press(KeyCode::Char(c)));
        assert!(r.0.is_none() && r.1.is_none());
    }
}

fn type_mode_text(commands: &mut ModeCommands, text: &str) {
    for c in text.chars() {
        let r = commands.read_event(press(KeyCode::Char(c)));
        assert!(r.0.is_none() && r.1.is_none());
    }
}

fn prompt_of(b: BarText) -> (String, Vec<&'static str>) {
    match b {
        BarText::Prompt { text, completions } => (text, completions),
        other => panic!("expected a prompt, got {:?}", other),
    }
}

#[test]
fn command_type_parses_its_names() {
    assert!(matches!(CommandType::parse("filter-in"), Ok(CommandType::FilterIn)));
    assert!(matches!(CommandType::parse("filter-out"), Ok(CommandType::FilterOut)));
    assert!(matches!(CommandType::parse("highlight"), Ok(CommandType::Highlight)));
    match CommandType::parse("filter") {
        Err(Error::UnknownCommand(name)) => assert_eq!(name, "filter"),
        other => panic!("unexpected {:?}", other),
    }
}

#[test]
fn command_type_name_round_trip() {
    for t in [CommandType::FilterIn, CommandType::FilterOut, CommandType::Highlight] {
        let name: &'static str = t.into();
        assert_eq!(name, t.as_str());
        assert_eq!(name.parse::<CommandType>().unwrap(), t);
    }
    assert_eq!(CommandType::FilterOut.as_str(), "filter-out");
}

#[test]
fn command_type_auto_complete() {
    let (common, names) = CommandType::auto_complete("filter");
    assert_eq!(common.as_deref(), Some("filter-"));
    assert_eq!(names, vec!["filter-in", "filter-out"]);

    let (common, names) = CommandType::auto_complete("h");
    assert_eq!(common.as_deref(), Some("highlight"));
    assert_eq!(names, vec!["highlight"]);

    let (common, names) = CommandType::auto_complete("x");
    assert_eq!(common, None);
    assert!(names.is_empty());

    let (common, names) = CommandType::auto_complete("");
    assert_eq!(common.as_deref(), Some(""));
    assert_eq!(names, vec!["filter-in", "filter-out", "highlight"]);
}

#[test]
fn typed_command_parse() {
    let c = Command::parse("filter-in foo").unwrap();
    assert_eq!(c.cmd_type, CommandType::FilterIn);
    assert_eq!(c.args, "foo");

    let c = "  highlight   a b ".parse::<Command>().unwrap();
    assert_eq!(c.cmd_type, CommandType::Highlight);
    assert_eq!(c.args, "  a b");

    assert!(matches!(Command::parse("filter-out"), Err(Error::NoArgumentsGivenToCommand)));
    match Command::parse("grep x") {
        Err(e) => assert_eq!(e.message(), "Unknown command: \"grep\""),
        Ok(_) => panic!("grep is no command"),
    }
}

#[test]
fn typed_commands_enter_and_escape() {
    let mut commands = Commands::new();
    type_text(&mut commands, "filter-in abc");
    let (text, _) = prompt_of(commands.command_bar_text(AppMode::Command));
    assert_eq!(text, ":filter-in abc");

    let (mode, cmd) = commands.read_event(press(KeyCode::Enter));
    assert_eq!(mode, Some(AppMode::Logs));
    let cmd = cmd.unwrap();
    assert_eq!(cmd.cmd_type, CommandType::FilterIn);
    assert_eq!(cmd.args, "abc");
    let (text, _) = prompt_of(commands.command_bar_text(AppMode::Command));
    assert_eq!(text, ":");

    type_text(&mut commands, "xyz");
    let (mode, cmd) = commands.read_event(press(KeyCode::Esc));
    assert_eq!(mode, Some(AppMode::Logs));
    assert!(cmd.is_none());
    let (text, _) = prompt_of(commands.command_bar_text(AppMode::Command));
    assert_eq!(text, ":");
}

#[test]
fn typed_commands_error_then_leave() {
    let mut commands = Commands::new();
    type_text(&mut commands, "nope x");
    let (mode, cmd) = commands.read_event(press(KeyCode::Enter));
    assert!(mode.is_none() && cmd.is_none());
    match commands.command_bar_text(AppMode::Command) {
        BarText::Error(e) => assert_eq!(e, "Unknown command: \"nope\""),
        other => panic!("expected an error, got {:?}", other),
    }
    let (mode, cmd) = commands.read_event(press(KeyCode::Char('a')));
    assert_eq!(mode, Some(AppMode::Logs));
    assert!(cmd.is_none());
    assert!(matches!(commands.command_bar_text(AppMode::Logs), BarText::Empty));
}

#[test]
fn typed_commands_set_error_shows_it() {
    let mut commands = Commands::new();
    commands.set_command_error("Invalid regex: bad".to_string());
    match commands.command_bar_text(AppMode::Command) {
        BarText::Error(e) => assert_eq!(e, "Invalid regex: bad"),
        other => panic!("expected an error, got {:?}", other),
    }
    commands.exit_command_mode();
    assert!(matches!(commands.command_bar_text(AppMode::Logs), BarText::Empty));
}

#[test]
fn typed_commands_tab_shift_and_control_w() {
    let mut commands = Commands::new();
    type_text(&mut commands, "fil");
    commands.read_event(press(KeyCode::Tab));
    let (text, completions) = prompt_of(commands.command_bar_text(AppMode::Command));
    assert_eq!(text, ":filter-");
    assert_eq!(completions, vec!["filter-in", "filter-out"]);
    assert_eq!(commands.command_bar_completions(), Some(vec!["filter-in", "filter-out"]));

    commands.read_event(Event::Key(KeyEvent::new(KeyCode::Char('o'), KeyModifiers::shift())));
    let (text, _) = prompt_of(commands.command_bar_text(AppMode::Command));
    assert_eq!(text, ":filter-O");

    type_text(&mut commands, " x y");
    commands.read_event(Event::Key(KeyEvent::new(KeyCode::Char('w'), KeyModifiers::control())));
    let (text, _) = prompt_of(commands.command_bar_text(AppMode::Command));
    assert_eq!(text, ":filter-O x");
}

#[test]
fn backspace_takes_back_a_typed_character() {
    let mut commands = ModeCommands::new();
    type_mode_text(&mut commands, "toggle");
    commands.read_event(press(KeyCode::Char('z')));
    commands.read_event(press(KeyCode::Backspace));
    let (text, _) = prompt_of(commands.command_bar_text(&AppMode::Command));
    assert_eq!(text, ":toggle");
}

#[test]
fn escape_leaves_the_command_line() {
    let mut commands = ModeCommands::new();
    type_mode_text(&mut commands, "comment hi");
    let (mode, cmd) = commands.read_event(press(KeyCode::Esc));
    assert_eq!(mode, Some(AppMode::Logs));
    assert!(cmd.is_none());
    let (text, completions) = prompt_of(commands.command_bar_text(&AppMode::Command));
    assert_eq!(text, ":");
    assert!(completions.is_empty());
}

#[test]
fn mode_command_parse() {
    match ModeCommand::parse("filter-in fo+") {
        Ok(ModeCommand::FilterIn(p)) => assert_eq!(p.as_str(), "fo+"),
        other => panic!("unexpected {:?}", other),
    }
    assert!(matches!(ModeCommand::parse("toggle-wrapping"), Ok(ModeCommand::ToggleWrapping)));
    assert!(matches!(ModeCommand::parse("clear-comment"), Ok(ModeCommand::ClearComment)));
    match "comment   spaced words  ".parse::<ModeCommand>() {
        Ok(ModeCommand::Comment(c)) => assert_eq!(c, "spaced words"),
        other => panic!("unexpected {:?}", other),
    }
    assert!(matches!(ModeCommand::parse("comment   "), Err(Error::NoArgumentsGivenToCommand)));
    assert!(matches!(ModeCommand::parse("highlight"), Err(Error::NoArgumentsGivenToCommand)));
    match ModeCommand::parse("filter-out (") {
        Err(Error::BadRegex(e)) => assert!(!e.message().is_empty()),
        other => panic!("unexpected {:?}", other),
    }
    match ModeCommand::parse("frobnicate") {
        Err(Error::UnknownCommand(n)) => assert_eq!(n, "frobnicate"),
        other => panic!("unexpected {:?}", other),
    }
}

#[test]
fn mode_command_names() {
    let c = ModeCommand::parse("highlight x").unwrap();
    let name: &'static str = (&c).into();
    assert_eq!(name, "highlight");
    assert_eq!(c.name(), "highlight");
    assert_eq!(ModeCommand::ClearComment.name(), "clear-comment");
}

#[test]
fn mode_command_auto_complete() {
    let (common, names) = ModeCommand::auto_complete("c");
    assert_eq!(common.as_deref(), Some("c"));
    assert_eq!(names, vec!["comment", "clear-comment"]);

    let (common, names) = ModeCommand::auto_complete("t");
    assert_eq!(common.as_deref(), Some("toggle-wrapping"));
    assert_eq!(names, vec!["toggle-wrapping"]);

    let (common, names) = ModeCommand::auto_complete("q");
    assert_eq!(common, None);
    assert!(names.is_empty());
}

#[test]
fn mode_commands_enter_returns_command() {
    let mut commands = ModeCommands::new();
    type_mode_text(&mut commands, "highlight er+or");
    let (mode, cmd) = commands.read_event(press(KeyCode::Enter));
    assert_eq!(mode, Some(AppMode::Logs));
    match cmd {
        Some(ModeCommand::Highlight(p)) => assert_eq!(p.as_str(), "er+or"),
        other => panic!("unexpected {:?}", other),
    }
}

#[test]
fn mode_commands_tab_completes() {
    let mut commands = ModeCommands::new();
    type_mode_text(&mut commands, "to");
    commands.read_event(press(KeyCode::Tab));
    let (text, completions) = prompt_of(commands.command_bar_text(&AppMode::Command));
    assert_eq!(text, ":toggle-wrapping");
    assert!(completions.is_empty());
}

#[test]
fn mode_commands_bad_command_shows_error() {
    let mut commands = ModeCommands::new();
    type_mode_text(&mut commands, "comment");
    let (mode, cmd) = commands.read_event(press(KeyCode::Enter));
    assert!(mode.is_none() && cmd.is_none());
    match commands.command_bar_text(&AppMode::Command) {
        BarText::Error(e) => assert_eq!(e, "No arguments were passed to the last command"),
        other => panic!("expected an error, got {:?}", other),
    }
}

#[test]
fn error_messages() {
    assert_eq!(
        Error::FailedToInstallColors("Report".to_string()).message(),
        "Failed to install colors: \"Report\""
    );
    assert_eq!(Error::IO("NotFound".to_string()).message(), "IO action failed: \"NotFound\"");
    assert_eq!(Error::UnknownCommand("x".to_string()).message(), "Unknown command: \"x\"");
    assert_eq!(
        Error::NoArgumentsGivenToCommand.message(),
        "No arguments were passed to the last command"
    );
    match rnav::pattern::Pattern::new("[") {
        Err(e) => {
            let m = Error::BadRegex(e).message();
            assert!(m.starts_with("Invalid regex: regex parse error"));
        }
        Ok(_) => panic!("[ does not compile"),
    }
}
