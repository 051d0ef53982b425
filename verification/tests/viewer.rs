use rnav::app_state::{files_are_readable, AppAction, AppMode, AppState, RenderedLine};
use rnav::input::{Event, KeyCode, KeyEvent, KeyModifiers, MouseEventKind};
use rnav::log_file::LogFile;
use rnav::style::{BarText, Color, Style};

fn files() -> Vec<LogFile> {
    vec![
        LogFile {
            name: "logs/a.log".to_string(),
            contents: "2021-08-01T12:00:02Z second\nno time here\n2021-08-01T12:00:00Z first\n"
                .to_string(),
            color: Color::Rgb(1, 1, 1),
        },
        LogFile {
            name: "b.log".to_string(),
            contents: "2021-08-01T12:00:01Z middle".to_string(),
            color: Color::Rgb(2, 2, 2),
        },
    ]
}

fn key(code: KeyCode) -> Event {
    Event::key(code)
}

fn texts(lines: &[RenderedLine]) -> Vec<String> {
    lines
        .iter()
        .map(|l| l.pieces[1..].iter().map(|p| p.content.as_str()).collect::<String>())
        .collect()
}

fn name_columns(lines: &[RenderedLine]) -> Vec<String> {
    lines.iter().map(|l| l.pieces[0].content.clone()).collect()
}

fn type_command(state: &mut AppState, text: &str) {
    assert_eq!(state.read_event(key(KeyCode::Char(':'))), AppAction::NoAction);
    assert_eq!(state.mode(), AppMode::Command);
    for c in text.chars() {
        state.read_event(key(KeyCode::Char(c)));
    }
    state.read_event(key(KeyCode::Enter));
}

#[test]
fn lines_are_merged_in_time_order() {
    let files = files();
    let state = AppState::new(&files);
    assert_eq!(state.mode(), AppMode::Logs);
    assert_eq!(state.filtered_lines_count(), 4);
    let lines = state.lines_iter().unwrap();
    assert_eq!(
        texts(&lines),
        vec![
            "2021-08-01T12:00:00Z first",
            "2021-08-01T12:00:01Z middle",
            "2021-08-01T12:00:02Z second",
            "no time here",
        ]
    );
    assert_eq!(name_columns(&lines), vec!["[", "[", "┌", "└"]);
    assert_eq!(lines[0].pieces[0].style, Style::colors(Color::Rgb(1, 1, 1), Color::Reset));
    assert_eq!(lines[1].pieces[0].style, Style::colors(Color::Rgb(2, 2, 2), Color::Reset));
    assert_eq!(lines[0].pieces[1].style, Style::plain());
    assert_eq!(lines[0].bg, Color::Reset);
}

#[test]
fn title_bar_shows_the_top_line() {
    let files = files();
    let mut state = AppState::new(&files);
    let t = state.top_log_line_title_bar_text().unwrap();
    assert_eq!(t.color, Color::Rgb(1, 1, 1));
    assert_eq!(t.time, "⟩2021-08-01T12:00:00+00:00⟩");
    assert_eq!(t.file_name, "logs⟩a.log");

    state.read_event(key(KeyCode::Down));
    let t = state.top_log_line_title_bar_text().unwrap();
    assert_eq!(t.file_name, "b.log");

    state.read_event(key(KeyCode::Char('j')));
    state.read_event(key(KeyCode::Char('j')));
    let t = state.top_log_line_title_bar_text().unwrap();
    assert_eq!(t.time, "⟩");
    assert_eq!(state.get_line_offset(), 3);
}

#[test]
fn moving_stays_within_the_shown_lines() {
    let files = files();
    let mut state = AppState::new(&files);
    state.read_event(key(KeyCode::Up));
    assert_eq!(state.get_line_offset(), 0);
    for _ in 0..10 {
        state.read_event(key(KeyCode::Down));
    }
    assert_eq!(state.get_line_offset(), 3);
    state.read_event(key(KeyCode::Char('k')));
    assert_eq!(state.get_line_offset(), 2);
    assert_eq!(texts(&state.lines_iter().unwrap()), vec!["2021-08-01T12:00:02Z second", "no time here"]);
}

#[test]
fn quit_keys_end_the_program() {
    let files = files();
    let mut state = AppState::new(&files);
    assert_eq!(state.read_event(key(KeyCode::Char('q'))), AppAction::EndApp);
    assert_eq!(state.read_event(key(KeyCode::Esc)), AppAction::EndApp);
    let ctrl_c = Event::Key(KeyEvent::new(KeyCode::Char('c'), KeyModifiers::control()));
    assert_eq!(state.read_event(ctrl_c), AppAction::EndApp);
    assert_eq!(state.read_event(Event::Resize(80, 24)), AppAction::NoAction);
    assert_eq!(state.read_event(key(KeyCode::Char('x'))), AppAction::NoAction);
}

#[test]
fn marking_twice_unmarks() {
    let files = files();
    let mut state = AppState::new(&files);
    state.read_event(key(KeyCode::Char('m')));
    let lines = state.lines_iter().unwrap();
    assert_eq!(lines[0].bg, Color::White);
    assert_eq!(lines[0].pieces[1].style, Style::colors(Color::Black, Color::White));
    assert_eq!(lines[1].bg, Color::Reset);
    state.read_event(key(KeyCode::Char('m')));
    let lines = state.lines_iter().unwrap();
    assert_eq!(lines[0].bg, Color::Reset);
    assert_eq!(lines[0].pieces[1].style, Style::plain());
}

#[test]
fn highlight_command_colours_matches() {
    let files = files();
    let mut state = AppState::new(&files);
    type_command(&mut state, "highlight first");
    assert_eq!(state.mode(), AppMode::Logs);
    let lines = state.lines_iter().unwrap();
    let pieces: Vec<&str> = lines[0].pieces.iter().map(|p| p.content.as_str()).collect();
    assert_eq!(pieces, vec!["[", "2021-08-01T12:00:00Z ", "first"]);
    // Highlighting only colours: the pieces still read as the line.
    assert_eq!(texts(&lines)[0], "2021-08-01T12:00:00Z first");
    assert_eq!(lines[0].pieces[1].style, Style::plain());
    match lines[0].pieces[2].style.fg {
        Some(Color::Rgb(r, g, b)) => {
            let u = (r as u32) * 65536 + (g as u32) * 256 + b as u32;
            assert!(u >= 255);
        }
        other => panic!("expected a colour, got {:?}", other),
    }
    // A line without a match is one plain piece after its mark.
    assert_eq!(lines[1].pieces.len(), 2);
}

#[test]
fn filter_commands_hide_lines() {
    let files = files();
    let mut state = AppState::new(&files);
    type_command(&mut state, "filter-in second");
    assert_eq!(state.filtered_lines_count(), 1);
    assert_eq!(texts(&state.lines_iter().unwrap()), vec!["2021-08-01T12:00:02Z second"]);
    type_command(&mut state, "filter-out sec");
    assert_eq!(state.filtered_lines_count(), 0);
    assert!(state.lines_iter().unwrap().is_empty());
    assert!(state.top_log_line_title_bar_text().is_none());
    assert_eq!(state.try_read_event(key(KeyCode::Down)), None);
    assert_eq!(state.try_read_event(Event::Resize(1, 1)), Some(AppAction::NoAction));
}

#[test]
fn control_r_removes_filters_and_highlights() {
    let files = files();
    let mut state = AppState::new(&files);
    type_command(&mut state, "filter-out 12:00:0[01]");
    type_command(&mut state, "highlight o");
    assert_eq!(state.filtered_lines_count(), 2);
    let ctrl_r = Event::Key(KeyEvent::new(KeyCode::Char('r'), KeyModifiers::control()));
    state.read_event(ctrl_r);
    assert_eq!(state.filtered_lines_count(), 4);
    let lines = state.lines_iter().unwrap();
    assert!(lines.iter().all(|l| l.pieces.len() == 2));
}

#[test]
fn bad_pattern_is_shown_for_one_key() {
    let files = files();
    let mut state = AppState::new(&files);
    type_command(&mut state, "filter-in (");
    assert_eq!(state.mode(), AppMode::Command);
    match state.command_bar_text() {
        BarText::Error(e) => assert!(e.starts_with("Invalid regex: ")),
        other => panic!("expected an error, got {:?}", other),
    }
    assert!(state.state_bar_text_number_of_lines() >= 1);
    state.read_event(key(KeyCode::Char('x')));
    assert_eq!(state.mode(), AppMode::Logs);
    assert_eq!(state.state_bar_text_number_of_lines(), 0);
    assert_eq!(state.filtered_lines_count(), 4);
}

#[test]
fn unknown_command_is_reported() {
    let files = files();
    let mut state = AppState::new(&files);
    type_command(&mut state, "grep x");
    match state.command_bar_text() {
        BarText::Error(e) => assert_eq!(e, "Unknown command: \"grep\""),
        other => panic!("expected an error, got {:?}", other),
    }
}

#[test]
fn command_mode_bar_size() {
    let files = files();
    let mut state = AppState::new(&files);
    state.read_event(key(KeyCode::Char(':')));
    assert_eq!(state.state_bar_text_number_of_lines(), 1);
    match state.command_bar_text() {
        BarText::Prompt { text, completions } => {
            assert_eq!(text, ":");
            assert!(completions.is_empty());
        }
        other => panic!("expected a prompt, got {:?}", other),
    }
    state.read_event(key(KeyCode::Esc));
    assert_eq!(state.mode(), AppMode::Logs);
}

#[test]
fn tab_opens_the_filters_menu() {
    let files = files();
    let mut state = AppState::new(&files);
    state.read_event(key(KeyCode::Tab));
    assert_eq!(state.mode(), AppMode::FiltersMenu);
    assert_eq!(state.state_bar_text_number_of_lines(), 1);
    state.read_event(key(KeyCode::Tab));
    assert_eq!(state.mode(), AppMode::Logs);
}

#[test]
fn scrolling_sideways() {
    let files = files();
    let mut state = AppState::new(&files);
    state.read_event(key(KeyCode::Right));
    assert_eq!(
        texts(&state.lines_iter().unwrap()),
        vec!["T12:00:00Z first", "T12:00:01Z middle", "T12:00:02Z second", "re"]
    );
    state.read_event(key(KeyCode::Char('l')));
    state.read_event(key(KeyCode::Char('l')));
    assert_eq!(
        texts(&state.lines_iter().unwrap()),
        vec![" first", " middle", " second", ""]
    );
    state.read_event(key(KeyCode::Left));
    state.read_event(key(KeyCode::Char('h')));
    assert_eq!(texts(&state.lines_iter().unwrap())[0], "2021-08-01T12:00:00Z first");
    // Left of the first column the file names show.
    state.read_event(key(KeyCode::Left));
    let lines = state.lines_iter().unwrap();
    assert_eq!(name_columns(&lines), vec!["logs/a.log[", "b.log     [", "logs/a.log┌", "logs/a.log└"]);
    assert_eq!(texts(&lines)[0], "2021-08-01T12:00:00Z first");
    // Right hides them again without scrolling.
    state.read_event(key(KeyCode::Right));
    let lines = state.lines_iter().unwrap();
    assert_eq!(name_columns(&lines), vec!["[", "[", "┌", "└"]);
    assert_eq!(texts(&lines)[0], "2021-08-01T12:00:00Z first");
}

#[test]
fn scrolling_into_a_character_cannot_be_drawn() {
    let files = vec![LogFile {
        name: "u.log".to_string(),
        contents: "2021-08-01T12:00:00Z éééééééééé".to_string(),
        color: Color::Red,
    }];
    let mut state = AppState::new(&files);
    state.read_event(key(KeyCode::Right));
    state.read_event(key(KeyCode::Right));
    assert_eq!(texts(&state.lines_iter().unwrap()), vec![" éééééééééé"]);
    state.read_event(key(KeyCode::Right));
    assert!(state.lines_iter().is_none());
}

#[test]
fn mouse_scrolls_by_one_line() {
    let files = files();
    let mut state = AppState::new(&files);
    state.read_event(Event::Mouse(MouseEventKind::ScrollUp));
    assert_eq!(state.get_line_offset(), 1);
    state.read_event(Event::Mouse(MouseEventKind::ScrollDown));
    assert_eq!(state.get_line_offset(), 0);
}

#[test]
fn mouse_can_scroll_past_the_filtered_lines() {
    let files = files();
    let mut state = AppState::new(&files);
    type_command(&mut state, "filter-in first");
    assert_eq!(state.filtered_lines_count(), 1);
    state.read_event(Event::Mouse(MouseEventKind::ScrollUp));
    assert_eq!(state.get_line_offset(), 1);
    assert!(state.top_log_line_title_bar_text().is_none());
    // The next event puts the top line back among the shown ones.
    state.read_event(Event::Key(KeyEvent::new(KeyCode::Char('x'), KeyModifiers::none())));
    assert_eq!(state.get_line_offset(), 0);
}

#[test]
fn readable_files_are_told_apart() {
    assert!(files_are_readable(&files()));
    let blank = vec![LogFile {
        name: "x".to_string(),
        contents: "2021-08-01T12:00:00Z a\n   \n".to_string(),
        color: Color::Red,
    }];
    assert!(!files_are_readable(&blank));
    let plus_at_end = vec![LogFile {
        name: "x".to_string(),
        contents: "total +1".to_string(),
        color: Color::Red,
    }];
    assert!(!files_are_readable(&plus_at_end));
}

#[test]
fn a_new_viewer_is_well_formed() {
    let files = files();
    let mut state = AppState::new(&files);
    assert!(state.is_well_formed());
    state.read_event(key(KeyCode::Tab));
    state.read_event(key(KeyCode::Char('D')));
    assert!(state.is_well_formed());
}
