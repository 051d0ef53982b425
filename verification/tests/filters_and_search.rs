use rnav::app_state::AppMode;
use rnav::filter::{Filter as PlainFilter, FilterKind as PlainKind};
use rnav::input::{Event, KeyCode, MouseEventKind};
use rnav::mode::filter::{Filter, FilterKind, Filters};
use rnav::mode::search::Search;
use rnav::pattern::Pattern;
use rnav::style::{BarText, Color};

fn key(code: KeyCode) -> Event {
    Event::key(code)
}

#[test]
fn single_filters() {
    let f = Filter::new(FilterKind::In, Pattern::new("ab+").unwrap());
    assert!(f.keep_line("xabbby"));
    assert!(!f.keep_line("xa"));
    assert!(f.is_enabled());
    assert_eq!(f.filter_kind(), FilterKind::In);
    assert_eq!(f.regex(), "ab+");
    let out = Filter::new(FilterKind::Out, Pattern::new("ab+").unwrap());
    assert!(!out.keep_line("ab"));
    assert!(out.keep_line("ba"));

    let p = PlainFilter::new(PlainKind::Out, Pattern::new("^#").unwrap());
    assert!(!p.keep_line("# comment"));
    assert!(p.keep_line("code # comment"));
    assert!(p.is_enabled());
    assert_eq!(p.filter_kind(), PlainKind::Out);
}

#[test]
fn in_filters_join_and_out_filters_win() {
    let mut filters = Filters::new();
    assert!(filters.keep_line("anything"));
    filters.create_in_filter(Pattern::new("foo").unwrap());
    filters.create_in_filter(Pattern::new("bar").unwrap());
    assert!(filters.keep_line("foo"));
    assert!(filters.keep_line("bar"));
    assert!(!filters.keep_line("baz"));
    filters.create_out_filter(Pattern::new("foobar").unwrap());
    assert!(!filters.keep_line("foobar"));
    assert!(filters.keep_line("foo bar"));
    assert_eq!(filters.total_filters_enabled(), 3);
    assert_eq!(filters.filters_menu_size(), 5);
    assert_eq!(filters.filters_menu_info_lines_size(), 2);
}

#[test]
fn filters_menu_keys() {
    let mut filters = Filters::new();
    assert_eq!(filters.filters_menu_info_lines(), vec!["Text filters: 0 of 0 enabled "]);
    assert_eq!(filters.filters_menu_size(), 1);
    filters.create_in_filter(Pattern::new("a").unwrap());
    filters.create_out_filter(Pattern::new("b").unwrap());
    assert_eq!(
        filters.filters_menu_info_lines(),
        vec![
            "Text filters: 2 of 2 enabled ",
            "SPC: disable   t: To OUT   D: Delete   f: Disable Filtering",
        ]
    );
    assert_eq!(filters.read_event(key(KeyCode::Down)), (None, None));
    assert_eq!(filters.selected_filter(), 1);
    filters.read_event(key(KeyCode::Char('j')));
    assert_eq!(filters.selected_filter(), 1);
    filters.read_event(key(KeyCode::Char(' ')));
    assert_eq!(
        filters.filters_menu_info_lines(),
        vec![
            "Text filters: 1 of 2 enabled ",
            "SPC: enable   t: To IN   D: Delete   f: Disable Filtering",
        ]
    );
    filters.read_event(key(KeyCode::Char('f')));
    assert_eq!(filters.filters_menu_info_lines()[0], "Text filters: 1 of 2 enabled  (Filtering disabled)");
    assert!(filters.keep_line("zzz"));
    filters.read_event(key(KeyCode::Char('f')));
    let rows = filters.filters_menu_rows();
    assert_eq!(rows.len(), 2);
    assert!(rows[0].enabled && rows[0].kind == FilterKind::In && rows[0].pattern == "a");
    assert!(!rows[1].enabled && rows[1].kind == FilterKind::Out && rows[1].pattern == "b");
    filters.read_event(key(KeyCode::Char('D')));
    assert_eq!(filters.filters_menu_rows().len(), 1);
    assert_eq!(filters.selected_filter(), 0);
    filters.read_event(key(KeyCode::Char('t')));
    assert_eq!(filters.filters_menu_rows()[0].kind, FilterKind::Out);
    filters.read_event(key(KeyCode::Up));
    assert_eq!(filters.selected_filter(), 0);
    assert_eq!(filters.read_event(Event::Mouse(MouseEventKind::ScrollUp)), (None, None));
    let (mode, action) = filters.read_event(key(KeyCode::Char('q')));
    assert_eq!(mode, Some(AppMode::Logs));
    assert!(action.is_none());
    filters.clear();
    assert_eq!(filters.filters_menu_rows().len(), 0);
    assert_eq!(filters.read_event(key(KeyCode::Char('D'))), (None, None));
}

#[test]
fn search_prompt() {
    let mut search = Search::new();
    assert!(matches!(search.command_bar_text(&AppMode::Logs), BarText::Empty));
    for c in "er".chars() {
        assert_eq!(search.read_event(key(KeyCode::Char(c))), (None, None));
    }
    match search.command_bar_text(&AppMode::Search) {
        BarText::Prompt { text, completions } => {
            assert_eq!(text, "/er");
            assert!(completions.is_empty());
        }
        other => panic!("expected a prompt, got {:?}", other),
    }
    assert_eq!(search.read_event(key(KeyCode::Enter)), (Some(AppMode::Logs), None));
    assert_eq!(search.active_search_pattern().unwrap().as_str(), "er");

    // Up recalls the last pattern.
    search.read_event(key(KeyCode::Up));
    match search.command_bar_text(&AppMode::Search) {
        BarText::Prompt { text, .. } => assert_eq!(text, "/er"),
        other => panic!("expected a prompt, got {:?}", other),
    }
    // Esc empties a typed pattern first, then leaves.
    assert_eq!(search.read_event(key(KeyCode::Esc)), (Some(AppMode::Search), None));
    assert_eq!(search.read_event(key(KeyCode::Esc)), (Some(AppMode::Logs), None));
    assert_eq!(search.read_event(key(KeyCode::Backspace)), (Some(AppMode::Logs), None));
}

#[test]
fn search_error_is_shown_once() {
    let mut search = Search::new();
    search.read_event(key(KeyCode::Char('(')));
    assert_eq!(search.read_event(key(KeyCode::Enter)), (Some(AppMode::Search), None));
    assert!(search.active_search_pattern().is_none());
    assert!(matches!(search.command_bar_text(&AppMode::Search), BarText::Error(_)));
    assert_eq!(search.read_event(key(KeyCode::Char('x'))), (Some(AppMode::Logs), None));
    assert!(matches!(search.command_bar_text(&AppMode::Logs), BarText::Empty));
    search.clear();
    assert!(search.active_search_pattern().is_none());
}

#[test]
fn patterns() {
    let p = Pattern::new("a+").unwrap();
    assert_eq!(p.as_str(), "a+");
    assert_eq!(p.find_ranges("baaabaa"), vec![(1, 4), (5, 7)]);
    assert!(p.find_ranges("xyz").is_empty());
    assert!(p.is_match("cab"));
    assert!(!p.is_match("cb"));
    let e = Pattern::new("(").unwrap_err();
    assert!(e.message().contains("unclosed group"));
    let q = Pattern::new("(?<w>[0-9]+)").unwrap();
    assert_eq!(q.first_capture("ab 12 34", "w").as_deref(), Some("12"));
    assert_eq!(q.first_capture("ab", "w"), None);
}

#[test]
fn colours_from_numbers() {
    assert_eq!(Color::from_u32(0x123456), Color::Rgb(0x12, 0x34, 0x56));
    assert_eq!(Color::from_u32(255), Color::Rgb(0, 0, 255));
    assert_eq!(Color::from_u32(0xAB00_00FF), Color::Rgb(0, 0, 0xFF));
}

#[test]
fn filters_menu_text_lists_rows_and_selection() {
    let mut filters = Filters::new();
    filters.create_out_filter(Pattern::new("x+").unwrap());
    filters.create_in_filter(Pattern::new("y").unwrap());
    filters.read_event(key(KeyCode::Down));
    let (info, rows, selected) = filters.filters_menu_text();
    assert_eq!(
        info,
        vec![
            "Text filters: 2 of 2 enabled ",
            "SPC: disable   t: To OUT   D: Delete   f: Disable Filtering",
        ]
    );
    assert_eq!(rows.len(), 2);
    assert_eq!(rows[0].pattern, "x+");
    assert_eq!(rows[0].kind, FilterKind::Out);
    assert_eq!(selected, 1);
}

#[test]
fn pressing_t_twice_restores_the_filter() {
    let mut filters = Filters::new();
    filters.create_in_filter(Pattern::new("foo").unwrap());
    let lines = ["foo", "bar"];
    assert_eq!(filters.get_filtered_lines_count(&lines), 1);
    filters.read_event(key(KeyCode::Char('t')));
    assert_eq!(filters.get_filtered_lines_count(&lines), 1);
    assert!(filters.keep_line("bar"));
    filters.read_event(key(KeyCode::Char('t')));
    assert_eq!(filters.filters_menu_rows()[0].kind, FilterKind::In);
    assert!(filters.keep_line("foo"));
    assert!(!filters.keep_line("bar"));
}
