use rnav::input::{Event, KeyCode, KeyEvent, KeyModifiers};
use rnav::mode::filter::Filters;
use rnav::pattern::Pattern;

#[test]
fn test_cache_invalidation_create_clear() {
    let mut filters = Filters::new();
    let lines = vec!["foo", "bar", "foobar"];

    // initial count (no filters)
    let count = filters.get_filtered_lines_count(&lines);
    assert_eq!(count, 3);

    // cached result should be returned even if iterator would be empty
    let cached = filters.get_filtered_lines_count(&[]);
    assert_eq!(cached, 3);

    // creating an IN filter invalidates the cache
    filters.create_in_filter(Pattern::new("foo").unwrap());
    let new_count = filters.get_filtered_lines_count(&lines);
    assert_eq!(new_count, 2);

    // clearing filters invalidates cache
    filters.clear();
    let cleared_count = filters.get_filtered_lines_count(&lines);
    assert_eq!(cleared_count, 3);
}

#[test]
fn test_cache_invalidation_read_event_mutations() {
    let mut filters = Filters::new();
    let lines = vec!["foo", "bar", "foobar"];

    filters.create_in_filter(Pattern::new("foo").unwrap());
    let c1 = filters.get_filtered_lines_count(&lines);
    assert_eq!(c1, 2);

    // toggle enabled via space -> disables the only filter -> all lines pass
    filters.read_event(Event::Key(KeyEvent::new(KeyCode::Char(' '), KeyModifiers::none())));
    let c2 = filters.get_filtered_lines_count(&lines);
    assert_eq!(c2, 3);

    // re-enable it
    filters.read_event(Event::Key(KeyEvent::new(KeyCode::Char(' '), KeyModifiers::none())));
    let c3 = filters.get_filtered_lines_count(&lines);
    assert_eq!(c3, 2);

    // change kind to OUT via 't' -> exclude matches -> only "bar" remains
    filters.read_event(Event::Key(KeyEvent::new(KeyCode::Char('t'), KeyModifiers::none())));
    let c4 = filters.get_filtered_lines_count(&lines);
    assert_eq!(c4, 1);

    // delete via 'D' -> no filters -> all lines
    filters.read_event(Event::Key(KeyEvent::new(KeyCode::Char('D'), KeyModifiers::none())));
    let c5 = filters.get_filtered_lines_count(&lines);
    assert_eq!(c5, 3);

    // create and toggle overall filtering via 'f'
    filters.create_in_filter(Pattern::new("foo").unwrap());
    let c6 = filters.get_filtered_lines_count(&lines);
    assert_eq!(c6, 2);
    filters.read_event(Event::Key(KeyEvent::new(KeyCode::Char('f'), KeyModifiers::none())));
    let c7 = filters.get_filtered_lines_count(&lines);
    assert_eq!(c7, 3);
}
