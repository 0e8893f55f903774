use markdown_query::session::{Action, Key, TerminalApp};

fn app_with(n: usize) -> TerminalApp {
    let mut app = TerminalApp::new();
    app.set_match_count(n);
    app
}

#[test]
fn next_wraps_around() {
    let mut app = app_with(3);
    app.next();
    assert_eq!(app.selected, Some(0));
    app.next();
    app.next();
    assert_eq!(app.selected, Some(2));
    app.next();
    assert_eq!(app.selected, Some(0));
}

#[test]
fn previous_wraps_around() {
    let mut app = app_with(3);
    app.previous();
    assert_eq!(app.selected, Some(0));
    app.previous();
    assert_eq!(app.selected, Some(2));
    app.previous();
    assert_eq!(app.selected, Some(1));
}

#[test]
fn no_matches_no_selection() {
    let mut app = app_with(0);
    app.next();
    assert_eq!(app.selected, None);
    app.previous();
    assert_eq!(app.selected, None);
    assert_eq!(app.get_selected(), None);
}

#[test]
fn fewer_matches_drop_the_selection() {
    let mut app = app_with(5);
    app.previous();
    app.previous();
    assert_eq!(app.get_selected(), Some(4));
    app.set_match_count(2);
    assert_eq!(app.get_selected(), None);
}

#[test]
fn typing_goes_to_the_active_box() {
    let mut app = app_with(0);
    assert_eq!(app.handle_key(Key::Char('a')), Action::Requery);
    assert_eq!(app.handle_key(Key::Char('b')), Action::Requery);
    assert_eq!(app.query_input, "ab");
    assert_eq!(app.handle_key(Key::Char('\t')), Action::Requery);
    assert_eq!(app.inp_idx, 1);
    app.handle_key(Key::Char('x'));
    assert_eq!(app.filter_input, "x");
    app.handle_key(Key::Left);
    assert_eq!(app.inp_idx, 0);
    assert_eq!(app.handle_key(Key::Backspace), Action::Requery);
    assert_eq!(app.query_input, "a");
    app.handle_key(Key::Backspace);
    app.handle_key(Key::Backspace);
    assert_eq!(app.query_input, "");
}

#[test]
fn keys_that_leave_or_open() {
    let mut app = app_with(2);
    assert_eq!(app.handle_key(Key::Down), Action::Moved);
    assert_eq!(app.selected, Some(0));
    assert_eq!(app.handle_key(Key::Ctrl('n')), Action::Moved);
    assert_eq!(app.selected, Some(1));
    assert_eq!(app.handle_key(Key::Up), Action::Moved);
    assert_eq!(app.selected, Some(0));
    assert_eq!(app.handle_key(Key::Ctrl('e')), Action::Edit);
    assert_eq!(app.handle_key(Key::Ctrl('v')), Action::View);
    assert_eq!(app.handle_key(Key::Char('\n')), Action::Finish);
    assert_eq!(app.handle_key(Key::Ctrl('c')), Action::Finish);
    assert_eq!(app.handle_key(Key::Other), Action::Requery);
}
