use tube_timetable::model::{Focus, InputMode};
use tube_timetable::session::{Action, Key, Session};

#[test]
fn tabs_wrap_both_ways() {
    let mut s = Session::new(2);
    assert_eq!(s.tab_index, 0);
    s.next();
    assert_eq!(s.tab_index, 1);
    s.next();
    assert_eq!(s.tab_index, 0);
    s.previous();
    assert_eq!(s.tab_index, 1);
    s.previous();
    assert_eq!(s.tab_index, 0);
}

#[test]
fn insert_mode_entered_with_i() {
    let mut s = Session::new(2);
    let act = s.handle_key(Key::Char('i'));
    assert_eq!(act, Action::Nothing);
    assert!(matches!(s.input_mode, InputMode::Insert));
    assert!(matches!(s.focus, Some(Focus::InputBlock)));
}

#[test]
fn typing_and_submitting_a_station() {
    let mut s = Session::new(2);
    s.handle_key(Key::Char('i'));
    s.handle_key(Key::Char('a'));
    s.handle_key(Key::Char('b'));
    s.handle_key(Key::Char('c'));
    assert_eq!(s.input, "abc");
    s.handle_key(Key::Backspace);
    assert_eq!(s.input, "ab");
    let act = s.handle_key(Key::Enter);
    assert_eq!(act, Action::SubmitStation);
    assert_eq!(s.this_station_name, "ab");
    assert_eq!(s.input, "");
}

#[test]
fn backspace_on_empty_input_is_harmless() {
    let mut s = Session::new(2);
    s.handle_key(Key::Char('i'));
    let act = s.handle_key(Key::Backspace);
    assert_eq!(act, Action::Nothing);
    assert_eq!(s.input, "");
}

#[test]
fn escape_leaves_insert_mode() {
    let mut s = Session::new(2);
    s.handle_key(Key::Char('i'));
    s.handle_key(Key::Char('x'));
    let act = s.handle_key(Key::Esc);
    assert_eq!(act, Action::Nothing);
    assert!(matches!(s.input_mode, InputMode::Normal));
    assert!(s.focus.is_none());
    // The typed text is kept; only the mode changes.
    assert_eq!(s.input, "x");
}

#[test]
fn quit_and_refresh_requested_in_normal_mode() {
    let mut s = Session::new(2);
    assert_eq!(s.handle_key(Key::Char('q')), Action::Quit);
    assert_eq!(s.handle_key(Key::Char('r')), Action::RefreshStatus);
}

#[test]
fn q_in_insert_mode_is_text() {
    let mut s = Session::new(2);
    s.handle_key(Key::Char('i'));
    let act = s.handle_key(Key::Char('q'));
    assert_eq!(act, Action::Nothing);
    assert_eq!(s.input, "q");
}

#[test]
fn selection_moves_only_with_lines_focus() {
    let mut s = Session::new(2);
    s.set_lines_tree_size(3);
    // Without the lines block focused, j and k do nothing.
    s.handle_key(Key::Char('j'));
    assert_eq!(s.line_selected, Some(0));

    s.focus = Some(Focus::LinesBlock);
    s.handle_key(Key::Char('j'));
    assert_eq!(s.line_selected, Some(1));
    s.handle_key(Key::Char('j'));
    assert_eq!(s.line_selected, Some(2));
    // At the last row the selection stays put.
    s.handle_key(Key::Char('j'));
    assert_eq!(s.line_selected, Some(2));

    s.handle_key(Key::Char('k'));
    assert_eq!(s.line_selected, Some(1));
    s.handle_key(Key::Char('k'));
    assert_eq!(s.line_selected, Some(0));
    s.handle_key(Key::Char('k'));
    assert_eq!(s.line_selected, Some(0));
}

#[test]
fn arrow_keys_change_tabs_in_normal_mode() {
    let mut s = Session::new(2);
    assert_eq!(s.handle_key(Key::Right), Action::Nothing);
    assert_eq!(s.tab_index, 1);
    assert_eq!(s.handle_key(Key::Left), Action::Nothing);
    assert_eq!(s.tab_index, 0);
}
