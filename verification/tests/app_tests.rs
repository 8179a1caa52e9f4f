use crossterm::event::{KeyCode, KeyEvent, KeyEventKind, KeyModifiers};
use path_inspect::lister::{ChildRead, LinkRead};
use path_inspect::{App, Key, View};

fn file(name: &str) -> ChildRead {
    ChildRead { name: Some(name.to_string()), link: LinkRead::NotALink }
}

fn shown(app: &App) -> Vec<String> {
    app.directory_view()
        .expect("a directory is open")
        .get_display_contents()
        .iter()
        .map(|entry| entry.name.clone())
        .collect()
}

/// A browser on the directory screen of `/b`, which holds the given names.
fn opened(names: &[&str]) -> App {
    let mut app = App::new(Some("/a:/b:/c"));
    assert_eq!(app.handle_key(Key::Down), None);
    assert_eq!(app.handle_key(Key::Enter), Some("/b".to_string()));
    app.select_path(Ok(names.iter().map(|name| file(name)).collect()));
    app
}

#[test]
fn starts_on_the_path_list() {
    let app = App::new(Some("/a:/b"));
    assert!(!app.exit);
    assert!(!app.exit_requested());
    assert_eq!(app.selected_index(), 0);
    assert_eq!(app.path_list_selected_index(), 0);
    assert_eq!(app.current_view(), View::PathList);
    assert!(app.directory_view().is_none());
    assert_eq!(app.path_entries(), &vec!["/a".to_string(), "/b".to_string()]);
    assert_eq!(app.row_count(), 2);
}

#[test]
fn default_has_no_entries() {
    let app = App::default();
    assert_eq!(app.current_view(), View::PathList);
    assert_eq!(app.row_count(), 0);
    assert_eq!(app.selected_index(), 0);
}

#[test]
fn highlight_stays_within_the_path_list() {
    let mut app = App::new(Some("/a:/b:/c"));
    app.handle_key(Key::Up);
    assert_eq!(app.selected_index(), 0);
    app.handle_key(Key::Down);
    assert_eq!(app.selected_index(), 1);
    app.handle_key(Key::Down);
    assert_eq!(app.selected_index(), 2);
    app.handle_key(Key::Down);
    assert_eq!(app.selected_index(), 2);
    app.handle_key(Key::Up);
    assert_eq!(app.selected_index(), 1);
}

#[test]
fn moves_on_a_list_without_rows_change_nothing() {
    let mut app = App::new(None);
    assert_eq!(app.row_count(), 0);
    app.handle_key(Key::Down);
    assert_eq!(app.selected_index(), 0);
    app.handle_key(Key::Up);
    assert_eq!(app.selected_index(), 0);
    assert_eq!(app.handle_key(Key::Enter), None);
    assert_eq!(app.current_view(), View::PathList);
}

#[test]
fn moves_in_an_empty_directory_change_nothing() {
    let mut app = opened(&[]);
    assert_eq!(app.row_count(), 0);
    app.handle_key(Key::Down);
    assert_eq!(app.selected_index(), 0);
    app.handle_key(Key::Up);
    assert_eq!(app.selected_index(), 0);
}

#[test]
fn enter_asks_for_the_highlighted_directory_and_changes_nothing() {
    let mut app = App::new(Some("/a:/b"));
    app.handle_key(Key::Down);
    assert_eq!(app.handle_key(Key::Enter), Some("/b".to_string()));
    assert_eq!(app.current_view(), View::PathList);
    assert_eq!(app.selected_index(), 1);
    assert!(app.directory_view().is_none());
}

#[test]
fn select_path_opens_the_directory_on_its_first_row() {
    let app = opened(&["zsh", "bash", "Sh"]);
    assert_eq!(app.current_view(), View::DirectoryContents);
    assert_eq!(app.selected_index(), 0);
    assert_eq!(app.path_list_selected_index(), 1);
    let screen = app.directory_view().expect("a directory is open");
    assert_eq!(screen.current_path, "/b");
    assert!(!screen.search_mode);
    assert_eq!(screen.search_query, "");
    assert!(screen.filtered_contents.is_empty());
    assert_eq!(shown(&app), vec!["Sh", "bash", "zsh"]);
}

#[test]
fn escape_restores_the_row_that_was_selected() {
    for row in 0..3 {
        let mut app = App::new(Some("/a:/b:/c"));
        for _ in 0..row {
            app.handle_key(Key::Down);
        }
        assert!(app.handle_key(Key::Enter).is_some());
        app.select_path(Ok(vec![file("x"), file("y")]));
        app.handle_key(Key::Down);
        assert_eq!(app.selected_index(), 1);
        app.handle_key(Key::Esc);
        assert_eq!(app.current_view(), View::PathList);
        assert_eq!(app.selected_index(), row);
        assert!(app.directory_view().is_none());
    }
}

#[test]
fn failed_read_shows_one_error_row() {
    let mut app = App::new(Some("/nowhere"));
    assert_eq!(app.handle_key(Key::Enter), Some("/nowhere".to_string()));
    app.select_path(Err("No such file or directory (os error 2)".to_string()));
    assert_eq!(app.current_view(), View::DirectoryContents);
    assert_eq!(app.row_count(), 1);
    app.handle_key(Key::Down);
    assert_eq!(app.selected_index(), 0);
}

#[test]
fn select_path_off_the_path_list_changes_nothing() {
    let mut app = opened(&["a", "b"]);
    app.handle_key(Key::Down);
    app.select_path(Ok(vec![file("other")]));
    assert_eq!(shown(&app), vec!["a", "b"]);
    assert_eq!(app.selected_index(), 1);
    let mut empty = App::new(None);
    empty.select_path(Ok(vec![file("other")]));
    assert_eq!(empty.current_view(), View::PathList);
    assert!(empty.directory_view().is_none());
}

#[test]
fn typing_two_characters_and_erasing_one() {
    let mut app = opened(&["ab", "a", "b", "cab", "xyz"]);
    app.handle_key(Key::Down);
    app.handle_key(Key::Char('/'));
    assert!(app.directory_view().expect("open").search_mode);
    app.handle_key(Key::Char('a'));
    app.handle_key(Key::Char('b'));
    assert_eq!(app.directory_view().expect("open").search_query, "ab");
    assert_eq!(shown(&app), vec!["ab", "cab"]);
    app.handle_key(Key::Backspace);
    assert_eq!(app.directory_view().expect("open").search_query, "a");
    assert_eq!(shown(&app), vec!["a", "ab", "cab"]);
    assert_eq!(app.selected_index(), 0);
}

#[test]
fn erasing_the_only_character_clears_the_filter() {
    let mut app = opened(&["ab", "a", "b"]);
    app.handle_key(Key::Char('/'));
    app.handle_key(Key::Char('a'));
    assert_eq!(app.directory_view().expect("open").filtered_contents.len(), 2);
    app.handle_key(Key::Backspace);
    let screen = app.directory_view().expect("open");
    assert_eq!(screen.search_query, "");
    assert!(screen.filtered_contents.is_empty());
    assert!(screen.search_mode);
    assert_eq!(app.selected_index(), 0);
    assert_eq!(shown(&app), vec!["a", "ab", "b"]);
    app.handle_key(Key::Backspace);
    assert_eq!(app.directory_view().expect("open").search_query, "");
    assert_eq!(shown(&app), vec!["a", "ab", "b"]);
}

#[test]
fn typing_resets_the_highlight() {
    let mut app = opened(&["a1", "a2", "a3"]);
    app.handle_key(Key::Down);
    app.handle_key(Key::Down);
    assert_eq!(app.selected_index(), 2);
    app.handle_key(Key::Char('/'));
    assert_eq!(app.selected_index(), 2);
    app.handle_key(Key::Char('A'));
    assert_eq!(app.selected_index(), 0);
    assert_eq!(shown(&app), vec!["a1", "a2", "a3"]);
}

#[test]
fn keys_are_text_while_searching() {
    let mut app = opened(&["quit", "up"]);
    app.handle_key(Key::Char('/'));
    app.handle_key(Key::Char('q'));
    assert!(!app.exit);
    app.handle_key(Key::Char('/'));
    assert_eq!(app.directory_view().expect("open").search_query, "q/");
    app.handle_key(Key::Up);
    app.handle_key(Key::Down);
    app.handle_key(Key::Other);
    assert_eq!(app.selected_index(), 0);
    assert_eq!(app.directory_view().expect("open").search_query, "q/");
}

#[test]
fn enter_keeps_the_query_and_leaves_text_entry() {
    let mut app = opened(&["bash", "zsh", "cat"]);
    app.handle_key(Key::Char('/'));
    app.handle_key(Key::Char('s'));
    app.handle_key(Key::Char('h'));
    assert_eq!(app.handle_key(Key::Enter), None);
    let screen = app.directory_view().expect("open");
    assert!(!screen.search_mode);
    assert_eq!(screen.search_query, "sh");
    assert_eq!(shown(&app), vec!["bash", "zsh"]);
    app.handle_key(Key::Down);
    assert_eq!(app.selected_index(), 1);
    app.handle_key(Key::Down);
    assert_eq!(app.selected_index(), 1);
}

#[test]
fn escape_with_a_query_clears_it_and_stays() {
    let mut app = opened(&["bash", "zsh", "cat"]);
    app.handle_key(Key::Char('/'));
    app.handle_key(Key::Char('s'));
    app.handle_key(Key::Enter);
    app.handle_key(Key::Down);
    app.handle_key(Key::Esc);
    assert_eq!(app.current_view(), View::DirectoryContents);
    let screen = app.directory_view().expect("open");
    assert_eq!(screen.search_query, "");
    assert!(screen.filtered_contents.is_empty());
    assert!(!screen.search_mode);
    assert_eq!(app.selected_index(), 0);
    assert_eq!(shown(&app), vec!["bash", "cat", "zsh"]);
    app.handle_key(Key::Esc);
    assert_eq!(app.current_view(), View::PathList);
    assert_eq!(app.selected_index(), 1);
}

#[test]
fn escape_while_searching_gives_the_search_up() {
    let mut app = opened(&["bash", "zsh", "cat"]);
    app.handle_key(Key::Char('/'));
    app.handle_key(Key::Char('z'));
    app.handle_key(Key::Esc);
    assert_eq!(app.current_view(), View::DirectoryContents);
    let screen = app.directory_view().expect("open");
    assert!(!screen.search_mode);
    assert_eq!(screen.search_query, "");
    assert!(screen.filtered_contents.is_empty());
    assert_eq!(shown(&app), vec!["bash", "cat", "zsh"]);
}

#[test]
fn a_new_search_starts_with_an_empty_query() {
    let mut app = opened(&["bash", "zsh", "cat"]);
    app.handle_key(Key::Char('/'));
    app.handle_key(Key::Char('s'));
    app.handle_key(Key::Enter);
    app.handle_key(Key::Down);
    app.handle_key(Key::Char('/'));
    let screen = app.directory_view().expect("open");
    assert!(screen.search_mode);
    assert_eq!(screen.search_query, "");
    assert_eq!(shown(&app), vec!["bash", "cat", "zsh"]);
    assert_eq!(app.selected_index(), 1);
}

#[test]
fn slash_and_escape_do_nothing_on_the_path_list() {
    let mut app = App::new(Some("/a:/b"));
    app.handle_key(Key::Down);
    app.handle_key(Key::Char('/'));
    app.handle_key(Key::Esc);
    app.handle_key(Key::Backspace);
    app.handle_key(Key::Char('x'));
    assert_eq!(app.current_view(), View::PathList);
    assert_eq!(app.selected_index(), 1);
    assert!(!app.exit);
}

#[test]
fn enter_in_a_directory_asks_for_nothing() {
    let mut app = opened(&["a", "b"]);
    assert_eq!(app.handle_key(Key::Enter), None);
    assert_eq!(app.current_view(), View::DirectoryContents);
    assert_eq!(shown(&app), vec!["a", "b"]);
}

#[test]
fn q_sets_the_exit_flag_on_both_screens() {
    let mut app = App::new(Some("/a"));
    app.handle_key(Key::Char('q'));
    assert!(app.exit);
    assert!(app.exit_requested());
    let mut in_directory = opened(&["a"]);
    in_directory.handle_key(Key::Char('q'));
    assert!(in_directory.exit);
    assert_eq!(in_directory.current_view(), View::DirectoryContents);
}

#[test]
fn key_events_of_the_terminal_are_understood() {
    let press = |code: KeyCode| KeyEvent::new(code, KeyModifiers::NONE);
    let mut app = App::new(Some("/a:/b:/c"));
    app.handle_key_event(press(KeyCode::Down));
    app.handle_key_event(press(KeyCode::Down));
    app.handle_key_event(press(KeyCode::Up));
    assert_eq!(app.selected_index(), 1);
    app.handle_key_event(press(KeyCode::Left));
    app.handle_key_event(press(KeyCode::Tab));
    app.handle_key_event(press(KeyCode::F(1)));
    assert_eq!(app.selected_index(), 1);
    assert_eq!(app.handle_key_event(press(KeyCode::Enter)), Some("/b".to_string()));
    app.select_path(Ok(vec![file("bash"), file("zsh"), file("cat")]));
    app.handle_key_event(press(KeyCode::Char('/')));
    app.handle_key_event(press(KeyCode::Char('s')));
    app.handle_key_event(press(KeyCode::Char('x')));
    app.handle_key_event(press(KeyCode::Backspace));
    assert_eq!(shown(&app), vec!["bash", "zsh"]);
    app.handle_key_event(press(KeyCode::Esc));
    assert_eq!(shown(&app), vec!["bash", "cat", "zsh"]);
    app.handle_key_event(press(KeyCode::Esc));
    assert_eq!(app.current_view(), View::PathList);
    assert_eq!(app.selected_index(), 1);
    assert!(!app.exit);
    app.handle_key_event(press(KeyCode::Char('q')));
    assert!(app.exit);
}

#[test]
fn only_a_press_counts() {
    let event = |code: KeyCode, kind: KeyEventKind| {
        KeyEvent::new_with_kind(code, KeyModifiers::NONE, kind)
    };
    let mut app = App::new(Some("/a:/b:/c"));
    assert_eq!(app.handle_press(event(KeyCode::Down, KeyEventKind::Release)), None);
    assert_eq!(app.handle_press(event(KeyCode::Down, KeyEventKind::Repeat)), None);
    assert_eq!(app.selected_index(), 0);
    assert_eq!(app.handle_press(event(KeyCode::Enter, KeyEventKind::Release)), None);
    assert_eq!(app.handle_press(event(KeyCode::Char('q'), KeyEventKind::Repeat)), None);
    assert!(!app.exit);
    assert_eq!(app.handle_press(event(KeyCode::Down, KeyEventKind::Press)), None);
    assert_eq!(app.selected_index(), 1);
    assert_eq!(
        app.handle_press(event(KeyCode::Enter, KeyEventKind::Press)),
        Some("/b".to_string())
    );
    assert_eq!(app.handle_press(event(KeyCode::Char('q'), KeyEventKind::Press)), None);
    assert!(app.exit);
}

#[test]
fn key_event_is_handled_whatever_its_motion() {
    let mut app = App::new(Some("/a:/b"));
    app.handle_key_event(KeyEvent::new_with_kind(
        KeyCode::Down,
        KeyModifiers::NONE,
        KeyEventKind::Release,
    ));
    assert_eq!(app.selected_index(), 1);
}

#[test]
fn moves_step_by_one_in_every_mode() {
    let mut app = opened(&["a", "b", "c"]);
    app.navigate_down();
    assert_eq!(app.selected_index(), 1);
    app.handle_key(Key::Char('/'));
    assert!(app.directory_view().expect("open").search_mode);
    app.handle_key(Key::Down);
    assert_eq!(app.selected_index(), 1);
    app.navigate_down();
    assert_eq!(app.selected_index(), 2);
    app.navigate_down();
    assert_eq!(app.selected_index(), 2);
    app.navigate_up();
    app.navigate_up();
    assert_eq!(app.selected_index(), 0);
    app.navigate_up();
    assert_eq!(app.selected_index(), 0);
    assert_eq!(shown(&app), vec!["a", "b", "c"]);
}

#[test]
fn moves_follow_the_filtered_rows() {
    let mut app = opened(&["bash", "cat", "zsh"]);
    app.handle_key(Key::Char('/'));
    app.handle_key(Key::Char('s'));
    app.handle_key(Key::Enter);
    assert_eq!(app.row_count(), 2);
    app.navigate_down();
    app.navigate_down();
    app.navigate_down();
    assert_eq!(app.selected_index(), 1);
}
