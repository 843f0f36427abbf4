use wtxr::select::{footer_area, item_label, Key, SelectApp};
use wtxr::worktree::Worktree;

fn wt(path: &str, branch: Option<&str>, commit: &str) -> Worktree {
    Worktree::new(path.to_string(), branch.map(String::from), commit.to_string())
}

fn three() -> Vec<Worktree> {
    vec![
        wt("/r/a", Some("a"), "1111111111"),
        wt("/r/b", None, "2222222222"),
        wt("/r/c", Some("c"), "3333333333"),
    ]
}

#[test]
fn starts_on_first_item_unmarked() {
    let app = SelectApp::new(three());
    assert_eq!(app.focus(), Some(0));
    assert!(!app.confirmed());
    let empty = SelectApp::new(vec![]);
    assert_eq!(empty.focus(), None);
}

#[test]
fn moving_wraps_around() {
    let mut app = SelectApp::new(three());
    app.previous();
    assert_eq!(app.focus(), Some(2));
    app.next();
    assert_eq!(app.focus(), Some(0));
    app.next();
    app.next();
    app.next();
    assert_eq!(app.focus(), Some(0));
}

#[test]
fn previous_undoes_next() {
    let mut app = SelectApp::new(three());
    app.next();
    app.next();
    app.previous();
    assert_eq!(app.focus(), Some(1));
}

#[test]
fn moving_in_empty_list_does_nothing() {
    let mut app = SelectApp::new(vec![]);
    app.next();
    app.previous();
    app.toggle();
    assert_eq!(app.focus(), None);
}

#[test]
fn toggle_twice_restores_marks() {
    let mut app = SelectApp::new(three());
    app.toggle();
    app.toggle();
    assert!(app.handle_key(Key::Enter, true));
    assert_eq!(app.finish().map(|v| v.len()), Some(0));
}

#[test]
fn keys_drive_the_choice() {
    let mut app = SelectApp::new(three());
    assert!(!app.handle_key(Key::Char('j'), true));
    assert!(!app.handle_key(Key::Char(' '), true));
    assert!(!app.handle_key(Key::Down, true));
    assert!(!app.handle_key(Key::Down, false));
    assert!(!app.handle_key(Key::Char(' '), true));
    assert!(!app.handle_key(Key::Char('x'), true));
    assert!(!app.handle_key(Key::Other, true));
    assert!(app.handle_key(Key::Enter, true));
    let chosen = app.finish().unwrap();
    let paths: Vec<&str> = chosen.iter().map(|w| w.path.as_str()).collect();
    assert_eq!(paths, vec!["/r/b", "/r/c"]);
}

#[test]
fn cancel_gives_none() {
    let mut app = SelectApp::new(three());
    app.toggle();
    assert!(app.handle_key(Key::Char('q'), true));
    assert!(app.finish().is_none());
    let mut app = SelectApp::new(three());
    assert!(app.handle_key(Key::Esc, true));
    assert!(!app.confirmed());
}

#[test]
fn up_and_k_move_up() {
    let mut app = SelectApp::new(three());
    app.handle_key(Key::Up, true);
    assert_eq!(app.focus(), Some(2));
    app.handle_key(Key::Char('k'), true);
    assert_eq!(app.focus(), Some(1));
}

#[test]
fn labels_show_marks_paths_and_branches() {
    let mut app = SelectApp::new(three());
    app.next();
    app.toggle();
    assert_eq!(
        app.item_labels(),
        vec!["[ ]  /r/a  (a)", "[x]  /r/b  ((2222222))", "[ ]  /r/c  (c)"]
    );
    assert_eq!(item_label(&wt("/p", Some("m"), "0"), true), "[x]  /p  (m)");
}

#[test]
fn footer_sits_inside_the_frame() {
    assert_eq!(footer_area(0, 0, 80, 24), Some((1, 22, 78, 1)));
    assert_eq!(footer_area(5, 3, 1, 10), Some((6, 11, 0, 1)));
    assert_eq!(footer_area(0, 0, 80, 3), None);
}
