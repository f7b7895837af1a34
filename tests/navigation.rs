use easychangedirectory::entry::{items_from_listing, items_from_text, Fetched, Item, Listed, Source, State};
use easychangedirectory::list::StatefulList;
use easychangedirectory::nav::App;
use easychangedirectory::path::PathName;

fn abs(parts: &[&str]) -> PathName {
    PathName { absolute: true, parts: parts.iter().map(|s| s.to_string()).collect() }
}

fn rel(parts: &[&str]) -> PathName {
    PathName { absolute: false, parts: parts.iter().map(|s| s.to_string()).collect() }
}

fn listed(name: &str, is_dir: bool) -> Listed {
    Listed { name: name.to_string(), is_dir }
}

fn listing(entries: &[(&str, bool)]) -> Fetched {
    Fetched::Listing(Some(entries.iter().map(|(n, d)| listed(n, *d)).collect()))
}

/// /home/user/project holding `src/` and `README.md`, with its parent and
/// grandparent panes read and `src/` previewed.
fn project_app() -> App {
    let mut app = App::new(abs(&["home", "user", "project"]), listing(&[("src", true), ("README.md", false)]));
    app.update_parent_items(listing(&[("project", true), ("other", true)]));
    app.update_grandparent_items(listing(&[("user", true)]));
    app.update_child_items(listing(&[("main.rs", false)]));
    app
}

#[test]
fn advance_len_times_returns_to_start() {
    let mut l = StatefulList::with_items_select(vec![1, 2, 3], 1);
    for _ in 0..3 {
        l.next();
    }
    assert_eq!(l.selected(), 1);
}

#[test]
fn next_and_previous_wrap_around() {
    let mut l = StatefulList::with_items(vec!['a', 'b', 'c']);
    l.previous();
    assert_eq!(l.selected(), 2);
    l.next();
    assert_eq!(l.selected(), 0);
    l.next();
    assert_eq!(l.selected(), 1);
    let mut one = StatefulList::with_items(vec![7]);
    one.next();
    assert_eq!(one.selected(), 0);
    one.previous();
    assert_eq!(one.selected(), 0);
    one.select(0);
    assert_eq!(one.selected(), 0);
}

#[test]
fn initial_state_lists_pwd() {
    let app = project_app();
    assert_eq!(app.items.items.len(), 2);
    assert_eq!(app.items.items[0].path, abs(&["home", "user", "project", "src"]));
    assert_eq!(app.items.items[0].state, State::Dir);
    assert_eq!(app.items.items[1].path, abs(&["home", "user", "project", "README.md"]));
    assert_eq!(app.items.items[1].state, State::File);
    assert_eq!(app.parent_items[0].path, abs(&["home", "user", "project"]));
    assert_eq!(app.parent_items[0].state, State::RelationDir);
    assert_eq!(app.parent_items[1].state, State::Dir);
    assert_eq!(app.grandparent_items[0].path, abs(&["home", "user"]));
    assert_eq!(app.grandparent_items[0].state, State::RelationDir);
    assert_eq!(app.grandparent_path, abs(&["home"]));
    assert_eq!(app.child_items[0].path, abs(&["home", "user", "project", "src", "main.rs"]));
}

#[test]
fn enter_directory_scenario() {
    let mut app = project_app();
    app.move_child();
    assert_eq!(app.pwd, abs(&["home", "user", "project", "src"]));
    assert_eq!(app.get_pwd_str(), "/home/user/project/src");
    assert!(app
        .parent_items
        .iter()
        .any(|i| i.path == abs(&["home", "user", "project", "src"]) && i.state == State::RelationDir));
    assert!(app
        .grandparent_items
        .iter()
        .any(|i| i.path == abs(&["home", "user", "project"]) && i.state == State::RelationDir));
    assert_eq!(app.items.items[0].path, abs(&["home", "user", "project", "src", "main.rs"]));
    assert_eq!(app.items.selected(), 0);
    assert_eq!(app.grandparent_path, abs(&["home", "user"]));
    assert_eq!(app.child_items.len(), 1);
    assert_eq!(app.child_items[0].state, State::Empty);
}

#[test]
fn file_preview_splits_lines() {
    let mut app = project_app();
    app.move_down();
    match app.child_source() {
        Source::Text(p) => assert_eq!(p, abs(&["home", "user", "project", "README.md"])),
        _ => panic!("a file is previewed through its text"),
    }
    app.update_child_items(Fetched::Text(Some("a\nb\nc".to_string())));
    let paths: Vec<String> = app.child_items.iter().map(|i| i.path.to_text()).collect();
    assert_eq!(paths, vec!["a", "b", "c"]);
    assert!(app.child_items.iter().all(|i| i.state == State::Content));
}

#[test]
fn unreadable_directory_is_one_empty_entry() {
    let mut app = project_app();
    app.update_child_items(Fetched::Listing(None));
    assert_eq!(app.child_items.len(), 1);
    assert_eq!(app.child_items[0].state, State::Empty);
    assert!(app.child_items[0].path.is_empty());
    let empty_dir = items_from_listing(&abs(&["tmp"]), &vec![]);
    assert_eq!(empty_dir.len(), 1);
    assert_eq!(empty_dir[0].state, State::Empty);
}

#[test]
fn leave_after_enter_restores_pwd_and_focus() {
    let mut app = project_app();
    app.move_child();
    app.update_child_items(listing(&[]));
    assert!(app.move_parent());
    assert_eq!(app.pwd, abs(&["home", "user", "project"]));
    assert_eq!(app.items.selected(), 0);
    assert_eq!(app.items.items[0].state, State::RelationDir);
    assert_eq!(app.child_items[0].path, abs(&["home", "user", "project", "src", "main.rs"]));
    assert_eq!(app.parent_items[0].path, abs(&["home", "user", "project"]));
    assert_eq!(app.grandparent_path, abs(&["home"]));
    assert_eq!(app.grandparent_items[0].state, State::Empty);
}

#[test]
fn leave_restores_second_entry() {
    let mut app = App::new(abs(&["r"]), listing(&[("a", true), ("b", true)]));
    app.move_down();
    app.update_child_items(listing(&[("x", true)]));
    app.move_child();
    assert_eq!(app.pwd, abs(&["r", "b"]));
    assert!(app.move_parent());
    assert_eq!(app.items.selected(), 1);
    assert_eq!(app.items.items[1].path, abs(&["r", "b"]));
}

#[test]
fn enter_content_entry_does_not_fail() {
    let mut app = project_app();
    app.move_down();
    app.update_child_items(Fetched::Text(Some("no/such/file\nb".to_string())));
    app.move_child();
    assert_eq!(app.pwd, abs(&["home", "user", "project", "README.md"]));
    assert_eq!(app.items.items[0].state, State::Content);
    app.update_child_items(Fetched::Nothing);
    app.move_child();
    assert_eq!(app.pwd, rel(&["no/such/file"]));
    assert_eq!(app.items.items.len(), 1);
    assert_eq!(app.items.items[0].state, State::Empty);
    assert_eq!(app.get_pwd_str(), "no/such/file");
}

#[test]
fn leave_at_root_changes_nothing() {
    let mut app = App::new(abs(&[]), listing(&[("home", true), ("etc", true)]));
    app.move_down();
    assert!(!app.move_parent());
    assert!(app.pwd.is_empty() == false);
    assert_eq!(app.pwd, abs(&[]));
    assert_eq!(app.items.selected(), 1);
    assert_eq!(app.items.items.len(), 2);
    assert_eq!(app.parent_items[0].state, State::Empty);
    assert_eq!(app.get_pwd_str(), "/");
    match app.parent_source() {
        Source::Nothing => {}
        _ => panic!("the root has no parent to list"),
    }
}

#[test]
fn text_lines_follow_line_endings() {
    let items = items_from_text("one\r\ntwo\n\nthree\r");
    let paths: Vec<String> = items.iter().map(|i| i.path.to_text()).collect();
    assert_eq!(paths, vec!["one", "two", "", "three\r"]);
    let ended = items_from_text("x\n");
    assert_eq!(ended.len(), 1);
    assert_eq!(ended[0].path, rel(&["x"]));
    let none = items_from_text("");
    assert_eq!(none.len(), 1);
    assert_eq!(none[0].state, State::Empty);
}

#[test]
fn item_helpers() {
    let mut it = Item { path: abs(&["a", "b.txt"]), state: State::Dir };
    assert!(it.is_dir());
    assert_eq!(it.filename(), Some("b.txt".to_string()));
    let copy = it.change_state(State::File);
    assert_eq!(copy.state, State::File);
    assert_eq!(it.state, State::File);
    assert!(!it.is_dir());
    let rel_dir = Item { path: abs(&["a"]), state: State::RelationDir };
    assert!(rel_dir.is_dir());
    let d = Item::default();
    assert_eq!(d.state, State::Empty);
    assert_eq!(d.filename(), None);
    assert!(d.path.is_empty());
}

#[test]
fn path_helpers() {
    let p = abs(&["home", "user"]);
    assert_eq!(p.parent(), Some(abs(&["home"])));
    assert_eq!(abs(&[]).parent(), None);
    assert_eq!(rel(&["a"]).parent(), Some(PathName::new()));
    assert_eq!(abs(&[]).parent_or_empty(), PathName::new());
    assert_eq!(p.join("x".to_string()), abs(&["home", "user", "x"]));
    assert_eq!(rel(&["a", "b"]).to_text(), "a/b");
    assert_eq!(p.to_text(), "/home/user");
    assert!(p != rel(&["home", "user"]));
}

#[test]
fn leave_from_a_line_of_text() {
    let mut app = App::new(abs(&["r"]), listing(&[("f.txt", false)]));
    app.update_child_items(Fetched::Text(Some("a\nb".to_string())));
    app.move_child();
    app.update_child_items(Fetched::Nothing);
    app.move_down();
    app.update_child_items(Fetched::Nothing);
    app.move_child();
    assert_eq!(app.pwd, rel(&["b"]));
    assert!(app.move_parent() == false);
    assert!(app.pwd.is_empty());
    assert_eq!(app.items.selected(), 1);
    assert_eq!(app.items.items[1].path, rel(&["b"]));
    assert_eq!(app.child_items[0].state, State::Empty);
    assert!(!app.move_parent());
    assert!(app.pwd.is_empty());
}
