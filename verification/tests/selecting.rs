use package_list::row::{PackageRow, PackageState};
use package_list::selection::Selection;

fn rows(names: &[&str]) -> Vec<PackageRow> {
    names
        .iter()
        .map(|n| PackageRow::new(n, PackageState::Installed, "", "unlisted", "safe", false))
        .collect()
}

#[test]
fn new_selection_is_empty() {
    let s = Selection::new();
    assert_eq!(s.count(), 0);
    assert!(!s.contains("a.app"));
    assert!(!s.contains(""));
}

#[test]
fn toggle_marks_an_unmarked_name() {
    let mut s = Selection::new();
    s.toggle("a.app");
    assert!(s.contains("a.app"));
    assert!(!s.contains("a.ap"));
    assert!(!s.contains("A.app"));
    assert_eq!(s.count(), 1);
}

#[test]
fn toggle_twice_takes_the_mark_away() {
    let mut s = Selection::new();
    s.toggle("a.app");
    s.toggle("b.app");
    s.toggle("a.app");
    assert!(!s.contains("a.app"));
    assert!(s.contains("b.app"));
    assert_eq!(s.count(), 1);
    s.toggle("a.app");
    assert!(s.contains("a.app"));
    assert_eq!(s.count(), 2);
}

#[test]
fn insert_is_idempotent() {
    let mut s = Selection::new();
    s.insert("a.app");
    s.insert("a.app");
    assert!(s.contains("a.app"));
    assert_eq!(s.count(), 1);
}

#[test]
fn select_all_adds_what_is_shown_and_keeps_the_rest() {
    let mut s = Selection::new();
    s.toggle("hidden.app");
    s.toggle("b.app");
    s.select_all(&rows(&["a.app", "b.app", "c.app"]));
    assert!(s.contains("a.app"));
    assert!(s.contains("b.app"));
    assert!(s.contains("c.app"));
    assert!(s.contains("hidden.app"));
    assert!(!s.contains("other.app"));
    assert_eq!(s.count(), 4);
}

#[test]
fn select_all_of_nothing_changes_nothing() {
    let mut s = Selection::new();
    s.toggle("a.app");
    s.select_all(&rows(&[]));
    assert!(s.contains("a.app"));
    assert_eq!(s.count(), 1);
}

#[test]
fn select_all_counts_a_repeated_name_once() {
    let mut s = Selection::new();
    s.select_all(&rows(&["a.app", "a.app", "b.app"]));
    assert_eq!(s.count(), 2);
}
