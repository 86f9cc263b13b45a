use package_list::batch::{plan_batch, settle_all, Request};
use package_list::row::{Action, PackageRow, PackageState};

fn pkg(name: &str, state: PackageState, tier: &str, selected: bool) -> PackageRow {
    PackageRow::new(name, state, "about it", "oem", tier, selected)
}

fn call(name: &str, action: Action) -> Request {
    Request { name: name.to_string(), action }
}

#[test]
fn plan_batch_of_no_rows_is_empty() {
    assert_eq!(plan_batch(&Vec::new()), Vec::new());
}

#[test]
fn plan_batch_removes_installed_and_restores_uninstalled() {
    let rows = vec![
        pkg("a", PackageState::Installed, "safe", true),
        pkg("b", PackageState::Uninstalled, "safe", true),
        pkg("c", PackageState::Installed, "", true),
        pkg("d", PackageState::Uninstalled, "unsafe", true),
    ];
    assert_eq!(
        plan_batch(&rows),
        vec![
            call("a", Action::Remove),
            call("b", Action::Restore),
            call("c", Action::Remove),
            call("d", Action::Restore),
        ]
    );
}

#[test]
fn plan_batch_passes_over_unmarked_rows() {
    let rows = vec![
        pkg("a", PackageState::Installed, "safe", false),
        pkg("b", PackageState::Uninstalled, "safe", true),
        pkg("c", PackageState::Installed, "safe", false),
    ];
    assert_eq!(plan_batch(&rows), vec![call("b", Action::Restore)]);
}

#[test]
fn plan_batch_passes_over_installed_unsafe_rows() {
    let rows = vec![
        pkg("a", PackageState::Installed, "unsafe", true),
        pkg("b", PackageState::Installed, "safe", true),
        pkg("c", PackageState::Installed, "unsafe", true),
    ];
    assert_eq!(plan_batch(&rows), vec![call("b", Action::Remove)]);
}

#[test]
fn plan_batch_keeps_the_order_of_the_rows() {
    let rows = vec![
        pkg("z", PackageState::Installed, "safe", true),
        pkg("a", PackageState::Installed, "safe", true),
    ];
    assert_eq!(plan_batch(&rows), vec![call("z", Action::Remove), call("a", Action::Remove)]);
}

#[test]
fn settle_all_moves_the_named_package_only() {
    let rows = vec![
        pkg("a", PackageState::Installed, "safe", false),
        pkg("b", PackageState::Installed, "safe", true),
        pkg("c", PackageState::Uninstalled, "safe", false),
    ];
    let after = settle_all(&rows, "b", Action::Remove);
    assert_eq!(
        after,
        vec![
            pkg("a", PackageState::Installed, "safe", false),
            pkg("b", PackageState::Uninstalled, "safe", true),
            pkg("c", PackageState::Uninstalled, "safe", false),
        ]
    );
    let back = settle_all(&after, "b", Action::Restore);
    assert_eq!(back, rows);
}

#[test]
fn settle_all_passes_over_what_is_not_allowed() {
    let rows = vec![
        pkg("a", PackageState::Installed, "unsafe", true),
        pkg("b", PackageState::Uninstalled, "safe", true),
    ];
    assert_eq!(settle_all(&rows, "a", Action::Remove), rows);
    assert_eq!(settle_all(&rows, "a", Action::Restore), rows);
    assert_eq!(settle_all(&rows, "b", Action::Remove), rows);
    assert_eq!(settle_all(&rows, "x", Action::Remove), rows);
    assert_eq!(settle_all(&Vec::new(), "a", Action::Remove), Vec::new());
}

#[test]
fn settle_all_moves_every_row_of_the_name() {
    let rows = vec![
        pkg("a", PackageState::Installed, "safe", false),
        pkg("a", PackageState::Uninstalled, "safe", false),
        pkg("a", PackageState::Installed, "unsafe", false),
    ];
    assert_eq!(
        settle_all(&rows, "a", Action::Remove),
        vec![
            pkg("a", PackageState::Uninstalled, "safe", false),
            pkg("a", PackageState::Uninstalled, "safe", false),
            pkg("a", PackageState::Installed, "unsafe", false),
        ]
    );
}
