use package_list::row::{Action, PackageRow, PackageState, RowButton, RowMessage};

fn row(state: PackageState, confidence: &str) -> PackageRow {
    PackageRow::new("com.example.app", state, "An example", "oem", confidence, false)
}

#[test]
fn new_row_holds_what_it_was_given() {
    let r = PackageRow::new("a.app", PackageState::Uninstalled, "desc", "google", "advanced", true);
    assert_eq!(r.name, "a.app");
    assert_eq!(r.state, PackageState::Uninstalled);
    assert_eq!(r.description, "desc");
    assert_eq!(r.uad_list, "google");
    assert_eq!(r.confidence, "advanced");
    assert!(r.selected);
}

#[test]
fn clone_of_a_row_is_equal() {
    let r = PackageRow::new("a.app", PackageState::Installed, "desc", "google", "safe", true);
    assert_eq!(r.clone(), r);
}

#[test]
fn only_the_unsafe_tier_is_unsafe() {
    assert!(row(PackageState::Installed, "unsafe").is_unsafe());
    assert!(!row(PackageState::Installed, "safe").is_unsafe());
    assert!(!row(PackageState::Installed, "").is_unsafe());
    assert!(!row(PackageState::Installed, "Unsafe").is_unsafe());
    assert!(!row(PackageState::Installed, "unsafe ").is_unsafe());
}

#[test]
fn removal_is_allowed_for_installed_packages_outside_the_unsafe_tier() {
    assert_eq!(
        row(PackageState::Installed, "safe").allowed(Action::Remove),
        Some(PackageState::Uninstalled)
    );
    assert_eq!(
        row(PackageState::Installed, "").allowed(Action::Remove),
        Some(PackageState::Uninstalled)
    );
    assert_eq!(row(PackageState::Installed, "unsafe").allowed(Action::Remove), None);
    assert_eq!(row(PackageState::Uninstalled, "safe").allowed(Action::Remove), None);
}

#[test]
fn restoring_is_allowed_for_uninstalled_packages_of_any_tier() {
    assert_eq!(
        row(PackageState::Uninstalled, "safe").allowed(Action::Restore),
        Some(PackageState::Installed)
    );
    assert_eq!(
        row(PackageState::Uninstalled, "unsafe").allowed(Action::Restore),
        Some(PackageState::Installed)
    );
    assert_eq!(row(PackageState::Installed, "safe").allowed(Action::Restore), None);
}

#[test]
fn update_with_no_event_changes_nothing() {
    let mut r = row(PackageState::Installed, "safe");
    assert_eq!(r.update(RowMessage::NoEvent), None);
    assert_eq!(r, row(PackageState::Installed, "safe"));
}

#[test]
fn update_selection_sets_the_mark() {
    let mut r = row(PackageState::Installed, "safe");
    assert_eq!(r.update(RowMessage::UpdateSelection(true)), None);
    assert!(r.selected);
    assert_eq!(r.update(RowMessage::UpdateSelection(true)), None);
    assert!(r.selected);
    assert_eq!(r.update(RowMessage::UpdateSelection(false)), None);
    assert!(!r.selected);
    assert_eq!(r.state, PackageState::Installed);
}

#[test]
fn remove_pressed_asks_for_removal_and_keeps_the_state() {
    let mut r = row(PackageState::Installed, "safe");
    assert_eq!(r.update(RowMessage::RemovePressed), Some(Action::Remove));
    assert_eq!(r.state, PackageState::Installed);
}

#[test]
fn remove_pressed_on_an_unsafe_package_asks_for_nothing() {
    let mut r = row(PackageState::Installed, "unsafe");
    assert_eq!(r.update(RowMessage::RemovePressed), None);
    assert_eq!(r, row(PackageState::Installed, "unsafe"));
}

#[test]
fn remove_pressed_on_an_uninstalled_package_asks_for_nothing() {
    let mut r = row(PackageState::Uninstalled, "safe");
    assert_eq!(r.update(RowMessage::RemovePressed), None);
    assert_eq!(r.state, PackageState::Uninstalled);
}

#[test]
fn restore_pressed_asks_to_restore_even_in_the_unsafe_tier() {
    let mut r = row(PackageState::Uninstalled, "unsafe");
    assert_eq!(r.update(RowMessage::RestorePressed), Some(Action::Restore));
    assert_eq!(r.state, PackageState::Uninstalled);
    let mut installed = row(PackageState::Installed, "safe");
    assert_eq!(installed.update(RowMessage::RestorePressed), None);
}

#[test]
fn settle_moves_to_the_next_state() {
    let mut r = row(PackageState::Installed, "safe");
    assert!(r.settle(Action::Remove));
    assert_eq!(r.state, PackageState::Uninstalled);
    assert!(r.settle(Action::Restore));
    assert_eq!(r.state, PackageState::Installed);
    assert!(r.settle(Action::Remove));
    assert_eq!(r.state, PackageState::Uninstalled);
}

#[test]
fn settle_passes_over_what_is_not_allowed() {
    let mut held = row(PackageState::Installed, "unsafe");
    assert!(!held.settle(Action::Remove));
    assert_eq!(held, row(PackageState::Installed, "unsafe"));
    let mut installed = row(PackageState::Installed, "safe");
    assert!(!installed.settle(Action::Restore));
    assert_eq!(installed.state, PackageState::Installed);
    let mut gone = row(PackageState::Uninstalled, "safe");
    assert!(!gone.settle(Action::Remove));
    assert_eq!(gone.state, PackageState::Uninstalled);
}

#[test]
fn button_of_an_installed_package_removes() {
    assert_eq!(
        row(PackageState::Installed, "safe").button(),
        RowButton { action: Action::Remove, enabled: true, on_press: RowMessage::RemovePressed }
    );
}

#[test]
fn button_of_an_unsafe_installed_package_is_disabled() {
    assert_eq!(
        row(PackageState::Installed, "unsafe").button(),
        RowButton { action: Action::Remove, enabled: false, on_press: RowMessage::NoEvent }
    );
}

#[test]
fn button_of_an_uninstalled_package_restores() {
    assert_eq!(
        row(PackageState::Uninstalled, "unsafe").button(),
        RowButton { action: Action::Restore, enabled: true, on_press: RowMessage::RestorePressed }
    );
}
