//! One package of the device as the list shows it, and the rules by which it
//! may be removed and restored.

use vstd::prelude::*;
use vstd::string::*;

verus! {

/// Whether a package is installed on the device.
#[derive(Clone, Copy, Debug, PartialEq, Eq, Structural)]
pub enum PackageState {
    Installed,
    Uninstalled,
}

/// A change of a package's state that the device can be asked for.
#[derive(Clone, Copy, Debug, PartialEq, Eq, Structural)]
pub enum Action {
    Remove,
    Restore,
}

/// The tier of the packages that must stay on the device.
pub open spec fn unsafe_tier() -> Seq<char> {
    "unsafe"@
}

/// The state that `action` leads to from `state`, for a package of the given
/// tier; `None` where the action is not allowed. A package is removed only
/// while installed and outside the unsafe tier, and restored only while
/// uninstalled.
pub open spec fn next_state(state: PackageState, confidence: Seq<char>, action: Action) -> Option<
    PackageState,
> {
    match (state, action) {
        (PackageState::Installed, Action::Remove) => if confidence == unsafe_tier() {
            None
        } else {
            Some(PackageState::Uninstalled)
        },
        (PackageState::Uninstalled, Action::Restore) => Some(PackageState::Installed),
        _ => None,
    }
}

/// The action that a batch takes on a package in `state`: installed packages
/// are removed, uninstalled ones restored.
pub open spec fn batch_action(state: PackageState) -> Action {
    match state {
        PackageState::Installed => Action::Remove,
        PackageState::Uninstalled => Action::Restore,
    }
}

/// A package of the device: its name, its state, what the catalog says of it,
/// and whether it is marked for the next batch.
#[derive(Debug, PartialEq, Eq)]
pub struct PackageRow {
    pub name: String,
    pub state: PackageState,
    pub description: String,
    pub uad_list: String,
    pub confidence: String,
    pub selected: bool,
}

/// What a `PackageRow` holds, as plain values.
pub struct PackageRowView {
    pub name: Seq<char>,
    pub state: PackageState,
    pub description: Seq<char>,
    pub uad_list: Seq<char>,
    pub confidence: Seq<char>,
    pub selected: bool,
}

impl PackageRowView {
    /// The same package with its mark set to `selected`.
    pub open spec fn marked(self, selected: bool) -> PackageRowView {
        PackageRowView { selected, ..self }
    }

    /// The same package in another state.
    pub open spec fn in_state(self, state: PackageState) -> PackageRowView {
        PackageRowView { state, ..self }
    }

    /// The package after `action` was carried out on the device: in the next
    /// state where the action is allowed, unchanged where it is not.
    pub open spec fn after(self, action: Action) -> PackageRowView {
        match next_state(self.state, self.confidence, action) {
            Some(state) => self.in_state(state),
            None => self,
        }
    }
}

impl View for PackageRow {
    type V = PackageRowView;

    open spec fn view(&self) -> PackageRowView {
        PackageRowView {
            name: self.name@,
            state: self.state,
            description: self.description@,
            uad_list: self.uad_list@,
            confidence: self.confidence@,
            selected: self.selected,
        }
    }
}

/// The packages that a vector of rows holds.
pub open spec fn rows_view(rows: Seq<PackageRow>) -> Seq<PackageRowView> {
    rows.map_values(|r: PackageRow| r@)
}

/// The button that a row offers: what it would do, whether it can be pressed,
/// and the message that a press sends.
#[derive(Clone, Copy, Debug, PartialEq, Eq, Structural)]
pub struct RowButton {
    pub action: Action,
    pub enabled: bool,
    pub on_press: RowMessage,
}

/// The button of `row`: an installed package offers its removal, which is
/// disabled and sends nothing in the unsafe tier; an uninstalled package
/// offers to be restored.
pub open spec fn row_button(row: PackageRowView) -> RowButton {
    match row.state {
        PackageState::Installed => if row.confidence == unsafe_tier() {
            RowButton { action: Action::Remove, enabled: false, on_press: RowMessage::NoEvent }
        } else {
            RowButton {
                action: Action::Remove,
                enabled: true,
                on_press: RowMessage::RemovePressed,
            }
        },
        PackageState::Uninstalled => RowButton {
            action: Action::Restore,
            enabled: true,
            on_press: RowMessage::RestorePressed,
        },
    }
}

/// What the user did to one row of the list.
#[derive(Clone, Copy, Debug, PartialEq, Eq, Structural)]
pub enum RowMessage {
    NoEvent,
    RemovePressed,
    RestorePressed,
    UpdateSelection(bool),
}

impl Clone for PackageRow {
    fn clone(&self) -> (copy: Self)
        ensures
            copy@ == self@,
    {
        PackageRow {
            name: self.name.clone(),
            state: self.state,
            description: self.description.clone(),
            uad_list: self.uad_list.clone(),
            confidence: self.confidence.clone(),
            selected: self.selected,
        }
    }
}

impl PackageRow {
    /// A row that holds what it is given.
    pub fn new(
        name: &str,
        state: PackageState,
        description: &str,
        uad_list: &str,
        confidence: &str,
        selected: bool,
    ) -> (row: Self)
        ensures
            row@ == (PackageRowView {
                name: name@,
                state,
                description: description@,
                uad_list: uad_list@,
                confidence: confidence@,
                selected,
            }),
    {
        PackageRow {
            name: name.to_owned(),
            state,
            description: description.to_owned(),
            uad_list: uad_list.to_owned(),
            confidence: confidence.to_owned(),
            selected,
        }
    }

    /// Whether the package is in the tier that must stay on the device.
    pub fn is_unsafe(&self) -> (held: bool)
        ensures
            held == (self.confidence@ == unsafe_tier()),
    {
        let tier = "unsafe".to_owned();
        self.confidence == tier
    }

    /// The button that this row offers. It is enabled if and only if its action
    /// is allowed.
    pub fn button(&self) -> (button: RowButton)
        ensures
            button == row_button(self@),
            button.action == batch_action(self.state),
            button.enabled == next_state(self.state, self.confidence@, button.action) is Some,
    {
        match self.state {
            PackageState::Installed => if self.is_unsafe() {
                RowButton { action: Action::Remove, enabled: false, on_press: RowMessage::NoEvent }
            } else {
                RowButton {
                    action: Action::Remove,
                    enabled: true,
                    on_press: RowMessage::RemovePressed,
                }
            },
            PackageState::Uninstalled => RowButton {
                action: Action::Restore,
                enabled: true,
                on_press: RowMessage::RestorePressed,
            },
        }
    }

    /// The state that `action` would lead to, if it is allowed.
    pub fn allowed(&self, action: Action) -> (next: Option<PackageState>)
        ensures
            next == next_state(self.state, self.confidence@, action),
    {
        match (self.state, action) {
            (PackageState::Installed, Action::Remove) => if self.is_unsafe() {
                None
            } else {
                Some(PackageState::Uninstalled)
            },
            (PackageState::Uninstalled, Action::Restore) => Some(PackageState::Installed),
            _ => None,
        }
    }

    /// Takes in what the user did to this row. A tick sets the mark. A press on
    /// remove or restore changes nothing yet: it returns the action to ask the
    /// device for, or `None` where the action is not allowed.
    pub fn update(&mut self, message: RowMessage) -> (request: Option<Action>)
        ensures
            final(self)@ == match message {
                RowMessage::UpdateSelection(toggled) => old(self)@.marked(toggled),
                _ => old(self)@,
            },
            request == match message {
                RowMessage::RemovePressed => if next_state(
                    old(self).state,
                    old(self).confidence@,
                    Action::Remove,
                ) is Some {
                    Some(Action::Remove)
                } else {
                    None
                },
                RowMessage::RestorePressed => if next_state(
                    old(self).state,
                    old(self).confidence@,
                    Action::Restore,
                ) is Some {
                    Some(Action::Restore)
                } else {
                    None
                },
                _ => None,
            },
    {
        match message {
            RowMessage::NoEvent => None,
            RowMessage::UpdateSelection(toggled) => {
                self.selected = toggled;
                None
            },
            RowMessage::RemovePressed => {
                if self.allowed(Action::Remove).is_some() {
                    Some(Action::Remove)
                } else {
                    None
                }
            },
            RowMessage::RestorePressed => {
                if self.allowed(Action::Restore).is_some() {
                    Some(Action::Restore)
                } else {
                    None
                }
            },
        }
    }

    /// Records that the device carried out `action` on this package: the row
    /// moves to the next state where the action is allowed, and stays as it is
    /// where it is not.
    pub fn settle(&mut self, action: Action) -> (moved: bool)
        ensures
            final(self)@ == old(self)@.after(action),
            moved == next_state(old(self).state, old(self).confidence@, action) is Some,
    {
        match self.allowed(action) {
            Some(state) => {
                self.state = state;
                true
            },
            None => false,
        }
    }
}

} // verus!
