//! The package list: the inventory, what the filter shows of it, and the marks,
//! kept consistent under every message.
//!
//! The list never talks to the device. `List::update` takes a message — what
//! the user did, or what the device answered — and returns the `Command` that
//! the caller is to carry out; the caller sends the answer back as a message.

use crate::batch::{
    batch_plan, plan_batch, requests_view, settle_all, settled, Request, RequestView,
};
use crate::catalog::{build_inventory, catalog_view, inventory_of, DeviceSnapshot};
use crate::filter::{
    default_criteria, visible_packages, visible_rows, FilterCriteria, FilterCriteriaView,
    LabelFilter, StateFilter,
};
use crate::order::texts;
use crate::row::{next_state, rows_view, Action, PackageRow, PackageRowView, RowMessage};
use crate::selection::{names_of, Selection};
use vstd::prelude::*;
use vstd::string::*;

verus! {

/// How the device answered a request.
#[derive(Clone, Copy, Debug, PartialEq, Eq, Structural)]
pub enum Outcome {
    /// The device carried the action out.
    Done,
    /// The device was reached and refused or failed.
    Failed,
    /// The device could not be reached.
    Unavailable,
}

/// What the caller is to do after a message.
#[derive(Clone, Debug, PartialEq, Eq)]
pub enum Command {
    /// Nothing.
    Nothing,
    /// Fetch the device's packages and the catalog, and send `LoadPackages`
    /// with this ticket.
    Load(u64),
    /// Make these calls on the device, in this order, each whatever became of
    /// the ones before it, and send `ActionFinished` for each.
    Perform(Vec<Request>),
}

/// What a `Command` holds, as plain values.
pub enum CommandView {
    Nothing,
    Load(u64),
    Perform(Seq<RequestView>),
}

impl View for Command {
    type V = CommandView;

    open spec fn view(&self) -> CommandView {
        match self {
            Command::Nothing => CommandView::Nothing,
            Command::Load(ticket) => CommandView::Load(*ticket),
            Command::Perform(requests) => CommandView::Perform(requests_view(requests@)),
        }
    }
}

/// Why a message could not be acted on.
#[derive(Clone, Debug, PartialEq, Eq)]
pub enum ListError {
    /// The device could not be reached.
    GatewayUnavailable,
    /// The device failed to remove or restore the package of this name.
    ActionFailed(String),
}

/// What a `ListError` holds, as plain values.
pub enum ListErrorView {
    GatewayUnavailable,
    ActionFailed(Seq<char>),
}

impl View for ListError {
    type V = ListErrorView;

    open spec fn view(&self) -> ListErrorView {
        match self {
            ListError::GatewayUnavailable => ListErrorView::GatewayUnavailable,
            ListError::ActionFailed(name) => ListErrorView::ActionFailed(name@),
        }
    }
}

/// What `List::update` answers, as plain values.
pub open spec fn reply_view(reply: Result<Command, ListError>) -> Result<
    CommandView,
    ListErrorView,
> {
    match reply {
        Ok(command) => Ok(command@),
        Err(error) => Err(error@),
    }
}

/// What happened: what the user did, or what the device answered.
#[derive(Clone, Debug, PartialEq, Eq)]
pub enum Message {
    /// The search text is now this.
    SearchInputChanged(String),
    /// The user asked for the inventory to be loaded anew.
    LoadRequested,
    /// The load with this ticket ended: with what the device reported, or with
    /// `None` where the device could not be reached.
    LoadPackages(u64, Option<DeviceSnapshot>),
    /// The category filter is now this.
    ListSelected(LabelFilter),
    /// The state filter is now this.
    PackageStateSelected(StateFilter),
    /// The tier filter is now this.
    PreselectionSelected(LabelFilter),
    /// The user asked for the batch: remove or restore every marked package
    /// that the list shows.
    ApplyActionOnSelection,
    /// The user asked to mark every package that the list shows.
    SelectAllPressed,
    /// The user did something to the row at this position of what the list
    /// shows.
    List(usize, RowMessage),
    /// The device answered the request to carry out this action on the package
    /// of this name.
    ActionFinished(String, Action, Outcome),
}

/// The ticket after `ticket`.
pub open spec fn next_ticket(ticket: u64) -> u64 {
    if ticket == u64::MAX {
        0
    } else {
        (ticket + 1) as u64
    }
}

/// The call that a press on `row` asks for, if the pressed action is allowed.
pub open spec fn press_plan(row: PackageRowView, message: RowMessage) -> CommandView {
    let action = match message {
        RowMessage::RemovePressed => Some(Action::Remove),
        RowMessage::RestorePressed => Some(Action::Restore),
        _ => None,
    };
    match action {
        Some(a) => if next_state(row.state, row.confidence, a) is Some {
            CommandView::Perform(seq![RequestView { name: row.name, action: a }])
        } else {
            CommandView::Nothing
        },
        None => CommandView::Nothing,
    }
}

/// What a `List` holds, as plain values. What the list shows is no part of it:
/// it follows from the inventory, the criteria and the selection.
pub struct ListView {
    /// Whether an inventory was ever loaded.
    pub ready: bool,
    /// The inventory, as last loaded and as the device's answers changed it.
    pub inventory: Seq<PackageRowView>,
    /// The names marked for the next batch.
    pub selection: Set<Seq<char>>,
    /// What the user asked the list to show.
    pub criteria: FilterCriteriaView,
    /// The description of the row that the user touched last.
    pub description: Seq<char>,
    /// The ticket of the load that was asked for last.
    pub load_ticket: u64,
    /// Whether that load is still awaited.
    pub load_pending: bool,
}

impl ListView {
    /// A list before its first load.
    pub open spec fn initial() -> ListView {
        ListView {
            ready: false,
            inventory: Seq::empty(),
            selection: Set::empty(),
            criteria: default_criteria(),
            description: Seq::empty(),
            load_ticket: 0,
            load_pending: false,
        }
    }

    /// What the list shows.
    pub open spec fn visible(self) -> Seq<PackageRowView> {
        visible_rows(self.inventory, self.criteria, self.selection)
    }

    /// The list with the mark of `name` flipped.
    pub open spec fn toggled(self, name: Seq<char>) -> ListView {
        ListView {
            selection: if self.selection.contains(name) {
                self.selection.remove(name)
            } else {
                self.selection.insert(name)
            },
            ..self
        }
    }

    /// The message is the answer to the load that is awaited.
    pub open spec fn awaits(self, ticket: u64) -> bool {
        self.load_pending && ticket == self.load_ticket
    }

    /// The list after `message`.
    pub open spec fn after(self, message: Message) -> ListView {
        match message {
            Message::SearchInputChanged(text) => ListView {
                criteria: FilterCriteriaView { search: text@, ..self.criteria },
                ..self
            },
            Message::ListSelected(filter) => ListView {
                criteria: FilterCriteriaView { list: filter@, ..self.criteria },
                ..self
            },
            Message::PackageStateSelected(filter) => ListView {
                criteria: FilterCriteriaView { state: filter, ..self.criteria },
                ..self
            },
            Message::PreselectionSelected(filter) => ListView {
                criteria: FilterCriteriaView { confidence: filter@, ..self.criteria },
                ..self
            },
            Message::SelectAllPressed => ListView {
                selection: self.selection.union(names_of(self.visible())),
                ..self
            },
            Message::ApplyActionOnSelection => self,
            Message::List(i, row_message) => {
                let row = self.visible()[i as int];
                let shown = ListView { description: row.description, ..self };
                match row_message {
                    RowMessage::UpdateSelection(_) => shown.toggled(row.name),
                    _ => shown,
                }
            },
            Message::ActionFinished(name, action, outcome) => match outcome {
                Outcome::Done => ListView {
                    inventory: settled(self.inventory, name@, action),
                    ..self
                },
                _ => self,
            },
            Message::LoadRequested => ListView {
                load_ticket: next_ticket(self.load_ticket),
                load_pending: true,
                ..self
            },
            Message::LoadPackages(ticket, result) => if self.awaits(ticket) {
                match result {
                    Some(snapshot) => ListView {
                        ready: true,
                        inventory: inventory_of(
                            texts(snapshot.packages@),
                            texts(snapshot.installed@),
                            catalog_view(snapshot.catalog@),
                        ),
                        selection: Set::empty(),
                        criteria: default_criteria(),
                        load_pending: false,
                        ..self
                    },
                    None => ListView { load_pending: false, ..self },
                }
            } else {
                self
            },
        }
    }

    /// What the list answers to `message`.
    pub open spec fn reply(self, message: Message) -> Result<CommandView, ListErrorView> {
        match message {
            Message::ApplyActionOnSelection => Ok(CommandView::Perform(batch_plan(self.visible()))),
            Message::List(i, row_message) => Ok(press_plan(self.visible()[i as int], row_message)),
            Message::ActionFinished(name, action, outcome) => match outcome {
                Outcome::Done => Ok(CommandView::Nothing),
                Outcome::Failed => Err(ListErrorView::ActionFailed(name@)),
                Outcome::Unavailable => Err(ListErrorView::GatewayUnavailable),
            },
            Message::LoadRequested => Ok(CommandView::Load(next_ticket(self.load_ticket))),
            Message::LoadPackages(ticket, result) => if self.awaits(ticket) && result is None {
                Err(ListErrorView::GatewayUnavailable)
            } else {
                Ok(CommandView::Nothing)
            },
            _ => Ok(CommandView::Nothing),
        }
    }
}

/// The package list.
#[derive(Debug)]
pub struct List {
    ready: bool,
    filtered_packages: Vec<PackageRow>,
    phone_packages: Vec<PackageRow>,
    selected_packages: Selection,
    criteria: FilterCriteria,
    description: String,
    load_ticket: u64,
    load_pending: bool,
}

impl View for List {
    type V = ListView;

    closed spec fn view(&self) -> ListView {
        ListView {
            ready: self.ready,
            inventory: rows_view(self.phone_packages@),
            selection: self.selected_packages@,
            criteria: self.criteria@,
            description: self.description@,
            load_ticket: self.load_ticket,
            load_pending: self.load_pending,
        }
    }
}

impl Default for List {
    fn default() -> (list: Self)
        ensures
            list.wf(),
            list@ == ListView::initial(),
    {
        List::new()
    }
}

impl List {
    /// The rows that the list holds ready are what it shows, and its selection
    /// is well formed. Every list that this module hands out is well formed,
    /// and `update` keeps it so.
    pub closed spec fn wf(&self) -> bool {
        &&& self.selected_packages.wf()
        &&& rows_view(self.filtered_packages@) == self@.visible()
    }

    /// A list before its first load: no packages, no marks, the default
    /// criteria.
    pub fn new() -> (list: Self)
        ensures
            list.wf(),
            list@ == ListView::initial(),
    {
        let mut list = List {
            ready: false,
            filtered_packages: Vec::new(),
            phone_packages: Vec::new(),
            selected_packages: Selection::new(),
            criteria: FilterCriteria::default(),
            description: String::new(),
            load_ticket: 0,
            load_pending: false,
        };
        assert(rows_view(list.phone_packages@) =~= Seq::<PackageRowView>::empty());
        list.filter_package_lists();
        list
    }

    /// Whether a load was asked for and is still awaited.
    pub fn loading(&self) -> (pending: bool)
        ensures
            pending == self@.load_pending,
    {
        self.load_pending
    }

    /// Whether an inventory was ever loaded.
    pub fn ready(&self) -> (ready: bool)
        ensures
            ready == self@.ready,
    {
        self.ready
    }

    /// The inventory.
    pub fn phone_packages(&self) -> (rows: &Vec<PackageRow>)
        ensures
            rows_view(rows@) == self@.inventory,
    {
        &self.phone_packages
    }

    /// What the list shows.
    pub fn filtered_packages(&self) -> (rows: &Vec<PackageRow>)
        requires
            self.wf(),
        ensures
            rows_view(rows@) == self@.visible(),
    {
        &self.filtered_packages
    }

    /// The names marked for the next batch.
    pub fn selected_packages(&self) -> (selection: &Selection)
        requires
            self.wf(),
        ensures
            selection.wf(),
            selection@ == self@.selection,
    {
        &self.selected_packages
    }

    /// How many names are marked, whether the list shows them or not.
    pub fn selected_count(&self) -> (n: usize)
        requires
            self.wf(),
        ensures
            n == self@.selection.len(),
            self@.selection.finite(),
    {
        self.selected_packages.count()
    }

    /// What the user asked the list to show.
    pub fn criteria(&self) -> (criteria: &FilterCriteria)
        ensures
            criteria@ == self@.criteria,
    {
        &self.criteria
    }

    /// The search text.
    pub fn input_value(&self) -> (text: &String)
        ensures
            text@ == self@.criteria.search,
    {
        &self.criteria.search
    }

    /// The description of the row that the user touched last.
    pub fn description(&self) -> (text: &String)
        ensures
            text@ == self@.description,
    {
        &self.description
    }

    /// Works out anew what the list shows, from the inventory, the criteria and
    /// the selection.
    fn filter_package_lists(&mut self)
        requires
            old(self).selected_packages.wf(),
        ensures
            final(self).wf(),
            final(self)@ == old(self)@,
    {
        self.filtered_packages =
        visible_packages(&self.phone_packages, &self.criteria, &self.selected_packages);
    }

    /// Takes in one message: changes the list as the message asks, works out
    /// anew what the list shows, and answers with what the caller is to do.
    ///
    /// A change of the search text or of a filter changes the criteria and
    /// nothing else. A tick on a row flips the mark of its name; `SelectAllPressed`
    /// marks every name that the list shows and keeps every other mark. A press on
    /// a row's button and `ApplyActionOnSelection` change nothing: they answer
    /// with the calls to make, none of them a removal of a package of the unsafe
    /// tier. `ActionFinished` moves the named package to its next state if the
    /// device carried the action out and the action is allowed, and answers with
    /// an error, the inventory unchanged, if the device did not. `LoadPackages`
    /// replaces the inventory, clears the marks and resets the criteria if it
    /// answers the load asked for last; it answers with an error, the list
    /// unchanged, if the device could not be reached; and it is passed over if
    /// it answers an earlier load.
    pub fn update(&mut self, message: Message) -> (reply: Result<Command, ListError>)
        requires
            old(self).wf(),
            message matches Message::List(i, _) ==> i < old(self)@.visible().len(),
        ensures
            final(self).wf(),
            final(self)@ == old(self)@.after(message),
            reply_view(reply) == old(self)@.reply(message),
    {
        match message {
            Message::SearchInputChanged(text) => {
                self.criteria.search = text;
                self.filter_package_lists();
                Ok(Command::Nothing)
            },
            Message::ListSelected(filter) => {
                self.criteria.list = filter;
                self.filter_package_lists();
                Ok(Command::Nothing)
            },
            Message::PackageStateSelected(filter) => {
                self.criteria.state = filter;
                self.filter_package_lists();
                Ok(Command::Nothing)
            },
            Message::PreselectionSelected(filter) => {
                self.criteria.confidence = filter;
                self.filter_package_lists();
                Ok(Command::Nothing)
            },
            Message::SelectAllPressed => {
                self.selected_packages.select_all(&self.filtered_packages);
                self.filter_package_lists();
                Ok(Command::Nothing)
            },
            Message::ApplyActionOnSelection => Ok(
                Command::Perform(plan_batch(&self.filtered_packages)),
            ),
            Message::List(i, row_message) => {
                let mut row = self.filtered_packages[i].clone();
                self.description = row.description.clone();
                let request = row.update(row_message);
                if let RowMessage::UpdateSelection(_) = row_message {
                    self.selected_packages.toggle(row.name.as_str());
                    self.filter_package_lists();
                }
                match request {
                    Some(action) => {
                        let mut requests: Vec<Request> = Vec::new();
                        requests.push(Request { name: row.name, action });
                        assert(requests_view(requests@) =~= seq![
                            RequestView { name: row.name@, action },
                        ]);
                        Ok(Command::Perform(requests))
                    },
                    None => Ok(Command::Nothing),
                }
            },
            Message::ActionFinished(name, action, outcome) => match outcome {
                Outcome::Done => {
                    self.phone_packages = settle_all(&self.phone_packages, name.as_str(), action);
                    self.filter_package_lists();
                    Ok(Command::Nothing)
                },
                Outcome::Failed => Err(ListError::ActionFailed(name)),
                Outcome::Unavailable => Err(ListError::GatewayUnavailable),
            },
            Message::LoadRequested => {
                let ticket = if self.load_ticket == u64::MAX {
                    0
                } else {
                    self.load_ticket + 1
                };
                self.load_ticket = ticket;
                self.load_pending = true;
                Ok(Command::Load(ticket))
            },
            Message::LoadPackages(ticket, result) => {
                if self.load_pending && ticket == self.load_ticket {
                    self.load_pending = false;
                    match result {
                        Some(snapshot) => {
                            self.phone_packages =
                            build_inventory(
                                &snapshot.packages,
                                &snapshot.installed,
                                &snapshot.catalog,
                            );
                            self.selected_packages = Selection::new();
                            self.criteria = FilterCriteria::default();
                            self.ready = true;
                            self.filter_package_lists();
                            Ok(Command::Nothing)
                        },
                        None => Err(ListError::GatewayUnavailable),
                    }
                } else {
                    Ok(Command::Nothing)
                }
            },
        }
    }
}

} // verus!
