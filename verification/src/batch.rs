//! The batch: the calls to make on the device for the packages that are
//! marked, and what the device's answers do to the inventory.

use crate::row::{
    batch_action, next_state, rows_view, Action, PackageRow, PackageRowView, PackageState,
};
use vstd::prelude::*;
use vstd::string::*;

verus! {

/// One call to make on the device.
#[derive(Clone, Debug, PartialEq, Eq)]
pub struct Request {
    pub name: String,
    pub action: Action,
}

/// What a `Request` holds, as plain values.
pub struct RequestView {
    pub name: Seq<char>,
    pub action: Action,
}

impl View for Request {
    type V = RequestView;

    open spec fn view(&self) -> RequestView {
        RequestView { name: self.name@, action: self.action }
    }
}

/// The calls that a vector of requests holds.
pub open spec fn requests_view(requests: Seq<Request>) -> Seq<RequestView> {
    requests.map_values(|r: Request| r@)
}

/// The inventory after the device carried out `action` on the packages named
/// `name`: those move to the next state where the action is allowed, and every
/// other package stays as it is.
pub open spec fn settled(inventory: Seq<PackageRowView>, name: Seq<char>, action: Action) -> Seq<
    PackageRowView,
> {
    inventory.map_values(
        |r: PackageRowView|
            if r.name == name {
                r.after(action)
            } else {
                r
            },
    )
}

/// The batch reaches `row`: it is marked, and the action that the batch takes
/// on a package in its state is allowed.
pub open spec fn dispatchable(row: PackageRowView) -> bool {
    row.selected && next_state(row.state, row.confidence, batch_action(row.state)) is Some
}

/// The call that the batch makes for `row`.
pub open spec fn request_for(row: PackageRowView) -> RequestView {
    RequestView { name: row.name, action: batch_action(row.state) }
}

/// The calls of a batch over what the list shows: one for each marked row whose
/// action is allowed, in the order shown, and none for any other row.
pub open spec fn batch_plan(visible: Seq<PackageRowView>) -> Seq<RequestView> {
    visible.filter(|r: PackageRowView| dispatchable(r)).map_values(
        |r: PackageRowView| request_for(r),
    )
}

/// The calls of a batch over `visible`: one for each marked row whose action is
/// allowed, in the order of the rows. An installed package is asked to be
/// removed unless it is of the unsafe tier, an uninstalled one to be restored.
pub fn plan_batch(visible: &Vec<PackageRow>) -> (requests: Vec<Request>)
    ensures
        requests_view(requests@) == batch_plan(rows_view(visible@)),
{
    let ghost shown = rows_view(visible@);
    let ghost pred = |r: PackageRowView| dispatchable(r);
    let ghost call = |r: PackageRowView| request_for(r);
    let mut requests: Vec<Request> = Vec::new();
    let mut i: usize = 0;
    while i < visible.len()
        invariant
            i <= visible.len(),
            shown == rows_view(visible@),
            pred == |r: PackageRowView| dispatchable(r),
            call == |r: PackageRowView| request_for(r),
            requests_view(requests@) == shown.take(i as int).filter(pred).map_values(call),
        decreases visible.len() - i,
    {
        let ghost before = requests_view(requests@);
        let row = &visible[i];
        proof {
            assert(shown[i as int] == row@);
            assert(shown.take(i + 1) =~= shown.take(i as int).push(row@));
            shown.take(i as int).lemma_filter_push(row@, pred);
        }
        let action = match row.state {
            PackageState::Installed => Action::Remove,
            PackageState::Uninstalled => Action::Restore,
        };
        if row.selected && row.allowed(action).is_some() {
            requests.push(Request { name: row.name.clone(), action });
            proof {
                let kept = shown.take(i as int).filter(pred);
                assert(requests_view(requests@) =~= before.push(request_for(row@)));
                assert(kept.push(row@).map_values(call) =~= kept.map_values(call).push(
                    request_for(row@),
                ));
            }
        }
        i = i + 1;
    }
    proof {
        assert(shown.take(visible.len() as int) =~= shown);
    }
    requests
}

/// The inventory after the device carried out `action` on the packages named
/// `name`. Only those rows change, and only where the action is allowed.
pub fn settle_all(inventory: &Vec<PackageRow>, name: &str, action: Action) -> (rows: Vec<
    PackageRow,
>)
    ensures
        rows_view(rows@) == settled(rows_view(inventory@), name@, action),
{
    let ghost before = rows_view(inventory@);
    let wanted = name.to_owned();
    let mut rows: Vec<PackageRow> = Vec::new();
    let mut i: usize = 0;
    while i < inventory.len()
        invariant
            i <= inventory.len(),
            wanted@ == name@,
            before == rows_view(inventory@),
            rows_view(rows@) == settled(before.take(i as int), name@, action),
        decreases inventory.len() - i,
    {
        let ghost done = rows_view(rows@);
        let mut row = inventory[i].clone();
        if row.name == wanted {
            row.settle(action);
        }
        rows.push(row);
        proof {
            assert(before[i as int] == inventory[i as int]@);
            assert(rows_view(rows@) =~= done.push(row@));
            assert(rows_view(rows@) =~= settled(before.take(i + 1), name@, action));
        }
        i = i + 1;
    }
    proof {
        assert(before.take(inventory.len() as int) =~= before);
    }
    rows
}

} // verus!
