//! What holds of the filter and of the list whatever the inventory, the
//! criteria and the messages are.

use crate::catalog::{
    described, device_rows, folded, inventory_of, lookup, DeviceSnapshot, PackageView,
};
use crate::filter::{matching, meets, names_in_order, visible_rows, FilterCriteriaView};
use crate::batch::{batch_plan, dispatchable, request_for, settled, RequestView};
use crate::list::{CommandView, ListErrorView, ListView, Message, Outcome};
use crate::order::{
    ascending, is_permutation, keys_ascend, lemma_sort_prefix, lemma_sort_prefix_of_ascending,
    sort_order,
};
use crate::row::{unsafe_tier, Action, PackageRowView, PackageState, RowMessage};
use crate::selection::names_of;
use crate::text::lex_le;
use vstd::prelude::*;

verus! {

/// `row` as the list shows it under `selection`.
pub open spec fn shown(row: PackageRowView, selection: Set<Seq<char>>) -> PackageRowView {
    row.marked(selection.contains(row.name))
}

/// No two packages of the inventory bear the same name.
pub open spec fn names_distinct(inventory: Seq<PackageRowView>) -> bool {
    forall|i: int, j: int|
        0 <= i < j < inventory.len() ==> (#[trigger] inventory[i]).name != (
        #[trigger] inventory[j]).name
}

/// The message changes the search text or one of the three filters.
pub open spec fn changes_criteria(message: Message) -> bool {
    ||| message is SearchInputChanged
    ||| message is ListSelected
    ||| message is PackageStateSelected
    ||| message is PreselectionSelected
}

/// The list after each of `messages` in turn.
pub open spec fn after_all(list: ListView, messages: Seq<Message>) -> ListView
    decreases messages.len(),
{
    if messages.len() == 0 {
        list
    } else {
        after_all(list, messages.drop_last()).after(messages.last())
    }
}

/// The inventory holds the device's packages and nothing else: it is as long
/// as the device's list, each of its rows is the row of a reported package,
/// and the row of each reported package is in it. No row is marked.
pub proof fn law_inventory_holds_the_device_packages(
    packages: Seq<Seq<char>>,
    installed: Seq<Seq<char>>,
    catalog: Seq<PackageView>,
)
    ensures
        ({
            let rows = device_rows(packages, installed, catalog);
            let inventory = inventory_of(packages, installed, catalog);
            let order = sort_order(folded(packages));
            &&& inventory.len() == packages.len()
            &&& is_permutation(order, packages.len())
            &&& forall|i: int| 0 <= i < inventory.len() ==> #[trigger] inventory[i] == rows[order[i]]
            &&& forall|i: int| 0 <= i < inventory.len() ==> !(#[trigger] inventory[i]).selected
            &&& forall|k: int|
                0 <= k < packages.len() ==> inventory.contains(
                    described(
                        #[trigger] packages[k],
                        installed.contains(packages[k]),
                        lookup(catalog, packages[k]),
                    ),
                )
        }),
{
    let rows = device_rows(packages, installed, catalog);
    let inventory = inventory_of(packages, installed, catalog);
    let order = sort_order(folded(packages));
    lemma_sort_prefix(folded(packages), packages.len());
    assert forall|k: int| 0 <= k < packages.len() implies inventory.contains(
        described(
            #[trigger] packages[k],
            installed.contains(packages[k]),
            lookup(catalog, packages[k]),
        ),
    ) by {
        assert(order.contains(k));
        let i = choose|i: int| 0 <= i < order.len() && order[i] == k;
        assert(inventory[i] == rows[k]);
    }
}

/// The inventory is in ascending order of lower-case name.
pub proof fn law_inventory_by_ascending_folded_name(
    packages: Seq<Seq<char>>,
    installed: Seq<Seq<char>>,
    catalog: Seq<PackageView>,
)
    ensures
        keys_ascend(folded(names_in_order(inventory_of(packages, installed, catalog)))),
{
    let inventory = inventory_of(packages, installed, catalog);
    let order = sort_order(folded(packages));
    let keys = folded(names_in_order(inventory));
    lemma_sort_prefix(folded(packages), packages.len());
    assert forall|p: int, q: int| 0 <= p < q < keys.len() implies lex_le(
        #[trigger] keys[p],
        #[trigger] keys[q],
    ) by {
        assert(keys[p] == folded(packages)[order[p]]);
        assert(keys[q] == folded(packages)[order[q]]);
    }
}

/// Where the device reports no name twice, no two packages of the inventory
/// bear the same name.
pub proof fn law_inventory_names_are_distinct(
    packages: Seq<Seq<char>>,
    installed: Seq<Seq<char>>,
    catalog: Seq<PackageView>,
)
    requires
        packages.no_duplicates(),
    ensures
        names_distinct(inventory_of(packages, installed, catalog)),
{
    let inventory = inventory_of(packages, installed, catalog);
    let order = sort_order(folded(packages));
    lemma_sort_prefix(folded(packages), packages.len());
    assert forall|i: int, j: int| 0 <= i < j < inventory.len() implies (
    #[trigger] inventory[i]).name != (#[trigger] inventory[j]).name by {
        assert(order[i] != order[j]);
        assert(inventory[i].name == packages[order[i]]);
        assert(inventory[j].name == packages[order[j]]);
    }
}

/// No message but the answer to a load adds a package to the inventory, takes
/// one away, renames one or moves one: the names stay as they are, in their
/// places.
pub proof fn law_messages_keep_the_packages(list: ListView, message: Message)
    requires
        !(message is LoadPackages),
    ensures
        names_in_order(list.after(message).inventory) == names_in_order(list.inventory),
        names_distinct(list.inventory) ==> names_distinct(list.after(message).inventory),
{
    let after = list.after(message).inventory;
    assert(names_in_order(after) =~= names_in_order(list.inventory));
    if names_distinct(list.inventory) {
        assert forall|i: int, j: int| 0 <= i < j < after.len() implies (#[trigger] after[i]).name
            != (#[trigger] after[j]).name by {
            assert(names_in_order(after)[i] == names_in_order(list.inventory)[i]);
            assert(names_in_order(after)[j] == names_in_order(list.inventory)[j]);
            assert(list.inventory[i].name != list.inventory[j].name);
        }
    }
}

/// Of the answers to loads, only the one to the load asked for last is taken
/// in, and only once: any other leaves the list as it is. An answer that the
/// device could not be reached leaves the inventory, the marks and the criteria
/// as they are, and is answered with an error.
pub proof fn law_only_the_last_load_is_taken_in(
    list: ListView,
    ticket: u64,
    result: Option<DeviceSnapshot>,
)
    ensures
        ({
            let message = Message::LoadPackages(ticket, result);
            let after = list.after(message);
            &&& !list.awaits(ticket) ==> after == list
            &&& list.awaits(ticket) ==> !after.awaits(ticket)
            &&& result is None ==> after.inventory == list.inventory && after.selection
                == list.selection && after.criteria == list.criteria
            &&& list.reply(message) is Err <==> list.awaits(ticket) && result is None
        }),
{
}

/// What the list shows is the matching packages rearranged: each row shown is a
/// matching package with its mark, each matching package is shown, and none is
/// shown more often than it is in the inventory.
pub proof fn lemma_visible_rows(
    inventory: Seq<PackageRowView>,
    criteria: FilterCriteriaView,
    selection: Set<Seq<char>>,
)
    ensures
        ({
            let found = matching(inventory, criteria);
            let order = sort_order(names_in_order(found));
            let visible = visible_rows(inventory, criteria, selection);
            &&& visible.len() == found.len()
            &&& is_permutation(order, found.len())
            &&& ascending(names_in_order(found), order)
            &&& forall|i: int|
                0 <= i < visible.len() ==> #[trigger] visible[i] == shown(found[order[i]], selection)
        }),
{
    let found = matching(inventory, criteria);
    lemma_sort_prefix(names_in_order(found), found.len());
}

/// Working out twice what the list shows, from the same inventory, criteria and
/// selection, gives the same rows in the same order.
pub proof fn law_same_inputs_same_rows(
    inventory: Seq<PackageRowView>,
    criteria: FilterCriteriaView,
    selection: Set<Seq<char>>,
    first: Seq<PackageRowView>,
    second: Seq<PackageRowView>,
)
    requires
        first == visible_rows(inventory, criteria, selection),
        second == visible_rows(inventory, criteria, selection),
    ensures
        first == second,
{
}

/// A package of the inventory is shown if and only if it meets all four
/// criteria, and nothing is shown that is not a package of the inventory.
pub proof fn law_shown_iff_all_criteria_met(
    inventory: Seq<PackageRowView>,
    criteria: FilterCriteriaView,
    selection: Set<Seq<char>>,
)
    ensures
        forall|k: int|
            0 <= k < inventory.len() ==> (meets(#[trigger] inventory[k], criteria)
                <==> visible_rows(inventory, criteria, selection).contains(
                shown(inventory[k], selection),
            )),
        forall|i: int|
            0 <= i < visible_rows(inventory, criteria, selection).len() ==> exists|k: int|
                0 <= k < inventory.len() && meets(inventory[k], criteria) && (
                #[trigger] visible_rows(inventory, criteria, selection)[i]) == shown(
                    #[trigger] inventory[k],
                    selection,
                ),
{
    let pred = |r: PackageRowView| meets(r, criteria);
    let found = matching(inventory, criteria);
    let order = sort_order(names_in_order(found));
    let visible = visible_rows(inventory, criteria, selection);
    lemma_visible_rows(inventory, criteria, selection);
    assert forall|i: int| 0 <= i < visible.len() implies exists|k: int|
        0 <= k < inventory.len() && meets(inventory[k], criteria) && (#[trigger] visible[i])
            == shown(#[trigger] inventory[k], selection) by {
        let row = found[order[i]];
        inventory.lemma_filter_pred(pred, order[i]);
        assert(found.contains(row));
        inventory.lemma_filter_contains_rev(pred, row);
        let k = choose|k: int| 0 <= k < inventory.len() && inventory[k] == row;
        assert(visible[i] == shown(inventory[k], selection));
    }
    assert forall|k: int| 0 <= k < inventory.len() implies (meets(
        #[trigger] inventory[k],
        criteria,
    ) <==> visible.contains(shown(inventory[k], selection))) by {
        if meets(inventory[k], criteria) {
            inventory.lemma_filter_contains(pred, k);
            let f = choose|f: int| 0 <= f < found.len() && found[f] == inventory[k];
            assert(order.contains(f));
            let i = choose|i: int| 0 <= i < order.len() && order[i] == f;
            assert(visible[i] == shown(inventory[k], selection));
        }
        if visible.contains(shown(inventory[k], selection)) {
            let i = choose|i: int|
                0 <= i < visible.len() && visible[i] == shown(inventory[k], selection);
            let row = found[order[i]];
            inventory.lemma_filter_pred(pred, order[i]);
            assert(shown(row, selection) == shown(inventory[k], selection));
            assert(row.name == inventory[k].name);
        }
    }
}

/// What the list shows is in ascending order of name.
pub proof fn law_shown_by_ascending_name(
    inventory: Seq<PackageRowView>,
    criteria: FilterCriteriaView,
    selection: Set<Seq<char>>,
)
    ensures
        keys_ascend(names_in_order(visible_rows(inventory, criteria, selection))),
{
    let found = matching(inventory, criteria);
    let order = sort_order(names_in_order(found));
    let visible = visible_rows(inventory, criteria, selection);
    let names = names_in_order(visible);
    lemma_visible_rows(inventory, criteria, selection);
    assert forall|p: int, q: int| 0 <= p < q < names.len() implies lex_le(
        #[trigger] names[p],
        #[trigger] names[q],
    ) by {
        assert(names[p] == names_in_order(found)[order[p]]);
        assert(names[q] == names_in_order(found)[order[q]]);
    }
}

/// Every row shown bears its mark if and only if its name is selected.
pub proof fn law_marks_follow_selection(
    inventory: Seq<PackageRowView>,
    criteria: FilterCriteriaView,
    selection: Set<Seq<char>>,
)
    ensures
        forall|i: int|
            0 <= i < visible_rows(inventory, criteria, selection).len() ==> (
            #[trigger] visible_rows(inventory, criteria, selection)[i]).selected
                == selection.contains(visible_rows(inventory, criteria, selection)[i].name),
{
    lemma_visible_rows(inventory, criteria, selection);
}

/// Filtering what the list shows, by the same criteria and selection, shows the
/// same rows in the same order.
pub proof fn law_filter_is_idempotent(
    inventory: Seq<PackageRowView>,
    criteria: FilterCriteriaView,
    selection: Set<Seq<char>>,
)
    ensures
        visible_rows(visible_rows(inventory, criteria, selection), criteria, selection)
            == visible_rows(inventory, criteria, selection),
{
    let pred = |r: PackageRowView| meets(r, criteria);
    let found = matching(inventory, criteria);
    let order = sort_order(names_in_order(found));
    let visible = visible_rows(inventory, criteria, selection);
    lemma_visible_rows(inventory, criteria, selection);
    law_shown_by_ascending_name(inventory, criteria, selection);
    assert(visible.filter(pred) == visible) by {
        assert forall|i: int| 0 <= i < visible.len() implies pred(#[trigger] visible[i]) by {
            inventory.lemma_filter_pred(pred, order[i]);
        }
        lemma_filter_keeps_all(visible, pred);
    }
    lemma_sort_prefix_of_ascending(names_in_order(visible), visible.len());
    assert(visible_rows(visible, criteria, selection) =~= visible);
}

/// A filter keeps a sequence as it is if every element passes.
proof fn lemma_filter_keeps_all<A>(s: Seq<A>, pred: spec_fn(A) -> bool)
    requires
        forall|i: int| 0 <= i < s.len() ==> pred(#[trigger] s[i]),
    ensures
        s.filter(pred) == s,
    decreases s.len(),
{
    reveal(Seq::filter);
    if s.len() > 0 {
        assert forall|i: int| 0 <= i < s.drop_last().len() implies pred(
            #[trigger] s.drop_last()[i],
        ) by {
            assert(s.drop_last()[i] == s[i]);
        }
        lemma_filter_keeps_all(s.drop_last(), pred);
        assert(s.drop_last().push(s.last()) =~= s);
    }
}

/// Changes of the criteria leave the inventory and the selection as they are.
pub proof fn lemma_criteria_changes_keep_marks(list: ListView, changes: Seq<Message>)
    requires
        forall|j: int| 0 <= j < changes.len() ==> changes_criteria(#[trigger] changes[j]),
    ensures
        after_all(list, changes).selection == list.selection,
        after_all(list, changes).inventory == list.inventory,
    decreases changes.len(),
{
    if changes.len() > 0 {
        assert forall|j: int| 0 <= j < changes.drop_last().len() implies changes_criteria(
            #[trigger] changes.drop_last()[j],
        ) by {
            assert(changes.drop_last()[j] == changes[j]);
        }
        lemma_criteria_changes_keep_marks(list, changes.drop_last());
        assert(changes_criteria(changes[changes.len() - 1]));
    }
}

/// A mark outlasts the filter: once the row at `i` was ticked, its name stays
/// selected through any changes of the criteria, and wherever the list shows a
/// package of that name afterwards, it shows it marked.
pub proof fn law_mark_survives_filter_changes(
    list: ListView,
    i: usize,
    toggled: bool,
    changes: Seq<Message>,
)
    requires
        i < list.visible().len(),
        !list.selection.contains(list.visible()[i as int].name),
        forall|j: int| 0 <= j < changes.len() ==> changes_criteria(#[trigger] changes[j]),
    ensures
        ({
            let name = list.visible()[i as int].name;
            let ticked = list.after(Message::List(i, RowMessage::UpdateSelection(toggled)));
            let end = after_all(ticked, changes);
            &&& end.selection.contains(name)
            &&& forall|k: int|
                0 <= k < end.visible().len() && (#[trigger] end.visible()[k]).name == name
                    ==> end.visible()[k].selected
        }),
{
    let ticked = list.after(Message::List(i, RowMessage::UpdateSelection(toggled)));
    let end = after_all(ticked, changes);
    lemma_criteria_changes_keep_marks(ticked, changes);
    law_marks_follow_selection(end.inventory, end.criteria, end.selection);
}

/// `SelectAllPressed` marks every name that the list shows and changes no other
/// mark: a name that is not shown is selected afterwards if and only if it was
/// before. The inventory and the criteria stay as they are.
pub proof fn law_select_all_marks_what_is_shown(list: ListView, name: Seq<char>)
    ensures
        ({
            let after = list.after(Message::SelectAllPressed);
            let is_shown = names_of(list.visible()).contains(name);
            &&& is_shown ==> after.selection.contains(name)
            &&& !is_shown ==> (after.selection.contains(name) <==> list.selection.contains(name))
            &&& list.selection.subset_of(after.selection)
            &&& after.inventory == list.inventory
            &&& after.criteria == list.criteria
        }),
{
}

/// The device's answer for one package touches no other: after `ActionFinished`
/// the inventory holds the same packages in the same places, every package of
/// another name is as it was, and so is every package at all unless the device
/// carried the action out. A package of that name is then in its next state if
/// the action is allowed, and as it was if not.
pub proof fn law_answers_touch_one_package(
    list: ListView,
    name: String,
    action: Action,
    outcome: Outcome,
    k: int,
)
    requires
        0 <= k < list.inventory.len(),
    ensures
        ({
            let after = list.after(Message::ActionFinished(name, action, outcome));
            let before = list.inventory[k];
            &&& after.inventory.len() == list.inventory.len()
            &&& after.selection == list.selection
            &&& after.criteria == list.criteria
            &&& after.inventory[k] == if outcome == Outcome::Done && before.name == name@ {
                before.after(action)
            } else {
                before
            }
            &&& list.reply(Message::ActionFinished(name, action, outcome)) is Err <==> outcome
                != Outcome::Done
        }),
{
}

/// The answers for packages of different names can come in either order.
pub proof fn law_answers_commute(
    inventory: Seq<PackageRowView>,
    first: Seq<char>,
    first_action: Action,
    second: Seq<char>,
    second_action: Action,
)
    requires
        first != second,
    ensures
        settled(settled(inventory, first, first_action), second, second_action) == settled(
            settled(inventory, second, second_action),
            first,
            first_action,
        ),
{
    assert(settled(settled(inventory, first, first_action), second, second_action) =~= settled(
        settled(inventory, second, second_action),
        first,
        first_action,
    ));
}

/// An installed package of the unsafe tier stays installed: no message but a
/// load changes it, whatever is marked and whatever the device is said to have
/// answered.
pub proof fn law_unsafe_packages_stay_installed(list: ListView, message: Message, k: int)
    requires
        0 <= k < list.inventory.len(),
        list.inventory[k].state == PackageState::Installed,
        list.inventory[k].confidence == unsafe_tier(),
        !(message is LoadPackages),
    ensures
        list.after(message).inventory.len() == list.inventory.len(),
        list.after(message).inventory[k] == list.inventory[k],
{
}

/// A batch reaches the packages that are both shown and selected, and no
/// others: the row at `i` of what the list shows is reached if and only if its
/// name is selected and the action for its state is allowed.
pub proof fn law_batch_reaches_what_is_shown_and_selected(list: ListView, i: int)
    requires
        0 <= i < list.visible().len(),
    ensures
        dispatchable(list.visible()[i]) <==> list.selection.contains(list.visible()[i].name)
            && !(list.visible()[i].state == PackageState::Installed
            && list.visible()[i].confidence == unsafe_tier()),
{
    law_marks_follow_selection(list.inventory, list.criteria, list.selection);
}

/// Every call of a batch stems from a row that the list shows marked, and every
/// removal among them from a row that is installed and outside the unsafe tier.
pub proof fn law_batch_calls(visible: Seq<PackageRowView>, j: int)
    requires
        0 <= j < batch_plan(visible).len(),
    ensures
        exists|i: int|
            0 <= i < visible.len() && batch_plan(visible)[j] == request_for(#[trigger] visible[i])
                && visible[i].selected && (visible[i].state == PackageState::Installed
                ==> visible[i].confidence != unsafe_tier()),
{
    let pred = |r: PackageRowView| dispatchable(r);
    let reached = visible.filter(pred);
    visible.lemma_filter_pred(pred, j);
    assert(reached.contains(reached[j]));
    visible.lemma_filter_contains_rev(pred, reached[j]);
    let i = choose|i: int| 0 <= i < visible.len() && visible[i] == reached[j];
    assert(batch_plan(visible)[j] == request_for(visible[i]));
}

/// A row that is installed and of the unsafe tier, or not marked, adds no call
/// to a batch: the batch is the one over the rows without it.
pub proof fn law_batch_passes_over(visible: Seq<PackageRowView>, i: int)
    requires
        0 <= i < visible.len(),
        !visible[i].selected || (visible[i].state == PackageState::Installed
            && visible[i].confidence == unsafe_tier()),
    ensures
        batch_plan(visible) == batch_plan(visible.remove(i)),
{
    let pred = |r: PackageRowView| dispatchable(r);
    let head = visible.take(i);
    let tail = visible.skip(i + 1);
    assert(visible =~= head.push(visible[i]) + tail);
    assert(visible.remove(i) =~= head + tail);
    Seq::filter_distributes_over_add(head.push(visible[i]), tail, pred);
    Seq::filter_distributes_over_add(head, tail, pred);
    head.lemma_filter_push(visible[i], pred);
}

/// A press on remove for an installed package of the unsafe tier asks the device
/// for nothing and leaves the inventory as it is.
pub proof fn law_unsafe_removal_is_passed_over(list: ListView, i: usize)
    requires
        i < list.visible().len(),
        list.visible()[i as int].state == PackageState::Installed,
        list.visible()[i as int].confidence == unsafe_tier(),
    ensures
        list.reply(Message::List(i, RowMessage::RemovePressed)) == Ok::<CommandView, ListErrorView>(
            CommandView::Nothing,
        ),
        list.after(Message::List(i, RowMessage::RemovePressed)).inventory == list.inventory,
{
}

/// Where no two packages bear the same name, no call of a batch removes a
/// package that the inventory holds in the unsafe tier.
pub proof fn law_no_batch_removes_unsafe(list: ListView, j: int, k: int)
    requires
        names_distinct(list.inventory),
        0 <= j < batch_plan(list.visible()).len(),
        0 <= k < list.inventory.len(),
        list.inventory[k].confidence == unsafe_tier(),
    ensures
        !(batch_plan(list.visible())[j] == (RequestView {
            name: list.inventory[k].name,
            action: Action::Remove,
        })),
{
    let visible = list.visible();
    law_batch_calls(visible, j);
    let i = choose|i: int|
        0 <= i < visible.len() && batch_plan(visible)[j] == request_for(#[trigger] visible[i])
            && visible[i].selected && (visible[i].state == PackageState::Installed
            ==> visible[i].confidence != unsafe_tier());
    law_shown_iff_all_criteria_met(list.inventory, list.criteria, list.selection);
    let m = choose|m: int|
        0 <= m < list.inventory.len() && meets(list.inventory[m], list.criteria) && visible[i]
            == shown(#[trigger] list.inventory[m], list.selection);
    if batch_plan(visible)[j] == (RequestView {
        name: list.inventory[k].name,
        action: Action::Remove,
    }) {
        assert(list.inventory[m].name == list.inventory[k].name);
        assert(m == k);
    }
}

} // verus!
