//! The filter: which packages of the inventory the list shows, in which order,
//! and with which marks.

use crate::order::{lemma_sort_prefix, positions, sort_order, stable_order, texts};
use crate::row::{rows_view, PackageRow, PackageRowView, PackageState};
use crate::selection::Selection;
use crate::text::{contains, is_substring};
use vstd::prelude::*;
use vstd::string::*;

verus! {

/// Which states the list shows.
#[derive(Clone, Copy, Debug, PartialEq, Eq, Structural)]
pub enum StateFilter {
    All,
    Installed,
    Uninstalled,
}

/// Which labels the list shows: all of them, or one.
#[derive(Debug, PartialEq, Eq)]
pub enum LabelFilter {
    All,
    Only(String),
}

/// What a `LabelFilter` holds, as plain values.
pub enum LabelFilterView {
    All,
    Only(Seq<char>),
}

impl View for LabelFilter {
    type V = LabelFilterView;

    open spec fn view(&self) -> LabelFilterView {
        match self {
            LabelFilter::All => LabelFilterView::All,
            LabelFilter::Only(label) => LabelFilterView::Only(label@),
        }
    }
}

impl Clone for LabelFilter {
    fn clone(&self) -> (copy: Self)
        ensures
            copy@ == self@,
    {
        match self {
            LabelFilter::All => LabelFilter::All,
            LabelFilter::Only(label) => LabelFilter::Only(label.clone()),
        }
    }
}

/// What the user asked the list to show: a text to find in the name, a state,
/// a category and a tier.
#[derive(Debug, PartialEq, Eq)]
pub struct FilterCriteria {
    pub search: String,
    pub state: StateFilter,
    pub list: LabelFilter,
    pub confidence: LabelFilter,
}

/// What a `FilterCriteria` holds, as plain values.
pub struct FilterCriteriaView {
    pub search: Seq<char>,
    pub state: StateFilter,
    pub list: LabelFilterView,
    pub confidence: LabelFilterView,
}

impl View for FilterCriteria {
    type V = FilterCriteriaView;

    open spec fn view(&self) -> FilterCriteriaView {
        FilterCriteriaView {
            search: self.search@,
            state: self.state,
            list: self.list@,
            confidence: self.confidence@,
        }
    }
}

/// The tier that the list shows when nothing else was asked for.
pub open spec fn safe_tier() -> Seq<char> {
    "safe"@
}

/// The criteria of a fresh list: installed packages of the safe tier, of any
/// category, whatever their name.
pub open spec fn default_criteria() -> FilterCriteriaView {
    FilterCriteriaView {
        search: Seq::empty(),
        state: StateFilter::Installed,
        list: LabelFilterView::All,
        confidence: LabelFilterView::Only(safe_tier()),
    }
}

/// The search text is empty or occurs in the name, letter case and all.
pub open spec fn search_matches(search: Seq<char>, name: Seq<char>) -> bool {
    search.len() == 0 || is_substring(search, name)
}

/// The state filter lets `state` through.
pub open spec fn state_matches(filter: StateFilter, state: PackageState) -> bool {
    match filter {
        StateFilter::All => true,
        StateFilter::Installed => state == PackageState::Installed,
        StateFilter::Uninstalled => state == PackageState::Uninstalled,
    }
}

/// The label filter lets `label` through.
pub open spec fn label_matches(filter: LabelFilterView, label: Seq<char>) -> bool {
    match filter {
        LabelFilterView::All => true,
        LabelFilterView::Only(wanted) => wanted == label,
    }
}

/// The package meets all four criteria at once.
pub open spec fn meets(row: PackageRowView, criteria: FilterCriteriaView) -> bool {
    &&& search_matches(criteria.search, row.name)
    &&& state_matches(criteria.state, row.state)
    &&& label_matches(criteria.list, row.uad_list)
    &&& label_matches(criteria.confidence, row.confidence)
}

/// The packages of the inventory that meet the criteria, in inventory order.
pub open spec fn matching(
    inventory: Seq<PackageRowView>,
    criteria: FilterCriteriaView,
) -> Seq<PackageRowView> {
    inventory.filter(|r: PackageRowView| meets(r, criteria))
}

/// The names of `rows`, in their order.
pub open spec fn names_in_order(rows: Seq<PackageRowView>) -> Seq<Seq<char>> {
    rows.map_values(|r: PackageRowView| r.name)
}

/// `rows` rearranged: the result holds at `i` the row at position `order[i]`.
pub open spec fn arranged(rows: Seq<PackageRowView>, order: Seq<int>) -> Seq<PackageRowView> {
    Seq::new(order.len(), |i: int| rows[order[i]])
}

/// `rows`, each marked if and only if its name is in `selection`.
pub open spec fn marked_by(rows: Seq<PackageRowView>, selection: Set<Seq<char>>) -> Seq<
    PackageRowView,
> {
    rows.map_values(|r: PackageRowView| r.marked(selection.contains(r.name)))
}

/// What the list shows: the packages that meet the criteria, by ascending
/// name (packages of one name in inventory order), each marked if and only if
/// its name is selected.
pub open spec fn visible_rows(
    inventory: Seq<PackageRowView>,
    criteria: FilterCriteriaView,
    selection: Set<Seq<char>>,
) -> Seq<PackageRowView> {
    let found = matching(inventory, criteria);
    marked_by(arranged(found, sort_order(names_in_order(found))), selection)
}

impl Default for FilterCriteria {
    fn default() -> (criteria: Self)
        ensures
            criteria@ == default_criteria(),
    {
        FilterCriteria {
            search: String::new(),
            state: StateFilter::Installed,
            list: LabelFilter::All,
            confidence: LabelFilter::Only("safe".to_owned()),
        }
    }
}

impl Clone for FilterCriteria {
    fn clone(&self) -> (copy: Self)
        ensures
            copy@ == self@,
    {
        FilterCriteria {
            search: self.search.clone(),
            state: self.state,
            list: self.list.clone(),
            confidence: self.confidence.clone(),
        }
    }
}

impl StateFilter {
    /// Whether the filter lets `state` through.
    pub fn accepts(&self, state: PackageState) -> (through: bool)
        ensures
            through == state_matches(*self, state),
    {
        match self {
            StateFilter::All => true,
            StateFilter::Installed => state == PackageState::Installed,
            StateFilter::Uninstalled => state == PackageState::Uninstalled,
        }
    }
}

impl LabelFilter {
    /// Whether the filter lets `label` through.
    pub fn accepts(&self, label: &String) -> (through: bool)
        ensures
            through == label_matches(self@, label@),
    {
        match self {
            LabelFilter::All => true,
            LabelFilter::Only(wanted) => *wanted == *label,
        }
    }
}

impl FilterCriteria {
    /// Whether `row` meets all four criteria.
    pub fn accepts(&self, row: &PackageRow) -> (through: bool)
        ensures
            through == meets(row@, self@),
    {
        (self.search.as_str().is_empty() || contains(row.name.as_str(), self.search.as_str()))
            && self.state.accepts(row.state) && self.list.accepts(&row.uad_list)
            && self.confidence.accepts(&row.confidence)
    }
}

/// Copies of `rows` in the given order: the result holds at `i` a copy of the
/// row at position `order[i]`.
fn arrange(rows: &Vec<PackageRow>, order: &Vec<usize>) -> (out: Vec<PackageRow>)
    requires
        forall|i: int| 0 <= i < order.len() ==> #[trigger] order[i] < rows.len(),
    ensures
        rows_view(out@) == arranged(rows_view(rows@), positions(order@)),
{
    let mut out: Vec<PackageRow> = Vec::new();
    let mut i: usize = 0;
    while i < order.len()
        invariant
            i <= order.len(),
            forall|k: int| 0 <= k < order.len() ==> #[trigger] order[k] < rows.len(),
            rows_view(out@) == arranged(rows_view(rows@), positions(order@).take(i as int)),
        decreases order.len() - i,
    {
        let ghost before = rows_view(out@);
        out.push(rows[order[i]].clone());
        proof {
            assert(rows_view(out@) =~= before.push(rows[order[i as int] as int]@));
            assert(rows_view(out@) =~= arranged(
                rows_view(rows@),
                positions(order@).take(i + 1),
            ));
        }
        i = i + 1;
    }
    proof {
        assert(positions(order@).take(order.len() as int) =~= positions(order@));
    }
    out
}

/// Copies of `rows` in the stable order of `keys`, the key at each position
/// being the key of the row at that position: by ascending key, rows of equal
/// keys in the order they came in. `None` where there are not as many keys as
/// rows.
pub fn sort_by_keys(rows: &Vec<PackageRow>, keys: &Vec<String>) -> (sorted: Option<Vec<PackageRow>>)
    ensures
        match sorted {
            Some(out) => keys.len() == rows.len() && rows_view(out@) == arranged(
                rows_view(rows@),
                sort_order(texts(keys@)),
            ),
            None => keys.len() != rows.len(),
        },
{
    if keys.len() != rows.len() {
        return None;
    }
    let order = stable_order(keys);
    proof {
        lemma_sort_prefix(texts(keys@), keys.len() as nat);
        assert forall|k: int| 0 <= k < order.len() implies #[trigger] order[k] < rows.len() by {
            assert(positions(order@)[k] == order[k] as int);
        }
    }
    Some(arrange(rows, &order))
}

/// What the list shows of `inventory` under `criteria`, with the marks that
/// `selection` gives. The inventory itself is left as it is.
pub fn visible_packages(
    inventory: &Vec<PackageRow>,
    criteria: &FilterCriteria,
    selection: &Selection,
) -> (visible: Vec<PackageRow>)
    ensures
        rows_view(visible@) == visible_rows(rows_view(inventory@), criteria@, selection@),
{
    let ghost all = rows_view(inventory@);
    let ghost pred = |r: PackageRowView| meets(r, criteria@);
    let mut found: Vec<PackageRow> = Vec::new();
    let mut keys: Vec<String> = Vec::new();
    let mut i: usize = 0;
    while i < inventory.len()
        invariant
            i <= inventory.len(),
            all == rows_view(inventory@),
            pred == |r: PackageRowView| meets(r, criteria@),
            rows_view(found@) == marked_by(all.take(i as int).filter(pred), selection@),
            texts(keys@) == names_in_order(all.take(i as int).filter(pred)),
        decreases inventory.len() - i,
    {
        let ghost head = all.take(i as int);
        let ghost shown = rows_view(found@);
        let ghost names = texts(keys@);
        proof {
            assert(all.take(i + 1) =~= head.push(all[i as int]));
            head.lemma_filter_push(all[i as int], pred);
        }
        if criteria.accepts(&inventory[i]) {
            let mut row = inventory[i].clone();
            row.selected = selection.contains(row.name.as_str());
            keys.push(row.name.clone());
            found.push(row);
            proof {
                let kept = head.filter(pred);
                assert(rows_view(found@) =~= shown.push(
                    all[i as int].marked(selection@.contains(all[i as int].name)),
                ));
                assert(texts(keys@) =~= names.push(all[i as int].name));
                assert(rows_view(found@) =~= marked_by(kept.push(all[i as int]), selection@));
                assert(texts(keys@) =~= names_in_order(kept.push(all[i as int])));
            }
        }
        i = i + 1;
    }
    proof {
        assert(all.take(inventory.len() as int) =~= all);
        assert(rows_view(found@).len() == found.len());
        assert(texts(keys@).len() == keys.len());
    }
    let visible = match sort_by_keys(&found, &keys) {
        Some(sorted) => sorted,
        None => found,
    };
    proof {
        let kept = matching(all, criteria@);
        let sorted = sort_order(names_in_order(kept));
        lemma_sort_prefix(names_in_order(kept), kept.len());
        assert(rows_view(visible@) =~= marked_by(arranged(kept, sorted), selection@));
    }
    visible
}

} // verus!
