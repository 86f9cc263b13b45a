//! The inventory: what the device reports, joined with what the catalog says
//! of each package.

use crate::filter::{arranged, sort_by_keys};
use crate::order::{sort_order, texts};
use crate::row::{rows_view, PackageRow, PackageRowView, PackageState};
use crate::text::{lowercase_of, to_lowercase};
use vstd::prelude::*;
use vstd::string::*;

verus! {

/// What the catalog says of one package.
#[derive(Clone, Debug, PartialEq, Eq)]
pub struct Package {
    pub name: String,
    pub description: String,
    pub list: String,
    pub confidence: String,
}

/// What a `Package` holds, as plain values.
pub struct PackageView {
    pub name: Seq<char>,
    pub description: Seq<char>,
    pub list: Seq<char>,
    pub confidence: Seq<char>,
}

impl View for Package {
    type V = PackageView;

    open spec fn view(&self) -> PackageView {
        PackageView {
            name: self.name@,
            description: self.description@,
            list: self.list@,
            confidence: self.confidence@,
        }
    }
}

/// The entries that a catalog holds.
pub open spec fn catalog_view(catalog: Seq<Package>) -> Seq<PackageView> {
    catalog.map_values(|p: Package| p@)
}

/// What the device reported in one load: every package it knows, the ones that
/// are installed, and the catalog to describe them with.
#[derive(Clone, Debug, PartialEq, Eq)]
pub struct DeviceSnapshot {
    pub packages: Vec<String>,
    pub installed: Vec<String>,
    pub catalog: Vec<Package>,
}

/// The entry at `i` is the first of the catalog that bears `name`.
pub open spec fn is_first_entry(catalog: Seq<PackageView>, name: Seq<char>, i: int) -> bool {
    &&& 0 <= i < catalog.len()
    &&& catalog[i].name == name
    &&& forall|k: int| 0 <= k < i ==> (#[trigger] catalog[k]).name != name
}

/// What the catalog says of `name`: its first entry of that name, if it has
/// one.
pub open spec fn lookup(catalog: Seq<PackageView>, name: Seq<char>) -> Option<PackageView> {
    if exists|i: int| is_first_entry(catalog, name, i) {
        Some(catalog[choose|i: int| is_first_entry(catalog, name, i)])
    } else {
        None
    }
}

/// The description of a package that the catalog does not know.
pub open spec fn no_description() -> Seq<char> {
    "[No description]"@
}

/// The category of a package that the catalog does not know.
pub open spec fn unlisted() -> Seq<char> {
    "unlisted"@
}

/// The row of a device package: described by its catalog entry, or by the
/// defaults where it has none, and not marked.
pub open spec fn described(
    name: Seq<char>,
    installed: bool,
    entry: Option<PackageView>,
) -> PackageRowView {
    PackageRowView {
        name,
        state: if installed {
            PackageState::Installed
        } else {
            PackageState::Uninstalled
        },
        description: match entry {
            Some(e) => e.description,
            None => no_description(),
        },
        uad_list: match entry {
            Some(e) => e.list,
            None => unlisted(),
        },
        confidence: match entry {
            Some(e) => e.confidence,
            None => Seq::empty(),
        },
        selected: false,
    }
}

/// One row for each device package, in the order the device gave them.
pub open spec fn device_rows(
    packages: Seq<Seq<char>>,
    installed: Seq<Seq<char>>,
    catalog: Seq<PackageView>,
) -> Seq<PackageRowView> {
    packages.map_values(|n: Seq<char>| described(n, installed.contains(n), lookup(catalog, n)))
}

/// The lower-case forms of `names`, by which the inventory is ordered.
pub open spec fn folded(names: Seq<Seq<char>>) -> Seq<Seq<char>> {
    names.map_values(|n: Seq<char>| lowercase_of(n))
}

/// The inventory: the device's rows by ascending lower-case name, rows whose
/// names differ by letter case only in the order the device gave them.
pub open spec fn inventory_of(
    packages: Seq<Seq<char>>,
    installed: Seq<Seq<char>>,
    catalog: Seq<PackageView>,
) -> Seq<PackageRowView> {
    arranged(device_rows(packages, installed, catalog), sort_order(folded(packages)))
}

/// The catalog's first entry for `name`, if it has one.
pub fn find_entry<'a>(catalog: &'a Vec<Package>, name: &String) -> (entry: Option<&'a Package>)
    ensures
        match entry {
            Some(e) => lookup(catalog_view(catalog@), name@) == Some(e@),
            None => lookup(catalog_view(catalog@), name@) is None,
        },
{
    let ghost entries = catalog_view(catalog@);
    let mut i: usize = 0;
    while i < catalog.len()
        invariant
            i <= catalog.len(),
            entries == catalog_view(catalog@),
            forall|k: int| 0 <= k < i ==> (#[trigger] entries[k]).name != name@,
        decreases catalog.len() - i,
    {
        if catalog[i].name == *name {
            proof {
                assert(entries[i as int] == catalog[i as int]@);
                assert(is_first_entry(entries, name@, i as int));
                let first = choose|f: int| is_first_entry(entries, name@, f);
                assert(first == i) by {
                    if first < i {
                        assert(entries[first].name != name@);
                    }
                    if i < first {
                        assert(entries[i as int].name != name@);
                    }
                }
            }
            return Some(&catalog[i]);
        }
        i = i + 1;
    }
    proof {
        assert forall|f: int| !is_first_entry(entries, name@, f) by {
            if 0 <= f < entries.len() {
                assert(entries[f].name != name@);
            }
        }
    }
    None
}

/// Whether `names` holds `name`.
pub fn holds(names: &Vec<String>, name: &String) -> (held: bool)
    ensures
        held == texts(names@).contains(name@),
{
    let mut i: usize = 0;
    while i < names.len()
        invariant
            i <= names.len(),
            forall|k: int| 0 <= k < i ==> (#[trigger] names[k])@ != name@,
        decreases names.len() - i,
    {
        if names[i] == *name {
            assert(texts(names@)[i as int] == name@);
            return true;
        }
        i = i + 1;
    }
    proof {
        let all = texts(names@);
        if all.contains(name@) {
            let k = choose|k: int| 0 <= k < all.len() && all[k] == name@;
            assert(names[k]@ == name@);
        }
    }
    false
}

/// The row of the device package `name`: with the catalog's description,
/// category and tier where it has an entry of that name, with
/// "[No description]", "unlisted" and an empty tier where it has none;
/// installed if and only if `installed` holds the name; not marked.
pub fn describe(name: &String, installed: &Vec<String>, catalog: &Vec<Package>) -> (row: PackageRow)
    ensures
        row@ == described(
            name@,
            texts(installed@).contains(name@),
            lookup(catalog_view(catalog@), name@),
        ),
{
    let state = if holds(installed, name) {
        PackageState::Installed
    } else {
        PackageState::Uninstalled
    };
    match find_entry(catalog, name) {
        Some(entry) => PackageRow {
            name: name.clone(),
            state,
            description: entry.description.clone(),
            uad_list: entry.list.clone(),
            confidence: entry.confidence.clone(),
            selected: false,
        },
        None => {
            proof {
                reveal_strlit("");
                assert(""@ =~= Seq::<char>::empty());
            }
            PackageRow::new(name.as_str(), state, "[No description]", "unlisted", "", false)
        },
    }
}

/// One row for each device package, in the order the device gave them.
pub fn describe_all(packages: &Vec<String>, installed: &Vec<String>, catalog: &Vec<Package>) -> (rows:
    Vec<PackageRow>)
    ensures
        rows_view(rows@) == device_rows(
            texts(packages@),
            texts(installed@),
            catalog_view(catalog@),
        ),
{
    let mut rows: Vec<PackageRow> = Vec::new();
    let mut i: usize = 0;
    while i < packages.len()
        invariant
            i <= packages.len(),
            rows_view(rows@) == device_rows(
                texts(packages@).take(i as int),
                texts(installed@),
                catalog_view(catalog@),
            ),
        decreases packages.len() - i,
    {
        let ghost before = rows_view(rows@);
        let row = describe(&packages[i], installed, catalog);
        rows.push(row);
        proof {
            assert(texts(packages@)[i as int] == packages[i as int]@);
            assert(rows_view(rows@) =~= before.push(row@));
            assert(rows_view(rows@) =~= device_rows(
                texts(packages@).take(i + 1),
                texts(installed@),
                catalog_view(catalog@),
            ));
        }
        i = i + 1;
    }
    proof {
        assert(texts(packages@).take(packages.len() as int) =~= texts(packages@));
    }
    rows
}

/// The lower-case form of each name.
fn fold_all(names: &Vec<String>) -> (keys: Vec<String>)
    ensures
        texts(keys@) == folded(texts(names@)),
{
    let mut keys: Vec<String> = Vec::new();
    let mut i: usize = 0;
    while i < names.len()
        invariant
            i <= names.len(),
            texts(keys@) == folded(texts(names@).take(i as int)),
        decreases names.len() - i,
    {
        let ghost before = texts(keys@);
        let key = to_lowercase(names[i].as_str());
        keys.push(key);
        proof {
            assert(texts(names@)[i as int] == names[i as int]@);
            assert(texts(keys@) =~= before.push(lowercase_of(names[i as int]@)));
            assert(texts(keys@) =~= folded(texts(names@).take(i + 1)));
        }
        i = i + 1;
    }
    proof {
        assert(texts(names@).take(names.len() as int) =~= texts(names@));
    }
    keys
}

/// The inventory of a device: one row for each package it reported, described
/// by the catalog, ordered by name without regard to letter case.
pub fn build_inventory(packages: &Vec<String>, installed: &Vec<String>, catalog: &Vec<Package>) -> (inventory:
    Vec<PackageRow>)
    ensures
        rows_view(inventory@) == inventory_of(
            texts(packages@),
            texts(installed@),
            catalog_view(catalog@),
        ),
{
    let rows = describe_all(packages, installed, catalog);
    let keys = fold_all(packages);
    proof {
        assert(rows_view(rows@).len() == rows.len());
        assert(texts(keys@).len() == keys.len());
    }
    match sort_by_keys(&rows, &keys) {
        Some(sorted) => sorted,
        None => rows,
    }
}

} // verus!
