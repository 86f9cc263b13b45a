//! The set of package names that are marked for the next batch.

use crate::order::texts;
use crate::row::{rows_view, PackageRow, PackageRowView};
use vstd::prelude::*;
use vstd::string::*;

verus! {

/// The names of the packages in `rows`.
pub open spec fn names_of(rows: Seq<PackageRowView>) -> Set<Seq<char>> {
    rows.map_values(|r: PackageRowView| r.name).to_set()
}

/// The names marked for the next batch. A name is in the set or not: none is
/// held twice.
#[derive(Debug)]
pub struct Selection {
    names: Vec<String>,
}

impl View for Selection {
    type V = Set<Seq<char>>;

    closed spec fn view(&self) -> Set<Seq<char>> {
        texts(self.names@).to_set()
    }
}

impl Selection {
    /// No name is held twice. Every selection that this module hands out is
    /// well formed, and its operations keep it so.
    pub closed spec fn wf(&self) -> bool {
        texts(self.names@).no_duplicates()
    }

    /// The empty selection.
    pub fn new() -> (selection: Self)
        ensures
            selection.wf(),
            selection@ == Set::<Seq<char>>::empty(),
    {
        let selection = Selection { names: Vec::new() };
        assert(texts(selection.names@).to_set() =~= Set::<Seq<char>>::empty());
        selection
    }

    /// Where `name` is held, if it is.
    fn position(&self, name: &String) -> (found: Option<usize>)
        ensures
            match found {
                Some(i) => i < self.names.len() && self.names[i as int]@ == name@,
                None => !self@.contains(name@),
            },
    {
        let mut i: usize = 0;
        while i < self.names.len()
            invariant
                i <= self.names.len(),
                forall|k: int| 0 <= k < i ==> self.names[k]@ != name@,
            decreases self.names.len() - i,
        {
            if self.names[i] == *name {
                return Some(i);
            }
            i = i + 1;
        }
        proof {
            let held = texts(self.names@);
            if held.contains(name@) {
                let k = choose|k: int| 0 <= k < held.len() && held[k] == name@;
                assert(self.names[k]@ == name@);
            }
        }
        None
    }

    /// Whether `name` is marked.
    pub fn contains(&self, name: &str) -> (marked: bool)
        ensures
            marked == self@.contains(name@),
    {
        let wanted = name.to_owned();
        let found = self.position(&wanted);
        proof {
            if let Some(i) = found {
                assert(texts(self.names@)[i as int] == name@);
            }
        }
        found.is_some()
    }

    /// How many names are marked.
    pub fn count(&self) -> (n: usize)
        requires
            self.wf(),
        ensures
            n == self@.len(),
            self@.finite(),
    {
        proof {
            texts(self.names@).unique_seq_to_set();
        }
        self.names.len()
    }

    /// Marks `name`, whether or not it was marked before.
    pub fn insert(&mut self, name: &str)
        requires
            old(self).wf(),
        ensures
            final(self).wf(),
            final(self)@ == old(self)@.insert(name@),
    {
        let wanted = name.to_owned();
        let found = self.position(&wanted);
        let ghost before = texts(self.names@);
        match found {
            Some(i) => {
                assert(before[i as int] == name@);
                assert(before.to_set().insert(name@) =~= before.to_set());
            },
            None => {
                self.names.push(wanted);
                proof {
                    assert(texts(self.names@) =~= before.push(name@));
                    before.lemma_push_to_set_commute(name@);
                }
            },
        }
    }

    /// Marks `name` if it is not marked, and takes the mark away if it is.
    pub fn toggle(&mut self, name: &str)
        requires
            old(self).wf(),
        ensures
            final(self).wf(),
            final(self)@ == if old(self)@.contains(name@) {
                old(self)@.remove(name@)
            } else {
                old(self)@.insert(name@)
            },
    {
        let wanted = name.to_owned();
        let found = self.position(&wanted);
        let ghost before = texts(self.names@);
        match found {
            Some(i) => {
                assert(before[i as int] == name@);
                self.names.remove(i);
                proof {
                    let held = texts(self.names@);
                    assert(held =~= before.remove(i as int));
                    assert forall|t: Seq<char>| held.to_set().contains(t) <==> before.to_set().remove(
                        name@,
                    ).contains(t) by {
                        if held.contains(t) {
                            let k = choose|k: int| 0 <= k < held.len() && held[k] == t;
                            let k0 = if k < i { k } else { k + 1 };
                            assert(before[k0] == t);
                        }
                        if before.contains(t) && t != name@ {
                            let k0 = choose|k0: int| 0 <= k0 < before.len() && before[k0] == t;
                            let k = if k0 < i { k0 } else { k0 - 1 };
                            assert(held[k] == t);
                        }
                    }
                    assert(held.to_set() =~= before.to_set().remove(name@));
                }
            },
            None => {
                self.names.push(wanted);
                proof {
                    assert(texts(self.names@) =~= before.push(name@));
                    before.lemma_push_to_set_commute(name@);
                }
            },
        }
    }

    /// Marks every package of `visible`, and leaves every other name as it was.
    pub fn select_all(&mut self, visible: &Vec<PackageRow>)
        requires
            old(self).wf(),
        ensures
            final(self).wf(),
            final(self)@ == old(self)@.union(names_of(rows_view(visible@))),
    {
        let ghost shown = rows_view(visible@).map_values(|r: PackageRowView| r.name);
        let mut i: usize = 0;
        while i < visible.len()
            invariant
                i <= visible.len(),
                shown == rows_view(visible@).map_values(|r: PackageRowView| r.name),
                self.wf(),
                self@ == old(self)@.union(shown.take(i as int).to_set()),
            decreases visible.len() - i,
        {
            self.insert(visible[i].name.as_str());
            proof {
                let head = shown.take(i as int);
                assert(shown.take(i + 1) =~= head.push(visible[i as int].name@));
                head.lemma_push_to_set_commute(visible[i as int].name@);
                assert(self@ =~= old(self)@.union(shown.take(i + 1).to_set()));
            }
            i = i + 1;
        }
        proof {
            assert(shown.take(visible.len() as int) =~= shown);
        }
    }
}

} // verus!
