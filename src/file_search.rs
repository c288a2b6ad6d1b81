//! Depth-first search of a directory tree for a file by name, driven one
//! directory listing at a time. The caller reads the directories; this module
//! decides the order and when the search ends.

use vstd::prelude::*;
use crate::path::{file_name_of, same_text, GamePath, PathModel};

verus! {

/// One entry of a directory listing.
#[derive(Debug, Clone, PartialEq, Eq)]
pub struct DirEntryInfo {
    pub path: GamePath,
    pub is_dir: bool,
}

/// The value of a [`DirEntryInfo`].
pub struct EntryModel {
    pub path: PathModel,
    pub is_dir: bool,
}

impl View for DirEntryInfo {
    type V = EntryModel;

    open spec fn view(&self) -> EntryModel {
        EntryModel { path: self.path@, is_dir: self.is_dir }
    }
}

/// The values of a list of entries.
pub open spec fn entry_views(v: Seq<DirEntryInfo>) -> Seq<EntryModel> {
    v.map_values(|e: DirEntryInfo| e@)
}

/// What the search asks for next.
#[derive(Debug, Clone, PartialEq, Eq)]
pub enum FindStep {
    /// List this directory and hand its entries to [`FileSearch::enter`].
    Enter(GamePath),
    /// The first file with the name sought.
    Found(GamePath),
    /// The tree holds no such file.
    Exhausted,
}

/// The value of a [`FindStep`].
pub enum StepModel {
    Enter(PathModel),
    Found(PathModel),
    Exhausted,
}

pub open spec fn step_view(s: FindStep) -> StepModel {
    match s {
        FindStep::Enter(p) => StepModel::Enter(p@),
        FindStep::Found(p) => StepModel::Found(p@),
        FindStep::Exhausted => StepModel::Exhausted,
    }
}

/// The next step of the search over the entries still to visit, the next one
/// last: a directory is entered, a file named `name` ends the search, any
/// other file is passed over.
pub open spec fn next_step(pending: Seq<EntryModel>, name: Seq<char>) -> (Seq<EntryModel>, StepModel)
    decreases pending.len(),
{
    if pending.len() == 0 {
        (pending, StepModel::Exhausted)
    } else {
        let e = pending.last();
        let rest = pending.drop_last();
        if e.is_dir {
            (rest, StepModel::Enter(e.path))
        } else if file_name_of(e.path) == Some(name) {
            (rest, StepModel::Found(e.path))
        } else {
            next_step(rest, name)
        }
    }
}

/// A listing laid on the work list so that its first entry is visited first.
pub open spec fn stacked(listing: Seq<EntryModel>) -> Seq<EntryModel> {
    Seq::new(listing.len(), |k: int| listing[listing.len() - 1 - k])
}

/// A search, in progress, for the first file named `name` in depth-first
/// order: each directory is searched whole before the entries after it.
pub struct FileSearch {
    pub name: String,
    /// Entries still to visit; the next one is last.
    pub pending: Vec<DirEntryInfo>,
}

impl FileSearch {
    /// A search for `name` with nothing listed yet.
    pub fn new(name: String) -> (r: FileSearch)
        ensures
            r.name == name,
            r.pending@.len() == 0,
    {
        FileSearch { name, pending: Vec::new() }
    }

    /// Hands over the listing of the directory just entered, in its order.
    pub fn enter(&mut self, listing: Vec<DirEntryInfo>)
        ensures
            final(self).name == old(self).name,
            entry_views(final(self).pending@) == entry_views(old(self).pending@) + stacked(entry_views(listing@)),
    {
        let n = listing.len();
        let mut i: usize = n;
        while i > 0
            invariant
                i <= n == listing.len(),
                self.name == old(self).name,
                entry_views(self.pending@) =~= entry_views(old(self).pending@) + Seq::new(
                    (n - i) as nat,
                    |k: int| listing@[n - 1 - k]@,
                ),
            decreases i,
        {
            let e = listing[i - 1].clone_entry();
            proof {
                assert(entry_views(self.pending@.push(e)) =~= entry_views(self.pending@).push(e@));
            }
            self.pending.push(e);
            i = i - 1;
        }
        assert(stacked(entry_views(listing@)) =~= Seq::new(n as nat, |k: int| listing@[n - 1 - k]@));
    }

    /// Takes the next step of the search.
    pub fn next(&mut self) -> (r: FindStep)
        ensures
            final(self).name == old(self).name,
            (entry_views(final(self).pending@), step_view(r)) == next_step(
                entry_views(old(self).pending@),
                old(self).name@,
            ),
    {
        while self.pending.len() > 0
            invariant
                self.name == old(self).name,
                next_step(entry_views(self.pending@), self.name@) == next_step(
                    entry_views(old(self).pending@),
                    old(self).name@,
                ),
            decreases self.pending.len(),
        {
            let ghost before = self.pending@;
            let e = self.pending.pop().unwrap();
            proof {
                assert(entry_views(self.pending@) =~= entry_views(before).drop_last());
                assert(entry_views(before).last() == e@);
            }
            if e.is_dir {
                return FindStep::Enter(e.path);
            }
            let matches = match e.path.file_name() {
                Some(n) => same_text(n.as_str(), self.name.as_str()),
                None => false,
            };
            if matches {
                return FindStep::Found(e.path);
            }
        }
        FindStep::Exhausted
    }
}

impl DirEntryInfo {
    /// A copy of the entry.
    pub fn clone_entry(&self) -> (r: DirEntryInfo)
        ensures
            r@ == self@,
    {
        DirEntryInfo { path: self.path.duplicate(), is_dir: self.is_dir }
    }
}

} // verus!
