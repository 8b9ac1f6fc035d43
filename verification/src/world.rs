//! What the picker is told with each event: the disk as it was read, the time,
//! and the rows of its lists.

use vstd::prelude::*;

use crate::disk::{Disk, DiskView};
use crate::fs_path::{FsPath, PathView};
use crate::fuzzy;
use crate::scan::{Entry, EntryView};

verus! {

/// A row of a list, and what is on it.
#[derive(Debug)]
pub struct Listed {
    pub source: u64,
    pub row: u32,
    pub entry: Entry,
}

#[verifier::ext_equal]
pub struct ListedView {
    pub source: u64,
    pub row: u32,
    pub entry: EntryView,
}

impl View for Listed {
    type V = ListedView;

    open spec fn view(&self) -> ListedView {
        ListedView { source: self.source, row: self.row, entry: self.entry@ }
    }
}

/// A folder that is not searched, and why.
#[derive(Debug)]
pub struct Refused {
    pub path: FsPath,
    pub reason: String,
}

#[verifier::ext_equal]
pub struct RefusedView {
    pub path: PathView,
    pub reason: Seq<char>,
}

impl View for Refused {
    type V = RefusedView;

    open spec fn view(&self) -> RefusedView {
        RefusedView { path: self.path@, reason: self.reason@ }
    }
}

#[derive(Debug)]
pub struct World {
    pub disk: Disk,
    /// The time, in milliseconds from some start.
    pub now: u64,
    /// The rows that are known: those on screen, and the selected ones.
    pub listed: Vec<Listed>,
    /// The folders known not to be searched.
    pub refused: Vec<Refused>,
    /// The folders known not to be readable.
    pub unreadable: Vec<FsPath>,
}

#[verifier::ext_equal]
pub struct WorldView {
    pub disk: DiskView,
    pub now: u64,
    pub listed: Seq<ListedView>,
    pub refused: Seq<RefusedView>,
    pub unreadable: Seq<PathView>,
}

impl View for World {
    type V = WorldView;

    open spec fn view(&self) -> WorldView {
        WorldView {
            disk: self.disk@,
            now: self.now,
            listed: self.listed@.map_values(|l: Listed| l@),
            refused: self.refused@.map_values(|r: Refused| r@),
            unreadable: self.unreadable@.map_values(|p: FsPath| p@),
        }
    }
}

/// The first of the rows from `from` on that is that row of that list.
pub open spec fn entry_from(
    listed: Seq<ListedView>,
    source: u64,
    row: u32,
    from: int,
) -> Option<EntryView>
    decreases listed.len() - from,
{
    if from >= listed.len() {
        None
    } else if listed[from].source == source && listed[from].row == row {
        Some(listed[from].entry)
    } else {
        entry_from(listed, source, row, from + 1)
    }
}

/// The first refusal from `from` on that is of that folder.
pub open spec fn refusal_from(refused: Seq<RefusedView>, path: PathView, from: int) -> Option<
    Seq<char>,
>
    decreases refused.len() - from,
{
    if from >= refused.len() {
        None
    } else if refused[from].path == path {
        Some(refused[from].reason)
    } else {
        refusal_from(refused, path, from + 1)
    }
}

impl WorldView {
    /// Whether what every row is shown as can be matched.
    pub open spec fn rows_fit(self) -> bool {
        forall|i: int|
            0 <= i < self.listed.len() ==> #[trigger] self.listed[i].entry.display.len()
                <= fuzzy::TEXT_LIMIT
    }

    /// What is on a row of a list, where it is known.
    pub open spec fn entry_at(self, source: u64, row: u32) -> Option<EntryView> {
        entry_from(self.listed, source, row, 0)
    }

    /// Why a folder is not searched, if it is not.
    pub open spec fn refusal(self, path: PathView) -> Option<Seq<char>> {
        refusal_from(self.refused, path, 0)
    }
}

impl World {
    pub open spec fn wf(&self) -> bool {
        self.disk.wf() && self@.rows_fit()
    }

    pub fn entry_at(&self, source: u64, row: u32) -> (entry: Option<Entry>)
        ensures
            entry is Some == self@.entry_at(source, row) is Some,
            entry matches Some(e) ==> self@.entry_at(source, row) == Some(e@),
            self@.rows_fit() ==> (entry matches Some(e) ==> e@.display.len()
                <= fuzzy::TEXT_LIMIT),
    {
        let mut i: usize = 0;
        while i < self.listed.len()
            invariant
                i <= self.listed@.len(),
                self@.entry_at(source, row) == entry_from(self@.listed, source, row, i as int),
            decreases self.listed@.len() - i,
        {
            assert(self@.listed[i as int] == self.listed@[i as int]@);
            if self.listed[i].source == source && self.listed[i].row == row {
                return Some(self.listed[i].entry.clone());
            }
            i += 1;
        }
        None
    }

    pub fn refusal(&self, path: &FsPath) -> (reason: Option<String>)
        ensures
            reason is Some == self@.refusal(path@) is Some,
            reason matches Some(r) ==> self@.refusal(path@) == Some(r@),
    {
        let mut i: usize = 0;
        while i < self.refused.len()
            invariant
                i <= self.refused@.len(),
                self@.refusal(path@) == refusal_from(self@.refused, path@, i as int),
            decreases self.refused@.len() - i,
        {
            assert(self@.refused[i as int] == self.refused@[i as int]@);
            if self.refused[i].path.is(path) {
                return Some(self.refused[i].reason.clone());
            }
            i += 1;
        }
        None
    }

    pub fn is_unreadable(&self, path: &FsPath) -> (res: bool)
        ensures
            res == self@.unreadable.contains(path@),
    {
        let mut i: usize = 0;
        while i < self.unreadable.len()
            invariant
                i <= self.unreadable@.len(),
                forall|k: int| 0 <= k < i ==> #[trigger] self@.unreadable[k] != path@,
            decreases self.unreadable@.len() - i,
        {
            assert(self@.unreadable[i as int] == self.unreadable@[i as int]@);
            if self.unreadable[i].is(path) {
                return true;
            }
            i += 1;
        }
        assert(!self@.unreadable.contains(path@));
        false
    }
}

} // verus!
