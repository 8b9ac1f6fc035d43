//! The state of one list of candidates: what it covers, what is typed into it,
//! and which row is selected. The candidates themselves are matched elsewhere.

use vstd::prelude::*;

use crate::fs_path::{FsPath, PathView};
use crate::mode::Mode;
use crate::text;

verus! {

/// One mode's candidates: the scan that feeds them and how they are shown.
/// Sources are created the first time a mode is shown and kept, so switching
/// back with Tab is instant.
#[derive(Debug)]
pub struct Source {
    /// Which list this is. A list that is started anew is another one.
    pub id: u64,
    pub mode: Mode,
    /// The folder the scan walks.
    pub root: FsPath,
    /// The ceiling for this scan alone, so a reader who asked for the rest of
    /// a folder gets it without editing a file and starting over. None at 0.
    pub limit: usize,
    pub query: String,
    /// Which row is at the top of the list.
    pub first: usize,
    pub selected: u32,
    /// Whether the walk is still to be heard from.
    pub scanning: bool,
    pub scan_done: bool,
    /// Set when the walk stopped at the configured ceiling, so the count on
    /// screen can say the list is short rather than look complete.
    pub truncated: bool,
    pub scan_error: Option<String>,
    /// The order the scan handed back, held until every item has reached the
    /// list it indexes into.
    pub scanned_order: Option<Vec<u32>>,
    /// Item indices in browse order (shallow paths first, then by name), built
    /// once the scan has finished. With no query the matcher lists items in
    /// the order the parallel walk found them, which is noise to a reader.
    pub browse_order: Option<Vec<u32>>,
}

#[verifier::ext_equal]
pub struct SourceView {
    pub id: u64,
    pub mode: Mode,
    pub root: PathView,
    pub limit: usize,
    pub query: Seq<char>,
    pub first: usize,
    pub selected: u32,
    pub scanning: bool,
    pub scan_done: bool,
    pub truncated: bool,
    pub scan_error: Option<Seq<char>>,
    pub scanned_order: Option<Seq<u32>>,
    pub browse_order: Option<Seq<u32>>,
}

pub open spec fn order_view(order: Option<Vec<u32>>) -> Option<Seq<u32>> {
    match order {
        Some(order) => Some(order@),
        None => None,
    }
}

impl View for Source {
    type V = SourceView;

    open spec fn view(&self) -> SourceView {
        SourceView {
            id: self.id,
            mode: self.mode,
            root: self.root@,
            limit: self.limit,
            query: self.query@,
            first: self.first,
            selected: self.selected,
            scanning: self.scanning,
            scan_done: self.scan_done,
            truncated: self.truncated,
            scan_error: text::opt_view(self.scan_error),
            scanned_order: order_view(self.scanned_order),
            browse_order: order_view(self.browse_order),
        }
    }
}

/// A row of a list: an item by its place among all of them, or by its rank
/// among those that match.
#[derive(Clone, Copy, Debug, PartialEq, Eq, Structural)]
pub enum Shown {
    Item(u32),
    Matched(u32),
}

impl SourceView {
    /// A list whose scan has just been asked for.
    pub open spec fn fresh(id: u64, mode: Mode, root: PathView, limit: usize) -> SourceView {
        SourceView {
            id,
            mode,
            root,
            limit,
            query: Seq::empty(),
            first: 0,
            selected: 0,
            scanning: true,
            scan_done: false,
            truncated: false,
            scan_error: None,
            scanned_order: None,
            browse_order: None,
        }
    }

    /// Browse order applies to scanned modes with an empty query.
    pub open spec fn browsing(self) -> bool {
        self.query.len() == 0 && !self.mode.lists_places()
    }

    /// This with the query changed, and the first row selected.
    pub open spec fn queried(self, query: Seq<char>) -> SourceView {
        SourceView { query, selected: 0, ..self }
    }

    /// This with the selection that many rows up.
    pub open spec fn moved_up(self, rows: u32) -> SourceView {
        SourceView {
            selected: if self.selected > rows {
                (self.selected - rows) as u32
            } else {
                0
            },
            ..self
        }
    }

    /// This with the selection that many rows down.
    pub open spec fn moved_down(self, rows: u32) -> SourceView {
        SourceView {
            selected: if self.selected + rows > u32::MAX {
                u32::MAX
            } else {
                (self.selected + rows) as u32
            },
            ..self
        }
    }

    /// Which item the nth row shows: browse order when browsing, the matcher's
    /// ranking otherwise.
    pub open spec fn row(self, n: u32) -> Option<Shown> {
        match self.browse_order {
            Some(order) => if self.browsing() {
                if n < order.len() {
                    Some(Shown::Item(order[n as int]))
                } else {
                    None
                }
            } else {
                Some(Shown::Matched(n))
            },
            None => Some(Shown::Matched(n)),
        }
    }

    /// This with the order the scan built in use, once `listed` of its `sent`
    /// items have arrived and that is all of them.
    pub open spec fn ordered(self, listed: u32, sent: u32) -> SourceView {
        if !self.mode.lists_places() && self.browse_order is None && self.scanned_order is Some
            && self.scan_done && listed == sent {
            SourceView { browse_order: self.scanned_order, scanned_order: None, ..self }
        } else {
            self
        }
    }

    /// This with the selection inside a list of `count` rows.
    pub open spec fn clamped(self, count: u32) -> SourceView {
        SourceView {
            selected: if count == 0 {
                0
            } else if self.selected >= count {
                (count - 1) as u32
            } else {
                self.selected
            },
            ..self
        }
    }

    /// This with the walk heard from: the order it built, or why it failed. It
    /// is heard from once.
    pub open spec fn finished(self, result: Result<Seq<u32>, Seq<char>>) -> SourceView {
        if !self.scanning {
            self
        } else {
            let heard = SourceView { scanning: false, scan_done: true, ..self };
            match result {
                Ok(order) => SourceView { scanned_order: Some(order), ..heard },
                Err(error) => SourceView { scan_error: Some(error), ..heard },
            }
        }
    }
}

impl Source {
    /// A list whose scan has just been asked for.
    pub fn start(id: u64, mode: Mode, root: &FsPath, limit: usize) -> (source: Source)
        ensures
            source@ == SourceView::fresh(id, mode, root@, limit),
    {
        let source = Source {
            id,
            mode,
            root: root.clone(),
            limit,
            query: String::new(),
            first: 0,
            selected: 0,
            scanning: true,
            scan_done: false,
            truncated: false,
            scan_error: None,
            scanned_order: None,
            browse_order: None,
        };
        assert(source@.query =~= Seq::<char>::empty());
        source
    }

    /// Browse order applies to scanned modes with an empty query. The history's
    /// own order (by score) is the point of recent mode, so it is left alone.
    pub fn browsing(&self) -> (res: bool)
        ensures
            res == self@.browsing(),
    {
        self.query.is_empty() && !self.mode.is_places()
    }

    /// Takes the order the scan built, once every item it names has reached
    /// the list. The order itself is produced by the walk, so nothing is
    /// sorted here.
    pub fn refresh_browse_order(&mut self, listed: u32, sent: u32)
        ensures
            final(self)@ == old(self)@.ordered(listed, sent),
    {
        if self.mode.is_places() || self.browse_order.is_some() || self.scanned_order.is_none()
            || !self.scan_done || listed != sent {
            return;
        }
        self.browse_order = self.scanned_order.take();
    }

    /// The nth row as shown: browse order when browsing, the matcher's ranking
    /// otherwise.
    pub fn visible(&self, n: u32) -> (shown: Option<Shown>)
        ensures
            shown == self@.row(n),
    {
        match &self.browse_order {
            Some(order) => if self.browsing() {
                if (n as u64) < order.len() as u64 {
                    Some(Shown::Item(order[n as usize]))
                } else {
                    None
                }
            } else {
                Some(Shown::Matched(n))
            },
            None => Some(Shown::Matched(n)),
        }
    }

    pub fn set_query(&mut self, query: &str)
        ensures
            final(self)@ == old(self)@.queried(query@),
    {
        self.query = query.to_owned();
        self.selected = 0;
    }

    pub fn move_up(&mut self, rows: u32)
        ensures
            final(self)@ == old(self)@.moved_up(rows),
    {
        self.selected = if self.selected > rows {
            self.selected - rows
        } else {
            0
        };
    }

    pub fn move_down(&mut self, rows: u32)
        ensures
            final(self)@ == old(self)@.moved_down(rows),
    {
        self.selected = if rows > u32::MAX - self.selected {
            u32::MAX
        } else {
            self.selected + rows
        };
    }

    pub fn clamp_selection(&mut self, count: u32)
        ensures
            final(self)@ == old(self)@.clamped(count),
    {
        if count == 0 {
            self.selected = 0;
        } else if self.selected >= count {
            self.selected = count - 1;
        }
    }

    /// Takes in what the walk came to: the order it built, or why it failed.
    pub fn finish_scan(&mut self, result: Result<Vec<u32>, String>)
        ensures
            final(self)@ == old(self)@.finished(
                match result {
                    Ok(order) => Ok(order@),
                    Err(error) => Err(error@),
                },
            ),
    {
        if !self.scanning {
            return;
        }
        self.scanning = false;
        self.scan_done = true;
        match result {
            Ok(order) => {
                self.scanned_order = Some(order);
            },
            Err(error) => {
                self.scan_error = Some(error);
            },
        }
    }
}

/// Typing starts from the first row, and with everything erased the scanned
/// modes are back in browse order.
pub proof fn an_empty_query_browses(source: SourceView)
    requires
        !source.mode.lists_places(),
    ensures
        source.queried(Seq::empty()).browsing(),
        source.queried(Seq::empty()).selected == 0,
{
}

} // verus!
