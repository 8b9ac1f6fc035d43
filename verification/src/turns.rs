//! Turns of the loop: what is heard of the scans while nobody types.

use vstd::prelude::*;

use crate::disk::{Disk, DiskView};
use crate::fuzzy;
use crate::mode::Mode;
use crate::moves;
use crate::picker::{self, mode_index, Picker, PickerView};
use crate::scan::{Entry, EntryView};
use crate::source::{Shown, Source, SourceView};

verus! {

/// What is heard of the scan behind a list, and of the matching of its items.
#[derive(Debug)]
pub struct Report {
    /// What the walk came to, if it has just finished.
    pub finished: Option<Result<Vec<u32>, String>>,
    /// The walk stopped at its ceiling.
    pub truncated: bool,
    /// The matches have changed.
    pub changed: bool,
    /// The matching is not done.
    pub running: bool,
    /// How many items have reached the list, of how many sent.
    pub listed: u32,
    pub sent: u32,
    /// How many of them match.
    pub count: u32,
}

#[verifier::ext_equal]
pub struct ReportView {
    pub finished: Option<Result<Seq<u32>, Seq<char>>>,
    pub truncated: bool,
    pub changed: bool,
    pub running: bool,
    pub listed: u32,
    pub sent: u32,
    pub count: u32,
}

impl View for Report {
    type V = ReportView;

    open spec fn view(&self) -> ReportView {
        ReportView {
            finished: match self.finished {
                Some(Ok(order)) => Some(Ok(order@)),
                Some(Err(error)) => Some(Err(error@)),
                None => None,
            },
            truncated: self.truncated,
            changed: self.changed,
            running: self.running,
            listed: self.listed,
            sent: self.sent,
            count: self.count,
        }
    }
}

impl SourceView {
    /// Whether that is the end of the walk.
    pub open spec fn ends(self, report: ReportView) -> bool {
        self.scanning && report.finished is Some
    }

    /// This with the report taken in.
    pub open spec fn reported(self, report: ReportView) -> SourceView {
        let heard = match report.finished {
            Some(result) => self.finished(result),
            None => self,
        };
        SourceView { truncated: report.truncated, ..heard }
    }

    /// Whether what is shown of this may be another thing after the report.
    /// While the list is still filling the count and the spinner move on their
    /// own.
    pub open spec fn stirred(self, report: ReportView) -> bool {
        self.ends(report) || report.changed || report.running || !self.reported(report).scan_done
    }

    /// This with the report taken in, in order and with a row selected.
    pub open spec fn ticked(self, report: ReportView) -> SourceView {
        self.reported(report).ordered(report.listed, report.sent).clamped(report.count)
    }
}

impl Source {
    /// Takes in a report. Says whether the walk has just ended, and whether
    /// the screen is to be drawn again.
    fn hear(&mut self, report: Report) -> (res: (bool, bool))
        ensures
            final(self)@ == old(self)@.reported(report@),
            res.0 == old(self)@.ends(report@),
            res.1 == old(self)@.stirred(report@),
    {
        let scanning = self.scanning;
        let mut ends = false;
        match report.finished {
            Some(result) => {
                ends = scanning;
                self.finish_scan(result);
            },
            None => {},
        }
        self.truncated = report.truncated;
        (ends, ends || report.changed || report.running || !self.scan_done)
    }

    /// Takes in a report, and keeps the list in order and a row of it selected.
    fn tick(&mut self, report: Report) -> (dirty: bool)
        ensures
            final(self)@ == old(self)@.ticked(report@),
            dirty == old(self)@.stirred(report@),
    {
        let listed: u32 = report.listed;
        let sent: u32 = report.sent;
        let count: u32 = report.count;
        let (_, dirty) = self.hear(report);
        self.refresh_browse_order(listed, sent);
        self.clamp_selection(count);
        dirty
    }
}

impl PickerView {
    /// This with the report on a mode's list taken in.
    pub open spec fn source_ticked(self, mode: Mode, report: ReportView) -> PickerView {
        let p = self.started(mode);
        p.with_source(mode, Some(p.source(mode)->Some_0.ticked(report)))
    }

    pub open spec fn source_stirred(self, mode: Mode, report: ReportView) -> bool {
        self.started(mode).source(mode)->Some_0.stirred(report)
    }

    /// This with the report on the list on screen taken in. Browse has none.
    pub open spec fn list_ticked(self, report: ReportView) -> PickerView {
        if self.mode == Mode::Browse {
            self
        } else {
            self.source_ticked(self.mode, report)
        }
    }

    /// This with the report on the list of places taken in, if one is open.
    pub open spec fn places_ticked(self, report: ReportView) -> PickerView {
        match self.places {
            Some(mode) => self.source_ticked(mode, report),
            None => self,
        }
    }

    /// Whether taking in the report on the tree's search, with its best matches,
    /// may give that, and says whether to draw the screen again. The matches
    /// are built into a tree again when there are others, and the search ends
    /// when the tree has moved to another folder.
    pub open spec fn tree_ticked(
        self,
        report: ReportView,
        entries: Seq<(EntryView, bool)>,
        disk: DiskView,
        after: PickerView,
        dirty: bool,
    ) -> bool {
        let p = self.with_tree(disk);
        if !self.in_tree() {
            after == self && !dirty
        } else if p.tree_search is None {
            after == p && !dirty
        } else {
            let search = p.tree_search->Some_0;
            let heard = PickerView { tree_search: Some(search.reported(report)), ..p };
            &&& dirty == search.stirred(report)
            &&& if (report.changed || search.ends(report)) && p.tree_query.len() > 0 {
                heard.found_rebuilt(entries, disk, after)
            } else {
                after == heard
            }
        }
    }
}

impl Picker {
    fn tick_source(&mut self, mode: Mode, report: Report) -> (dirty: bool)
        requires
            old(self).wf(),
        ensures
            final(self).wf(),
            final(self)@ == old(self)@.source_ticked(mode, report@),
            dirty == old(self)@.source_stirred(mode, report@),
    {
        self.start(mode);
        let ghost was = self@;
        let ghost heard = report@;
        let i: usize = mode_index(mode);
        assert(self@.sources[i as int] == picker::maybe(self.sources@[i as int]));
        let dirty = match &mut self.sources[i] {
            Some(source) => source.tick(report),
            None => false,
        };
        assert(self@.sources =~= was.sources.update(
            picker::place_of(mode),
            Some(was.source(mode)->Some_0.ticked(heard)),
        ));
        dirty
    }

    /// Takes in what is heard of the list on screen. Says whether the screen is
    /// to be drawn again.
    pub fn tick_list(&mut self, report: Report) -> (dirty: bool)
        requires
            old(self).wf(),
        ensures
            final(self).wf(),
            final(self)@ == old(self)@.list_ticked(report@),
            dirty == (old(self)@.mode != Mode::Browse && old(self)@.source_stirred(
                old(self)@.mode,
                report@,
            )),
    {
        if self.mode == Mode::Browse {
            false
        } else {
            self.tick_source(self.mode, report)
        }
    }

    /// Takes in what is heard of the list of places, if one is open. Says
    /// whether the screen is to be drawn again.
    pub fn tick_places(&mut self, report: Report) -> (dirty: bool)
        requires
            old(self).wf(),
        ensures
            final(self).wf(),
            final(self)@ == old(self)@.places_ticked(report@),
            dirty == (old(self)@.places matches Some(mode) && old(self)@.source_stirred(
                mode,
                report@,
            )),
    {
        match self.places {
            Some(mode) => self.tick_source(mode, report),
            None => false,
        }
    }

    /// Moves the tree's search on while matches arrive: `entries` are the best
    /// of them, and whether each is a folder. Says whether anything on screen
    /// may have changed.
    pub fn tick_tree_search(
        &mut self,
        report: Report,
        entries: Vec<(Entry, bool)>,
        disk: &Disk,
    ) -> (dirty: bool)
        requires
            old(self).wf(),
            disk.wf(),
            old(self)@.tree_query.len() <= fuzzy::PATTERN_LIMIT,
            forall|i: int|
                0 <= i < entries@.len() ==> (#[trigger] entries@[i]).0@.display.len()
                    <= fuzzy::TEXT_LIMIT,
        ensures
            final(self).wf(),
            old(self)@.tree_ticked(
                report@,
                moves::entries_view(entries@),
                disk@,
                final(self)@,
                dirty,
            ),
    {
        if !self.in_tree() {
            return false;
        }
        // Ends the search first when the tree has moved to another folder, as
        // going back in history moves it; the old folder's matches would
        // otherwise stay on screen until the next draw.
        self.ensure_tree(disk);
        let changed = report.changed;
        let (ends, dirty) = match &mut self.tree_search {
            Some(search) => search.hear(report),
            None => {
                return false;
            },
        };
        if (changed || ends) && !self.tree_query.is_empty() {
            self.rebuild_found(entries, disk);
        }
        dirty
    }
}

/// The end of a walk is heard once: what is said of it later changes nothing.
pub proof fn an_end_is_heard_once(source: SourceView, first: ReportView, later: ReportView)
    requires
        source.ends(first),
    ensures
        !source.reported(first).ends(later),
        source.reported(first).reported(later) == (SourceView {
            truncated: later.truncated,
            ..source.reported(first)
        }),
{
}

/// With nothing new heard of a list that is complete, nothing is drawn again and
/// the list stays as it was.
pub proof fn nothing_new_draws_nothing(source: SourceView, report: ReportView)
    requires
        source.scan_done,
        source.scanned_order is None,
        report.finished is None,
        !report.changed,
        !report.running,
        report.truncated == source.truncated,
        source.selected < report.count,
    ensures
        !source.stirred(report),
        source.ticked(report) == source,
{
}

/// Once a walk has ended well and all its items are listed, what it found is
/// shown in the order it gave, as long as nothing is typed.
pub proof fn a_finished_walk_is_in_order(source: SourceView, report: ReportView, n: u32)
    requires
        source.ends(report),
        report.finished->Some_0 is Ok,
        report.listed == report.sent,
        source.browse_order is None,
        source.browsing(),
        n < report.finished->Some_0->Ok_0.len(),
    ensures
        source.ticked(report).row(n) == Some(
            Shown::Item(report.finished->Some_0->Ok_0[n as int]),
        ),
{
}

} // verus!
