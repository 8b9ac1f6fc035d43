//! What moves the tree and its search.

use vstd::prelude::*;

use crate::disk::Disk;
use crate::fs_path::FsPath;
use crate::fuzzy::{self, arrange, path_hits};
use crate::header::Tab;
use crate::marks::{spread_marks, Marks};
use crate::moves::{self, Match, MatchView};
use crate::mode::Mode;
use crate::picker::{self, Picker, PickerView};
use crate::scan::Entry;
use crate::source::Source;
use crate::tree::{self, Found, Tree};
use crate::world::World;

verus! {

impl Picker {
    /// Builds the tree of those matches. The best match is selected, unless
    /// the reader has moved the selection since the query changed.
    pub(crate) fn build_found(&mut self, matches: &Vec<Match>)
        requires
            old(self).wf(),
            old(self)@.tree is Some,
            moves::matches_fit(moves::matches_view(matches@)),
        ensures
            final(self).wf(),
            final(self)@ == old(self)@.rebuilt(moves::matches_view(matches@)),
    {
        reveal(PickerView::rebuilt);
        let ghost all = moves::matches_view(matches@);
        let on = self.on;
        let root = match &self.tree {
            Some(tree) => tree.top().clone(),
            None => FsPath::empty(),
        };
        let mut marks = Marks::new();
        let mut rows: Vec<Found> = Vec::new();
        let mut i: usize = 0;
        assert(all.take(0) =~= Seq::<MatchView>::empty());
        assert(tree::founds_view(rows@) =~= moves::found_rows(all.take(0), on));
        while i < matches.len()
            invariant
                i <= matches@.len(),
                all == moves::matches_view(matches@),
                moves::matches_fit(all),
                marks@ == moves::found_marks(all.take(i as int), on),
                tree::founds_view(rows@) == moves::found_rows(all.take(i as int), on),
            decreases matches@.len() - i,
        {
            let found: &Match = &matches[i];
            assert(all[i as int] == found@);
            assert(all[i as int].entry.display.len() <= fuzzy::TEXT_LIMIT);
            assert(all.take(i + 1).drop_last() =~= all.take(i as int));
            let path = found.entry.path(on);
            let hits = arrange(&found.hits);
            spread_marks(&path, found.entry.shown(), &hits, &mut marks, on);
            let ghost was = tree::founds_view(rows@);
            rows.push((path, found.is_dir));
            assert(tree::founds_view(rows@) =~= was.push((path@, found.is_dir)));
            i += 1;
            assert(tree::founds_view(rows@) =~= moves::found_rows(all.take(i as int), on));
        }
        assert(all.take(i as int) =~= all);
        let kept = match &self.found {
            Some(found) => if self.found_keep {
                found.selected_path()
            } else {
                None
            },
            None => None,
        };
        let mut built = Tree::from_matches(root, &rows, on);
        match kept {
            Some(path) => {
                match built.position(&path) {
                    Some(row) => {
                        built.select(row);
                    },
                    None => {},
                }
            },
            None => {},
        }
        self.found = Some(built);
        self.found_marks = marks;
    }

    /// Shows the matches that have arrived, as long as there is a search. It
    /// ends when the tree has moved to another folder since, as going back in
    /// history moves it, and the matches of the old folder must not be built
    /// under the new one.
    pub fn show_matches(&mut self, matches: &Vec<Match>, disk: &Disk)
        requires
            old(self).wf(),
            disk.wf(),
            moves::matches_fit(moves::matches_view(matches@)),
        ensures
            final(self).wf(),
            final(self)@ == old(self)@.search_shown(moves::matches_view(matches@), disk@),
    {
        self.ensure_tree(disk);
        if self.tree_search.is_some() {
            self.build_found(matches);
        }
    }

    /// Builds the tree of the best matches again, with the letters of each that
    /// were matched marked.
    pub fn rebuild_found(&mut self, entries: Vec<(Entry, bool)>, disk: &Disk)
        requires
            old(self).wf(),
            disk.wf(),
            old(self)@.tree_query.len() <= fuzzy::PATTERN_LIMIT,
            forall|i: int|
                0 <= i < entries@.len() ==> (#[trigger] entries@[i]).0@.display.len()
                    <= fuzzy::TEXT_LIMIT,
        ensures
            final(self).wf(),
            old(self)@.found_rebuilt(moves::entries_view(entries@), disk@, final(self)@),
    {
        let ghost was = self@;
        let mut matches: Vec<Match> = Vec::new();
        let mut i: usize = 0;
        while i < entries.len()
            invariant
                i <= entries@.len(),
                self@.tree_query.len() <= fuzzy::PATTERN_LIMIT,
                forall|k: int|
                    0 <= k < entries@.len() ==> (#[trigger] entries@[k]).0@.display.len()
                        <= fuzzy::TEXT_LIMIT,
                moves::matched_in(
                    moves::matches_view(matches@),
                    moves::entries_view(entries@).take(i as int),
                    self@.tree_query,
                ),
                moves::matches_fit(moves::matches_view(matches@)),
            decreases entries@.len() - i,
        {
            let ghost shown = moves::matches_view(matches@);
            assert(entries@[i as int].0@.display.len() <= fuzzy::TEXT_LIMIT);
            let hits = path_hits(&self.tree_query, entries[i].0.shown());
            let found = Match { entry: entries[i].0.clone(), hits, is_dir: entries[i].1 };
            let ghost added = found@;
            matches.push(found);
            assert(moves::matches_view(matches@) =~= shown.push(added));
            i += 1;
        }
        assert(moves::entries_view(entries@).take(i as int) =~= moves::entries_view(entries@));
        self.show_matches(&matches, disk);
        assert(moves::matched_in(
            moves::matches_view(matches@),
            moves::entries_view(entries@),
            was.tree_query,
        ));
    }

    /// How many of the matches are built into the tree: about as many as can be
    /// shown.
    pub fn matches_wanted(&self, count: u32) -> (take: u32)
        ensures
            take == (if count < self@.tree_rows || count < picker::TREE_ROWS {
                count as int
            } else if self@.tree_rows > picker::TREE_ROWS {
                self@.tree_rows as int
            } else {
                picker::TREE_ROWS as int
            }),
    {
        let rows: usize = if self.tree_rows > picker::TREE_ROWS {
            self.tree_rows
        } else {
            picker::TREE_ROWS
        };
        if (count as u64) < rows as u64 {
            count
        } else {
            rows as u32
        }
    }

    /// Types into the tree. The first letter starts a scan of everything
    /// under the root; the matches arrive as it goes. Says whether those there
    /// are by now are to be built in at once.
    pub fn set_tree_query(&mut self, query: &str, disk: &Disk) -> (wanted: bool)
        requires
            old(self).wf(),
            disk.wf(),
        ensures
            final(self).wf(),
            final(self)@ == old(self)@.tree_queried(query@, disk@),
            wanted == old(self)@.wants_matches(query@, disk@),
    {
        reveal(PickerView::tree_queried);
        if query.is_empty() {
            self.clear_tree_query();
            return false;
        }
        self.ensure_tree(disk);
        let root = match &self.tree {
            Some(tree) => tree.top().clone(),
            None => FsPath::empty(),
        };
        if root.is_empty() {
            self.set_notice("Open a drive to search it".to_owned());
            return false;
        }
        let ghost p = self@;
        self.tree_query = query.to_owned();
        let covered = self.tree_search.is_some() && self.tree_search_root.same_place(&root);
        if covered {
            match &mut self.tree_search {
                Some(source) => source.set_query(query),
                None => {},
            }
        } else {
            let limit: usize = self.limit();
            let mut source = Source::start(self.next_id, Mode::Browse, &root, limit);
            source.set_query(query);
            self.tree_search = Some(source);
            self.tree_search_root = root;
            self.next_id = picker::next_after(self.next_id);
        }
        self.found_keep = false;
        let none: Vec<Match> = Vec::new();
        assert(moves::matches_view(none@) =~= Seq::<MatchView>::empty());
        self.build_found(&none);
        true
    }

    pub(crate) fn clear_tree_query(&mut self)
        requires
            old(self).wf(),
        ensures
            final(self).wf(),
            final(self)@ == old(self)@.tree_cleared(),
    {
        self.tree_query = String::new();
        self.found = None;
        self.found_marks = Marks::new();
        // The scan is kept for the next query, which then starts from nothing
        // rather than from this one.
        match &mut self.tree_search {
            Some(source) => source.set_query(""),
            None => {},
        }
        proof {
            reveal_strlit("");
        }
        assert(""@ =~= Seq::<char>::empty());
        assert(self@.tree_query =~= Seq::<char>::empty());
    }

    /// Switches browse between its columns and the tree; from a search it
    /// opens browse as a tree. Leaving the tree, what was selected there is
    /// shown selected in the columns, in the folder holding it.
    pub fn toggle_tree(&mut self, world: &World)
        requires
            old(self).wf(),
            world.wf(),
        ensures
            final(self).wf(),
            final(self)@ == old(self)@.tree_toggled(world@),
    {
        reveal(PickerView::tree_toggled);
        if self.mode != Mode::Browse {
            self.tree_view = true;
            self.switch_to(Mode::Browse, world);
            return;
        }
        if self.tree_view {
            let selected = match &self.found {
                Some(found) => found.selected_path(),
                None => match &self.tree {
                    Some(tree) => tree.selected_path(),
                    None => None,
                },
            };
            self.end_tree_search();
            match selected {
                Some(path) => {
                    self.ensure_browser(&world.disk);
                    match &mut self.browser {
                        Some(browser) => {
                            if !path.same_place(browser.dir()) {
                                browser.show_in_place(&path, &world.disk);
                            }
                        },
                        None => {},
                    }
                },
                None => {},
            }
            self.tree = None;
        }
        self.tree_view = !self.tree_view;
        self.preview = None;
    }

    /// A click on a tab. Browse's two tabs also pick how it is drawn, from a
    /// search as well as from browse.
    pub fn select_tab(&mut self, tab: Tab, world: &World)
        requires
            old(self).wf(),
            world.wf(),
            !tab.0.lists_places(),
        ensures
            final(self).wf(),
            final(self)@ == old(self)@.tab_selected(tab, world@),
    {
        reveal(PickerView::tab_selected);
        if tab.0 != Mode::Browse {
            self.switch_to(tab.0, world);
        } else if self.mode == Mode::Browse {
            if self.tree_view != tab.1 {
                self.toggle_tree(world);
            }
        } else if tab.1 {
            self.toggle_tree(world);
        } else {
            self.end_tree_search();
            self.tree = None;
            self.tree_view = false;
            self.switch_to(Mode::Browse, world);
        }
    }

    /// Left in the tree: closes a folder, goes to the row above it, and from
    /// the root line moves the root up, as Left climbs in the columns.
    pub fn tree_left(&mut self, disk: &Disk)
        requires
            old(self).wf(),
            disk.wf(),
        ensures
            final(self).wf(),
            final(self)@ == old(self)@.tree_lefted(disk@),
    {
        reveal(PickerView::tree_lefted);
        self.ensure_tree(disk);
        let at_root = match &mut self.tree {
            Some(tree) => tree.left(),
            None => false,
        };
        if !at_root {
            return;
        }
        let parent = match &self.browser {
            Some(browser) => browser.parent_dir(),
            None => None,
        };
        match parent {
            Some(parent) => {
                // The tree moves first, keeping its open branches, so that
                // browse arriving at the same place does not have it built
                // again.
                match &mut self.tree {
                    Some(tree) => tree.rise(parent, disk),
                    None => {},
                }
                match &mut self.browser {
                    Some(browser) => browser.up(disk),
                    None => {},
                }
                self.preview = None;
            },
            None => {},
        }
    }

    /// Leaves the tree's search for the tree of folders, opened down to the
    /// selected match: a search finds the place, and the tree goes on from
    /// there.
    pub fn leave_tree_search(&mut self, disk: &Disk)
        requires
            old(self).wf(),
            disk.wf(),
        ensures
            final(self).wf(),
            final(self)@ == old(self)@.search_left(disk@),
    {
        reveal(PickerView::search_left);
        self.ensure_shown(disk);
        match self.shown_path() {
            Some(path) => {
                self.clear_tree_query();
                self.ensure_tree(disk);
                match &mut self.tree {
                    Some(tree) => tree.show_in_place(&path, disk),
                    None => {},
                }
            },
            None => {},
        }
    }
}

} // verus!
