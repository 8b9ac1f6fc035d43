//! What goes to a place, and what types.

use vstd::prelude::*;

use crate::disk::Disk;
use crate::fs_path::FsPath;
use crate::fuzzy;
use crate::header::Nav;
use crate::mode::Mode;
use crate::picker::{self, Picker, PickerView};
use crate::text::joined;
use crate::world::World;

verus! {

impl Picker {
    /// Leaves a search for browse at `path`: inside a folder, or beside a file
    /// with the file selected. Tab from there searches from that folder, so a
    /// favorite or a search result is a way into the rest of the picker and
    /// not only a place to cd to.
    pub fn browse_at(&mut self, path: &FsPath, disk: &Disk)
        requires
            old(self).wf(),
            disk.wf(),
        ensures
            final(self).wf(),
            final(self)@ == old(self)@.browsed_at(path@, disk@),
    {
        reveal(PickerView::browsed_at);
        self.mode = Mode::Browse;
        self.ensure_browser(disk);
        match &mut self.browser {
            Some(browser) => browser.navigate_to(path, disk),
            None => {},
        }
        self.preview = None;
    }

    /// Types `query` on the screen that is on.
    pub fn set_query(&mut self, query: &str, disk: &Disk)
        requires
            old(self).wf(),
            disk.wf(),
            old(self)@.mode == Mode::Browse && !old(self)@.tree_view ==> query@.len()
                <= fuzzy::PATTERN_LIMIT,
        ensures
            final(self).wf(),
            final(self)@ == old(self)@.queried(query@, disk@),
    {
        reveal(PickerView::queried);
        if self.in_tree() {
            self.set_tree_query(query, disk);
            return;
        }
        if self.mode == Mode::Browse {
            self.ensure_browser(disk);
            match &mut self.browser {
                Some(browser) => browser.set_filter(query),
                None => {},
            }
            return;
        }
        self.query = query.to_owned();
        self.query_source(self.mode, query);
    }

    pub fn set_places_query(&mut self, query: &str)
        requires
            old(self).wf(),
        ensures
            final(self).wf(),
            final(self)@ == old(self)@.places_queried(query@),
    {
        reveal(PickerView::places_queried);
        match self.places {
            Some(mode) => {
                self.places_query = query.to_owned();
                self.query_source(mode, query);
            },
            None => {},
        }
    }

    pub(crate) fn query_source(&mut self, mode: Mode, query: &str)
        requires
            old(self).wf(),
        ensures
            final(self).wf(),
            ({
                let p = old(self)@.started(mode);
                final(self)@ == p.with_source(
                    mode,
                    Some(p.source(mode)->Some_0.queried(query@)),
                )
            }),
    {
        self.start(mode);
        let ghost was = self@;
        let i: usize = picker::mode_index(mode);
        assert(self@.sources[i as int] == picker::maybe(self.sources@[i as int]));
        match &mut self.sources[i] {
            Some(source) => source.set_query(query),
            None => {},
        }
        assert(self@.sources =~= was.sources.update(
            picker::place_of(mode),
            Some(was.source(mode)->Some_0.queried(query@)),
        ));
    }

    /// A place chosen from the list, to go on from: a search starts from it,
    /// and browse shows it in its folder, selected, as Tab shows a search
    /// result, rather than stepping inside where the highlight would be on
    /// a first row nobody chose.
    pub fn go_to_place(&mut self, path: &FsPath, world: &World)
        requires
            old(self).wf(),
            world.wf(),
        ensures
            final(self).wf(),
            final(self)@ == old(self)@.place_taken(path@, world@),
    {
        reveal(PickerView::place_taken);
        self.places = None;
        if self.mode == Mode::Browse {
            self.ensure_browser(&world.disk);
            match &mut self.browser {
                Some(browser) => browser.show_in_place(path, &world.disk),
                None => {},
            }
            if self.tree_view {
                self.ensure_tree(&world.disk);
                match &mut self.tree {
                    Some(tree) => tree.show_in_place(path, &world.disk),
                    None => {},
                }
            }
            self.preview = None;
            return;
        }
        let search = self.mode;
        self.browse_at(path, &world.disk);
        // A share cannot be searched, so the search is not resumed there;
        // browse of it is what there is.
        match world.refusal(path) {
            Some(reason) => {
                self.set_notice(joined("Opened in browse: ", &reason));
            },
            None => {
                self.switch_to(search, world);
                proof {
                    reveal_strlit("");
                }
                assert(""@ =~= Seq::<char>::empty());
                self.set_query("", &world.disk);
            },
        }
    }

    fn navigate_search(&mut self, nav: Nav)
        requires
            old(self).wf(),
        ensures
            final(self).wf(),
            final(self)@ == old(self)@.search_navigated(nav),
    {
        reveal(PickerView::search_navigated);
        if nav == Nav::Up {
            match self.root.parent() {
                Some(parent) => self.set_root(parent),
                None => self.set_notice("Already at the top of the drive".to_owned()),
            }
            return;
        }
        let forward = nav == Nav::Forward;
        if !self.has_root_history(forward) {
            self.set_notice("No earlier search location".to_owned());
            return;
        }
        self.root_history(forward);
        let shown = self.root.text(self.on);
        self.set_notice(joined("Searching from ", &shown));
    }

    fn climb(&mut self, disk: &Disk)
        requires
            old(self).wf(),
            disk.wf(),
        ensures
            final(self).wf(),
            final(self)@ == old(self)@.climbed(disk@),
    {
        reveal(PickerView::climbed);
        if self.tree_view {
            self.ensure_tree(disk);
            match &mut self.tree {
                Some(tree) => tree.select_root(),
                None => {},
            }
            self.tree_left(disk);
        } else {
            self.ensure_browser(disk);
            match &mut self.browser {
                Some(browser) => browser.up(disk),
                None => {},
            }
        }
        self.preview = None;
    }

    fn retrace(&mut self, forward: bool, disk: &Disk)
        requires
            old(self).wf(),
            disk.wf(),
        ensures
            final(self).wf(),
            final(self)@ == old(self)@.browse_retraced(forward, disk@),
    {
        reveal(PickerView::browse_retraced);
        self.ensure_browser(disk);
        let moved = match &mut self.browser {
            Some(browser) => browser.history(forward, disk),
            None => false,
        };
        if moved {
            self.preview = None;
        } else {
            self.set_notice("No available directory in history".to_owned());
        }
    }

    /// Runs a navigation button. Kept beside the moves it mirrors, so clicking
    /// and pressing the key cannot drift apart.
    pub fn navigate(&mut self, nav: Nav, world: &World)
        requires
            old(self).wf(),
            world.wf(),
        ensures
            final(self).wf(),
            final(self)@ == old(self)@.navigated(nav, world@),
    {
        reveal(PickerView::navigated);
        self.clear_notice();
        if self.mode != Mode::Browse {
            self.navigate_search(nav);
        } else if nav == Nav::Up {
            self.climb(&world.disk);
        } else {
            self.retrace(nav == Nav::Forward, &world.disk);
        }
    }

    pub(crate) fn look(&mut self, disk: &Disk)
        requires
            old(self).wf(),
            disk.wf(),
        ensures
            final(self).wf(),
            final(self)@ == old(self)@.looked(disk@),
            final(self)@.on == old(self)@.on,
            final(self)@.places is None && final(self)@.in_tree() ==> final(self)@.found is Some
                || final(self)@.tree is Some,
            final(self)@.places is None && final(self)@.mode == Mode::Browse
                && !final(self)@.tree_view ==> final(self)@.browser is Some,
    {
        reveal(PickerView::looked);
        match self.places {
            Some(mode) => self.start(mode),
            None => {
                if self.in_tree() {
                    self.ensure_shown(disk);
                } else if self.mode == Mode::Browse {
                    self.ensure_browser(disk);
                } else {
                    self.start(self.mode);
                }
            },
        }
    }

    /// The file or directory under the cursor, as is (files mode gives the
    /// file, not its parent). Browse mode falls back to the directory shown.
    pub fn selected_path(&mut self, world: &World) -> (path: Option<FsPath>)
        requires
            old(self).wf(),
            world.wf(),
        ensures
            final(self).wf(),
            final(self)@ == old(self)@.looked(world@.disk),
            picker::maybe(path) == old(self)@.selection(world@),
    {
        reveal(PickerView::selection);
        self.look(&world.disk);
        match self.places {
            Some(mode) => {
                return match self.entry_of(mode, world) {
                    Some(entry) => Some(entry.path(self.on)),
                    None => None,
                };
            },
            None => {},
        }
        if self.in_tree() {
            return self.shown_path();
        }
        if self.mode == Mode::Browse {
            return match &self.browser {
                Some(browser) => match browser.selected_path() {
                    Some(path) => Some(path),
                    None => if browser.at_drives() {
                        None
                    } else {
                        Some(browser.dir().clone())
                    },
                },
                None => None,
            };
        }
        match self.entry_of(self.mode, world) {
            Some(entry) => Some(entry.path(self.on)),
            None => None,
        }
    }

    /// The folder Ctrl-B pins and Ctrl-N names: the selected folder, or the
    /// folder holding the selected file. None on the list of drives.
    pub fn pin_target(&mut self, world: &World) -> (path: Option<FsPath>)
        requires
            old(self).wf(),
            world.wf(),
        ensures
            final(self).wf(),
            final(self)@ == old(self)@.looked(world@.disk),
            picker::maybe(path) == old(self)@.pin_target(world@),
    {
        reveal(PickerView::pin_target);
        self.look(&world.disk);
        match self.places {
            Some(mode) => {
                return match self.entry_of(mode, world) {
                    Some(entry) => Some(entry.path(self.on)),
                    None => None,
                };
            },
            None => {},
        }
        if self.mode == Mode::Browse {
            let target = if self.tree_view {
                self.shown_target()
            } else {
                match &self.browser {
                    Some(browser) => browser.target(),
                    None => FsPath::empty(),
                }
            };
            return if target.is_empty() {
                None
            } else {
                Some(target)
            };
        }
        match self.entry_of(self.mode, world) {
            Some(entry) => Some(entry.output_path(self.mode, self.on)),
            None => None,
        }
    }
}

} // verus!
