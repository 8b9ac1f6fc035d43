//! What moves the search, and what switches between the screens.

use vstd::prelude::*;

use crate::browse::Browser;
use crate::disk::Disk;
use crate::fs_path::FsPath;
use crate::moves::{self, browse_reveal};
use crate::mode::Mode;
use crate::picker::{self, Picker, PickerView, RootVisit, RootVisitView, ROOT_HISTORY};
use crate::source::Source;
use crate::text::joined;
use crate::world::World;

verus! {

impl Picker {
    /// Throws away every list, since each one only covers the place it was
    /// built for.
    pub(crate) fn restart_scans(&mut self)
        requires
            old(self).wf(),
        ensures
            final(self).wf(),
            final(self)@ == (PickerView { sources: moves::no_sources(), preview: None, ..old(self)@ }),
    {
        let mut sources: Vec<Option<Source>> = Vec::new();
        sources.push(None);
        sources.push(None);
        sources.push(None);
        sources.push(None);
        sources.push(None);
        self.sources = sources;
        self.preview = None;
        assert(self@.sources =~= moves::no_sources());
    }

    /// Moves the scan root, remembering where the search came from.
    pub fn set_root(&mut self, root: FsPath)
        requires
            old(self).wf(),
        ensures
            final(self).wf(),
            final(self)@ == old(self)@.root_moved(root@),
    {
        reveal(PickerView::root_moved);
        if root.same_place(&self.root) {
            return;
        }
        let leaving = RootVisit { root: self.root.clone(), query: self.query.clone() };
        let ghost was = self@.roots_back;
        if self.roots_back.len() == ROOT_HISTORY {
            self.roots_back.remove(0);
            assert(self@.roots_back =~= was.drop_first());
        }
        let ghost kept = self@.roots_back;
        self.roots_back.push(leaving);
        assert(self@.roots_back =~= kept.push(leaving@));
        self.root = root;
        // Going somewhere new ends the trail forward, as it does in browse.
        self.roots_forward = Vec::new();
        assert(self@.roots_forward =~= Seq::<RootVisitView>::empty());
        self.restart_scans();
    }

    pub fn has_root_history(&self, forward: bool) -> (res: bool)
        ensures
            res == self@.has_roots(forward),
    {
        if forward {
            self.roots_forward.len() > 0
        } else {
            self.roots_back.len() > 0
        }
    }

    /// Steps back or forward through the places the search has started from,
    /// bringing back what had been typed at each one.
    pub fn root_history(&mut self, forward: bool) -> (moved: bool)
        requires
            old(self).wf(),
        ensures
            final(self).wf(),
            moved == old(self)@.has_roots(forward),
            final(self)@ == old(self)@.root_retraced(forward),
    {
        reveal(PickerView::root_retraced);
        let ghost was = self@;
        let popped = if forward {
            self.roots_forward.pop()
        } else {
            self.roots_back.pop()
        };
        let visit = match popped {
            Some(visit) => visit,
            None => {
                assert(self@.roots_forward =~= was.roots_forward);
                assert(self@.roots_back =~= was.roots_back);
                return false;
            },
        };
        let here = RootVisit { root: self.root.clone(), query: self.query.clone() };
        if forward {
            assert(visit@ == was.roots_forward.last());
            assert(self@.roots_forward =~= was.roots_forward.drop_last());
            self.roots_back.push(here);
            assert(self@.roots_back =~= was.roots_back.push(here@));
        } else {
            assert(visit@ == was.roots_back.last());
            assert(self@.roots_back =~= was.roots_back.drop_last());
            self.roots_forward.push(here);
            assert(self@.roots_forward =~= was.roots_forward.push(here@));
        }
        self.root = visit.root;
        self.query = visit.query;
        self.restart_scans();
        true
    }

    /// Opens the list of recent places or favorites over the screen, or
    /// closes it when it is the one open. The favorites are to be read again
    /// each time, since another shell may have pinned something meanwhile:
    /// says whether they are.
    pub fn open_places(&mut self, mode: Mode) -> (reload: bool)
        requires
            old(self).wf(),
        ensures
            final(self).wf(),
            final(self)@ == old(self)@.places_opened(mode),
            reload == (mode == Mode::Favorites && old(self)@.places != Some(mode)),
    {
        reveal(PickerView::places_opened);
        let open = match self.places {
            Some(m) => m == mode,
            None => false,
        };
        if open {
            self.places = None;
            return false;
        }
        self.places_query = String::new();
        assert(self@.places_query =~= Seq::<char>::empty());
        self.restart(mode);
        self.places = Some(mode);
        mode == Mode::Favorites
    }

    /// First entry into browse uses the search selection; subsequent mode
    /// switches restore the existing browser, including its filter and
    /// selection. Says whether the favorites are to be read again.
    pub fn switch_to(&mut self, entering: Mode, world: &World) -> (reload: bool)
        requires
            old(self).wf(),
            world.wf(),
        ensures
            final(self).wf(),
            final(self)@ == old(self)@.switched(entering, world@),
            reload == (entering == Mode::Favorites && old(self)@.places != Some(entering)),
    {
        reveal(PickerView::switched);
        if entering.is_places() {
            return self.open_places(entering);
        }
        let leaving = self.mode;
        if entering == leaving {
            return false;
        }
        self.depart(entering, &world.disk);
        self.arrive(leaving, entering, world);
        false
    }

    pub(crate) fn depart(&mut self, entering: Mode, disk: &Disk)
        requires
            old(self).wf(),
            disk.wf(),
            !entering.lists_places(),
        ensures
            final(self)@.parts_wf(),
            entering != Mode::Browse ==> final(self)@.search_mode == entering,
            final(self)@ == old(self)@.departed(entering, disk@),
    {
        reveal(PickerView::departed);
        if entering != Mode::Browse {
            self.search_mode = entering;
        }
        if self.mode == Mode::Browse {
            self.leave_browse(disk);
        }
    }

    pub(crate) fn arrive(&mut self, leaving: Mode, entering: Mode, world: &World)
        requires
            old(self)@.parts_wf(),
            world.wf(),
            !entering.lists_places(),
            entering != Mode::Browse ==> old(self)@.search_mode == entering,
        ensures
            final(self).wf(),
            final(self)@ == old(self)@.arrived(leaving, entering, world@),
    {
        reveal(PickerView::arrived);
        self.mode = entering;
        if entering == Mode::Browse {
            self.line_up(leaving, world);
        } else {
            self.start(entering);
        }
    }

    pub(crate) fn leave_browse(&mut self, disk: &Disk)
        requires
            old(self).wf(),
            disk.wf(),
        ensures
            final(self).wf(),
            final(self)@ == old(self)@.browse_left(disk@),
            final(self)@.search_mode == old(self)@.search_mode,
    {
        reveal(PickerView::browse_left);
        reveal(PickerView::root_moved);
        self.ensure_browser(disk);
        // From the list of drives the search starts at the drive selected;
        // with none selected it stays where it was.
        let cwd = match &self.browser {
            Some(browser) => if browser.at_drives() {
                browser.target()
            } else {
                browser.dir().clone()
            },
            None => FsPath::empty(),
        };
        let before = self.root.clone();
        if !cwd.is_empty() {
            self.set_root(cwd);
        }
        // Browsing away and switching back moves what the search covers.
        // Saying so, and naming the way back, is what keeps a wander from
        // quietly becoming a search of somewhere else.
        if !self.root.same_place(&before) {
            let shown = self.root.text(self.on);
            self.set_notice(
                joined(&joined("Searching from ", &shown), "  Ctrl-Left: back"),
            );
        }
        self.browser_root = self.root.clone();
    }

    pub(crate) fn line_up(&mut self, leaving: Mode, world: &World)
        requires
            old(self).wf(),
            world.wf(),
        ensures
            final(self).wf(),
            final(self)@ == old(self)@.browse_entered(leaving, world@),
    {
        reveal(PickerView::browse_entered);
        if self.browser.is_some() && self.browser_root.same_place(&self.root) {
            return;
        }
        let selected = self.entry_of(leaving, world);
        let mut browser = Browser::new(self.root.clone(), self.on, &world.disk);
        // Shown in place, not stepped into. The highlight in a list nobody
        // has moved is only its first row, and opening inside that hid the
        // folder the reader was looking at a moment earlier.
        match browse_reveal(leaving, &selected, &world.disk, self.on) {
            Some(path) => browser.show_in_place(&path, &world.disk),
            None => {},
        }
        self.browser = Some(browser);
        self.browser_root = self.root.clone();
    }

    /// Tab: from a search to browse, and from browse back to the search it
    /// came from.
    ///
    /// Looking for something and looking around are what the picker is
    /// switched between most, so they take one key each way.
    pub fn toggle_browse(&mut self, world: &World)
        requires
            old(self).wf(),
            world.wf(),
        ensures
            final(self).wf(),
            final(self)@ == old(self)@.crossed(world@),
    {
        let target = if self.mode == Mode::Browse {
            self.search_mode
        } else {
            Mode::Browse
        };
        self.switch_to(target, world);
    }

    /// Shift-Tab: the next tab in the same bracket. In a search that is the
    /// next kind of search; in browse it switches between the columns and
    /// the tree. Tab is the key that crosses between the two brackets.
    pub fn next_search_mode(&mut self, world: &World)
        requires
            old(self).wf(),
            world.wf(),
        ensures
            final(self).wf(),
            final(self)@ == old(self)@.stepped_on(world@),
    {
        if self.mode == Mode::Browse {
            self.toggle_tree(world);
        } else {
            self.switch_to(picker::next_search(self.mode), world);
        }
    }
}

} // verus!
