//! Where the picker goes: between its screens, through the folders, and back.

use vstd::prelude::*;

use crate::browse::{self, Browser, BrowserView};
use crate::disk::{Disk, DiskView};
use crate::fs_path::{FsPath, PathView, Platform};
use crate::fuzzy;
use crate::header::{Nav, Tab};
use crate::marks::{self, Marks};
use crate::mode::Mode;
use crate::picker::{self, Picker, PickerView, RootVisitView, ROOT_HISTORY};
use crate::scan::{Entry, EntryView};
use crate::source::SourceView;
use crate::tree::{self, Tree, TreeView};
use crate::world::WorldView;

verus! {

/// What browse should be showing when it lines up with the search, beyond the
/// folder being searched itself.
pub open spec fn revealed_entry(
    leaving: Mode,
    selected: Option<EntryView>,
    disk: DiskView,
    on: Platform,
) -> Option<PathView> {
    match selected {
        Some(entry) => if (leaving is Dirs || leaving is Files) && disk.is_there(entry.path(on)) {
            Some(entry.path(on))
        } else {
            None
        },
        None => None,
    }
}

/// What browse should be showing when it lines up with the search, beyond
/// the folder being searched itself.
///
/// Only a list of that folder can say. recent and favorites hold places of
/// their own.
pub fn browse_reveal(leaving: Mode, selected: &Option<Entry>, disk: &Disk, on: Platform) -> (path:
    Option<FsPath>)
    ensures
        picker::maybe(path) == revealed_entry(leaving, picker::maybe(*selected), disk@, on),
{
    match selected {
        Some(entry) => {
            let path = entry.path(on);
            if (leaving == Mode::Dirs || leaving == Mode::Files) && disk.is_there(&path) {
                Some(path)
            } else {
                None
            }
        },
        None => None,
    }
}

/// A stack of places searched with one more, the oldest dropped when it is
/// full.
pub open spec fn visited(stack: Seq<RootVisitView>, visit: RootVisitView) -> Seq<RootVisitView> {
    if stack.len() == ROOT_HISTORY {
        stack.drop_first().push(visit)
    } else {
        stack.push(visit)
    }
}

/// No source started.
pub open spec fn no_sources() -> Seq<Option<SourceView>> {
    Seq::new(5, |i: int| None)
}

/// A match of the tree's search: its entry, the positions matched in what it is
/// shown as, and whether it is a folder.
#[derive(Debug)]
pub struct Match {
    pub entry: Entry,
    pub hits: Vec<u32>,
    pub is_dir: bool,
}

#[verifier::ext_equal]
pub struct MatchView {
    pub entry: EntryView,
    pub hits: Seq<u32>,
    pub is_dir: bool,
}

impl View for Match {
    type V = MatchView;

    open spec fn view(&self) -> MatchView {
        MatchView { entry: self.entry@, hits: self.hits@, is_dir: self.is_dir }
    }
}

pub open spec fn matches_view(matches: Seq<Match>) -> Seq<MatchView> {
    matches.map_values(|m: Match| m@)
}

/// The matches as the tree takes them.
pub open spec fn found_rows(matches: Seq<MatchView>, on: Platform) -> Seq<(PathView, bool)> {
    matches.map_values(|m: MatchView| (m.entry.path(on), m.is_dir))
}

/// The matched letters of all of them, shared out among the rows.
pub open spec fn found_marks(matches: Seq<MatchView>, on: Platform) -> Map<PathView, Seq<u32>>
    decreases matches.len(),
{
    if matches.len() == 0 {
        Map::empty()
    } else {
        let last = matches.last();
        marks::marked(
            found_marks(matches.drop_last(), on),
            last.entry.path(on),
            last.entry.display,
            fuzzy::arranged(last.hits),
            on,
        )
    }
}

/// Whether `matches` are those entries, each with the positions to mark for what
/// is typed.
pub open spec fn matched_in(
    matches: Seq<MatchView>,
    entries: Seq<(EntryView, bool)>,
    query: Seq<char>,
) -> bool {
    &&& matches.len() == entries.len()
    &&& forall|i: int|
        0 <= i < matches.len() ==> {
            &&& (#[trigger] matches[i]).entry == entries[i].0
            &&& matches[i].is_dir == entries[i].1
            &&& fuzzy::marks(matches[i].hits, query, matches[i].entry.display)
        }
}

/// The entries of the best matches, and which are folders.
pub open spec fn entries_view(entries: Seq<(Entry, bool)>) -> Seq<(EntryView, bool)> {
    entries.map_values(|e: (Entry, bool)| (e.0@, e.1))
}

/// Whether what every match is shown as can be matched.
pub open spec fn matches_fit(matches: Seq<MatchView>) -> bool {
    forall|i: int|
        0 <= i < matches.len() ==> #[trigger] matches[i].entry.display.len() <= fuzzy::TEXT_LIMIT
}

impl PickerView {
    /// This with browse there, opened at the root unless it was.
    pub open spec fn with_browser(self, disk: DiskView) -> PickerView {
        if self.browser is Some {
            self
        } else {
            self.browsing(BrowserView::fresh(self.root, self.on, disk))
        }
    }

    pub open spec fn browsing(self, browser: BrowserView) -> PickerView {
        PickerView { browser: Some(browser), ..self }
    }

    /// This with the tree's search over and its scan given up.
    pub open spec fn search_ended(self) -> PickerView {
        PickerView {
            tree_query: Seq::empty(),
            found: None,
            found_marks: Map::empty(),
            tree_search: None,
            ..self
        }
    }

    /// This with the tree for where browse is. It is built again whenever
    /// browse has moved somewhere else, which ends a search of the old place.
    pub open spec fn with_tree(self, disk: DiskView) -> PickerView {
        let p = self.with_browser(disk);
        let b = p.browser->Some_0;
        if p.tree is Some && p.tree->Some_0.root.same(b.cwd) {
            p
        } else {
            PickerView {
                tree: Some(TreeView::fresh(b.cwd, b.selected_path(), self.on, disk)),
                ..p.search_ended()
            }
        }
    }

    /// This with a tree to show.
    pub open spec fn with_shown(self, disk: DiskView) -> PickerView {
        if self.found is Some {
            self
        } else {
            self.with_tree(disk)
        }
    }

    /// The tree on screen: the search's matches while something is typed, the
    /// tree of folders otherwise.
    pub open spec fn shown_tree(self) -> TreeView {
        match self.found {
            Some(found) => found,
            None => self.tree->Some_0,
        }
    }

    /// This with the tree on screen changed.
    pub open spec fn showing_tree(self, tree: TreeView) -> PickerView {
        if self.found is Some {
            PickerView { found: Some(tree), ..self }
        } else {
            PickerView { tree: Some(tree), ..self }
        }
    }

    /// This with nothing typed in the tree. The scan is kept for the next
    /// query, which then starts from nothing rather than from this one.
    pub open spec fn tree_cleared(self) -> PickerView {
        PickerView {
            tree_query: Seq::empty(),
            found: None,
            found_marks: Map::empty(),
            tree_search: match self.tree_search {
                Some(source) => Some(source.queried(Seq::empty())),
                None => None,
            },
            ..self
        }
    }

    /// Whether showing the best matches may give that: which letters are marked
    /// is the matcher's to say.
    pub open spec fn found_rebuilt(
        self,
        entries: Seq<(EntryView, bool)>,
        disk: DiskView,
        after: PickerView,
    ) -> bool {
        exists|matches: Seq<MatchView>|
            #[trigger] matched_in(matches, entries, self.tree_query) && after == self.search_shown(
                matches,
                disk,
            )
    }

    /// This with the tree of those matches shown. The best match is selected,
    /// unless the reader has moved the selection since the query changed.
    #[verifier::opaque]
    pub open spec fn rebuilt(self, matches: Seq<MatchView>) -> PickerView {
        let built = TreeView::of_matches(
            self.tree->Some_0.root,
            found_rows(matches, self.on),
            self.on,
        );
        let kept = if self.found_keep && self.found is Some {
            self.found->Some_0.selected_path()
        } else {
            None
        };
        let selected = match kept {
            Some(path) => match tree::row_of(built.nodes, path) {
                Some(row) => row,
                None => built.selected,
            },
            None => built.selected,
        };
        PickerView {
            found: Some(TreeView { selected, ..built }),
            found_marks: found_marks(matches, self.on),
            ..self
        }
    }

    /// This with the matches that have arrived shown, as long as there is a
    /// search.
    pub open spec fn search_shown(self, matches: Seq<MatchView>, disk: DiskView) -> PickerView {
        let p = self.with_tree(disk);
        if p.tree_search is None {
            p
        } else {
            p.rebuilt(matches)
        }
    }

    /// This with a scan of everything under `root` for the tree's search: the
    /// one there was, if it is of that folder.
    pub open spec fn searching_tree(self, root: PathView, query: Seq<char>) -> PickerView {
        let typed = PickerView { tree_query: query, ..self };
        if self.tree_search is Some && self.tree_search_root.same(root) {
            PickerView {
                tree_search: Some(self.tree_search->Some_0.queried(query)),
                ..typed
            }
        } else {
            PickerView {
                tree_search_root: root,
                tree_search: Some(
                    SourceView::fresh(self.next_id, Mode::Browse, root, self.limit()).queried(
                        query,
                    ),
                ),
                next_id: picker::id_after(self.next_id),
                ..typed
            }
        }
    }

    /// Whether `query` typed into the tree is searched for, so that its matches
    /// are wanted at once.
    pub open spec fn wants_matches(self, query: Seq<char>, disk: DiskView) -> bool {
        query.len() > 0 && !self.with_tree(disk).tree->Some_0.root.is_empty()
    }

    /// This with `query` typed into the tree. The first letter starts a scan
    /// of everything under the root; the matches arrive as it goes, and none
    /// of an older query is left meanwhile.
    #[verifier::opaque]
    pub open spec fn tree_queried(self, query: Seq<char>, disk: DiskView) -> PickerView {
        if query.len() == 0 {
            self.tree_cleared()
        } else {
            let p = self.with_tree(disk);
            let root = p.tree->Some_0.root;
            if root.is_empty() {
                p.noted("Open a drive to search it"@)
            } else {
                (PickerView { found_keep: false, ..p.searching_tree(root, query) }).rebuilt(
                    Seq::empty(),
                )
            }
        }
    }

    /// This with the scan root moved, and where the search came from
    /// remembered. Every list only covers the place it was built for, so they
    /// all go.
    #[verifier::opaque]
    pub open spec fn root_moved(self, root: PathView) -> PickerView {
        if root.same(self.root) {
            self
        } else {
            PickerView {
                root,
                roots_back: visited(
                    self.roots_back,
                    RootVisitView { root: self.root, query: self.query },
                ),
                roots_forward: Seq::empty(),
                sources: no_sources(),
                preview: None,
                ..self
            }
        }
    }

    pub open spec fn has_roots(self, forward: bool) -> bool {
        if forward {
            self.roots_forward.len() > 0
        } else {
            self.roots_back.len() > 0
        }
    }

    /// This a step back or forward through the places the search has started
    /// from, with what had been typed there.
    #[verifier::opaque]
    pub open spec fn root_retraced(self, forward: bool) -> PickerView {
        let here = RootVisitView { root: self.root, query: self.query };
        if !self.has_roots(forward) {
            self
        } else if forward {
            let visit = self.roots_forward.last();
            PickerView {
                root: visit.root,
                query: visit.query,
                roots_forward: self.roots_forward.drop_last(),
                roots_back: self.roots_back.push(here),
                sources: no_sources(),
                preview: None,
                ..self
            }
        } else {
            let visit = self.roots_back.last();
            PickerView {
                root: visit.root,
                query: visit.query,
                roots_back: self.roots_back.drop_last(),
                roots_forward: self.roots_forward.push(here),
                sources: no_sources(),
                preview: None,
                ..self
            }
        }
    }

    /// This with a list of places opened over the screen, or closed when it is
    /// the one open.
    #[verifier::opaque]
    pub open spec fn places_opened(self, mode: Mode) -> PickerView {
        if self.places == Some(mode) {
            PickerView { places: None, ..self }
        } else {
            PickerView {
                places: Some(mode),
                ..(PickerView { places_query: Seq::empty(), ..self }).restarted(mode)
            }
        }
    }

    /// This with browse left for a search: the search starts where browse is.
    /// From the list of drives it starts at the drive selected; with none
    /// selected it stays where it was.
    #[verifier::opaque]
    pub open spec fn browse_left(self, disk: DiskView) -> PickerView {
        let p = self.with_browser(disk);
        let b = p.browser->Some_0;
        let cwd = if b.cwd.is_empty() {
            b.target()
        } else {
            b.cwd
        };
        let q = if cwd.is_empty() {
            p
        } else {
            p.root_moved(cwd)
        };
        let r = if !q.root.same(p.root) {
            q.noted("Searching from "@ + q.root.text(q.on) + "  Ctrl-Left: back"@)
        } else {
            q
        };
        PickerView { browser_root: r.root, ..r }
    }

    /// This with browse lined up with the search, whenever the search has moved
    /// since browse last saw it.
    #[verifier::opaque]
    pub open spec fn browse_entered(self, leaving: Mode, world: WorldView) -> PickerView {
        if self.browser is None || !self.browser_root.same(self.root) {
            let b = BrowserView::fresh(self.root, self.on, world.disk);
            let shown = match revealed_entry(
                leaving,
                self.entry_of(leaving, world),
                world.disk,
                self.on,
            ) {
                Some(path) => b.showing(path, world.disk),
                None => b,
            };
            PickerView { browser: Some(shown), browser_root: self.root, ..self }
        } else {
            self
        }
    }

    /// This with the mode that is on left for `entering`.
    #[verifier::opaque]
    pub open spec fn departed(self, entering: Mode, disk: DiskView) -> PickerView {
        let p = if entering == Mode::Browse {
            self
        } else {
            PickerView { search_mode: entering, ..self }
        };
        if self.mode == Mode::Browse {
            p.browse_left(disk)
        } else {
            p
        }
    }

    /// This with `entering` on, come from `leaving`.
    #[verifier::opaque]
    pub open spec fn arrived(self, leaving: Mode, entering: Mode, world: WorldView) -> PickerView {
        let p = PickerView { mode: entering, ..self };
        if entering == Mode::Browse {
            p.browse_entered(leaving, world)
        } else {
            p.started(entering)
        }
    }

    /// This switched to another mode.
    #[verifier::opaque]
    pub open spec fn switched(self, entering: Mode, world: WorldView) -> PickerView {
        if entering.lists_places() {
            self.places_opened(entering)
        } else if entering == self.mode {
            self
        } else {
            self.departed(entering, world.disk).arrived(self.mode, entering, world)
        }
    }

    /// This with Tab pressed: from a search to browse, and from browse back to
    /// the search it came from.
    pub open spec fn crossed(self, world: WorldView) -> PickerView {
        self.switched(
            if self.mode == Mode::Browse {
                self.search_mode
            } else {
                Mode::Browse
            },
            world,
        )
    }

    /// This with Shift-Tab pressed: the next tab in the same bracket.
    pub open spec fn stepped_on(self, world: WorldView) -> PickerView {
        if self.mode == Mode::Browse {
            self.tree_toggled(world)
        } else {
            self.switched(picker::other_search(self.mode), world)
        }
    }

    /// What is selected on the tree, on either of them.
    pub open spec fn tree_selection(self) -> Option<PathView> {
        match self.found {
            Some(found) => found.selected_path(),
            None => match self.tree {
                Some(t) => t.selected_path(),
                None => None,
            },
        }
    }

    /// This with browse shown the other way; from a search, browse as a tree.
    /// Leaving the tree, what was selected there is shown selected in the
    /// columns, in the folder holding it.
    #[verifier::opaque]
    pub open spec fn tree_toggled(self, world: WorldView) -> PickerView {
        if self.mode != Mode::Browse {
            (PickerView { tree_view: true, ..self }).switched(Mode::Browse, world)
        } else if self.tree_view {
            let p = self.search_ended();
            let q = match self.tree_selection() {
                Some(path) => {
                    let r = p.with_browser(world.disk);
                    let b = r.browser->Some_0;
                    if path.same(b.cwd) {
                        r
                    } else {
                        r.browsing(b.showing(path, world.disk))
                    }
                },
                None => p,
            };
            PickerView { tree: None, tree_view: false, preview: None, ..q }
        } else {
            PickerView { tree_view: true, preview: None, ..self }
        }
    }

    /// This with a tab clicked. Browse's two tabs also pick how it is drawn,
    /// from a search as well as from browse.
    #[verifier::opaque]
    pub open spec fn tab_selected(self, tab: Tab, world: WorldView) -> PickerView {
        if tab.0 != Mode::Browse {
            self.switched(tab.0, world)
        } else if self.mode == Mode::Browse {
            if self.tree_view != tab.1 {
                self.tree_toggled(world)
            } else {
                self
            }
        } else if tab.1 {
            self.tree_toggled(world)
        } else {
            (PickerView { tree: None, tree_view: false, ..self.search_ended() }).switched(
                Mode::Browse,
                world,
            )
        }
    }

    /// This with Left pressed in the tree: a folder closed, the row above it
    /// selected, or from the root line the root moved up. The tree keeps its
    /// open branches as it rises with browse.
    #[verifier::opaque]
    pub open spec fn tree_lefted(self, disk: DiskView) -> PickerView {
        let p = self.with_tree(disk);
        let t = p.tree->Some_0;
        let b = p.browser->Some_0;
        if t.selected != 0 {
            PickerView { tree: Some(t.went_left()), ..p }
        } else {
            match browse::folder_above(b.cwd, b.on) {
                Some(parent) => PickerView {
                    tree: Some(tree::risen(t, parent, disk)),
                    browser: Some(b.above(disk)),
                    preview: None,
                    ..p
                },
                None => p,
            }
        }
    }

    /// This with the tree's search left for the tree of folders, opened down to
    /// the selected match.
    #[verifier::opaque]
    pub open spec fn search_left(self, disk: DiskView) -> PickerView {
        let p = self.with_shown(disk);
        match p.shown_tree().selected_path() {
            Some(path) => {
                let q = p.tree_cleared().with_tree(disk);
                PickerView { tree: Some(q.tree->Some_0.showing(path, disk)), ..q }
            },
            None => p,
        }
    }

    /// This in browse at `path`: inside a folder, or beside a file.
    #[verifier::opaque]
    pub open spec fn browsed_at(self, path: PathView, disk: DiskView) -> PickerView {
        let p = (PickerView { mode: Mode::Browse, ..self }).with_browser(disk);
        PickerView { preview: None, ..p.browsing(p.browser->Some_0.navigated(path, disk)) }
    }

    /// This with `query` typed on the screen that is on.
    #[verifier::opaque]
    pub open spec fn queried(self, query: Seq<char>, disk: DiskView) -> PickerView {
        if self.in_tree() {
            self.tree_queried(query, disk)
        } else if self.mode == Mode::Browse {
            let p = self.with_browser(disk);
            p.browsing(p.browser->Some_0.filtered(query))
        } else {
            let p = (PickerView { query, ..self }).started(self.mode);
            p.with_source(self.mode, Some(p.source(self.mode)->Some_0.queried(query)))
        }
    }

    /// This with `query` typed into the list of places.
    #[verifier::opaque]
    pub open spec fn places_queried(self, query: Seq<char>) -> PickerView {
        match self.places {
            Some(mode) => {
                let p = (PickerView { places_query: query, ..self }).started(mode);
                p.with_source(mode, Some(p.source(mode)->Some_0.queried(query)))
            },
            None => self,
        }
    }

    /// This gone to a place chosen from the list: a search starts from it, and
    /// browse shows it in its folder, selected.
    #[verifier::opaque]
    pub open spec fn place_taken(self, path: PathView, world: WorldView) -> PickerView {
        let p = PickerView { places: None, ..self };
        if p.mode == Mode::Browse {
            let q = p.with_browser(world.disk);
            let r = q.browsing(q.browser->Some_0.showing(path, world.disk));
            let s = if r.tree_view {
                let t = r.with_tree(world.disk);
                PickerView { tree: Some(t.tree->Some_0.showing(path, world.disk)), ..t }
            } else {
                r
            };
            PickerView { preview: None, ..s }
        } else {
            let q = p.browsed_at(path, world.disk);
            match world.refusal(path) {
                Some(reason) => q.noted("Opened in browse: "@ + reason),
                None => q.switched(p.mode, world).queried(Seq::empty(), world.disk),
            }
        }
    }

    /// This with a navigation button pressed in a search: the root moved up, or
    /// to a place the search has started from.
    #[verifier::opaque]
    pub open spec fn search_navigated(self, nav: Nav) -> PickerView {
        if nav == Nav::Up {
            match self.root.parent() {
                Some(parent) => self.root_moved(parent),
                None => self.noted("Already at the top of the drive"@),
            }
        } else if self.has_roots(nav == Nav::Forward) {
            let p = self.root_retraced(nav == Nav::Forward);
            p.noted("Searching from "@ + p.root.text(p.on))
        } else {
            self.noted("No earlier search location"@)
        }
    }

    /// This a level up in browse, as columns or as a tree.
    #[verifier::opaque]
    pub open spec fn climbed(self, disk: DiskView) -> PickerView {
        let p = if self.tree_view {
            let t = self.with_tree(disk);
            (PickerView { tree: Some(TreeView { selected: 0, ..t.tree->Some_0 }), ..t })
                .tree_lefted(disk)
        } else {
            let b = self.with_browser(disk);
            b.browsing(b.browser->Some_0.above(disk))
        };
        PickerView { preview: None, ..p }
    }

    /// This a step through the folders visited in browse.
    #[verifier::opaque]
    pub open spec fn browse_retraced(self, forward: bool, disk: DiskView) -> PickerView {
        let p = self.with_browser(disk);
        let b = p.browser->Some_0;
        let q = p.browsing(b.retraced(forward, disk));
        if b.retraces(forward, disk) {
            PickerView { preview: None, ..q }
        } else {
            q.noted("No available directory in history"@)
        }
    }

    /// This with a navigation button pressed. In browse the buttons walk the
    /// folders visited; in the search modes they walk the folders the search
    /// has started from.
    #[verifier::opaque]
    pub open spec fn navigated(self, nav: Nav, world: WorldView) -> PickerView {
        let p = self.quiet();
        if p.mode != Mode::Browse {
            p.search_navigated(nav)
        } else if nav == Nav::Up {
            p.climbed(world.disk)
        } else {
            p.browse_retraced(nav == Nav::Forward, world.disk)
        }
    }

    /// This with what the selection is asked of there.
    #[verifier::opaque]
    pub open spec fn looked(self, disk: DiskView) -> PickerView {
        match self.places {
            Some(mode) => self.started(mode),
            None => if self.in_tree() {
                self.with_shown(disk)
            } else if self.mode == Mode::Browse {
                self.with_browser(disk)
            } else {
                self.started(self.mode)
            },
        }
    }

    /// The file or directory under the cursor, as is (files mode gives the
    /// file, not its parent). Browse mode falls back to the directory shown.
    #[verifier::opaque]
    pub open spec fn selection(self, world: WorldView) -> Option<PathView> {
        let p = self.looked(world.disk);
        match p.places {
            Some(mode) => match p.entry_of(mode, world) {
                Some(entry) => Some(entry.path(p.on)),
                None => None,
            },
            None => if p.in_tree() {
                p.shown_tree().selected_path()
            } else if p.mode == Mode::Browse {
                let b = p.browser->Some_0;
                match b.selected_path() {
                    Some(path) => Some(path),
                    None => if b.cwd.is_empty() {
                        None
                    } else {
                        Some(b.cwd)
                    },
                }
            } else {
                match p.entry_of(p.mode, world) {
                    Some(entry) => Some(entry.path(p.on)),
                    None => None,
                }
            },
        }
    }

    /// The folder Ctrl-B pins and Ctrl-N names: the selected folder, or the
    /// folder holding the selected file. None on the list of drives.
    #[verifier::opaque]
    pub open spec fn pin_target(self, world: WorldView) -> Option<PathView> {
        let p = self.looked(world.disk);
        match p.places {
            Some(mode) => match p.entry_of(mode, world) {
                Some(entry) => Some(entry.path(p.on)),
                None => None,
            },
            None => if p.mode == Mode::Browse {
                let target = if p.tree_view {
                    p.shown_tree().target()
                } else {
                    p.browser->Some_0.target()
                };
                if target.is_empty() {
                    None
                } else {
                    Some(target)
                }
            } else {
                match p.entry_of(p.mode, world) {
                    Some(entry) => Some(entry.output_path(p.mode, p.on)),
                    None => None,
                }
            },
        }
    }
}

impl Picker {
    /// A message that stays until the next action replaces it, for anything
    /// the reader has to act on.
    pub fn set_notice(&mut self, said: String)
        ensures
            final(self)@ == old(self)@.noted(said@),
    {
        self.notice = Some(said);
        self.notice_since = None;
    }

    /// A message that goes quiet on its own, for confirming something finished.
    pub fn set_transient_notice(&mut self, said: String, now: u64)
        ensures
            final(self)@ == old(self)@.confirmed(said@, now),
    {
        self.notice = Some(said);
        self.notice_since = Some(now);
    }

    pub fn clear_notice(&mut self)
        ensures
            final(self)@ == old(self)@.quiet(),
    {
        self.notice = None;
        self.notice_since = None;
    }

    /// Opens browse at the root, unless it is open.
    pub fn ensure_browser(&mut self, disk: &Disk)
        requires
            old(self).wf(),
            disk.wf(),
        ensures
            final(self).wf(),
            final(self)@ == old(self)@.with_browser(disk@),
            final(self)@.browser is Some,
    {
        if self.browser.is_none() {
            self.browser = Some(Browser::new(self.root.clone(), self.on, disk));
        }
    }

    /// Gives up the tree's search.
    pub fn end_tree_search(&mut self)
        requires
            old(self).wf(),
        ensures
            final(self).wf(),
            final(self)@ == old(self)@.search_ended(),
    {
        self.tree_query = String::new();
        self.found = None;
        self.found_marks = Marks::new();
        self.tree_search = None;
        assert(self@.tree_query =~= Seq::<char>::empty());
    }

    /// The tree for where browse is. Built again whenever browse has moved
    /// somewhere else, as its history and the columns can move it; the row
    /// selected in the columns starts out selected.
    pub fn ensure_tree(&mut self, disk: &Disk)
        requires
            old(self).wf(),
            disk.wf(),
        ensures
            final(self).wf(),
            final(self)@ == old(self)@.with_tree(disk@),
            final(self)@.browser is Some,
            final(self)@.tree is Some,
    {
        self.ensure_browser(disk);
        let (cwd, select) = match &self.browser {
            Some(browser) => (browser.dir().clone(), browser.selected_path()),
            None => (FsPath::empty(), None),
        };
        let built = match &self.tree {
            Some(tree) => tree.top().same_place(&cwd),
            None => false,
        };
        if !built {
            // A search covers the root it was typed under, so it ends there.
            self.end_tree_search();
            self.tree = Some(Tree::new(cwd, select.as_ref(), self.on, disk));
        }
    }

    pub(crate) fn ensure_shown(&mut self, disk: &Disk)
        requires
            old(self).wf(),
            disk.wf(),
        ensures
            final(self).wf(),
            final(self)@ == old(self)@.with_shown(disk@),
            final(self)@.found is Some || final(self)@.tree is Some,
    {
        if self.found.is_none() {
            self.ensure_tree(disk);
        }
    }
}

impl Picker {
    /// What is selected on the tree on screen.
    pub(crate) fn shown_path(&self) -> (path: Option<FsPath>)
        requires
            self.wf(),
            self@.found is Some || self@.tree is Some,
        ensures
            picker::maybe(path) == self@.shown_tree().selected_path(),
    {
        match &self.found {
            Some(found) => found.selected_path(),
            None => match &self.tree {
                Some(tree) => tree.selected_path(),
                None => None,
            },
        }
    }

    pub(crate) fn shown_target(&self) -> (path: FsPath)
        requires
            self.wf(),
            self@.found is Some || self@.tree is Some,
        ensures
            path@ == self@.shown_tree().target(),
    {
        match &self.found {
            Some(found) => found.target(),
            None => match &self.tree {
                Some(tree) => tree.target(),
                None => FsPath::empty(),
            },
        }
    }
}

} // verus!
