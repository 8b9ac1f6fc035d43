//! The picker: which screen is on, what is typed into it, and where each move
//! leads.
//!
//! Nothing here reads the disk, starts a scan or draws. The program hands over
//! what it read with each event, and does what a `Step` asks for.

use vstd::prelude::*;

use crate::action_menu::{Action, ActionView, Menu, MenuView};
use crate::browse::{Browser, BrowserView};
use crate::favorites::{Index, IndexView};
use crate::fs_path::{FsPath, PathView, Platform};
use crate::fuzzy;
use crate::header::{self, Nav, Target, TargetView};
use crate::key_menu::{KeyMenu, KeyMenuView};
use crate::keys::KeyEvent;
use crate::marks::Marks;
use crate::mode::{Mode, Then};
use crate::scan::{Entry, EntryView};
use crate::screen::Rect;
use crate::source::{Source, SourceView};
use crate::text;
use crate::tree::{Tree, TreeView};
use crate::world::{World, WorldView};

verus! {

/// How long a confirmation stays before retiring itself, in milliseconds.
pub const NOTICE_LINGER: u64 = 3_000;

/// How long clicks are swallowed after the screen is replaced wholesale.
///
/// Opening or closing the action menu puts different things under the pointer,
/// so a second click from a quick double tap would land on whatever moved into
/// that spot. Roughly a double-click interval is enough to catch those without
/// the screen feeling unresponsive.
pub const CLICK_GUARD: u64 = 300;

/// How close two clicks on one row are to count as a double click.
pub const DOUBLE_CLICK: u64 = 500;

/// How long after Backspace deleted something a press on the empty filter
/// is still taken as clearing rather than as going up. Time alone decides:
/// letting go of the key does not end it, since a finger that lifts for a
/// moment and presses again is exactly the press too many this is for.
pub const ERASE_PAUSE: u64 = 1_500;

/// How many steps each direction of the root history keeps, as in browse.
pub const ROOT_HISTORY: usize = 100;

/// The rows the tree is taken to have before it is first drawn.
pub const TREE_ROWS: usize = 20;

/// The settings the picker goes by.
#[derive(Clone, Copy, Debug, PartialEq, Eq, Structural)]
pub struct Config {
    pub mouse: bool,
    pub icons: bool,
    /// How many items a scan collects at most; 0 for all of them.
    pub scan_limit: usize,
}

/// A place the search has started from, with what had been typed there.
#[derive(Debug)]
pub struct RootVisit {
    pub root: FsPath,
    pub query: String,
}

#[verifier::ext_equal]
pub struct RootVisitView {
    pub root: PathView,
    pub query: Seq<char>,
}

impl View for RootVisit {
    type V = RootVisitView;

    open spec fn view(&self) -> RootVisitView {
        RootVisitView { root: self.root@, query: self.query@ }
    }
}

/// Where rows were drawn: the area, the first row in it, and how many there are
/// in all.
#[derive(Clone, Copy, Debug, PartialEq, Eq, Structural)]
pub struct RowsAt {
    pub area: Rect,
    pub first: usize,
    pub count: usize,
}

impl RowsAt {
    pub open spec fn nowhere() -> RowsAt {
        RowsAt { area: Rect::nowhere(), first: 0, count: 0 }
    }

    pub fn none() -> (rows: RowsAt)
        ensures
            rows == RowsAt::nowhere(),
    {
        RowsAt { area: Rect::none(), first: 0, count: 0 }
    }

    /// The row drawn at a place on the screen.
    pub open spec fn under(self, column: u16, row: u16) -> Option<int> {
        let at = self.first + (row - self.area.y);
        if self.area.covers(column, row) && at < self.count {
            Some(at)
        } else {
            None
        }
    }

    pub fn row_under(self, column: u16, row: u16) -> (res: Option<usize>)
        ensures
            res is Some == self.under(column, row) is Some,
            res matches Some(r) ==> self.under(column, row) == Some(r as int),
    {
        if !self.area.contains(column, row) {
            return None;
        }
        let along: usize = (row - self.area.y) as usize;
        if self.first < self.count && along < self.count - self.first {
            Some(self.first + along)
        } else {
            None
        }
    }
}

/// What takes clicks on the screen as it was last drawn.
#[derive(Debug)]
pub struct Clickable {
    /// The rows of the list of places, for clicks and the wheel.
    pub places: RowsAt,
    pub rows: RowsAt,
    pub header: Rect,
    /// The navigation buttons.
    pub nav: Vec<(Rect, Nav)>,
    /// The header path, one area per step of the breadcrumb.
    pub crumbs: Vec<Target>,
    /// Column where the mode tabs start.
    pub modes_x: u16,
    pub paths: Vec<Target>,
}

#[verifier::ext_equal]
pub struct ClickableView {
    pub places: RowsAt,
    pub rows: RowsAt,
    pub header: Rect,
    pub nav: Seq<(Rect, Nav)>,
    pub crumbs: Seq<TargetView>,
    pub modes_x: u16,
    pub paths: Seq<TargetView>,
}

impl View for Clickable {
    type V = ClickableView;

    open spec fn view(&self) -> ClickableView {
        ClickableView {
            places: self.places,
            rows: self.rows,
            header: self.header,
            nav: self.nav@,
            crumbs: header::targets_view(self.crumbs@),
            modes_x: self.modes_x,
            paths: header::targets_view(self.paths@),
        }
    }
}

impl ClickableView {
    pub open spec fn nothing() -> ClickableView {
        ClickableView {
            places: RowsAt::nowhere(),
            rows: RowsAt::nowhere(),
            header: Rect::nowhere(),
            nav: Seq::empty(),
            crumbs: Seq::empty(),
            modes_x: 0,
            paths: Seq::empty(),
        }
    }
}

impl Clickable {
    pub fn none() -> (mouse: Clickable)
        ensures
            mouse@ == ClickableView::nothing(),
    {
        let mouse = Clickable {
            places: RowsAt::none(),
            rows: RowsAt::none(),
            header: Rect::none(),
            nav: Vec::new(),
            crumbs: Vec::new(),
            modes_x: 0,
            paths: Vec::new(),
        };
        assert(mouse@.nav =~= Seq::<(Rect, Nav)>::empty());
        assert(mouse@.crumbs =~= Seq::<TargetView>::empty());
        assert(mouse@.paths =~= Seq::<TargetView>::empty());
        mouse
    }
}

/// A click that the next one may make a double click of.
#[derive(Debug)]
pub struct Click {
    pub path: FsPath,
    pub column: u16,
    pub row: u16,
    pub at: u64,
}

#[verifier::ext_equal]
pub struct ClickView {
    pub path: PathView,
    pub column: u16,
    pub row: u16,
    pub at: u64,
}

impl View for Click {
    type V = ClickView;

    open spec fn view(&self) -> ClickView {
        ClickView { path: self.path@, column: self.column, row: self.row, at: self.at }
    }
}

/// A folder whose favorite is being named, and the name typed so far.
#[derive(Debug)]
pub struct Naming {
    pub path: FsPath,
    pub name: String,
}

#[verifier::ext_equal]
pub struct NamingView {
    pub path: PathView,
    pub name: Seq<char>,
}

impl View for Naming {
    type V = NamingView;

    open spec fn view(&self) -> NamingView {
        NamingView { path: self.path@, name: self.name@ }
    }
}

/// The listing shown on the right, and the folder it was read from.
#[derive(Debug)]
pub struct Preview {
    pub dir: FsPath,
    pub names: Vec<String>,
}

#[verifier::ext_equal]
pub struct PreviewView {
    pub dir: PathView,
    pub names: Seq<Seq<char>>,
}

impl View for Preview {
    type V = PreviewView;

    open spec fn view(&self) -> PreviewView {
        PreviewView { dir: self.dir@, names: text::views(self.names@) }
    }
}

/// What an event asks of the program.
#[derive(Debug)]
pub enum Step {
    Continue,
    /// Enter: see `accept`.
    Accept,
    Cancel,
    /// Run an action on a path; `follow` says what comes after.
    Execute(Action, FsPath),
    /// Open the action menu on a path.
    Actions(FsPath),
    /// Pin or unpin a folder; `pin_done` takes the outcome.
    Pin(FsPath),
    /// Look up the name a folder has; `name_known` takes it.
    Name(FsPath),
    /// Give a folder that name, or take its name away where it is empty;
    /// `name_saved` takes the outcome.
    SaveName(FsPath, String),
    /// Read the favorites again; `pins_loaded` takes them.
    ReloadPins,
    /// Give the tree's search a moment to match what is typed; `rebuild_found`
    /// takes the best matches there are then.
    Match,
    /// Open a path with the application for it; `report_open` takes the
    /// outcome.
    Launch(FsPath),
    /// Show a path in the file manager; `report_open` takes the outcome.
    ShowFolder(FsPath),
}

#[verifier::ext_equal]
pub enum StepView {
    Continue,
    Accept,
    Cancel,
    Execute(ActionView, PathView),
    Actions(PathView),
    Pin(PathView),
    Name(PathView),
    SaveName(PathView, Seq<char>),
    ReloadPins,
    Match,
    Launch(PathView),
    ShowFolder(PathView),
}

impl View for Step {
    type V = StepView;

    open spec fn view(&self) -> StepView {
        match *self {
            Step::Continue => StepView::Continue,
            Step::Accept => StepView::Accept,
            Step::Cancel => StepView::Cancel,
            Step::Execute(action, path) => StepView::Execute(action@, path@),
            Step::Actions(path) => StepView::Actions(path@),
            Step::Pin(path) => StepView::Pin(path@),
            Step::Name(path) => StepView::Name(path@),
            Step::SaveName(path, name) => StepView::SaveName(path@, name@),
            Step::ReloadPins => StepView::ReloadPins,
            Step::Match => StepView::Match,
            Step::Launch(path) => StepView::Launch(path@),
            Step::ShowFolder(path) => StepView::ShowFolder(path@),
        }
    }
}

#[derive(Debug)]
pub struct Picker {
    pub on: Platform,
    pub config: Config,
    /// One per candidate source; the browse slot stays empty.
    pub sources: Vec<Option<Source>>,
    /// What the next source is known by.
    pub next_id: u64,
    /// State of browse mode, created when the mode is first shown.
    pub browser: Option<Browser>,
    /// Whether browse is drawn as a tree rather than in columns. Kept while
    /// in a search, so Tab comes back to the layout left.
    pub tree_view: bool,
    /// The tree, rooted where browse is. Built when first drawn and again
    /// whenever browse has moved somewhere else.
    pub tree: Option<Tree>,
    /// What is typed in the tree, which searches everything under its root.
    pub tree_query: String,
    /// The scan behind that search: folders and files under the tree's root,
    /// started at the first letter typed.
    pub tree_search: Option<Source>,
    /// The folder that scan walked. The tree's root can move without the
    /// tree being built again, as Left on its top line does, and a scan of
    /// the old root must not answer for the new one.
    pub tree_search_root: FsPath,
    /// The best matches of that search, under their folders. Shown instead
    /// of the tree while something is typed.
    pub found: Option<Tree>,
    /// Whether the row selected in `found` is kept when it is built again as
    /// more matches arrive: only once the reader has moved it. Until then the
    /// best match so far is selected, and a new query starts over.
    pub found_keep: bool,
    /// The matched characters of each row in `found`, as char positions in
    /// its name.
    pub found_marks: Marks,
    /// Rows the tree had on screen last time, so a search collects about as
    /// many matches as can be shown.
    pub tree_rows: usize,
    /// The scan root browse was last lined up with.
    ///
    /// Browse keeps where it was, so flipping between it and a search stays
    /// where the reader left off. Once the search itself moves elsewhere the
    /// two are about different folders, and coming back to browse would land
    /// on whatever it had been looking at before, unrelated to the search.
    pub browser_root: FsPath,
    /// The search Tab returns to from browse: the last mode used that is not
    /// browse.
    pub search_mode: Mode,
    /// Set once the reader asks for a list that stopped at the ceiling to be
    /// collected in full. Scans started afterwards ignore `scan_limit`.
    pub unlimited: bool,
    /// Where the search started before, and where it was on the way back.
    ///
    /// Leaving browse hands its location to the search modes, which is what
    /// makes browsing to a folder and then searching it one gesture. Wandering
    /// first and leaving second moves the search somewhere nobody chose, and
    /// this is the way back.
    pub roots_back: Vec<RootVisit>,
    pub roots_forward: Vec<RootVisit>,
    pub mode: Mode,
    pub query: String,
    pub root: FsPath,
    /// Directory listing shown on the right, keyed by the path it was read from.
    pub preview: Option<Preview>,
    /// Drives the spinner.
    pub frame_count: u32,
    pub notice: Option<String>,
    /// Since when a notice that disappears on its own has been there.
    /// Confirmations say something that already finished, so they go quiet;
    /// failures wait to be read.
    pub notice_since: Option<u64>,
    /// Since when clicks are treated as left over from the previous screen.
    pub clicks_blocked_since: Option<u64>,
    pub pinned: Index,
    pub menu: Option<Menu>,
    /// The folder whose favorite is being named, and the name typed so far,
    /// while the name prompt is open.
    pub naming: Option<Naming>,
    /// The panel of keys that Ctrl-Space opens.
    pub keys: Option<KeyMenu>,
    /// The list of places open over the screen, recent or favorites, and
    /// what is typed into it. Its source is the one kept for that mode.
    pub places: Option<Mode>,
    pub places_query: String,
    pub mouse: Clickable,
    pub last_click: Option<Click>,
    /// What follows an action run from the menu, for actions that do not
    /// say themselves. Switched with Ctrl-X.
    pub after_action: Then,
    /// The folder handed to the shell when an action ended the run with cd.
    pub after_cd: Option<FsPath>,
    /// When Backspace last deleted a letter, or was swallowed on the empty
    /// filter soon after. While that is recent, Backspace does not go up.
    pub last_erase: Option<u64>,
}

pub struct PickerView {
    pub on: Platform,
    pub config: Config,
    pub sources: Seq<Option<SourceView>>,
    pub next_id: u64,
    pub browser: Option<BrowserView>,
    pub tree_view: bool,
    pub tree: Option<TreeView>,
    pub tree_query: Seq<char>,
    pub tree_search: Option<SourceView>,
    pub tree_search_root: PathView,
    pub found: Option<TreeView>,
    pub found_keep: bool,
    pub found_marks: Map<PathView, Seq<u32>>,
    pub tree_rows: usize,
    pub browser_root: PathView,
    pub search_mode: Mode,
    pub unlimited: bool,
    pub roots_back: Seq<RootVisitView>,
    pub roots_forward: Seq<RootVisitView>,
    pub mode: Mode,
    pub query: Seq<char>,
    pub root: PathView,
    pub preview: Option<PreviewView>,
    pub frame_count: u32,
    pub notice: Option<Seq<char>>,
    pub notice_since: Option<u64>,
    pub clicks_blocked_since: Option<u64>,
    pub pinned: IndexView,
    pub menu: Option<MenuView>,
    pub naming: Option<NamingView>,
    pub keys: Option<KeyMenuView>,
    pub places: Option<Mode>,
    pub places_query: Seq<char>,
    pub mouse: ClickableView,
    pub last_click: Option<ClickView>,
    pub after_action: Then,
    pub after_cd: Option<PathView>,
    pub last_erase: Option<u64>,
}

pub open spec fn maybe<T: View>(value: Option<T>) -> Option<T::V> {
    match value {
        Some(v) => Some(v@),
        None => None,
    }
}

pub open spec fn sources_view(sources: Seq<Option<Source>>) -> Seq<Option<SourceView>> {
    sources.map_values(|s: Option<Source>| maybe(s))
}

pub open spec fn visits_view(visits: Seq<RootVisit>) -> Seq<RootVisitView> {
    visits.map_values(|v: RootVisit| v@)
}

impl View for Picker {
    type V = PickerView;

    open spec fn view(&self) -> PickerView {
        PickerView {
            on: self.on,
            config: self.config,
            sources: sources_view(self.sources@),
            next_id: self.next_id,
            browser: maybe(self.browser),
            tree_view: self.tree_view,
            tree: maybe(self.tree),
            tree_query: self.tree_query@,
            tree_search: maybe(self.tree_search),
            tree_search_root: self.tree_search_root@,
            found: maybe(self.found),
            found_keep: self.found_keep,
            found_marks: self.found_marks@,
            tree_rows: self.tree_rows,
            browser_root: self.browser_root@,
            search_mode: self.search_mode,
            unlimited: self.unlimited,
            roots_back: visits_view(self.roots_back@),
            roots_forward: visits_view(self.roots_forward@),
            mode: self.mode,
            query: self.query@,
            root: self.root@,
            preview: maybe(self.preview),
            frame_count: self.frame_count,
            notice: text::opt_view(self.notice),
            notice_since: self.notice_since,
            clicks_blocked_since: self.clicks_blocked_since,
            pinned: self.pinned@,
            menu: maybe(self.menu),
            naming: maybe(self.naming),
            keys: maybe(self.keys),
            places: self.places,
            places_query: self.places_query@,
            mouse: self.mouse@,
            last_click: maybe(self.last_click),
            after_action: self.after_action,
            after_cd: maybe(self.after_cd),
            last_erase: self.last_erase,
        }
    }
}

/// Where a mode's source is kept.
pub open spec fn place_of(mode: Mode) -> int {
    match mode {
        Mode::Dirs => 0,
        Mode::Files => 1,
        Mode::Recent => 2,
        Mode::Favorites => 3,
        Mode::Browse => 4,
    }
}

pub fn mode_index(mode: Mode) -> (index: usize)
    ensures
        index == place_of(mode),
        index < 5,
{
    match mode {
        Mode::Dirs => 0,
        Mode::Files => 1,
        Mode::Recent => 2,
        Mode::Favorites => 3,
        Mode::Browse => 4,
    }
}

/// The search a picker opened in `mode` goes back to from browse. Opened
/// into browse or a list of places it has not searched yet, so it gets the
/// directory search.
pub fn first_search(mode: Mode) -> (search: Mode)
    ensures
        search == (if mode == Mode::Files {
            Mode::Files
        } else {
            Mode::Dirs
        }),
{
    if mode == Mode::Files {
        Mode::Files
    } else {
        Mode::Dirs
    }
}

pub open spec fn other_search(mode: Mode) -> Mode {
    if mode == Mode::Dirs {
        Mode::Files
    } else {
        Mode::Dirs
    }
}

/// The other search, for Shift-Tab: dirs and files take turns. Browse is
/// where Tab leads, and recent and favorites are lists over the screen.
pub fn next_search(mode: Mode) -> (search: Mode)
    ensures
        search == other_search(mode),
{
    if mode == Mode::Dirs {
        Mode::Files
    } else {
        Mode::Dirs
    }
}

/// What the next source after one is known by.
pub open spec fn id_after(id: u64) -> u64 {
    if id == u64::MAX {
        0
    } else {
        (id + 1) as u64
    }
}

pub(crate) fn next_after(id: u64) -> (next: u64)
    ensures
        next == id_after(id),
{
    if id == u64::MAX {
        0
    } else {
        id + 1
    }
}

impl PickerView {
    /// Whether every part is as it should be. The search that Tab comes back to
    /// is the one that is on, while one is.
    pub open spec fn wf(self) -> bool {
        &&& self.parts_wf()
        &&& self.mode != Mode::Browse ==> self.search_mode == self.mode
    }

    pub open spec fn parts_wf(self) -> bool {
        &&& self.sources.len() == 5
        &&& !self.mode.lists_places()
        &&& !self.search_mode.lists_places()
        &&& self.search_mode != Mode::Browse
        &&& self.browser matches Some(b) ==> b.wf() && b.on == self.on
        &&& self.tree matches Some(t) ==> t.wf() && t.on == self.on
        &&& self.found matches Some(t) ==> t.wf() && t.on == self.on
        &&& self.menu matches Some(m) ==> m.wf()
        &&& self.keys matches Some(k) ==> k.wf()
        &&& self.roots_back.len() + self.roots_forward.len() <= ROOT_HISTORY
    }

    /// Whether a key with nothing open over the screen types into the filter of
    /// the columns only where that takes one more letter.
    pub open spec fn screen_room_for(self, key: KeyEvent) -> bool {
        key.writes() && self.mode == Mode::Browse && !self.tree_view ==> (
        self.browser matches Some(b) ==> b.filter.len() < fuzzy::PATTERN_LIMIT)
    }

    /// Whether there is room for what a key types. Only a letter needs any, and
    /// only where it is matched as it is typed: in the filter of the action menu
    /// and in that of the columns.
    pub open spec fn room_for(self, key: KeyEvent) -> bool {
        self.naming is None ==> (match self.menu {
            Some(m) => key.writes() ==> m.query.len() < fuzzy::PATTERN_LIMIT,
            None => self.keys is None && self.places is None ==> self.screen_room_for(key),
        })
    }

    pub open spec fn in_tree(self) -> bool {
        self.mode == Mode::Browse && self.tree_view
    }

    /// The ceiling of a scan started now.
    pub open spec fn limit(self) -> usize {
        if self.unlimited {
            0
        } else {
            self.config.scan_limit
        }
    }

    /// What a mode's list filters on: a list of places on what is typed into
    /// it, the searches on the prompt.
    pub open spec fn query_of(self, mode: Mode) -> Seq<char> {
        if mode.lists_places() {
            self.places_query
        } else {
            self.query
        }
    }

    pub open spec fn source(self, mode: Mode) -> Option<SourceView> {
        self.sources[place_of(mode)]
    }

    pub open spec fn with_source(self, mode: Mode, source: Option<SourceView>) -> PickerView {
        PickerView { sources: self.sources.update(place_of(mode), source), ..self }
    }

    /// This with a mode's source started, unless it was.
    pub open spec fn started(self, mode: Mode) -> PickerView {
        if self.source(mode) is Some {
            self
        } else {
            PickerView {
                next_id: id_after(self.next_id),
                ..self.with_source(
                    mode,
                    Some(
                        SourceView::fresh(self.next_id, mode, self.root, self.limit()).queried(
                            self.query_of(mode),
                        ),
                    ),
                )
            }
        }
    }

    /// This with a mode's source started anew.
    pub open spec fn restarted(self, mode: Mode) -> PickerView {
        self.with_source(mode, None).started(mode)
    }

    /// What is selected in a mode's list, where there is one.
    pub open spec fn entry_of(self, mode: Mode, world: WorldView) -> Option<EntryView> {
        match self.source(mode) {
            Some(source) => world.entry_at(source.id, source.selected),
            None => None,
        }
    }

    /// This with a message that stays until the next action replaces it.
    pub open spec fn noted(self, said: Seq<char>) -> PickerView {
        PickerView { notice: Some(said), notice_since: None, ..self }
    }

    /// This with a message that goes quiet on its own.
    pub open spec fn confirmed(self, said: Seq<char>, now: u64) -> PickerView {
        PickerView { notice: Some(said), notice_since: Some(now), ..self }
    }

    pub open spec fn quiet(self) -> PickerView {
        PickerView { notice: None, notice_since: None, ..self }
    }
}

impl Picker {
    pub open spec fn wf(&self) -> bool {
        self@.wf()
    }

    pub fn in_tree(&self) -> (res: bool)
        ensures
            res == self@.in_tree(),
    {
        self.mode == Mode::Browse && self.tree_view
    }

    pub(crate) fn limit(&self) -> (limit: usize)
        ensures
            limit == self@.limit(),
    {
        if self.unlimited {
            0
        } else {
            self.config.scan_limit
        }
    }

    pub(crate) fn put_source(&mut self, mode: Mode, source: Option<Source>)
        requires
            old(self)@.sources.len() == 5,
        ensures
            final(self)@ == old(self)@.with_source(mode, maybe(source)),
    {
        let ghost was = self@;
        self.sources.set(mode_index(mode), source);
        assert(self@.sources =~= was.sources.update(place_of(mode), maybe(source)));
    }

    /// Starts a mode's source on first use. A list of places filters on what
    /// is typed into it, the searches on the prompt.
    pub fn start(&mut self, mode: Mode)
        requires
            old(self)@.sources.len() == 5,
        ensures
            final(self)@ == old(self)@.started(mode),
            final(self)@.source(mode) is Some,
            final(self)@.sources.len() == 5,
    {
        let i: usize = mode_index(mode);
        assert(self@.sources[i as int] == maybe(self.sources@[i as int]));
        if self.sources[i].is_none() {
            let limit: usize = self.limit();
            let mut source = Source::start(self.next_id, mode, &self.root, limit);
            if mode.is_places() {
                source.set_query(&self.places_query);
            } else {
                source.set_query(&self.query);
            }
            self.put_source(mode, Some(source));
            self.next_id = next_after(self.next_id);
        }
    }

    pub(crate) fn restart(&mut self, mode: Mode)
        requires
            old(self)@.sources.len() == 5,
        ensures
            final(self)@ == old(self)@.restarted(mode),
            final(self)@.source(mode) is Some,
            final(self)@.sources.len() == 5,
    {
        self.put_source(mode, None);
        self.start(mode);
    }

    /// What is selected in a mode's list, where there is one.
    pub(crate) fn entry_of(&self, mode: Mode, world: &World) -> (entry: Option<Entry>)
        requires
            self@.sources.len() == 5,
        ensures
            maybe(entry) == self@.entry_of(mode, world@),
    {
        let i: usize = mode_index(mode);
        assert(self@.sources[i as int] == maybe(self.sources@[i as int]));
        match &self.sources[i] {
            Some(source) => world.entry_at(source.id, source.selected),
            None => None,
        }
    }

    /// Moves a started source's selection to a row.
    pub(crate) fn select_in(&mut self, mode: Mode, row: u32)
        requires
            old(self)@.sources.len() == 5,
        ensures
            ({
                let p = old(self)@.started(mode);
                final(self)@ == p.with_source(
                    mode,
                    Some(SourceView { selected: row, ..p.source(mode)->Some_0 }),
                )
            }),
            final(self)@.sources.len() == 5,
    {
        self.start(mode);
        let ghost was = self@;
        let i: usize = mode_index(mode);
        assert(self@.sources[i as int] == maybe(self.sources@[i as int]));
        match &mut self.sources[i] {
            Some(source) => {
                source.selected = row;
            },
            None => {},
        }
        assert(self@.sources =~= was.sources.update(
            place_of(mode),
            Some(SourceView { selected: row, ..was.source(mode)->Some_0 }),
        ));
    }
}

} // verus!
