//! How a picker is opened, what it comes to, and what it makes of what the
//! program did for it.

use vstd::prelude::*;

use crate::action_menu::{Action, ActionView, Menu, MenuView};
use crate::browse::{self, Browser, BrowserView, ItemView};
use crate::disk::{Disk, DiskView};
use crate::favorites::{self, Favorite, FavoriteView, Index, IndexView};
use crate::fs_path::{self, FsPath, PathView, Platform};
use crate::fuzzy;
use crate::header;
use crate::marks::Marks;
use crate::mode::{Mode, Then};
use crate::moves;
use crate::picker::{
    self, first_search, Clickable, ClickableView, Config, Naming, NamingView, Picker, PickerView,
    Preview, PreviewView, RootVisitView, NOTICE_LINGER, TREE_ROWS,
};
use crate::scan::{Entry, EntryView};
use crate::source::Source;
use crate::text::{self, joined};
use crate::world::{World, WorldView};

verus! {

/// Directory entries read for the preview. Enough to fill any pane; bounds the
/// cost on huge folders.
pub const PREVIEW_LIMIT: usize = 500;

/// The screen a picker opens in, and what it says there.
pub open spec fn opened_in(asked: Mode, refused: Option<Seq<char>>) -> (Mode, Option<Seq<char>>) {
    if !(asked is Dirs || asked is Files) {
        (asked, None)
    } else {
        match refused {
            Some(reason) => (Mode::Browse, Some("Opened in browse: "@ + reason)),
            None => (asked, None),
        }
    }
}

/// The screen a picker opens in, given the one asked for and why its root is
/// not searched, if it is not. A search that cannot scan its root, such as a
/// favorite that is a share, opens in browse instead, and says why: a refused
/// search shows nothing but the refusal, while browse lists the folder one
/// level at a time.
pub fn opening_screen(asked: Mode, refused: &Option<String>) -> (res: (Mode, Option<String>))
    ensures
        (res.0, text::opt_view(res.1)) == opened_in(asked, text::opt_view(*refused)),
{
    if asked != Mode::Dirs && asked != Mode::Files {
        return (asked, None);
    }
    match refused {
        Some(reason) => (Mode::Browse, Some(joined("Opened in browse: ", reason))),
        None => (asked, None),
    }
}

/// What the only candidate, where that is what is asked for, comes to.
#[derive(Debug)]
pub enum Only {
    /// The scan failed.
    Failed(String),
    /// There is none.
    Nothing,
    /// This is it, as it is printed.
    Path(String),
    /// There are more, so the picker is shown.
    More,
}

/// What the finished list of a search comes to when the only candidate is to be
/// taken without asking: `count` match, and `entry` is the selected one.
pub fn only_candidate(
    error: &Option<String>,
    count: u32,
    entry: &Option<Entry>,
    mode: Mode,
    on: Platform,
) -> (only: Only)
    ensures
        match text::opt_view(*error) {
            Some(said) => only matches Only::Failed(e) && e@ == said,
            None => if count == 0 {
                only is Nothing
            } else if count == 1 && entry is Some {
                only matches Only::Path(path) && path@ == entry->Some_0@.output_text(mode, on)
            } else {
                only is More
            },
        },
{
    match error {
        Some(said) => {
            return Only::Failed(said.clone());
        },
        None => {},
    }
    if count == 0 {
        return Only::Nothing;
    }
    if count == 1 {
        match entry {
            Some(entry) => {
                return Only::Path(entry.output_text(mode, on));
            },
            None => {},
        }
    }
    Only::More
}

/// The first names of a folder for the preview, directories with a trailing
/// separator.
pub open spec fn preview_names(dir: PathView, world: WorldView, on: Platform) -> Seq<Seq<char>> {
    let items = world.disk.listing(dir);
    let shown = if items.len() > PREVIEW_LIMIT {
        items.take(PREVIEW_LIMIT as int)
    } else {
        items
    };
    if world.unreadable.contains(dir) {
        seq!["(unreadable)"@]
    } else {
        shown.map_values(|i: ItemView| i.label(on))
    }
}

/// Directory names first (with a trailing separator), then files, both sorted
/// case-insensitively.
pub fn list_dir(dir: &FsPath, world: &World, on: Platform) -> (names: Vec<String>)
    requires
        world.wf(),
    ensures
        text::views(names@) == preview_names(dir@, world@, on),
{
    let mut names: Vec<String> = Vec::new();
    if world.is_unreadable(dir) {
        names.push("(unreadable)".to_owned());
        assert(text::views(names@) =~= preview_names(dir@, world@, on));
        return names;
    }
    let items = world.disk.listing(dir);
    let ghost all = browse::items_view(items@);
    let mut i: usize = 0;
    while i < items.len() && i < PREVIEW_LIMIT
        invariant
            i <= items@.len(),
            i <= PREVIEW_LIMIT,
            all == browse::items_view(items@),
            names@.len() == i,
            forall|k: int| 0 <= k < i ==> #[trigger] names@[k]@ == all[k].label(on),
        decreases items@.len() - i,
    {
        assert(all[i as int] == items@[i as int]@);
        names.push(items[i].label(on));
        i += 1;
    }
    assert(text::views(names@) =~= preview_names(dir@, world@, on));
    names
}

/// The name a folder has among the favorites from `from` on, or none.
pub open spec fn name_of(
    list: Seq<FavoriteView>,
    path: PathView,
    on: Platform,
    from: int,
) -> Seq<char>
    decreases list.len() - from,
{
    if from >= list.len() {
        Seq::empty()
    } else if fs_path::parsed(list[from].path, on).same(path) {
        match list[from].name {
            Some(name) => name,
            None => Seq::empty(),
        }
    } else {
        name_of(list, path, on, from + 1)
    }
}

fn find_name(list: &Vec<Favorite>, path: &FsPath, on: Platform) -> (name: String)
    ensures
        name@ == name_of(favorites::list_view(list@), path@, on, 0),
{
    let mut i: usize = 0;
    let none = String::new();
    assert(none@ =~= Seq::<char>::empty());
    while i < list.len()
        invariant
            i <= list@.len(),
            none@ == Seq::<char>::empty(),
            name_of(favorites::list_view(list@), path@, on, 0) == name_of(
                favorites::list_view(list@),
                path@,
                on,
                i as int,
            ),
        decreases list@.len() - i,
    {
        assert(favorites::list_view(list@)[i as int] == list@[i as int]@);
        if FsPath::parse(&list[i].path, on).same_place(path) {
            return match &list[i].name {
                Some(name) => name.clone(),
                None => none,
            };
        }
        i += 1;
    }
    none
}

/// What a picker is opened with.
#[derive(Debug)]
pub struct Opening {
    pub mode: Mode,
    pub query: String,
    pub root: FsPath,
    pub config: Config,
    pub after_action: Then,
    pub on: Platform,
    /// The favorites, or why they could not be read.
    pub pinned: Result<Index, String>,
    /// Why the root is not searched, if it is not.
    pub refused: Option<String>,
}

#[verifier::ext_equal]
pub struct OpeningView {
    pub mode: Mode,
    pub query: Seq<char>,
    pub root: PathView,
    pub config: Config,
    pub after_action: Then,
    pub on: Platform,
    pub pinned: Result<IndexView, Seq<char>>,
    pub refused: Option<Seq<char>>,
}

pub open spec fn pins_view(pinned: Result<Index, String>) -> Result<IndexView, Seq<char>> {
    match pinned {
        Ok(index) => Ok(index@),
        Err(error) => Err(error@),
    }
}

impl View for Opening {
    type V = OpeningView;

    open spec fn view(&self) -> OpeningView {
        OpeningView {
            mode: self.mode,
            query: self.query@,
            root: self.root@,
            config: self.config,
            after_action: self.after_action,
            on: self.on,
            pinned: pins_view(self.pinned),
            refused: text::opt_view(self.refused),
        }
    }
}

/// What is said of favorites that could not be read.
pub open spec fn unloaded(error: Seq<char>) -> Seq<char> {
    "Cannot load favorite markers: "@ + error
}

impl OpeningView {
    /// The screen that is on first. A list of places floats over browse.
    pub open spec fn first_mode(self) -> Mode {
        let mode = opened_in(self.mode, self.refused).0;
        if mode.lists_places() {
            Mode::Browse
        } else {
            mode
        }
    }

    /// The picker before anything is typed or opened.
    pub open spec fn blank(self, disk: DiskView) -> PickerView {
        let said = opened_in(self.mode, self.refused).1;
        PickerView {
            on: self.on,
            config: self.config,
            sources: moves::no_sources(),
            next_id: 0,
            browser: if self.first_mode() == Mode::Browse {
                Some(BrowserView::fresh(self.root, self.on, disk))
            } else {
                None
            },
            tree_view: false,
            tree: None,
            tree_query: Seq::empty(),
            tree_search: None,
            tree_search_root: PathView::empty(),
            found: None,
            found_keep: false,
            found_marks: Map::empty(),
            tree_rows: TREE_ROWS,
            browser_root: self.root,
            search_mode: if self.mode == Mode::Files {
                Mode::Files
            } else {
                Mode::Dirs
            },
            unlimited: false,
            roots_back: Seq::empty(),
            roots_forward: Seq::empty(),
            mode: self.first_mode(),
            query: Seq::empty(),
            root: self.root,
            preview: None,
            frame_count: 0,
            notice: if said is Some {
                said
            } else {
                match self.pinned {
                    Ok(_) => None,
                    Err(error) => Some(unloaded(error)),
                }
            },
            notice_since: None,
            clicks_blocked_since: None,
            pinned: match self.pinned {
                Ok(index) => index,
                Err(_) => IndexView { keys: Seq::empty(), on: self.on },
            },
            menu: None,
            naming: None,
            keys: None,
            places: None,
            places_query: Seq::empty(),
            mouse: ClickableView::nothing(),
            last_click: None,
            after_action: self.after_action,
            after_cd: None,
            last_erase: None,
        }
    }

    /// The picker as it opens: the query typed into the screen asked for, or
    /// into the list of places asked for.
    pub open spec fn opened(self, disk: DiskView) -> PickerView {
        if self.mode.lists_places() {
            self.blank(disk).places_opened(self.mode).places_queried(self.query)
        } else {
            self.blank(disk).queried(self.query, disk)
        }
    }
}

impl PickerView {
    /// What Enter takes, with what it is asked of there.
    #[verifier::opaque]
    pub open spec fn accepted(self, world: WorldView) -> (PickerView, Option<EntryView>) {
        let p = self.looked(world.disk);
        match p.places {
            Some(mode) => (p, p.entry_of(mode, world)),
            None => if p.mode == Mode::Browse {
                let target = if p.tree_view {
                    p.shown_tree().target()
                } else {
                    p.browser->Some_0.target()
                };
                (
                    p,
                    if target.is_empty() {
                        None
                    } else {
                        Some(
                            EntryView {
                                display: target.text(p.on),
                                root: PathView::empty(),
                                exact: None,
                            },
                        )
                    },
                )
            } else {
                (p, p.entry_of(p.mode, world))
            },
        }
    }

    /// The path the picker ends with. An action that ended the run with cd
    /// hands over its folder as it is. A place chosen from a list is printed as
    /// it is, whatever screen the list was over; only a file picked in files
    /// hands back its folder.
    pub open spec fn output(self, result: Option<EntryView>) -> Option<Seq<char>> {
        match self.after_cd {
            Some(folder) => Some(folder.text(self.on)),
            None => match result {
                Some(entry) => Some(
                    entry.output_text(
                        if self.places is Some {
                            Mode::Browse
                        } else {
                            self.mode
                        },
                        self.on,
                    ),
                ),
                None => None,
            },
        }
    }

    /// What follows an action: its own say, else the run's.
    pub open spec fn follows(self, action: ActionView) -> Then {
        match action.follow {
            Some(then) => then,
            None => self.after_action,
        }
    }

    /// This with the folder for the shell to go to: a file's folder, since the
    /// shell cds there.
    pub open spec fn leaving_for(self, target: PathView, disk: DiskView) -> PickerView {
        PickerView {
            after_cd: Some(
                if target.parent() is Some && !disk.is_dir(target) {
                    target.parent()->Some_0
                } else {
                    target
                },
            ),
            ..self
        }
    }

    /// This with the list of favorites read again next time it is shown, and
    /// straight away while it is open.
    pub open spec fn favorites_stale(self) -> PickerView {
        let p = self.with_source(Mode::Favorites, None);
        if p.places == Some(Mode::Favorites) {
            p.started(Mode::Favorites)
        } else {
            p
        }
    }

    /// This with a folder pinned or unpinned, or why it was not.
    #[verifier::opaque]
    pub open spec fn pinned_or_not(
        self,
        path: PathView,
        outcome: Result<(bool, IndexView), Seq<char>>,
    ) -> PickerView {
        match outcome {
            Ok((added, index)) => (PickerView { pinned: index, ..self }).favorites_stale().noted(
                (if added {
                    "Pinned: "@
                } else {
                    "Unpinned: "@
                }) + path.text(self.on),
            ),
            Err(error) => self.noted("Cannot update favorites: "@ + error),
        }
    }

    /// This with a folder named, or why it was not.
    #[verifier::opaque]
    pub open spec fn named_or_not(
        self,
        path: PathView,
        name: Seq<char>,
        outcome: Result<IndexView, Seq<char>>,
        now: u64,
    ) -> PickerView {
        match outcome {
            Ok(index) => (PickerView { pinned: index, ..self }).with_source(
                Mode::Favorites,
                None,
            ).confirmed(
                if name.len() == 0 {
                    "Name removed: "@ + path.text(self.on)
                } else {
                    path.text(self.on) + " is now :"@ + name
                },
                now,
            ),
            Err(error) => self.noted("Cannot name the favorite: "@ + error),
        }
    }

    /// This with the favorites read again, or why they could not be.
    pub open spec fn pins_reloaded(self, pinned: Result<IndexView, Seq<char>>) -> PickerView {
        match pinned {
            Ok(index) => PickerView { pinned: index, ..self },
            Err(error) => self.noted(unloaded(error)),
        }
    }

    /// This with what came of handing a path to another program.
    pub open spec fn open_reported(
        self,
        path: PathView,
        outcome: Result<(), Seq<char>>,
        now: u64,
    ) -> PickerView {
        let name = header::crumb_text(path, self.on);
        match outcome {
            Ok(_) => self.confirmed("Opened: "@ + name, now),
            Err(error) => self.noted("Cannot open "@ + name + ": "@ + error),
        }
    }

    /// Whether a confirmation's time is up.
    pub open spec fn notice_due(self, now: u64) -> bool {
        self.notice_since is Some && now - self.notice_since->Some_0 >= NOTICE_LINGER
    }

    /// The directory whose contents the preview should show, of the list on
    /// screen.
    #[verifier::opaque]
    pub open spec fn preview_target(self, world: WorldView) -> Option<PathView> {
        let p = self.listed(world.disk);
        let path = if p.in_tree() {
            p.shown_tree().selected_path()
        } else if p.mode == Mode::Browse {
            p.browser->Some_0.selected_path()
        } else {
            match p.entry_of(p.mode, world) {
                Some(entry) => Some(entry.output_path(p.mode, p.on)),
                None => None,
            }
        };
        if path is Some && world.disk.is_dir(path->Some_0) {
            path
        } else {
            None
        }
    }

    /// Whether the preview already shows what it should.
    pub open spec fn preview_current(self, world: WorldView) -> bool {
        match self.preview_target(world) {
            Some(dir) => self.preview is Some && self.preview->Some_0.dir == dir,
            None => self.preview is None,
        }
    }

    /// This with the preview showing what it should.
    #[verifier::opaque]
    pub open spec fn previewed(self, world: WorldView) -> PickerView {
        let p = self.listed(world.disk);
        if self.preview_current(world) {
            p
        } else {
            PickerView {
                preview: match self.preview_target(world) {
                    Some(dir) => Some(
                        PreviewView { dir, names: preview_names(dir, world, self.on) },
                    ),
                    None => None,
                },
                ..p
            }
        }
    }
}

impl Picker {
    /// Opens a picker. Says whether the favorites are to be read again, as they
    /// are whenever their list is opened.
    pub fn open(opening: Opening, disk: &Disk) -> (res: (Picker, bool))
        requires
            disk.wf(),
            opening.query@.len() <= fuzzy::PATTERN_LIMIT,
        ensures
            res.0.wf(),
            res.0@ == opening@.opened(disk@),
            res.1 == (opening.mode == Mode::Favorites),
    {
        let ghost given = opening@;
        let (mode, refused) = opening_screen(opening.mode, &opening.refused);
        let first = if mode.is_places() {
            Mode::Browse
        } else {
            mode
        };
        let (pinned, unread) = match opening.pinned {
            Ok(index) => (index, None),
            Err(error) => (
                Index::empty(opening.on),
                Some(joined("Cannot load favorite markers: ", &error)),
            ),
        };
        let notice = match refused {
            Some(said) => Some(said),
            None => unread,
        };
        let browser = if first == Mode::Browse {
            Some(Browser::new(opening.root.clone(), opening.on, disk))
        } else {
            None
        };
        let mut sources: Vec<Option<Source>> = Vec::new();
        sources.push(None);
        sources.push(None);
        sources.push(None);
        sources.push(None);
        sources.push(None);
        let mut picker = Picker {
            on: opening.on,
            config: opening.config,
            sources,
            next_id: 0,
            browser,
            tree_view: false,
            tree: None,
            tree_query: String::new(),
            tree_search: None,
            tree_search_root: FsPath::empty(),
            found: None,
            found_keep: false,
            found_marks: Marks::new(),
            tree_rows: TREE_ROWS,
            browser_root: opening.root.clone(),
            search_mode: first_search(opening.mode),
            unlimited: false,
            roots_back: Vec::new(),
            roots_forward: Vec::new(),
            mode: first,
            query: String::new(),
            root: opening.root,
            preview: None,
            frame_count: 0,
            notice,
            notice_since: None,
            clicks_blocked_since: None,
            pinned,
            menu: None,
            naming: None,
            keys: None,
            places: None,
            places_query: String::new(),
            mouse: Clickable::none(),
            last_click: None,
            after_action: opening.after_action,
            after_cd: None,
            last_erase: None,
        };
        proof {
            assert(picker@.sources =~= moves::no_sources());
            assert(picker@.tree_query =~= Seq::<char>::empty());
            assert(picker@.query =~= Seq::<char>::empty());
            assert(picker@.places_query =~= Seq::<char>::empty());
            assert(picker@.roots_back =~= Seq::<RootVisitView>::empty());
            assert(picker@.roots_forward =~= Seq::<RootVisitView>::empty());
            assert(picker@ == given.blank(disk@));
        }
        if opening.mode.is_places() {
            // Opened into a list of places, the list floats over browse of the
            // folder the shell is in, and Esc leaves that browse behind.
            let reload = picker.open_places(opening.mode);
            picker.set_places_query(&opening.query);
            (picker, reload)
        } else {
            picker.set_query(&opening.query, disk);
            (picker, false)
        }
    }

    /// What Enter takes, if there is anything to take. In the list of drives,
    /// with nothing matching the filter, there is nowhere to go.
    pub fn accept(&mut self, world: &World) -> (entry: Option<Entry>)
        requires
            old(self).wf(),
            world.wf(),
        ensures
            final(self).wf(),
            (final(self)@, picker::maybe(entry)) == old(self)@.accepted(world@),
    {
        reveal(PickerView::accepted);
        self.look(&world.disk);
        match self.places {
            Some(mode) => {
                return self.entry_of(mode, world);
            },
            None => {},
        }
        if self.mode == Mode::Browse {
            let target = if self.tree_view {
                self.shown_target()
            } else {
                match &self.browser {
                    Some(browser) => browser.target(),
                    None => FsPath::empty(),
                }
            };
            return if target.is_empty() {
                None
            } else {
                Some(Entry::absolute(&target, self.on))
            };
        }
        self.entry_of(self.mode, world)
    }

    /// The path the picker ends with, given what was accepted.
    pub fn output(&self, result: &Option<Entry>) -> (path: Option<String>)
        ensures
            text::opt_view(path) == self@.output(picker::maybe(*result)),
    {
        match &self.after_cd {
            Some(folder) => {
                return Some(folder.text(self.on));
            },
            None => {},
        }
        let mode = if self.places.is_some() {
            Mode::Browse
        } else {
            self.mode
        };
        match result {
            Some(entry) => Some(entry.output_text(mode, self.on)),
            None => None,
        }
    }

    /// What follows an action that has run on `target`. Says whether the run
    /// ends.
    pub fn follow(&mut self, action: &Action, target: &FsPath, disk: &Disk) -> (ends: bool)
        requires
            old(self).wf(),
        ensures
            final(self).wf(),
            ends == (old(self)@.follows(action@) != Then::Stay),
            final(self)@ == (if old(self)@.follows(action@) == Then::Cd {
                old(self)@.leaving_for(target@, disk@)
            } else {
                old(self)@
            }),
    {
        let then = match action.follow {
            Some(then) => then,
            None => self.after_action,
        };
        match then {
            Then::Stay => false,
            Then::Quit => true,
            Then::Cd => {
                self.after_cd = Some(
                    match target.parent() {
                        Some(dir) => if disk.is_dir(target) {
                            target.clone()
                        } else {
                            dir
                        },
                        None => target.clone(),
                    },
                );
                true
            },
        }
    }

    /// Says how an action that ran in the terminal ended. What is on screen may
    /// have changed meanwhile, so it is read again.
    pub fn ran_in_terminal(&mut self, name: &str, said: &str, disk: &Disk)
        requires
            old(self).wf(),
            disk.wf(),
        ensures
            final(self).wf(),
            final(self)@ == (PickerView {
                preview: None,
                browser: match old(self)@.browser {
                    Some(b) => Some(b.reread(disk@)),
                    None => None,
                },
                ..old(self)@.noted(name@ + ": "@ + said@)
            }),
    {
        self.set_notice(joined(&joined(name, ": "), said));
        self.preview = None;
        match &mut self.browser {
            Some(browser) => browser.refresh(disk),
            None => {},
        }
    }

    /// Says what became of an action started on its own: a temporary copy made,
    /// something copied or started, or why not.
    pub fn ran_detached(&mut self, action: &Action, outcome: Result<Option<FsPath>, String>)
        requires
            old(self).wf(),
        ensures
            final(self).wf(),
            final(self)@ == old(self)@.noted(
                match outcome {
                    Ok(Some(path)) => "Temporary copy: "@ + path@.text(old(self)@.on),
                    Ok(None) => (if action.copies {
                        "Copied: "@
                    } else {
                        "Started: "@
                    }) + action.name@,
                    Err(error) => action.name@ + ": "@ + error@,
                },
            ),
    {
        let said = match outcome {
            Ok(Some(path)) => {
                let shown = path.text(self.on);
                joined("Temporary copy: ", &shown)
            },
            Ok(None) => joined(
                if action.copies {
                    "Copied: "
                } else {
                    "Started: "
                },
                &action.name,
            ),
            Err(error) => joined(&joined(&action.name, ": "), &error),
        };
        self.set_notice(said);
    }

    /// Opens the action menu.
    pub fn open_menu(&mut self, menu: Menu)
        requires
            old(self).wf(),
            menu.wf(),
        ensures
            final(self).wf(),
            final(self)@ == (PickerView {
                menu: Some(MenuView { after: old(self)@.after_action, ..menu@ }),
                ..old(self)@
            }),
    {
        let mut menu = menu;
        menu.set_after(self.after_action);
        self.menu = Some(menu);
    }

    /// The list of favorites reads the file again next time it is shown,
    /// and straight away while it is open.
    fn refresh_favorites_list(&mut self)
        requires
            old(self).wf(),
        ensures
            final(self).wf(),
            final(self)@ == old(self)@.favorites_stale(),
    {
        self.put_source(Mode::Favorites, None);
        let open = match self.places {
            Some(mode) => mode == Mode::Favorites,
            None => false,
        };
        if open {
            self.start(Mode::Favorites);
        }
    }

    /// Takes in that a folder was pinned or unpinned, and says which.
    pub fn pin_done(&mut self, path: &FsPath, outcome: Result<(bool, Index), String>)
        requires
            old(self).wf(),
        ensures
            final(self).wf(),
            final(self)@ == old(self)@.pinned_or_not(
                path@,
                match outcome {
                    Ok((added, index)) => Ok((added, index@)),
                    Err(error) => Err(error@),
                },
            ),
    {
        reveal(PickerView::pinned_or_not);
        match outcome {
            Ok((added, index)) => {
                self.pinned = index;
                self.refresh_favorites_list();
                let shown = path.text(self.on);
                self.set_notice(
                    joined(
                        if added {
                            "Pinned: "
                        } else {
                            "Unpinned: "
                        },
                        &shown,
                    ),
                );
            },
            Err(error) => self.set_notice(joined("Cannot update favorites: ", &error)),
        }
    }

    /// Opens the name prompt on a folder, with the name it has.
    pub fn name_known(&mut self, path: FsPath, list: &Vec<Favorite>)
        requires
            old(self).wf(),
        ensures
            final(self).wf(),
            final(self)@ == (PickerView {
                naming: Some(
                    NamingView {
                        path: path@,
                        name: name_of(favorites::list_view(list@), path@, old(self)@.on, 0),
                    },
                ),
                ..old(self)@
            }),
    {
        let name = find_name(list, &path, self.on);
        self.naming = Some(Naming { path, name });
    }

    /// Takes in that a folder was named, or why it was not.
    pub fn name_saved(
        &mut self,
        path: &FsPath,
        name: &str,
        outcome: Result<Index, String>,
        now: u64,
    )
        requires
            old(self).wf(),
        ensures
            final(self).wf(),
            final(self)@ == old(self)@.named_or_not(path@, name@, pins_view(outcome), now),
    {
        reveal(PickerView::named_or_not);
        match outcome {
            Ok(index) => {
                self.pinned = index;
                self.put_source(Mode::Favorites, None);
                let shown = path.text(self.on);
                let said = if name.is_empty() {
                    joined("Name removed: ", &shown)
                } else {
                    joined(&joined(&shown, " is now :"), name)
                };
                self.set_transient_notice(said, now);
            },
            Err(error) => self.set_notice(joined("Cannot name the favorite: ", &error)),
        }
    }

    /// Takes in the favorites read again.
    pub fn pins_loaded(&mut self, pinned: Result<Index, String>)
        requires
            old(self).wf(),
        ensures
            final(self).wf(),
            final(self)@ == old(self)@.pins_reloaded(pins_view(pinned)),
    {
        match pinned {
            Ok(index) => {
                self.pinned = index;
            },
            Err(error) => self.set_notice(joined("Cannot load favorite markers: ", &error)),
        }
    }

    /// Says what happened to a request that hands the path to another program.
    ///
    /// Nothing on this screen changes when an application is launched, and it
    /// can take seconds to appear, so without a line here the click looks
    /// ignored and a failure is silent. The name is enough: the folder it came
    /// from is on screen already, and the full path crowds the line out.
    ///
    /// There is no progress to show. Handing the path over is where this
    /// program's part ends, so a spinner would be inventing work it cannot
    /// see the end of.
    pub fn report_open(&mut self, path: &FsPath, outcome: Result<(), String>, now: u64)
        requires
            old(self).wf(),
        ensures
            final(self).wf(),
            final(self)@ == old(self)@.open_reported(
                path@,
                match outcome {
                    Ok(_) => Ok(()),
                    Err(error) => Err(error@),
                },
                now,
            ),
    {
        let name = match path.file_name() {
            Some(name) => name,
            None => path.text(self.on),
        };
        match outcome {
            Ok(_) => self.set_transient_notice(joined("Opened: ", &name), now),
            Err(error) => self.set_notice(
                joined(&joined(&joined("Cannot open ", &name), ": "), &error),
            ),
        }
    }

    /// Retires a confirmation once its time is up. Says whether it did, so the
    /// caller knows the screen needs redrawing.
    pub fn expire_notice(&mut self, now: u64) -> (due: bool)
        requires
            old(self).wf(),
        ensures
            final(self).wf(),
            due == old(self)@.notice_due(now),
            final(self)@ == (if due {
                old(self)@.quiet()
            } else {
                old(self)@
            }),
    {
        let due = match self.notice_since {
            Some(since) => now >= since && now - since >= NOTICE_LINGER,
            None => false,
        };
        if due {
            self.clear_notice();
        }
        due
    }

    /// The directory whose contents the preview pane should show.
    fn preview_target(&mut self, world: &World) -> (dir: Option<FsPath>)
        requires
            old(self).wf(),
            world.wf(),
        ensures
            final(self).wf(),
            final(self)@ == old(self)@.listed(world@.disk),
            final(self)@.preview == old(self)@.preview,
            final(self)@.on == old(self)@.on,
            picker::maybe(dir) == old(self)@.preview_target(world@),
    {
        reveal(PickerView::preview_target);
        self.ensure_listed(&world.disk);
        let path = if self.in_tree() {
            self.shown_path()
        } else if self.mode == Mode::Browse {
            match &self.browser {
                Some(browser) => browser.selected_path(),
                None => None,
            }
        } else {
            match self.entry_of(self.mode, world) {
                Some(entry) => Some(entry.output_path(self.mode, self.on)),
                None => None,
            }
        };
        match path {
            Some(path) => if world.disk.is_dir(&path) {
                Some(path)
            } else {
                None
            },
            None => None,
        }
    }

    /// Loads the listing behind the preview pane. Says whether the listing
    /// changed, so the caller knows to redraw.
    pub fn refresh_preview(&mut self, world: &World) -> (changed: bool)
        requires
            old(self).wf(),
            world.wf(),
        ensures
            final(self).wf(),
            changed == !old(self)@.preview_current(world@),
            final(self)@ == old(self)@.previewed(world@),
    {
        reveal(PickerView::previewed);
        match self.preview_target(world) {
            Some(dir) => {
                let current = match &self.preview {
                    Some(preview) => preview.dir.is(&dir),
                    None => false,
                };
                if current {
                    return false;
                }
                let names = list_dir(&dir, world, self.on);
                self.preview = Some(Preview { dir, names });
                true
            },
            None => {
                let shown = self.preview.is_some();
                self.preview = None;
                shown
            },
        }
    }
}

} // verus!
