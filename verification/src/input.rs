//! What each key does.

use vstd::prelude::*;

use crate::action_menu;
use crate::action_menu::DecisionView;
use crate::disk::{Disk, DiskView};
use crate::fs_path::FsPath;
use crate::fuzzy::{self, PATTERN_LIMIT};
use crate::header::Nav;
use crate::key_menu::{self, Command, KeyMenu, KeyMenuView};
use crate::keys::{is_typed_text, KeyCode, KeyEvent, Modifiers};
use crate::mode::Mode;
use crate::picker::{self, NamingView, Picker, PickerView, Step, StepView, ERASE_PAUSE};
use crate::text::{self, is_whitespace, joined, trim};
use crate::tree;
use crate::world::{World, WorldView};

verus! {

/// A text without its last letter.
pub open spec fn shorter(typed: Seq<char>) -> Seq<char> {
    if typed.len() > 0 {
        typed.drop_last()
    } else {
        typed
    }
}

fn less_one(typed: &String) -> (res: String)
    ensures
        res@ == shorter(typed@),
{
    let mut res = typed.clone();
    res.pop();
    res
}

fn one_more(typed: &String, c: char) -> (res: String)
    ensures
        res@ == typed@.push(c),
{
    let mut res = typed.clone();
    res.push(c);
    res
}

/// The mode a letter goes straight to, held with Ctrl.
pub open spec fn lettered(c: char) -> Option<Mode> {
    let letter = text::ascii_lower(c);
    if letter == 'd' {
        Some(Mode::Dirs)
    } else if letter == 'f' {
        Some(Mode::Files)
    } else if letter == 'r' {
        Some(Mode::Recent)
    } else if letter == 's' {
        Some(Mode::Favorites)
    } else {
        None
    }
}

fn mode_lettered(c: char) -> (mode: Option<Mode>)
    ensures
        mode == lettered(c),
{
    let letter = c.to_ascii_lowercase();
    if letter == 'd' {
        Some(Mode::Dirs)
    } else if letter == 'f' {
        Some(Mode::Files)
    } else if letter == 'r' {
        Some(Mode::Recent)
    } else if letter == 's' {
        Some(Mode::Favorites)
    } else {
        None
    }
}

/// What a key means to a list, wherever it is shown.
#[derive(Clone, Copy, Debug, PartialEq, Eq, Structural)]
pub enum Move {
    Left,
    Right,
    /// Towards the first row by so many.
    Up(u32),
    /// Towards the last row by so many.
    Down(u32),
    /// A letter less.
    Erase,
    /// Nothing typed any more.
    Clear,
    /// A letter more.
    Type(char),
    Nothing,
}

/// What a key means to a list. Ctrl with h, j, k and l are the arrows on every
/// screen.
pub open spec fn move_of(key: KeyEvent) -> Move {
    match key.code {
        KeyCode::Left => Move::Left,
        KeyCode::Right => Move::Right,
        KeyCode::Up => Move::Up(1),
        KeyCode::Down => Move::Down(1),
        KeyCode::PageUp => Move::Up(10),
        KeyCode::PageDown => Move::Down(10),
        KeyCode::Backspace => Move::Erase,
        KeyCode::Char(c) => if key.modifiers.ctrl {
            if c == 'h' {
                Move::Left
            } else if c == 'l' {
                Move::Right
            } else if c == 'k' {
                Move::Up(1)
            } else if c == 'j' {
                Move::Down(1)
            } else if c == 'u' {
                Move::Clear
            } else {
                Move::Nothing
            }
        } else if key.types() {
            Move::Type(c)
        } else {
            Move::Nothing
        },
        _ => Move::Nothing,
    }
}

fn read_move(key: KeyEvent) -> (res: Move)
    ensures
        res == move_of(key),
{
    match key.code {
        KeyCode::Left => Move::Left,
        KeyCode::Right => Move::Right,
        KeyCode::Up => Move::Up(1),
        KeyCode::Down => Move::Down(1),
        KeyCode::PageUp => Move::Up(10),
        KeyCode::PageDown => Move::Down(10),
        KeyCode::Backspace => Move::Erase,
        KeyCode::Char(c) => {
            if key.modifiers.ctrl {
                if c == 'h' {
                    Move::Left
                } else if c == 'l' {
                    Move::Right
                } else if c == 'k' {
                    Move::Up(1)
                } else if c == 'j' {
                    Move::Down(1)
                } else if c == 'u' {
                    Move::Clear
                } else {
                    Move::Nothing
                }
            } else if is_typed_text(&key) {
                Move::Type(c)
            } else {
                Move::Nothing
            }
        },
        _ => Move::Nothing,
    }
}

/// What a key asks for on every screen.
#[derive(Clone, Copy, Debug, PartialEq, Eq, Structural)]
pub enum Ask {
    /// The panel of keys.
    Keys,
    Back,
    Forward,
    Switch(Mode),
    Actions,
    Name,
    Pin,
    Refresh,
    Escape,
    Cancel,
    Accept,
    /// Between a search and browse.
    Across,
    /// To the next tab of the same bracket.
    Along,
    Open,
    Show,
    /// None of these: it is the list's.
    Nothing,
}

/// What a key asks for on every screen.
///
/// Ctrl does the same as Alt with the arrows: terminals that use Alt with them
/// to move between panes never pass those keys on. AltGr arrives as Ctrl+Alt
/// on Windows and types a character, so Alt rules a letter out.
pub open spec fn ask_of(key: KeyEvent) -> Ask {
    let ctrl = key.modifiers.ctrl;
    let held = key.modifiers.ctrl || key.modifiers.alt;
    match key.code {
        KeyCode::Null => Ask::Keys,
        KeyCode::Left => if held {
            Ask::Back
        } else {
            Ask::Nothing
        },
        KeyCode::Right => if held {
            Ask::Forward
        } else {
            Ask::Nothing
        },
        KeyCode::F(n) => if n == 5 {
            Ask::Refresh
        } else {
            Ask::Nothing
        },
        KeyCode::Esc => Ask::Escape,
        KeyCode::Enter => Ask::Accept,
        KeyCode::Tab => Ask::Across,
        KeyCode::BackTab => Ask::Along,
        KeyCode::Char(c) => if c == ' ' && key.modifiers == Modifiers::only_ctrl() {
            Ask::Keys
        } else if c == 't' && key.modifiers == Modifiers::only_ctrl() {
            Ask::Back
        } else if ctrl && !key.modifiers.alt && lettered(c) is Some {
            Ask::Switch(lettered(c)->Some_0)
        } else if ctrl && c == 'p' {
            Ask::Actions
        } else if ctrl && c == 'n' {
            Ask::Name
        } else if ctrl && c == 'b' {
            Ask::Pin
        } else if ctrl && c == 'c' {
            Ask::Cancel
        } else if ctrl && c == 'o' {
            Ask::Open
        } else if ctrl && c == 'e' {
            Ask::Show
        } else {
            Ask::Nothing
        },
        _ => Ask::Nothing,
    }
}

fn read_ask(key: KeyEvent) -> (res: Ask)
    ensures
        res == ask_of(key),
{
    let ctrl = key.modifiers.ctrl;
    let alone = ctrl && !key.modifiers.alt && !key.modifiers.shift && !key.modifiers.other;
    let held = ctrl || key.modifiers.alt;
    match key.code {
        // Some terminals send Ctrl-Space as a bare NUL.
        KeyCode::Null => Ask::Keys,
        KeyCode::Left => if held {
            Ask::Back
        } else {
            Ask::Nothing
        },
        KeyCode::Right => if held {
            Ask::Forward
        } else {
            Ask::Nothing
        },
        KeyCode::F(n) => if n == 5 {
            Ask::Refresh
        } else {
            Ask::Nothing
        },
        KeyCode::Esc => Ask::Escape,
        KeyCode::Enter => Ask::Accept,
        KeyCode::Tab => Ask::Across,
        KeyCode::BackTab => Ask::Along,
        KeyCode::Char(c) => {
            if c == ' ' && alone {
                return Ask::Keys;
            }
            // Ctrl-T goes back too, as it does after a tag jump in Vim.
            if c == 't' && alone {
                return Ask::Back;
            }
            // Straight to a search by its letter; favorites are the starred
            // ones. Ctrl with a letter rather than Alt with a digit, which a
            // terminal may keep for switching its own tabs.
            if ctrl && !key.modifiers.alt {
                match mode_lettered(c) {
                    Some(mode) => {
                        return Ask::Switch(mode);
                    },
                    None => {},
                }
            }
            if !ctrl {
                Ask::Nothing
            } else if c == 'p' {
                Ask::Actions
            } else if c == 'n' {
                Ask::Name
            } else if c == 'b' {
                Ask::Pin
            } else if c == 'c' {
                Ask::Cancel
            } else if c == 'o' {
                Ask::Open
            } else if c == 'e' {
                Ask::Show
            } else {
                Ask::Nothing
            }
        },
        _ => Ask::Nothing,
    }
}

/// What a key asks for in a list of places.
#[derive(Clone, Copy, Debug, PartialEq, Eq, Structural)]
pub enum PlacesAsk {
    Escape,
    Cancel,
    /// The list's own key, or the other list's.
    Open(Mode),
    /// For the screen under the list, which closes.
    PassOn,
    Accept,
    Refresh,
    Pin,
    Name,
    Actions,
    Launch,
    Show,
    /// None of these: it moves or types.
    Nothing,
}

/// What a key asks for in a list of places.
pub open spec fn places_ask_of(key: KeyEvent) -> PlacesAsk {
    match key.code {
        KeyCode::Esc => PlacesAsk::Escape,
        KeyCode::Enter => PlacesAsk::Accept,
        KeyCode::Tab | KeyCode::BackTab => PlacesAsk::PassOn,
        KeyCode::F(n) => if n == 5 {
            PlacesAsk::Refresh
        } else {
            PlacesAsk::Nothing
        },
        KeyCode::Char(c) => if !key.modifiers.ctrl {
            PlacesAsk::Nothing
        } else if c == 'c' {
            PlacesAsk::Cancel
        } else if c == 'r' {
            PlacesAsk::Open(Mode::Recent)
        } else if c == 's' {
            PlacesAsk::Open(Mode::Favorites)
        } else if c == 'd' || c == 'f' {
            PlacesAsk::PassOn
        } else if c == 'b' {
            PlacesAsk::Pin
        } else if c == 'n' {
            PlacesAsk::Name
        } else if c == 'p' {
            PlacesAsk::Actions
        } else if c == 'o' {
            PlacesAsk::Launch
        } else if c == 'e' {
            PlacesAsk::Show
        } else {
            PlacesAsk::Nothing
        },
        _ => PlacesAsk::Nothing,
    }
}

fn read_places_ask(key: KeyEvent) -> (res: PlacesAsk)
    ensures
        res == places_ask_of(key),
{
    match key.code {
        KeyCode::Esc => PlacesAsk::Escape,
        KeyCode::Enter => PlacesAsk::Accept,
        KeyCode::Tab | KeyCode::BackTab => PlacesAsk::PassOn,
        KeyCode::F(n) => if n == 5 {
            PlacesAsk::Refresh
        } else {
            PlacesAsk::Nothing
        },
        KeyCode::Char(c) => {
            if !key.modifiers.ctrl {
                PlacesAsk::Nothing
            } else if c == 'c' {
                PlacesAsk::Cancel
            } else if c == 'r' {
                PlacesAsk::Open(Mode::Recent)
            } else if c == 's' {
                PlacesAsk::Open(Mode::Favorites)
            } else if c == 'd' || c == 'f' {
                PlacesAsk::PassOn
            } else if c == 'b' {
                PlacesAsk::Pin
            } else if c == 'n' {
                PlacesAsk::Name
            } else if c == 'p' {
                PlacesAsk::Actions
            } else if c == 'o' {
                PlacesAsk::Launch
            } else if c == 'e' {
                PlacesAsk::Show
            } else {
                PlacesAsk::Nothing
            }
        },
        _ => PlacesAsk::Nothing,
    }
}

/// What a list of places calls Left: a letter less, as Backspace is there.
pub open spec fn places_move_of(key: KeyEvent) -> Move {
    match key.code {
        KeyCode::Left => Move::Nothing,
        KeyCode::Char(c) => if key.modifiers.ctrl && c == 'h' {
            Move::Erase
        } else {
            move_of(key)
        },
        _ => move_of(key),
    }
}

fn read_places_move(key: KeyEvent) -> (res: Move)
    ensures
        res == places_move_of(key),
{
    match key.code {
        KeyCode::Left => Move::Nothing,
        KeyCode::Char(c) => if key.modifiers.ctrl && c == 'h' {
            Move::Erase
        } else {
            read_move(key)
        },
        _ => read_move(key),
    }
}

impl PickerView {
    /// This with any key pressed: it ends a double click, and Esc ends the
    /// pause after erasing, since a filter cleared with it was meant to be
    /// cleared.
    pub open spec fn touched(self, key: KeyEvent) -> PickerView {
        PickerView {
            last_click: None,
            last_erase: if key.code == KeyCode::Esc {
                None
            } else {
                self.last_erase
            },
            ..self
        }
    }

    /// Whether Backspace on an empty filter is a press too many while clearing.
    pub open spec fn erasing(self, now: u64) -> bool {
        self.last_erase is Some && now - self.last_erase->Some_0 <= ERASE_PAUSE
    }

    pub open spec fn erased(self, now: u64) -> PickerView {
        PickerView { last_erase: Some(now), ..self }
    }

    /// What reading the favorites again is asked for, once a list is opened.
    pub open spec fn opening(self, mode: Mode) -> StepView {
        if mode == Mode::Favorites && self.places != Some(mode) {
            StepView::ReloadPins
        } else {
            StepView::Continue
        }
    }

    /// The name prompt: letters type, Backspace deletes, Enter saves and Esc
    /// leaves the favorite as it was.
    #[verifier::opaque]
    pub open spec fn naming_keyed(self, key: KeyEvent) -> (PickerView, StepView) {
        match self.naming {
            None => (self, StepView::Continue),
            Some(naming) => match key.code {
                KeyCode::Esc => (PickerView { naming: None, ..self }, StepView::Continue),
                KeyCode::Enter => (
                    PickerView { naming: None, ..self },
                    StepView::SaveName(naming.path, text::trimmed(naming.name)),
                ),
                KeyCode::Backspace => (
                    PickerView {
                        naming: Some(NamingView { name: shorter(naming.name), ..naming }),
                        ..self
                    },
                    StepView::Continue,
                ),
                KeyCode::Char(c) => if key.types() && !text::whitespace(c) {
                    (
                        PickerView {
                            naming: Some(NamingView { name: naming.name.push(c), ..naming }),
                            ..self
                        },
                        StepView::Continue,
                    )
                } else {
                    (self, StepView::Continue)
                },
                _ => (self, StepView::Continue),
            },
        }
    }

    /// A key while the action menu is open. Ctrl-X in the menu sets what
    /// follows for the rest of the run.
    #[verifier::opaque]
    pub open spec fn menu_keyed(self, key: KeyEvent) -> (PickerView, StepView) {
        let (menu, decision) = self.menu->Some_0.handled(key);
        let p = PickerView { after_action: menu.after, ..self };
        match decision {
            DecisionView::Stay => (
                PickerView { menu: Some(menu), ..p },
                StepView::Continue,
            ),
            DecisionView::Close => (
                PickerView { menu: None, ..p },
                StepView::Continue,
            ),
            DecisionView::Run(action) => (
                PickerView { menu: None, ..p },
                StepView::Execute(action, menu.target),
            ),
        }
    }

    /// The folder to pin, or why there is none.
    #[verifier::opaque]
    pub open spec fn pinning(self, world: WorldView) -> (PickerView, StepView) {
        let p = self.looked(world.disk);
        match self.pin_target(world) {
            Some(path) => (p, StepView::Pin(path)),
            None => (
                p.noted("Nothing selected. Switch to browse to pin this folder."@),
                StepView::Continue,
            ),
        }
    }

    /// The folder to name, or why there is none.
    #[verifier::opaque]
    pub open spec fn starting_to_name(self, world: WorldView) -> (PickerView, StepView) {
        let p = self.looked(world.disk);
        match self.pin_target(world) {
            Some(path) => (p, StepView::Name(path)),
            None => (
                p.noted("Nothing selected. Switch to browse to name this folder."@),
                StepView::Continue,
            ),
        }
    }

    /// Right on a place: gone to, unless it is not there any more. Favorites
    /// keeps folders that have been deleted, so they can be unpinned.
    #[verifier::opaque]
    pub open spec fn place_righted(self, world: WorldView) -> PickerView {
        let p = self.looked(world.disk);
        match self.selection(world) {
            Some(path) => if world.disk.is_there(path) {
                p.place_taken(path, world)
            } else {
                p.noted("Not there any more: "@ + path.text(p.on))
            },
            None => p,
        }
    }

    /// Right on a search result: a look inside, in browse.
    #[verifier::opaque]
    pub open spec fn result_righted(self, world: WorldView) -> PickerView {
        let p = self.looked(world.disk);
        match self.selection(world) {
            Some(path) => if world.disk.is_there(path) {
                p.browsed_at(path, world.disk)
            } else {
                p.noted("Not there any more: "@ + path.text(p.on))
            },
            None => p,
        }
    }

    /// This with a mode's list, started if need be, moved up.
    pub open spec fn list_up(self, mode: Mode, rows: u32) -> PickerView {
        let p = self.started(mode);
        p.with_source(mode, Some(p.source(mode)->Some_0.moved_up(rows)))
    }

    /// This with a mode's list, started if need be, moved down.
    pub open spec fn list_down(self, mode: Mode, rows: u32) -> PickerView {
        let p = self.started(mode);
        p.with_source(mode, Some(p.source(mode)->Some_0.moved_down(rows)))
    }

    /// A key that moves in a list of places or types into it.
    #[verifier::opaque]
    pub open spec fn places_moved(self, key: KeyEvent, world: WorldView) -> PickerView {
        let mode = self.places->Some_0;
        match places_move_of(key) {
            Move::Right => self.place_righted(world),
            Move::Up(rows) => self.list_up(mode, rows),
            Move::Down(rows) => self.list_down(mode, rows),
            Move::Erase => self.places_queried(shorter(self.places_query)),
            Move::Clear => self.places_queried(Seq::empty()),
            Move::Type(c) => self.places_queried(self.places_query.push(c)),
            _ => self,
        }
    }

    /// Esc in a list of places: what is typed cleared, or the list closed.
    #[verifier::opaque]
    pub open spec fn places_escaped(self) -> PickerView {
        if self.places_query.len() == 0 {
            PickerView { places: None, ..self }
        } else {
            self.places_queried(Seq::empty())
        }
    }

    /// A key for the screen under a list of places, which closes.
    #[verifier::opaque]
    pub open spec fn passed_on(self, key: KeyEvent, world: WorldView) -> (PickerView, StepView) {
        (PickerView { places: None, ..self }).touched(key).quiet().main_keyed(key, world)
    }

    /// F5 in a list of places: the list started anew.
    #[verifier::opaque]
    pub open spec fn places_reread(self) -> (PickerView, StepView) {
        let mode = self.places->Some_0;
        (
            self.restarted(mode),
            if mode == Mode::Favorites {
                StepView::ReloadPins
            } else {
                StepView::Continue
            },
        )
    }

    /// Keys while a list of places is open. It takes the keys a search takes,
    /// and Enter, Right and the actions work on the place selected.
    #[verifier::opaque]
    pub open spec fn places_keyed(self, key: KeyEvent, world: WorldView) -> (PickerView, StepView) {
        let stay = StepView::Continue;
        let seen = self.looked(world.disk);
        match places_ask_of(key) {
            PlacesAsk::Escape => (self.places_escaped(), stay),
            PlacesAsk::Cancel => (self, StepView::Cancel),
            PlacesAsk::Open(other) => (self.places_opened(other), self.opening(other)),
            PlacesAsk::PassOn => self.passed_on(key, world),
            PlacesAsk::Accept => (self, StepView::Accept),
            PlacesAsk::Refresh => self.places_reread(),
            PlacesAsk::Pin => self.pinning(world),
            PlacesAsk::Name => self.starting_to_name(world),
            PlacesAsk::Actions => (
                seen,
                match self.selection(world) {
                    Some(path) => StepView::Actions(path),
                    None => stay,
                },
            ),
            PlacesAsk::Launch => (
                seen,
                match self.selection(world) {
                    Some(path) => StepView::Launch(path),
                    None => stay,
                },
            ),
            PlacesAsk::Show => (
                seen,
                match self.selection(world) {
                    Some(path) => StepView::ShowFolder(path),
                    None => stay,
                },
            ),
            PlacesAsk::Nothing => (self.places_moved(key, world), stay),
        }
    }

    /// This read again: the tree, the columns, or the list of a search.
    #[verifier::opaque]
    pub open spec fn screen_refreshed(self, disk: DiskView) -> PickerView {
        let p = PickerView { preview: None, ..self };
        if p.in_tree() {
            let q = p.with_tree(disk);
            PickerView { tree: Some(tree::refreshed(q.tree->Some_0, disk)), ..q }
        } else if p.mode == Mode::Browse {
            let q = p.with_browser(disk);
            q.browsing(q.browser->Some_0.reread(disk))
        } else {
            p.restarted(p.mode)
        }
    }

    /// What is typed on the screen that is on.
    pub open spec fn typed(self) -> Seq<char> {
        if self.in_tree() {
            self.tree_query
        } else if self.mode == Mode::Browse {
            self.browser->Some_0.filter
        } else {
            self.query
        }
    }

    /// Esc: what is typed cleared, or with nothing typed the end.
    #[verifier::opaque]
    pub open spec fn escaped(self, disk: DiskView) -> (PickerView, StepView) {
        let p = if self.mode == Mode::Browse && !self.tree_view {
            self.with_browser(disk)
        } else {
            self
        };
        if p.typed().len() > 0 {
            (p.queried(Seq::empty(), disk), StepView::Continue)
        } else {
            (p, StepView::Cancel)
        }
    }

    /// Keys on a screen with nothing open over it.
    #[verifier::opaque]
    pub open spec fn main_keyed(self, key: KeyEvent, world: WorldView) -> (PickerView, StepView) {
        let stay = StepView::Continue;
        let seen = self.looked(world.disk);
        match ask_of(key) {
            Ask::Keys => (
                PickerView {
                    keys: Some(KeyMenuView::opened(self.mode, self.search_mode)),
                    ..self
                },
                stay,
            ),
            Ask::Back => (self.navigated(Nav::Back, world), stay),
            Ask::Forward => (self.navigated(Nav::Forward, world), stay),
            Ask::Switch(mode) => (self.switched(mode, world), self.opening(mode)),
            Ask::Actions => (
                seen,
                match self.selection(world) {
                    Some(path) => StepView::Actions(path),
                    None => StepView::Actions(seen.root),
                },
            ),
            Ask::Name => self.starting_to_name(world),
            Ask::Pin => self.pinning(world),
            Ask::Refresh => (self.screen_refreshed(world.disk), StepView::ReloadPins),
            Ask::Escape => self.escaped(world.disk),
            Ask::Cancel => (self, StepView::Cancel),
            Ask::Accept => (self, StepView::Accept),
            Ask::Across => (self.crossed(world), stay),
            Ask::Along => (self.stepped_on(world), stay),
            Ask::Open => (
                seen,
                match self.selection(world) {
                    Some(path) => StepView::Launch(path),
                    None => stay,
                },
            ),
            Ask::Show => (
                seen,
                match self.selection(world) {
                    Some(path) => StepView::ShowFolder(path),
                    None => stay,
                },
            ),
            Ask::Nothing => if self.mode != Mode::Browse {
                (self.search_keyed(key, world), stay)
            } else if self.tree_view {
                (self.tree_keyed(key, world), self.tree_asks(key, world))
            } else {
                (self.browse_keyed(key, world), stay)
            },
        }
    }

    /// Backspace in a search: a letter less, or with none left the search
    /// widened, unless it has just been clearing.
    #[verifier::opaque]
    pub open spec fn search_erased(self, world: WorldView) -> PickerView {
        if self.query.len() > 0 {
            self.queried(shorter(self.query), world.disk).erased(world.now)
        } else if self.erasing(world.now) {
            self.erased(world.now)
        } else {
            self.navigated(Nav::Up, world)
        }
    }

    /// The rest of a list that stopped at its ceiling, asked for.
    #[verifier::opaque]
    pub open spec fn collected(self) -> PickerView {
        let p = self.started(self.mode);
        if p.source(p.mode)->Some_0.truncated {
            (PickerView { unlimited: true, ..p }).restarted(p.mode).noted(
                "Collecting the rest of this folder"@,
            )
        } else {
            p
        }
    }

    /// Keys that move in a search or type into it.
    #[verifier::opaque]
    pub open spec fn search_keyed(self, key: KeyEvent, world: WorldView) -> PickerView {
        if key.code == KeyCode::Char('a') && key.modifiers.ctrl {
            self.collected()
        } else {
            match move_of(key) {
                Move::Up(rows) => if rows == 1 {
                    self.list_up(self.mode, 1)
                } else {
                    self
                },
                Move::Down(rows) => if rows == 1 {
                    self.list_down(self.mode, 1)
                } else {
                    self
                },
                Move::Erase => self.search_erased(world),
                Move::Clear => self.queried(Seq::empty(), world.disk),
                Move::Left => self.navigated(Nav::Up, world),
                Move::Right => self.result_righted(world),
                Move::Type(c) => self.queried(self.query.push(c), world.disk),
                Move::Nothing => self,
            }
        }
    }

    /// Keys in browse's columns.
    #[verifier::opaque]
    pub open spec fn browse_keyed(self, key: KeyEvent, world: WorldView) -> PickerView {
        let p = self.with_browser(world.disk);
        let b = p.browser->Some_0;
        match move_of(key) {
            Move::Erase => if b.filter.len() > 0 {
                p.browsing(b.filtered(shorter(b.filter))).erased(world.now)
            } else if p.erasing(world.now) {
                p.erased(world.now)
            } else {
                p.browsing(b.above(world.disk))
            },
            Move::Left => p.browsing(b.above(world.disk)),
            Move::Right => p.browsing(b.entered(world.disk)),
            Move::Up(rows) => p.browsing(b.moved(-(rows as int))),
            Move::Down(rows) => p.browsing(b.moved(rows as int)),
            Move::Clear => p.browsing(b.filtered(Seq::empty())),
            Move::Type(c) => p.browsing(b.filtered(b.filter.push(c))),
            Move::Nothing => p,
        }
    }

    /// Whether a key moves the selection of the tree's matches, so that it is
    /// kept as more of them arrive.
    pub open spec fn keeps(key: KeyEvent) -> bool {
        match move_of(key) {
            Move::Up(_) | Move::Down(_) | Move::Left => true,
            _ => false,
        }
    }

    /// Keys in the tree. In a search Left walks up the matches' folders and the
    /// root stays; Right on a match goes back to the tree of folders, opened
    /// down to it.
    #[verifier::opaque]
    pub open spec fn tree_keyed(self, key: KeyEvent, world: WorldView) -> PickerView {
        let searching = self.found is Some;
        let p = PickerView {
            found_keep: if searching && Self::keeps(key) {
                true
            } else {
                self.found_keep
            },
            ..self
        };
        let shown = p.with_shown(world.disk);
        let grown = p.with_tree(world.disk);
        match move_of(key) {
            Move::Erase => if p.tree_query.len() > 0 {
                p.tree_queried(shorter(p.tree_query), world.disk).erased(world.now)
            } else if p.erasing(world.now) {
                p.erased(world.now)
            } else {
                p.tree_lefted(world.disk)
            },
            Move::Left => if searching {
                shown.showing_tree(shown.shown_tree().went_left())
            } else {
                p.tree_lefted(world.disk)
            },
            Move::Right => if searching {
                p.search_left(world.disk)
            } else {
                PickerView { tree: Some(grown.tree->Some_0.went_right(world.disk)), ..grown }
            },
            Move::Up(rows) => shown.showing_tree(shown.shown_tree().moved(-(rows as int))),
            Move::Down(rows) => shown.showing_tree(shown.shown_tree().moved(rows as int)),
            Move::Clear => p.tree_queried(Seq::empty(), world.disk),
            Move::Type(c) => p.tree_queried(p.tree_query.push(c), world.disk),
            Move::Nothing => p,
        }
    }

    /// What a key in the tree asks for: where it leaves something to search
    /// for, the matches there are.
    pub open spec fn tree_asks(self, key: KeyEvent, world: WorldView) -> StepView {
        let wanted = match move_of(key) {
            Move::Erase => self.tree_query.len() > 0 && self.wants_matches(
                shorter(self.tree_query),
                world.disk,
            ),
            Move::Type(c) => self.wants_matches(self.tree_query.push(c), world.disk),
            _ => false,
        };
        if wanted {
            StepView::Match
        } else {
            StepView::Continue
        }
    }

    /// A key on the screen, or on the list of places over it.
    pub open spec fn screen_keyed(self, key: KeyEvent, world: WorldView) -> (PickerView, StepView) {
        let p = self.quiet();
        if p.places is Some {
            p.places_keyed(key, world)
        } else {
            p.main_keyed(key, world)
        }
    }

    /// A key while the panel of keys is open. Anything with a shortcut is
    /// pressed for the reader, so a row and its shortcut can never come to do
    /// different things.
    #[verifier::opaque]
    pub open spec fn panel_keyed(self, key: KeyEvent, world: WorldView) -> (PickerView, StepView) {
        let (keys, decision) = self.keys->Some_0.handled(key);
        let closed = PickerView { keys: None, ..self };
        match decision {
            key_menu::Decision::Stay => (
                PickerView { keys: Some(keys), ..self },
                StepView::Continue,
            ),
            key_menu::Decision::Close => (closed, StepView::Continue),
            key_menu::Decision::Run(command) => match command {
                Command::Go(mode) => (closed.switched(mode, world), closed.opening(mode)),
                Command::ToggleTree => (closed.tree_toggled(world), StepView::Continue),
                Command::Press(code, modifiers) => {
                    let pressed = KeyEvent { code, modifiers };
                    closed.touched(pressed).screen_keyed(pressed, world)
                },
            },
        }
    }

    /// What a key does, and what it asks of the program.
    #[verifier::opaque]
    pub open spec fn keyed(self, key: KeyEvent, world: WorldView) -> (PickerView, StepView) {
        let p = self.touched(key);
        if p.naming is Some {
            p.naming_keyed(key)
        } else if p.menu is Some {
            p.menu_keyed(key)
        } else if p.keys is Some {
            p.panel_keyed(key, world)
        } else {
            p.screen_keyed(key, world)
        }
    }
}

impl Picker {
    /// Backspace deleted a letter: for a while, a press on the empty filter
    /// clears rather than climbs.
    fn note_erase(&mut self, now: u64)
        requires
            old(self).wf(),
        ensures
            final(self).wf(),
            final(self)@ == old(self)@.erased(now),
    {
        self.last_erase = Some(now);
    }

    /// Whether Backspace on an empty filter goes up. It does, unless Backspace
    /// deleted something within the pause: then it is a press too many while
    /// clearing, and moving would take the reader somewhere they never meant
    /// to go. A swallowed press keeps the pause going, so holding the key past
    /// the empty filter stays put for as long as it is held.
    pub fn backspace_goes_up(&mut self, now: u64) -> (up: bool)
        requires
            old(self).wf(),
        ensures
            final(self).wf(),
            up == !old(self)@.erasing(now),
            final(self)@ == (if up {
                old(self)@
            } else {
                old(self)@.erased(now)
            }),
    {
        match self.last_erase {
            Some(at) => {
                if now < at || now - at <= ERASE_PAUSE {
                    self.last_erase = Some(now);
                    return false;
                }
            },
            None => {},
        }
        true
    }

    /// The name prompt: letters type, Backspace deletes, Enter saves and Esc
    /// leaves the favorite as it was. An empty name saved takes the name away;
    /// the folder stays pinned, and is pinned if it was not, which
    /// `favorites::save_name` sees to.
    fn handle_naming_key(&mut self, key: KeyEvent) -> (step: Step)
        requires
            old(self).wf(),
        ensures
            final(self).wf(),
            (final(self)@, step@) == old(self)@.naming_keyed(key),
    {
        reveal(PickerView::naming_keyed);
        match key.code {
            KeyCode::Esc => {
                self.naming = None;
            },
            KeyCode::Enter => {
                match self.naming.take() {
                    Some(naming) => {
                        let name = trim(&naming.name);
                        return Step::SaveName(naming.path, name);
                    },
                    None => {},
                }
            },
            KeyCode::Backspace => {
                match &mut self.naming {
                    Some(naming) => {
                        naming.name.pop();
                    },
                    None => {},
                }
            },
            KeyCode::Char(c) => {
                if is_typed_text(&key) && !is_whitespace(c) {
                    match &mut self.naming {
                        Some(naming) => naming.name.push(c),
                        None => {},
                    }
                }
            },
            _ => {},
        }
        Step::Continue
    }

    fn handle_menu_key(&mut self, key: KeyEvent) -> (step: Step)
        requires
            old(self).wf(),
            key.writes() ==> (old(self)@.menu matches Some(m) ==> m.query.len()
                < fuzzy::PATTERN_LIMIT),
            old(self)@.menu is Some,
        ensures
            final(self).wf(),
            (final(self)@, step@) == old(self)@.menu_keyed(key),
    {
        reveal(PickerView::menu_keyed);
        match self.menu.take() {
            Some(mut menu) => {
                let decision = menu.handle(key);
                // Ctrl-X in the menu sets what follows for the rest of the run.
                self.after_action = menu.after;
                match decision {
                    action_menu::Decision::Stay => {
                        self.menu = Some(menu);
                        Step::Continue
                    },
                    action_menu::Decision::Close => Step::Continue,
                    action_menu::Decision::Run(action) => Step::Execute(action, menu.target),
                }
            },
            None => Step::Continue,
        }
    }

    /// Pins or unpins the folder Ctrl-B is pressed on.
    fn toggle_pin(&mut self, world: &World) -> (step: Step)
        requires
            old(self).wf(),
            world.wf(),
        ensures
            final(self).wf(),
            (final(self)@, step@) == old(self)@.pinning(world@),
    {
        reveal(PickerView::pinning);
        match self.pin_target(world) {
            Some(path) => Step::Pin(path),
            None => {
                self.set_notice(
                    "Nothing selected. Switch to browse to pin this folder.".to_owned(),
                );
                Step::Continue
            },
        }
    }

    /// Asks for the name of the folder Ctrl-N is pressed on, so a name can be
    /// changed as well as given.
    fn start_naming(&mut self, world: &World) -> (step: Step)
        requires
            old(self).wf(),
            world.wf(),
        ensures
            final(self).wf(),
            (final(self)@, step@) == old(self)@.starting_to_name(world@),
    {
        reveal(PickerView::starting_to_name);
        match self.pin_target(world) {
            Some(path) => Step::Name(path),
            None => {
                self.set_notice(
                    "Nothing selected. Switch to browse to name this folder.".to_owned(),
                );
                Step::Continue
            },
        }
    }

    fn say_gone(&mut self, path: &FsPath)
        requires
            old(self).wf(),
        ensures
            final(self).wf(),
            final(self)@ == old(self)@.noted("Not there any more: "@ + path@.text(old(self)@.on)),
    {
        let shown = path.text(self.on);
        self.set_notice(joined("Not there any more: ", &shown));
    }

    pub(crate) fn right_on_place(&mut self, world: &World)
        requires
            old(self).wf(),
            world.wf(),
        ensures
            final(self).wf(),
            final(self)@ == old(self)@.place_righted(world@),
    {
        reveal(PickerView::place_righted);
        match self.selected_path(world) {
            Some(path) => {
                if world.disk.is_there(&path) {
                    self.go_to_place(&path, world);
                } else {
                    self.say_gone(&path);
                }
            },
            None => {},
        }
    }

    fn go_into(&mut self, world: &World)
        requires
            old(self).wf(),
            world.wf(),
        ensures
            final(self).wf(),
            final(self)@ == old(self)@.result_righted(world@),
    {
        reveal(PickerView::result_righted);
        match self.selected_path(world) {
            Some(path) => {
                if world.disk.is_there(&path) {
                    self.browse_at(&path, &world.disk);
                } else {
                    self.say_gone(&path);
                }
            },
            None => {},
        }
    }

    fn list_up(&mut self, mode: Mode, rows: u32)
        requires
            old(self).wf(),
        ensures
            final(self).wf(),
            final(self)@ == old(self)@.list_up(mode, rows),
    {
        self.start(mode);
        let ghost was = self@;
        let i: usize = picker::mode_index(mode);
        assert(self@.sources[i as int] == picker::maybe(self.sources@[i as int]));
        match &mut self.sources[i] {
            Some(source) => source.move_up(rows),
            None => {},
        }
        assert(self@.sources =~= was.sources.update(
            picker::place_of(mode),
            Some(was.source(mode)->Some_0.moved_up(rows)),
        ));
    }

    fn list_down(&mut self, mode: Mode, rows: u32)
        requires
            old(self).wf(),
        ensures
            final(self).wf(),
            final(self)@ == old(self)@.list_down(mode, rows),
    {
        self.start(mode);
        let ghost was = self@;
        let i: usize = picker::mode_index(mode);
        assert(self@.sources[i as int] == picker::maybe(self.sources@[i as int]));
        match &mut self.sources[i] {
            Some(source) => source.move_down(rows),
            None => {},
        }
        assert(self@.sources =~= was.sources.update(
            picker::place_of(mode),
            Some(was.source(mode)->Some_0.moved_down(rows)),
        ));
    }

    fn move_in_places(&mut self, key: KeyEvent, world: &World)
        requires
            old(self).wf(),
            world.wf(),
            old(self)@.places is Some,
        ensures
            final(self).wf(),
            final(self)@ == old(self)@.places_moved(key, world@),
    {
        reveal(PickerView::places_moved);
        let mode = match self.places {
            Some(mode) => mode,
            None => {
                return;
            },
        };
        match read_places_move(key) {
            Move::Right => self.right_on_place(world),
            Move::Up(rows) => self.list_up(mode, rows),
            Move::Down(rows) => self.list_down(mode, rows),
            Move::Erase => {
                let query = less_one(&self.places_query);
                self.set_places_query(&query);
            },
            Move::Clear => {
                let query = String::new();
                assert(query@ =~= Seq::<char>::empty());
                self.set_places_query(&query);
            },
            Move::Type(c) => {
                let query = one_more(&self.places_query, c);
                self.set_places_query(&query);
            },
            _ => {},
        }
    }

    fn escape_places(&mut self)
        requires
            old(self).wf(),
        ensures
            final(self).wf(),
            final(self)@ == old(self)@.places_escaped(),
    {
        reveal(PickerView::places_escaped);
        if self.places_query.is_empty() {
            self.places = None;
        } else {
            let query = String::new();
            assert(query@ =~= Seq::<char>::empty());
            self.set_places_query(&query);
        }
    }

    fn pass_on(&mut self, key: KeyEvent, world: &World) -> (step: Step)
        requires
            old(self).wf(),
            !key.writes(),
            world.wf(),
        ensures
            final(self).wf(),
            (final(self)@, step@) == old(self)@.passed_on(key, world@),
    {
        reveal(PickerView::passed_on);
        self.places = None;
        self.touch(key);
        self.clear_notice();
        self.handle_main_key(key, world)
    }

    fn restart_places(&mut self) -> (step: Step)
        requires
            old(self).wf(),
            old(self)@.places is Some,
        ensures
            final(self).wf(),
            (final(self)@, step@) == old(self)@.places_reread(),
    {
        reveal(PickerView::places_reread);
        match self.places {
            Some(mode) => {
                self.restart(mode);
                if mode == Mode::Favorites {
                    Step::ReloadPins
                } else {
                    Step::Continue
                }
            },
            None => Step::Continue,
        }
    }

    /// Keys while a list of places is open. It takes the keys a search
    /// takes, and Enter, Right and the actions work on the place selected.
    pub fn handle_places_key(&mut self, key: KeyEvent, world: &World) -> (step: Step)
        requires
            old(self).wf(),
            world.wf(),
            old(self)@.places is Some,
        ensures
            final(self).wf(),
            (final(self)@, step@) == old(self)@.places_keyed(key, world@),
    {
        reveal(PickerView::places_keyed);
        match read_places_ask(key) {
            PlacesAsk::Escape => {
                self.escape_places();
                Step::Continue
            },
            PlacesAsk::Cancel => Step::Cancel,
            // The key that opened the list closes it; the other one swaps.
            PlacesAsk::Open(other) => {
                if self.open_places(other) {
                    Step::ReloadPins
                } else {
                    Step::Continue
                }
            },
            PlacesAsk::PassOn => self.pass_on(key, world),
            PlacesAsk::Accept => Step::Accept,
            PlacesAsk::Refresh => self.restart_places(),
            PlacesAsk::Pin => self.toggle_pin(world),
            PlacesAsk::Name => self.start_naming(world),
            PlacesAsk::Actions => match self.selected_path(world) {
                Some(path) => Step::Actions(path),
                None => Step::Continue,
            },
            PlacesAsk::Launch => match self.selected_path(world) {
                Some(path) => Step::Launch(path),
                None => Step::Continue,
            },
            PlacesAsk::Show => match self.selected_path(world) {
                Some(path) => Step::ShowFolder(path),
                None => Step::Continue,
            },
            PlacesAsk::Nothing => {
                self.move_in_places(key, world);
                Step::Continue
            },
        }
    }

    fn touch(&mut self, key: KeyEvent)
        requires
            old(self).wf(),
        ensures
            final(self).wf(),
            final(self)@ == old(self)@.touched(key),
    {
        self.last_click = None;
        // A filter cleared with Esc was meant to be cleared, so Backspace
        // right after it goes up without the pause.
        if key.code == KeyCode::Esc {
            self.last_erase = None;
        }
    }

    fn refresh(&mut self, disk: &Disk)
        requires
            old(self).wf(),
            disk.wf(),
        ensures
            final(self).wf(),
            final(self)@ == old(self)@.screen_refreshed(disk@),
    {
        reveal(PickerView::screen_refreshed);
        self.preview = None;
        if self.in_tree() {
            self.ensure_tree(disk);
            match &mut self.tree {
                Some(tree) => tree.refresh(disk),
                None => {},
            }
        } else if self.mode == Mode::Browse {
            self.ensure_browser(disk);
            match &mut self.browser {
                Some(browser) => browser.refresh(disk),
                None => {},
            }
        } else {
            self.restart(self.mode);
        }
    }

    fn escape(&mut self, disk: &Disk) -> (step: Step)
        requires
            old(self).wf(),
            disk.wf(),
        ensures
            final(self).wf(),
            (final(self)@, step@) == old(self)@.escaped(disk@),
    {
        reveal(PickerView::escaped);
        let has_filter = if self.in_tree() {
            !self.tree_query.is_empty()
        } else if self.mode == Mode::Browse {
            self.ensure_browser(disk);
            match &self.browser {
                Some(browser) => !browser.typed().is_empty(),
                None => false,
            }
        } else {
            !self.query.is_empty()
        };
        if has_filter {
            let query = String::new();
            assert(query@ =~= Seq::<char>::empty());
            self.set_query(&query, disk);
            return Step::Continue;
        }
        Step::Cancel
    }

    fn handle_main_key(&mut self, key: KeyEvent, world: &World) -> (step: Step)
        requires
            old(self).wf(),
            old(self)@.screen_room_for(key),
            world.wf(),
        ensures
            final(self).wf(),
            (final(self)@, step@) == old(self)@.main_keyed(key, world@),
    {
        reveal(PickerView::main_keyed);
        match read_ask(key) {
            Ask::Keys => {
                self.keys = Some(KeyMenu::new(self.mode, self.search_mode));
                Step::Continue
            },
            Ask::Back => {
                self.navigate(Nav::Back, world);
                Step::Continue
            },
            Ask::Forward => {
                self.navigate(Nav::Forward, world);
                Step::Continue
            },
            Ask::Switch(mode) => {
                if self.switch_to(mode, world) {
                    Step::ReloadPins
                } else {
                    Step::Continue
                }
            },
            Ask::Actions => match self.selected_path(world) {
                Some(path) => Step::Actions(path),
                None => Step::Actions(self.root.clone()),
            },
            Ask::Name => self.start_naming(world),
            Ask::Pin => self.toggle_pin(world),
            Ask::Refresh => {
                self.refresh(&world.disk);
                Step::ReloadPins
            },
            Ask::Escape => self.escape(&world.disk),
            Ask::Cancel => Step::Cancel,
            Ask::Accept => Step::Accept,
            Ask::Across => {
                self.toggle_browse(world);
                Step::Continue
            },
            Ask::Along => {
                self.next_search_mode(world);
                Step::Continue
            },
            // Hand the selection to the desktop and stay open. O opens, as o
            // does in the action menu; E shows it in the file manager.
            Ask::Open => match self.selected_path(world) {
                Some(path) => Step::Launch(path),
                None => Step::Continue,
            },
            Ask::Show => match self.selected_path(world) {
                Some(path) => Step::ShowFolder(path),
                None => Step::Continue,
            },
            Ask::Nothing => {
                if self.mode != Mode::Browse {
                    self.handle_search_key(key, world);
                    Step::Continue
                } else if self.tree_view {
                    self.handle_tree_key(key, world)
                } else {
                    self.handle_browse_key(key, world);
                    Step::Continue
                }
            },
        }
    }

    fn erase_in_search(&mut self, world: &World)
        requires
            old(self).wf(),
            world.wf(),
            old(self)@.mode != Mode::Browse,
        ensures
            final(self).wf(),
            final(self)@ == old(self)@.search_erased(world@),
    {
        reveal(PickerView::search_erased);
        if !self.query.is_empty() {
            let query = less_one(&self.query);
            self.set_query(&query, &world.disk);
            self.note_erase(world.now);
        } else if self.backspace_goes_up(world.now) {
            self.navigate(Nav::Up, world);
        }
    }

    fn collect_the_rest(&mut self)
        requires
            old(self).wf(),
        ensures
            final(self).wf(),
            final(self)@ == old(self)@.collected(),
    {
        reveal(PickerView::collected);
        let mode = self.mode;
        self.start(mode);
        let i: usize = picker::mode_index(mode);
        assert(self@.sources[i as int] == picker::maybe(self.sources@[i as int]));
        let truncated = match &self.sources[i] {
            Some(source) => source.truncated,
            None => false,
        };
        if truncated {
            self.unlimited = true;
            self.restart(mode);
            self.set_notice("Collecting the rest of this folder".to_owned());
        }
    }

    fn handle_search_key(&mut self, key: KeyEvent, world: &World)
        requires
            old(self).wf(),
            world.wf(),
            old(self)@.mode != Mode::Browse,
        ensures
            final(self).wf(),
            final(self)@ == old(self)@.search_keyed(key, world@),
    {
        reveal(PickerView::search_keyed);
        // Offered only while a list is short, and announced there rather than
        // in the key hints, which stay the same all session.
        if key.code == KeyCode::Char('a') && key.modifiers.ctrl {
            self.collect_the_rest();
            return;
        }
        match read_move(key) {
            Move::Up(rows) => {
                if rows == 1 {
                    self.list_up(self.mode, 1);
                }
            },
            Move::Down(rows) => {
                if rows == 1 {
                    self.list_down(self.mode, 1);
                }
            },
            Move::Erase => self.erase_in_search(world),
            Move::Clear => {
                let query = String::new();
                assert(query@ =~= Seq::<char>::empty());
                self.set_query(&query, &world.disk);
            },
            // The same key that climbs a level in browse. Here the level is
            // the root the scan started from, so the search widens by one.
            Move::Left => self.navigate(Nav::Up, world),
            // The same key that goes down a level in browse, and the same move
            // as a click on the preview. Enter would cd there and quit.
            Move::Right => self.go_into(world),
            Move::Type(c) => {
                let query = one_more(&self.query, c);
                self.set_query(&query, &world.disk);
            },
            Move::Nothing => {},
        }
    }

    fn handle_browse_key(&mut self, key: KeyEvent, world: &World)
        requires
            old(self).wf(),
            key.writes() ==> (old(self)@.browser matches Some(b) ==> b.filter.len()
                < fuzzy::PATTERN_LIMIT),
            world.wf(),
        ensures
            final(self).wf(),
            final(self)@ == old(self)@.browse_keyed(key, world@),
    {
        reveal(PickerView::browse_keyed);
        self.ensure_browser(&world.disk);
        let ghost p = self@;
        let ghost b = p.browser->Some_0;
        let mut browser = match self.browser.take() {
            Some(browser) => browser,
            None => {
                return;
            },
        };
        assert(b == browser@);
        proof {
            b.what_always_holds();
        }
        match read_move(key) {
            Move::Erase => {
                if !browser.typed().is_empty() {
                    let filter = less_one(browser.typed());
                    browser.set_filter(&filter);
                    self.last_erase = Some(world.now);
                } else {
                    let erasing = match self.last_erase {
                        Some(at) => world.now < at || world.now - at <= ERASE_PAUSE,
                        None => false,
                    };
                    if erasing {
                        self.last_erase = Some(world.now);
                    } else {
                        browser.up(&world.disk);
                    }
                }
            },
            Move::Left => browser.up(&world.disk),
            Move::Right => browser.enter(&world.disk),
            Move::Up(rows) => browser.move_up(rows),
            Move::Down(rows) => browser.move_down(rows),
            Move::Clear => {
                let filter = String::new();
                assert(filter@ =~= Seq::<char>::empty());
                browser.set_filter(&filter);
            },
            Move::Type(c) => {
                let filter = one_more(browser.typed(), c);
                browser.set_filter(&filter);
            },
            Move::Nothing => {},
        }
        self.browser = Some(browser);
    }

    fn step_tree(&mut self, disk: &Disk, up: bool, rows: u32)
        requires
            old(self).wf(),
            disk.wf(),
        ensures
            final(self).wf(),
            ({
                let p = old(self)@.with_shown(disk@);
                let delta = if up {
                    -(rows as int)
                } else {
                    rows as int
                };
                final(self)@ == p.showing_tree(p.shown_tree().moved(delta))
            }),
    {
        self.ensure_shown(disk);
        match &mut self.found {
            Some(found) => {
                if up {
                    found.move_up(rows);
                } else {
                    found.move_down(rows);
                }
            },
            None => {
                match &mut self.tree {
                    Some(tree) => {
                        if up {
                            tree.move_up(rows);
                        } else {
                            tree.move_down(rows);
                        }
                    },
                    None => {},
                }
            },
        }
    }

    fn erase_in_tree(&mut self, world: &World) -> (wanted: bool)
        requires
            old(self).wf(),
            world.wf(),
        ensures
            final(self).wf(),
            final(self)@ == (if old(self)@.tree_query.len() > 0 {
                old(self)@.tree_queried(shorter(old(self)@.tree_query), world@.disk).erased(
                    world@.now,
                )
            } else if old(self)@.erasing(world@.now) {
                old(self)@.erased(world@.now)
            } else {
                old(self)@.tree_lefted(world@.disk)
            }),
            wanted == (old(self)@.tree_query.len() > 0 && old(self)@.wants_matches(
                shorter(old(self)@.tree_query),
                world@.disk,
            )),
    {
        if !self.tree_query.is_empty() {
            let query = less_one(&self.tree_query);
            let wanted = self.set_tree_query(&query, &world.disk);
            self.note_erase(world.now);
            return wanted;
        }
        if self.backspace_goes_up(world.now) {
            self.tree_left(&world.disk);
        }
        false
    }

    fn handle_tree_key(&mut self, key: KeyEvent, world: &World) -> (step: Step)
        requires
            old(self).wf(),
            world.wf(),
        ensures
            final(self).wf(),
            final(self)@ == old(self)@.tree_keyed(key, world@),
            step@ == old(self)@.tree_asks(key, world@),
    {
        reveal(PickerView::tree_keyed);
        let searching = self.found.is_some();
        let moved = read_move(key);
        if searching {
            match moved {
                Move::Up(_) | Move::Down(_) | Move::Left => {
                    self.found_keep = true;
                },
                _ => {},
            }
        }
        match moved {
            Move::Erase => {
                if self.erase_in_tree(world) {
                    return Step::Match;
                }
            },
            // In a search Left walks up the matches' folders; the root stays.
            Move::Left => {
                if searching {
                    match &mut self.found {
                        Some(found) => {
                            found.left();
                        },
                        None => {},
                    }
                } else {
                    self.tree_left(&world.disk);
                }
            },
            // Right on a match goes back to the tree of folders, opened down
            // to it: a search finds the place, and the tree goes on from there.
            Move::Right => {
                if searching {
                    self.leave_tree_search(&world.disk);
                } else {
                    self.ensure_tree(&world.disk);
                    match &mut self.tree {
                        Some(tree) => tree.right(&world.disk),
                        None => {},
                    }
                }
            },
            Move::Up(rows) => self.step_tree(&world.disk, true, rows),
            Move::Down(rows) => self.step_tree(&world.disk, false, rows),
            Move::Clear => {
                let query = String::new();
                assert(query@ =~= Seq::<char>::empty());
                self.set_tree_query(&query, &world.disk);
            },
            Move::Type(c) => {
                let query = one_more(&self.tree_query, c);
                if self.set_tree_query(&query, &world.disk) {
                    return Step::Match;
                }
            },
            Move::Nothing => {},
        }
        Step::Continue
    }

    fn handle_screen_key(&mut self, key: KeyEvent, world: &World) -> (step: Step)
        requires
            old(self).wf(),
            old(self)@.places is None ==> old(self)@.screen_room_for(key),
            world.wf(),
        ensures
            final(self).wf(),
            (final(self)@, step@) == old(self)@.screen_keyed(key, world@),
    {
        self.clear_notice();
        if self.places.is_some() {
            self.handle_places_key(key, world)
        } else {
            self.handle_main_key(key, world)
        }
    }

    fn handle_panel_key(&mut self, key: KeyEvent, world: &World) -> (step: Step)
        requires
            old(self).wf(),
            world.wf(),
            old(self)@.keys is Some,
        ensures
            final(self).wf(),
            (final(self)@, step@) == old(self)@.panel_keyed(key, world@),
    {
        reveal(PickerView::panel_keyed);
        let decision = match &mut self.keys {
            Some(keys) => keys.handle(key),
            None => {
                return Step::Continue;
            },
        };
        match decision {
            key_menu::Decision::Stay => Step::Continue,
            key_menu::Decision::Close => {
                self.keys = None;
                Step::Continue
            },
            key_menu::Decision::Run(command) => {
                self.keys = None;
                match command {
                    Command::Go(mode) => {
                        if self.switch_to(mode, world) {
                            Step::ReloadPins
                        } else {
                            Step::Continue
                        }
                    },
                    Command::ToggleTree => {
                        self.toggle_tree(world);
                        Step::Continue
                    },
                    // Pressed for the reader, so a row and its shortcut can
                    // never come to do different things.
                    Command::Press(code, modifiers) => {
                        let pressed = KeyEvent { code, modifiers };
                        self.touch(pressed);
                        self.handle_screen_key(pressed, world)
                    },
                }
            },
        }
    }

    /// Whether there is room for what a key types.
    pub fn has_room(&self, key: &KeyEvent) -> (res: bool)
        ensures
            res == self@.room_for(*key),
    {
        let writes = match key.code {
            KeyCode::Char(_) => is_typed_text(key),
            _ => false,
        };
        if !writes || self.naming.is_some() {
            return true;
        }
        match &self.menu {
            Some(menu) => menu.query.unicode_len() < PATTERN_LIMIT,
            None => {
                if self.keys.is_some() || self.places.is_some() || self.mode != Mode::Browse
                    || self.tree_view {
                    return true;
                }
                match &self.browser {
                    Some(browser) => browser.typed().unicode_len() < PATTERN_LIMIT,
                    None => true,
                }
            },
        }
    }

    /// What a key does, and what it asks of the program.
    pub fn handle_key(&mut self, key: KeyEvent, world: &World) -> (step: Step)
        requires
            old(self).wf(),
            old(self)@.room_for(key),
            world.wf(),
        ensures
            final(self).wf(),
            (final(self)@, step@) == old(self)@.keyed(key, world@),
    {
        reveal(PickerView::keyed);
        self.touch(key);
        if self.naming.is_some() {
            return self.handle_naming_key(key);
        }
        if self.menu.is_some() {
            return self.handle_menu_key(key);
        }
        if self.keys.is_some() {
            return self.handle_panel_key(key, world);
        }
        self.handle_screen_key(key, world)
    }
}

} // verus!
