//! What the picker can do, one plain letter each, in a panel that opens on
//! Ctrl-Space.
//!
//! The key hints on the bottom border are cut to what fits, so on a narrow
//! terminal most keys do not appear in them, and `?` cannot ask for help
//! because it is typed into the filter. Here every key is listed beside the
//! shortcut that does the same without the panel, which is how the shortcuts
//! get learned. Only Ctrl-Space itself has to reach the picker: a terminal that
//! keeps a shortcut for itself does not take the letter away as well.

use vstd::prelude::*;

use crate::draw::{self, ListRow, ListRowView};
use crate::drawn::{self, open_panel, put, put_row, Drawn, DrawnView};
use crate::keys::{is_typed_text, KeyCode, KeyEvent, Modifiers};
use crate::mode::Mode;
use crate::screen::{
    self, add_piece, cap, float, split, Button, Cut, MouseEvent, MouseKind, Paint, Piece, Portion,
    Rect,
};
use crate::text::{self, repeated};
use crate::width::{self, width_of};

verus! {

/// Joins a key to what it runs, as in `f → Open in file manager`.
pub const ARROW: &'static str = " → ";

#[derive(Clone, Copy, Debug, PartialEq, Eq, Structural)]
pub enum Command {
    Go(Mode),
    /// Browse as columns or as a tree.
    ToggleTree,
    /// Anything the picker already has a shortcut for is run by pressing it,
    /// so the panel cannot drift from what the shortcut does.
    Press(KeyCode, Modifiers),
}

impl Command {
    /// Whether the row stands for a key that types a letter.
    pub open spec fn writes(self) -> bool {
        self matches Command::Press(code, modifiers) && (KeyEvent { code, modifiers }).writes()
    }
}

#[derive(Clone, Copy, Debug, PartialEq, Eq, Structural)]
pub enum Decision {
    Stay,
    Close,
    Run(Command),
}

#[derive(Debug)]
pub struct Entry {
    pub key: char,
    pub name: &'static str,
    /// The shortcut that does the same with the panel closed.
    pub shortcut: &'static str,
    pub command: Command,
}

#[verifier::ext_equal]
pub struct EntryView {
    pub key: char,
    pub name: Seq<char>,
    pub shortcut: Seq<char>,
    pub command: Command,
}

impl View for Entry {
    type V = EntryView;

    open spec fn view(&self) -> EntryView {
        EntryView {
            key: self.key,
            name: self.name@,
            shortcut: self.shortcut@,
            command: self.command,
        }
    }
}

pub open spec fn entries_view(entries: Seq<Entry>) -> Seq<EntryView> {
    entries.map_values(|e: Entry| e@)
}

#[derive(Debug)]
pub struct KeyMenu {
    pub entries: Vec<Entry>,
    /// How many entries, from the top, are the tabs. A rule follows them.
    pub tabs: usize,
    /// The tab the picker is on, which is marked as it is on the top border.
    pub here: Mode,
    pub selected: usize,
    pub mouse_rows: Rect,
    pub mouse_panel: Rect,
}

#[verifier::ext_equal]
pub struct KeyMenuView {
    pub entries: Seq<EntryView>,
    pub tabs: usize,
    pub here: Mode,
    pub selected: usize,
    pub mouse_rows: Rect,
    pub mouse_panel: Rect,
}

impl View for KeyMenu {
    type V = KeyMenuView;

    open spec fn view(&self) -> KeyMenuView {
        KeyMenuView {
            entries: entries_view(self.entries@),
            tabs: self.tabs,
            here: self.here,
            selected: self.selected,
            mouse_rows: self.mouse_rows,
            mouse_panel: self.mouse_panel,
        }
    }
}

pub open spec fn tab_entry(key: char, mode: Mode, shortcut: Seq<char>) -> EntryView {
    EntryView { key, name: mode.name(), shortcut, command: Command::Go(mode) }
}

pub open spec fn press_entry(
    key: char,
    name: Seq<char>,
    shortcut: Seq<char>,
    code: KeyCode,
    modifiers: Modifiers,
) -> EntryView {
    EntryView { key, name, shortcut, command: Command::Press(code, modifiers) }
}

/// What the row for Right says it does. A list of places is left for where it
/// was opened from, now at the place chosen.
pub open spec fn right_says(here: Mode, origin: Mode) -> Seq<char> {
    match here {
        Mode::Browse => "Go down a level"@,
        Mode::Recent | Mode::Favorites => match origin {
            Mode::Dirs => "Search dirs from it"@,
            Mode::Files => "Search files from it"@,
            _ => "Show it in browse"@,
        },
        _ => "Go into the selection"@,
    }
}

/// What the row for Left says it does.
pub open spec fn left_says(here: Mode) -> Seq<char> {
    if here == Mode::Browse {
        "Go up a level"@
    } else {
        "Search one level up"@
    }
}

/// The rows of the panel.
pub open spec fn panel_entries(here: Mode, origin: Mode) -> Seq<EntryView> {
    let none = Modifiers::none();
    let ctrl = Modifiers::only_ctrl();
    seq![
        tab_entry('d', Mode::Dirs, "^D"@),
        tab_entry('f', Mode::Files, "^F"@),
        tab_entry('r', Mode::Recent, "^R"@),
        EntryView { name: "Favorites"@, ..tab_entry('s', Mode::Favorites, "^S"@) },
        tab_entry('b', Mode::Browse, "Tab"@),
        press_entry('l', right_says(here, origin), "Right"@, KeyCode::Right, none),
        press_entry('h', left_says(here), "Left"@, KeyCode::Left, none),
        press_entry('[', "Back"@, "^Left"@, KeyCode::Left, ctrl),
        press_entry(']', "Forward"@, "^Right"@, KeyCode::Right, ctrl),
        press_entry('a', "Actions for the selection"@, "^P"@, KeyCode::Char('p'), ctrl),
        press_entry('p', "Pin or unpin"@, "^B"@, KeyCode::Char('b'), ctrl),
        press_entry('o', "Open with default application"@, "^O"@, KeyCode::Char('o'), ctrl),
        press_entry('e', "Show in file manager"@, "^E"@, KeyCode::Char('e'), ctrl),
        press_entry('5', "Refresh"@, "F5"@, KeyCode::F(5), none),
        EntryView {
            key: 'v',
            name: "Browse as a tree or columns"@,
            shortcut: ""@,
            command: Command::ToggleTree,
        },
    ]
}

/// Every key of the panel is its own, so a letter never runs the wrong row.
pub proof fn keys_are_distinct(here: Mode, origin: Mode, i: int, j: int)
    requires
        0 <= i < j < panel_entries(here, origin).len(),
    ensures
        panel_entries(here, origin)[i].key != panel_entries(here, origin)[j].key,
{
}

/// The row of the tab `here`.
pub open spec fn tab_row(here: Mode) -> usize {
    match here {
        Mode::Dirs => 0,
        Mode::Files => 1,
        Mode::Recent => 2,
        Mode::Favorites => 3,
        Mode::Browse => 4,
    }
}

/// The first row a letter is the key of.
pub open spec fn row_with(entries: Seq<EntryView>, key: char, from: int) -> Option<int>
    decreases entries.len() - from,
{
    if from >= entries.len() {
        None
    } else if entries[from].key == key {
        Some(from)
    } else {
        row_with(entries, key, from + 1)
    }
}

/// The widest row, without its key.
pub open spec fn widest(entries: Seq<EntryView>) -> int
    decreases entries.len(),
{
    if entries.len() == 0 {
        0
    } else {
        let before = widest(entries.drop_last());
        let last = width::text_width(entries.last().name) + 2 + width::text_width(
            entries.last().shortcut,
        );
        if last > before {
            last
        } else {
            before
        }
    }
}

/// The row one further down, or the last.
pub open spec fn one_down(selected: usize, count: nat) -> usize {
    if selected + 1 < count {
        (selected + 1) as usize
    } else {
        (count - 1) as usize
    }
}

/// The row one further up, or the first.
pub open spec fn one_up(selected: usize) -> usize {
    if selected > 0 {
        (selected - 1) as usize
    } else {
        0
    }
}

impl KeyMenuView {
    pub closed spec fn wf(self) -> bool {
        &&& self.selected < self.entries.len()
        &&& forall|i: int|
            0 <= i < self.entries.len() ==> !(#[trigger] self.entries[i]).command.writes()
    }

    /// What is always so of the panel: one of its rows is selected, and no row
    /// types a letter.
    pub proof fn what_always_holds(self)
        requires
            self.wf(),
        ensures
            self.selected < self.entries.len(),
            forall|i: int|
                0 <= i < self.entries.len() ==> !(#[trigger] self.entries[i]).command.writes(),
    {
    }

    /// The panel as it opens.
    pub open spec fn opened(here: Mode, origin: Mode) -> KeyMenuView {
        KeyMenuView {
            entries: panel_entries(here, origin),
            tabs: 5,
            here,
            selected: tab_row(here),
            mouse_rows: Rect::nowhere(),
            mouse_panel: Rect::nowhere(),
        }
    }

    /// What a key does to the panel, and what it asks for.
    pub open spec fn handled(self, key: KeyEvent) -> (KeyMenuView, Decision) {
        let ctrl = key.modifiers.ctrl;
        match key.code {
            KeyCode::Esc | KeyCode::Null => (self, Decision::Close),
            KeyCode::Enter => (self, Decision::Run(self.entries[self.selected as int].command)),
            KeyCode::Up => (
                KeyMenuView { selected: one_up(self.selected), ..self },
                Decision::Stay,
            ),
            KeyCode::Down => (
                KeyMenuView { selected: one_down(self.selected, self.entries.len()), ..self },
                Decision::Stay,
            ),
            KeyCode::Char(c) => if ctrl {
                if c == 'c' || c == ' ' {
                    (self, Decision::Close)
                } else if c == 'k' {
                    (KeyMenuView { selected: one_up(self.selected), ..self }, Decision::Stay)
                } else if c == 'j' {
                    (
                        KeyMenuView {
                            selected: one_down(self.selected, self.entries.len()),
                            ..self
                        },
                        Decision::Stay,
                    )
                } else {
                    (self, Decision::Stay)
                }
            } else if key.types() {
                match row_with(self.entries, text::ascii_lower(c), 0) {
                    Some(row) => (self, Decision::Run(self.entries[row].command)),
                    None => (self, Decision::Stay),
                }
            } else {
                (self, Decision::Stay)
            },
            _ => (self, Decision::Stay),
        }
    }

    /// The row a click at that line of the rows is on. The rule between the
    /// tabs and the rest is not a row.
    pub open spec fn row_at(self, row: int) -> Option<int> {
        if row == self.tabs {
            None
        } else {
            let index = if row < self.tabs {
                row
            } else {
                row - 1
            };
            if index < self.entries.len() {
                Some(index)
            } else {
                None
            }
        }
    }

    /// What the mouse does to the panel, and the key it stands for.
    pub open spec fn clicked(self, mouse: MouseEvent) -> (KeyMenuView, Option<KeyCode>) {
        if mouse.kind == MouseKind::Down(Button::Left) && self.mouse_rows.covers(
            mouse.column,
            mouse.row,
        ) {
            match self.row_at(mouse.row - self.mouse_rows.y) {
                Some(row) => (
                    KeyMenuView { selected: row as usize, ..self },
                    Some(KeyCode::Enter),
                ),
                None => (self, None),
            }
        } else {
            match mouse.kind {
                MouseKind::Down(_) => if self.mouse_panel.covers(mouse.column, mouse.row) {
                    (self, None)
                } else {
                    (self, Some(KeyCode::Esc))
                },
                MouseKind::ScrollUp => (
                    KeyMenuView { selected: one_up(self.selected), ..self },
                    None,
                ),
                MouseKind::ScrollDown => (
                    KeyMenuView { selected: one_down(self.selected, self.entries.len()), ..self },
                    None,
                ),
                _ => (self, None),
            }
        }
    }

    /// How the inside of the panel is cut: the rows with the rule, and what is
    /// left.
    pub open spec fn cuts(count: nat) -> Seq<Portion> {
        seq![Portion::Length(screen::capped(count as int + 1) as u16), Portion::Min(0)]
    }

    /// Whether the inside of the panel over `area` is cut into those rows and the
    /// rest.
    pub open spec fn rows_lie(self, area: Rect, rows: Rect, rest: Rect) -> bool {
        screen::cut_into(
            self.panel(area).within(),
            Self::cuts(self.entries.len()),
            Cut::Down,
            seq![rows, rest],
        )
    }

    /// Where the panel floats: as wide as its widest row with the marker, the
    /// key and arrow, a space and the borders; as tall as its rows with the
    /// rule and the borders.
    pub open spec fn panel(self, area: Rect) -> Rect {
        screen::floating(
            area,
            screen::capped(
                2 + 1 + width::text_width(ARROW@) + widest(self.entries) + 1 + 2,
            ) as u16,
            screen::capped(self.entries.len() as int + 1 + 2) as u16,
        )
    }

    /// A row of the panel in `width` columns, its shortcut at the right edge.
    pub open spec fn row(self, index: int, width: usize) -> ListRowView {
        let entry = self.entries[index];
        let used = 2 + 1 + width::text_width(ARROW@) + width::text_width(entry.name)
            + width::text_width(entry.shortcut);
        let gap = if used + 1 < width {
            width - used - 1
        } else {
            0
        };
        ListRowView {
            pieces: seq![
                screen::piece(
                    if index == self.selected {
                        "▌ "@
                    } else {
                        "  "@
                    },
                    Paint::Plain,
                ),
                screen::piece(seq![entry.key], Paint::Key),
                screen::piece(ARROW@, Paint::Arrow),
                screen::piece(
                    entry.name,
                    if entry.command == Command::Go(self.here) {
                        Paint::Underlined
                    } else {
                        Paint::Plain
                    },
                ),
                screen::piece(text::run_of(' ', gap as nat), Paint::Plain),
                screen::piece(entry.shortcut, Paint::Faint),
            ],
            paint: if index == self.selected {
                Paint::Selected
            } else {
                Paint::Plain
            },
        }
    }

    /// The first `n` rows, the rule after the tabs among them.
    pub open spec fn rows(self, n: int, width: usize) -> Seq<ListRowView>
        decreases n,
    {
        if n <= 0 {
            Seq::empty()
        } else {
            let before = self.rows(n - 1, width);
            let led = if n - 1 == self.tabs {
                before.push(
                    ListRowView {
                        pieces: seq![
                            screen::piece(text::run_of('─', width as nat), Paint::Plain),
                        ],
                        paint: Paint::Rule,
                    },
                )
            } else {
                before
            };
            led.push(self.row(n - 1, width))
        }
    }

    /// The line the selected row is on.
    pub open spec fn selected_line(self) -> int {
        if self.selected >= self.tabs {
            self.selected + 1
        } else {
            self.selected as int
        }
    }

    /// The panel drawn over `panel` with its rows in `rows`.
    pub open spec fn drawn(self, panel: Rect, rows: Rect) -> Seq<DrawnView> {
        let listed = drawn::panel_opened(panel, " Keys "@, " Enter: run  Esc: close "@).push(
            DrawnView::Rows {
                area: rows,
                rows: self.rows(self.entries.len() as int, rows.width as usize),
            },
        );
        if rows.width > 0 && self.selected_line() < rows.height {
            listed.push(
                DrawnView::Cursor {
                    x: screen::capped(rows.x + 2) as u16,
                    y: screen::capped(rows.y + self.selected_line()) as u16,
                },
            )
        } else {
            listed
        }
    }
}

impl KeyMenu {
    pub open spec fn wf(&self) -> bool {
        self@.wf()
    }

    /// `origin` is the mode Right goes back to from recent and favorites,
    /// which the row for it names.
    pub fn new(here: Mode, origin: Mode) -> (menu: KeyMenu)
        ensures
            menu.wf(),
            menu@ == KeyMenuView::opened(here, origin),
    {
        let none = Modifiers::plain();
        let ctrl = Modifiers::control();
        let right = match here {
            Mode::Browse => "Go down a level",
            Mode::Recent | Mode::Favorites => match origin {
                Mode::Dirs => "Search dirs from it",
                Mode::Files => "Search files from it",
                _ => "Show it in browse",
            },
            _ => "Go into the selection",
        };
        let left = if here == Mode::Browse {
            "Go up a level"
        } else {
            "Search one level up"
        };
        let mut entries: Vec<Entry> = Vec::new();
        entries.push(Self::tab('d', Mode::Dirs, "^D"));
        entries.push(Self::tab('f', Mode::Files, "^F"));
        entries.push(Self::tab('r', Mode::Recent, "^R"));
        entries.push(Entry { name: "Favorites", ..Self::tab('s', Mode::Favorites, "^S") });
        entries.push(Self::tab('b', Mode::Browse, "Tab"));
        entries.push(Self::press('l', right, "Right", KeyCode::Right, none));
        entries.push(Self::press('h', left, "Left", KeyCode::Left, none));
        entries.push(Self::press('[', "Back", "^Left", KeyCode::Left, ctrl));
        entries.push(Self::press(']', "Forward", "^Right", KeyCode::Right, ctrl));
        entries.push(
            Self::press('a', "Actions for the selection", "^P", KeyCode::Char('p'), ctrl),
        );
        entries.push(Self::press('p', "Pin or unpin", "^B", KeyCode::Char('b'), ctrl));
        entries.push(
            Self::press('o', "Open with default application", "^O", KeyCode::Char('o'), ctrl),
        );
        entries.push(Self::press('e', "Show in file manager", "^E", KeyCode::Char('e'), ctrl));
        entries.push(Self::press('5', "Refresh", "F5", KeyCode::F(5), none));
        entries.push(
            Entry {
                key: 'v',
                name: "Browse as a tree or columns",
                shortcut: "",
                command: Command::ToggleTree,
            },
        );
        assert(entries_view(entries@) =~= panel_entries(here, origin));
        // Opens on the tab the picker is on, so Down goes to the next one.
        let selected: usize = match here {
            Mode::Dirs => 0,
            Mode::Files => 1,
            Mode::Recent => 2,
            Mode::Favorites => 3,
            Mode::Browse => 4,
        };
        KeyMenu {
            entries,
            tabs: 5,
            here,
            selected,
            mouse_rows: Rect::none(),
            mouse_panel: Rect::none(),
        }
    }

    fn tab(key: char, mode: Mode, shortcut: &'static str) -> (entry: Entry)
        ensures
            entry@ == tab_entry(key, mode, shortcut@),
    {
        Entry { key, name: mode.label(), shortcut, command: Command::Go(mode) }
    }

    fn press(
        key: char,
        name: &'static str,
        shortcut: &'static str,
        code: KeyCode,
        modifiers: Modifiers,
    ) -> (entry: Entry)
        ensures
            entry@ == press_entry(key, name@, shortcut@, code, modifiers),
    {
        Entry { key, name, shortcut, command: Command::Press(code, modifiers) }
    }

    fn move_up(&mut self)
        requires
            old(self).wf(),
        ensures
            final(self)@ == (KeyMenuView { selected: one_up(old(self)@.selected), ..old(self)@ }),
    {
        if self.selected > 0 {
            self.selected = self.selected - 1;
        }
    }

    fn move_down(&mut self)
        requires
            old(self).wf(),
        ensures
            final(self)@ == (KeyMenuView {
                selected: one_down(old(self)@.selected, old(self)@.entries.len()),
                ..old(self)@
            }),
    {
        if self.selected < self.entries.len() - 1 {
            self.selected = self.selected + 1;
        }
    }

    fn find(&self, key: char) -> (row: Option<usize>)
        ensures
            row matches Some(r) ==> row_with(self@.entries, key, 0) == Some(r as int) && r
                < self.entries@.len(),
            row is None ==> row_with(self@.entries, key, 0) is None,
    {
        let mut i: usize = 0;
        while i < self.entries.len()
            invariant
                i <= self.entries@.len(),
                row_with(self@.entries, key, 0) == row_with(self@.entries, key, i as int),
            decreases self.entries@.len() - i,
        {
            assert(self@.entries[i as int] == self.entries@[i as int]@);
            if self.entries[i].key == key {
                return Some(i);
            }
            i += 1;
        }
        None
    }

    pub fn handle(&mut self, key: KeyEvent) -> (decision: Decision)
        requires
            old(self).wf(),
        ensures
            final(self).wf(),
            (final(self)@, decision) == old(self)@.handled(key),
            decision matches Decision::Run(command) ==> !command.writes(),
    {
        let ctrl = key.modifiers.ctrl;
        match key.code {
            // Ctrl-Space closes what it opened; some terminals send it as NUL.
            KeyCode::Esc | KeyCode::Null => Decision::Close,
            KeyCode::Enter => {
                assert(self@.entries[self.selected as int] == self.entries@[self.selected as int]@);
                Decision::Run(self.entries[self.selected].command)
            },
            KeyCode::Up => {
                self.move_up();
                Decision::Stay
            },
            KeyCode::Down => {
                self.move_down();
                Decision::Stay
            },
            KeyCode::Char(c) => {
                if ctrl {
                    if c == 'c' || c == ' ' {
                        return Decision::Close;
                    }
                    if c == 'k' {
                        self.move_up();
                    } else if c == 'j' {
                        self.move_down();
                    }
                    return Decision::Stay;
                }
                if !is_typed_text(&key) {
                    return Decision::Stay;
                }
                match self.find(c.to_ascii_lowercase()) {
                    Some(row) => {
                        assert(self@.entries[row as int] == self.entries@[row as int]@);
                        Decision::Run(self.entries[row].command)
                    },
                    None => Decision::Stay,
                }
            },
            _ => Decision::Stay,
        }
    }

    /// The key a mouse event stands for: Enter on a row, which it selects
    /// first, and Esc anywhere outside the panel.
    pub fn handle_mouse(&mut self, mouse: MouseEvent) -> (code: Option<KeyCode>)
        requires
            old(self).wf(),
        ensures
            final(self).wf(),
            (final(self)@, code) == old(self)@.clicked(mouse),
    {
        let on_rows = self.mouse_rows.contains(mouse.column, mouse.row);
        match mouse.kind {
            MouseKind::Down(button) => {
                if button == Button::Left && on_rows {
                    let row: usize = (mouse.row - self.mouse_rows.y) as usize;
                    // The rule between the tabs and the rest is not a row.
                    if row == self.tabs {
                        return None;
                    }
                    let index: usize = if row < self.tabs {
                        row
                    } else {
                        row - 1
                    };
                    if index >= self.entries.len() {
                        return None;
                    }
                    self.selected = index;
                    return Some(KeyCode::Enter);
                }
                if self.mouse_panel.contains(mouse.column, mouse.row) {
                    None
                } else {
                    Some(KeyCode::Esc)
                }
            },
            MouseKind::ScrollUp => {
                self.move_up();
                None
            },
            MouseKind::ScrollDown => {
                self.move_down();
                None
            },
            _ => None,
        }
    }

    fn widest(&self) -> (most: u128)
        ensures
            most == widest(self@.entries),
            most <= 2 * 0xffff_ffff_ffff_ffff + 2,
    {
        let ghost all = self@.entries;
        let mut most: u128 = 0;
        let mut i: usize = 0;
        assert(all.take(0) =~= Seq::<EntryView>::empty());
        while i < self.entries.len()
            invariant
                i <= self.entries@.len(),
                all == self@.entries,
                most == widest(all.take(i as int)),
                most <= 2 * 0xffff_ffff_ffff_ffff + 2,
            decreases self.entries@.len() - i,
        {
            assert(all.take(i + 1).drop_last() =~= all.take(i as int));
            assert(all[i as int] == self.entries@[i as int]@);
            let row: u128 = width_of(self.entries[i].name) as u128 + 2 + width_of(
                self.entries[i].shortcut,
            ) as u128;
            if row > most {
                most = row;
            }
            i += 1;
        }
        assert(all.take(i as int) =~= all);
        most
    }

    pub fn panel(&self, area: Rect) -> (panel: Rect)
        ensures
            panel == self@.panel(area),
    {
        let width: u16 = cap(2 + 1 + width_of(ARROW) as u128 + self.widest() + 1 + 2);
        let height: u16 = cap(self.entries.len() as u128 + 1 + 2);
        float(area, width, height)
    }

    fn row(&self, index: usize, width: usize) -> (row: ListRow)
        requires
            index < self.entries@.len(),
        ensures
            row@ == self@.row(index as int, width),
    {
        let entry: &Entry = &self.entries[index];
        assert(entry@ == self@.entries[index as int]);
        let used: u128 = 2 + 1 + width_of(ARROW) as u128 + width_of(entry.name) as u128 + width_of(
            entry.shortcut,
        ) as u128;
        let gap: usize = if used + 1 < width as u128 {
            (width as u128 - used - 1) as usize
        } else {
            0
        };
        let mut pieces: Vec<Piece> = Vec::new();
        add_piece(
            &mut pieces,
            if index == self.selected {
                "▌ "
            } else {
                "  "
            },
            Paint::Plain,
        );
        let mut key = String::new();
        key.push(entry.key);
        assert(key@ =~= seq![entry.key]);
        add_piece(&mut pieces, &key, Paint::Key);
        add_piece(&mut pieces, ARROW, Paint::Arrow);
        add_piece(
            &mut pieces,
            entry.name,
            if entry.command == Command::Go(self.here) {
                Paint::Underlined
            } else {
                Paint::Plain
            },
        );
        // The shortcuts line up down the right edge.
        let blank = repeated(' ', gap);
        add_piece(&mut pieces, &blank, Paint::Plain);
        add_piece(&mut pieces, entry.shortcut, Paint::Faint);
        let row = ListRow {
            pieces,
            paint: if index == self.selected {
                Paint::Selected
            } else {
                Paint::Plain
            },
        };
        assert(row@.pieces =~= self@.row(index as int, width).pieces);
        row
    }

    fn rows(&self, width: usize) -> (rows: Vec<ListRow>)
        ensures
            draw::rows_view(rows@) == self@.rows(self@.entries.len() as int, width),
    {
        let mut rows: Vec<ListRow> = Vec::new();
        let mut i: usize = 0;
        assert(draw::rows_view(rows@) =~= self@.rows(0, width));
        while i < self.entries.len()
            invariant
                i <= self.entries@.len(),
                draw::rows_view(rows@) == self@.rows(i as int, width),
            decreases self.entries@.len() - i,
        {
            if i == self.tabs {
                let rule = repeated('─', width);
                put_row(
                    &mut rows,
                    ListRow { pieces: drawn::one_piece(&rule, Paint::Plain), paint: Paint::Rule },
                );
            }
            let row = self.row(i, width);
            put_row(&mut rows, row);
            i += 1;
        }
        rows
    }

    /// The panel drawn over `panel` with its rows in `rows`, which then take
    /// the clicks.
    pub fn draw(&mut self, panel: Rect, rows: Rect) -> (drawn: Vec<Drawn>)
        requires
            old(self).wf(),
        ensures
            final(self).wf(),
            final(self)@ == (KeyMenuView { mouse_panel: panel, mouse_rows: rows, ..old(self)@ }),
            drawn::all_view(drawn@) == final(self)@.drawn(panel, rows),
    {
        self.mouse_panel = panel;
        self.mouse_rows = rows;
        let mut drawn = open_panel(panel, " Keys ", " Enter: run  Esc: close ");
        let listed = self.rows(rows.width as usize);
        put(&mut drawn, Drawn::Rows { area: rows, rows: listed });
        // The picker underneath put the cursor in its own prompt, where typing
        // no longer goes while the panel is open.
        let line: u128 = if self.selected >= self.tabs {
            self.selected as u128 + 1
        } else {
            self.selected as u128
        };
        if rows.width > 0 && line < rows.height as u128 {
            put(
                &mut drawn,
                Drawn::Cursor { x: cap(rows.x as u128 + 2), y: cap(rows.y as u128 + line) },
            );
        }
        drawn
    }

    pub fn portions(&self) -> (portions: Vec<Portion>)
        ensures
            portions@ == KeyMenuView::cuts(self@.entries.len()),
    {
        let mut portions: Vec<Portion> = Vec::new();
        portions.push(Portion::Length(cap(self.entries.len() as u128 + 1)));
        portions.push(Portion::Min(0));
        assert(portions@ =~= KeyMenuView::cuts(self@.entries.len()));
        portions
    }

    /// The panel over the screen in `area`.
    pub fn render(&mut self, area: Rect) -> (drawn: Vec<Drawn>)
        requires
            old(self).wf(),
        ensures
            final(self).wf(),
            final(self)@ == (KeyMenuView {
                mouse_panel: old(self)@.panel(area),
                mouse_rows: final(self)@.mouse_rows,
                ..old(self)@
            }),
            exists|rest: Rect| #[trigger]
                old(self)@.rows_lie(area, final(self)@.mouse_rows, rest),
            drawn::all_view(drawn@) == final(self)@.drawn(
                old(self)@.panel(area),
                final(self)@.mouse_rows,
            ),
    {
        let panel = self.panel(area);
        let portions = self.portions();
        let parts = split(panel.inside(), &portions, Cut::Down);
        assert(parts@ =~= seq![parts@[0], parts@[1]]);
        assert(self@.rows_lie(area, parts@[0], parts@[1]));
        self.draw(panel, parts[0])
    }
}

} // verus!
