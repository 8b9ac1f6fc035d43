//! The menu of actions to run on a path.

use vstd::prelude::*;

use crate::draw::{self, tail, ListRow, ListRowView};
use crate::drawn::{self, one_piece, open_panel, put, put_row, Drawn, DrawnView};
use crate::fs_path::{FsPath, PathView, Platform};
use crate::fuzzy::{self, rank_of};
use crate::key_menu::ARROW;
use crate::keys::{is_typed_text, KeyCode, KeyEvent};
use crate::mode::Then;
use crate::order::{self, stable_order, SortKey};
use crate::screen::{
    self, add_piece, cap, float, split, Button, Cut, MouseEvent, MouseKind, Paint, Piece, Portion,
    Rect,
};
use crate::text::{self, joined, repeated};
use crate::width::{self, width_of};

verus! {

/// The key column while the menu waits for a key: one character and the arrow.
pub const KEY_WIDTH: usize = 4;

/// The same column while filtering, where the keys need Alt: `alt+f → `.
pub const FILTER_KEY_WIDTH: usize = 8;

pub const TERMINAL_SUFFIX: &'static str = "  [terminal]";

/// How an action runs.
#[derive(Clone, Copy, Debug, PartialEq, Eq, Structural)]
pub enum RunMode {
    /// In the terminal, which the picker leaves to it meanwhile.
    Terminal,
    /// On its own, with the picker going on.
    Detached,
}

/// An action: what the menu shows of it, and how it runs.
#[derive(Debug)]
pub struct Action {
    /// Which action this is, to whoever runs it.
    pub id: usize,
    pub name: String,
    /// The letter that runs it.
    pub key: Option<char>,
    pub run_mode: RunMode,
    /// What follows it, where it says so itself.
    pub follow: Option<Then>,
    /// Whether it copies the path rather than starting something.
    pub copies: bool,
}

#[verifier::ext_equal]
pub struct ActionView {
    pub id: usize,
    pub name: Seq<char>,
    pub key: Option<char>,
    pub run_mode: RunMode,
    pub follow: Option<Then>,
    pub copies: bool,
}

impl View for Action {
    type V = ActionView;

    open spec fn view(&self) -> ActionView {
        ActionView {
            id: self.id,
            name: self.name@,
            key: self.key,
            run_mode: self.run_mode,
            follow: self.follow,
            copies: self.copies,
        }
    }
}

impl Clone for Action {
    fn clone(&self) -> (res: Action)
        ensures
            res@ == self@,
    {
        Action {
            id: self.id,
            name: self.name.clone(),
            key: self.key,
            run_mode: self.run_mode,
            follow: self.follow,
            copies: self.copies,
        }
    }
}

pub open spec fn actions_view(actions: Seq<Action>) -> Seq<ActionView> {
    actions.map_values(|a: Action| a@)
}

#[derive(Debug)]
pub enum Decision {
    Stay,
    Close,
    Run(Action),
}

#[verifier::ext_equal]
pub enum DecisionView {
    Stay,
    Close,
    Run(ActionView),
}

impl View for Decision {
    type V = DecisionView;

    open spec fn view(&self) -> DecisionView {
        match *self {
            Decision::Stay => DecisionView::Stay,
            Decision::Close => DecisionView::Close,
            Decision::Run(action) => DecisionView::Run(action@),
        }
    }
}

#[derive(Debug)]
pub struct Menu {
    pub target: FsPath,
    pub items: Vec<Action>,
    pub query: String,
    pub visible: Vec<usize>,
    pub selected: usize,
    pub error: Option<String>,
    /// Shown when no actions have been set up. The command that does so is the
    /// only way to learn the format, and nothing else on this screen says it.
    pub hint: Option<String>,
    /// Commands that act on the program rather than on the selected item.
    pub tools: Vec<Action>,
    /// Set by a click in that zone, consumed by the Enter that follows it.
    pub pending_tool: Option<usize>,
    pub mouse_rows: Rect,
    pub mouse_tools: Rect,
    pub mouse_first: usize,
    /// The menu opens on its keys and only takes text once asked, so a single
    /// letter runs an action instead of needing a modifier held with it.
    pub filtering: bool,
    /// What follows an action run from here. Shown in the title, switched
    /// with Ctrl-X, and handed back to the picker for the rest of the run.
    pub after: Then,
}

#[verifier::ext_equal]
pub struct MenuView {
    pub target: PathView,
    pub items: Seq<ActionView>,
    pub query: Seq<char>,
    pub visible: Seq<usize>,
    pub selected: usize,
    pub error: Option<Seq<char>>,
    pub hint: Option<Seq<char>>,
    pub tools: Seq<ActionView>,
    pub pending_tool: Option<usize>,
    pub mouse_rows: Rect,
    pub mouse_tools: Rect,
    pub mouse_first: usize,
    pub filtering: bool,
    pub after: Then,
}

impl View for Menu {
    type V = MenuView;

    open spec fn view(&self) -> MenuView {
        MenuView {
            target: self.target@,
            items: actions_view(self.items@),
            query: self.query@,
            visible: self.visible@,
            selected: self.selected,
            error: text::opt_view(self.error),
            hint: text::opt_view(self.hint),
            tools: actions_view(self.tools@),
            pending_tool: self.pending_tool,
            mouse_rows: self.mouse_rows,
            mouse_tools: self.mouse_tools,
            mouse_first: self.mouse_first,
            filtering: self.filtering,
            after: self.after,
        }
    }
}

/// Whether an action's name lets it through the filter.
pub open spec fn passes(items: Seq<ActionView>, query: Seq<char>, i: int) -> bool {
    fuzzy::rank(query, items[i].name) is Some
}

pub open spec fn score(items: Seq<ActionView>, query: Seq<char>, i: int) -> u32 {
    fuzzy::rank(query, items[i].name)->Some_0
}

/// Whether the action at `i` is listed before the one at `j`: the better match
/// first, and of equal ones the first in the list.
pub open spec fn outranks(items: Seq<ActionView>, query: Seq<char>, i: usize, j: usize) -> bool {
    score(items, query, i as int) > score(items, query, j as int) || (score(items, query, i as int)
        == score(items, query, j as int) && i < j)
}

/// Whether `visible` is what the filter shows: every action it lets through,
/// ranked.
pub open spec fn shows(items: Seq<ActionView>, query: Seq<char>, visible: Seq<usize>) -> bool {
    &&& forall|r: int|
        0 <= r < visible.len() ==> (#[trigger] visible[r]) < items.len() && passes(
            items,
            query,
            visible[r] as int,
        )
    &&& forall|i: usize|
        i < items.len() && #[trigger] passes(items, query, i as int) ==> visible.contains(i)
    &&& forall|p: int, q: int|
        0 <= p < q < visible.len() ==> outranks(
            items,
            query,
            #[trigger] visible[p],
            #[trigger] visible[q],
        )
}

/// What the filter shows.
pub open spec fn shown(items: Seq<ActionView>, query: Seq<char>) -> Seq<usize> {
    choose|visible: Seq<usize>| shows(items, query, visible)
}

/// A filter shows its actions in one way only.
pub proof fn shown_is_unique(
    items: Seq<ActionView>,
    query: Seq<char>,
    a: Seq<usize>,
    b: Seq<usize>,
)
    requires
        shows(items, query, a),
        shows(items, query, b),
    ensures
        a == b,
{
    let rel = |i: usize, j: usize| outranks(items, query, i, j);
    assert forall|i: usize, j: usize| !(#[trigger] rel(i, j) && rel(j, i)) by {}
    assert forall|p: int, q: int| 0 <= p < q < a.len() implies rel(
        #[trigger] a[p],
        #[trigger] a[q],
    ) by {
        assert(outranks(items, query, a[p], a[q]));
    }
    assert forall|p: int, q: int| 0 <= p < q < b.len() implies rel(
        #[trigger] b[p],
        #[trigger] b[q],
    ) by {
        assert(outranks(items, query, b[p], b[q]));
    }
    assert forall|i: usize| #[trigger] a.contains(i) <==> b.contains(i) by {
        if a.contains(i) {
            let p = choose|p: int| 0 <= p < a.len() && a[p] == i;
            assert(passes(items, query, a[p] as int));
        }
        if b.contains(i) {
            let p = choose|p: int| 0 <= p < b.len() && b[p] == i;
            assert(passes(items, query, b[p] as int));
        }
    }
    order::members_in_order_are_unique(rel, a, b);
}

struct RankKey {
    score: u32,
}

impl SortKey for RankKey {
    closed spec fn le(self, other: Self) -> bool {
        self.score >= other.score
    }

    proof fn le_total(a: Self, b: Self) {
    }

    proof fn le_transitive(a: Self, b: Self, c: Self) {
    }

    fn not_after(&self, other: &Self) -> (res: bool) {
        self.score >= other.score
    }
}

/// The last action whose letter is `ch`, among the first `n`.
pub open spec fn last_with(items: Seq<ActionView>, ch: char, n: int) -> Option<usize>
    decreases n,
{
    if n <= 0 {
        None
    } else if items[n - 1].key == Some(ch) {
        Some((n - 1) as usize)
    } else {
        last_with(items, ch, n - 1)
    }
}

/// The first tool whose letter is `ch`, from `from` on.
pub open spec fn first_with(tools: Seq<ActionView>, ch: char, from: int) -> Option<usize>
    decreases tools.len() - from,
{
    if from >= tools.len() {
        None
    } else if tools[from].key == Some(ch) {
        Some(from as usize)
    } else {
        first_with(tools, ch, from + 1)
    }
}

/// The columns an action's row takes, without its key.
pub open spec fn action_width(action: ActionView) -> int {
    width::text_width(action.name) + if action.run_mode == RunMode::Terminal {
        width::text_width(TERMINAL_SUFFIX@)
    } else {
        0
    }
}

pub open spec fn widest(actions: Seq<ActionView>) -> int
    decreases actions.len(),
{
    if actions.len() == 0 {
        0
    } else {
        let before = widest(actions.drop_last());
        let last = action_width(actions.last());
        if last > before {
            last
        } else {
            before
        }
    }
}

/// The narrowest the menu gets.
pub const MIN_WIDTH: u16 = 48;

pub open spec fn larger(a: int, b: int) -> int {
    if a > b {
        a
    } else {
        b
    }
}

pub open spec fn smaller(a: int, b: int) -> int {
    if a < b {
        a
    } else {
        b
    }
}

/// What is left of `a` without `b`.
pub open spec fn less(a: int, b: int) -> int {
    if a > b {
        a - b
    } else {
        0
    }
}

/// The parts of the menu's inside.
#[derive(Clone, Copy, Debug, PartialEq, Eq, Structural)]
pub struct Parts {
    pub target: Rect,
    pub prompt: Rect,
    pub warning: Rect,
    pub rows: Rect,
    pub tools: Rect,
}

pub const WAITING: &'static str = "Press a key to run.";

impl MenuView {
    pub closed spec fn wf(self) -> bool {
        &&& self.query.len() <= fuzzy::PATTERN_LIMIT
        &&& forall|i: int|
            0 <= i < self.items.len() ==> #[trigger] self.items[i].name.len() <= fuzzy::TEXT_LIMIT
        &&& forall|r: int|
            0 <= r < self.visible.len() ==> #[trigger] self.visible[r] < self.items.len()
        &&& self.selected < self.visible.len() || self.selected == 0
        &&& self.pending_tool matches Some(i) ==> i < self.tools.len()
        &&& self.tools.len() == 0 ==> self.mouse_tools == Rect::nowhere()
    }

    /// What is always so of a menu: every row shown is an action, the selection
    /// is on one where there is any, and a tool that waits for Enter is there.
    pub proof fn what_always_holds(self)
        requires
            self.wf(),
        ensures
            self.query.len() <= fuzzy::PATTERN_LIMIT,
            forall|r: int|
                0 <= r < self.visible.len() ==> #[trigger] self.visible[r] < self.items.len(),
            self.selected < self.visible.len() || self.selected == 0,
            self.pending_tool matches Some(i) ==> i < self.tools.len(),
            self.tools.len() == 0 ==> self.mouse_tools == Rect::nowhere(),
    {
    }

    /// The menu as it opens, on every action in the list's order.
    pub open spec fn opened(
        target: PathView,
        items: Seq<ActionView>,
        tools: Seq<ActionView>,
        error: Option<Seq<char>>,
        hint: Option<Seq<char>>,
        after: Then,
    ) -> MenuView {
        MenuView {
            target,
            items,
            query: Seq::empty(),
            visible: Seq::new(items.len(), |i: int| i as usize),
            selected: 0,
            error,
            hint,
            tools,
            pending_tool: None,
            mouse_rows: Rect::nowhere(),
            mouse_tools: Rect::nowhere(),
            mouse_first: 0,
            filtering: false,
            after,
        }
    }

    /// Whether every action is shown, in the list's order.
    pub open spec fn shows_all(self) -> bool {
        self.visible == Seq::new(self.items.len(), |i: int| i as usize)
    }

    /// Which action a letter runs. A setting that claims a letter takes it from
    /// the built-in action that had it, so one key never runs two things.
    pub open spec fn owner(self, ch: char) -> Option<usize> {
        last_with(self.items, text::ascii_lower(ch), self.items.len() as int)
    }

    /// The letter to print beside a row, which is only the row that wins it.
    pub open spec fn shown_key(self, index: int) -> Option<char> {
        match self.items[index].key {
            Some(ch) => if self.owner(ch) == Some(index as usize) {
                Some(ch)
            } else {
                None
            },
            None => None,
        }
    }

    /// A tool keeps its letter only while nothing in the list has taken it, so
    /// a setting still wins the letter it asked for.
    pub open spec fn tool_owner(self, ch: char) -> Option<usize> {
        if self.owner(ch) is Some {
            None
        } else {
            first_with(self.tools, text::ascii_lower(ch), 0)
        }
    }

    /// The action a letter runs, from the list first so that a setting keeps
    /// the letter it asked for even when a tool already prints it.
    pub open spec fn pressed(self, ch: char) -> Option<ActionView> {
        match self.owner(ch) {
            Some(i) => Some(self.items[i as int]),
            None => match self.tool_owner(ch) {
                Some(i) => Some(self.tools[i as int]),
                None => None,
            },
        }
    }

    /// This with the filter changed to `query`.
    pub open spec fn filtered(self, query: Seq<char>) -> MenuView {
        MenuView { query, visible: shown(self.items, query), selected: 0, ..self }
    }

    /// This taking text, or not. Leaving the filter drops what was typed.
    pub open spec fn with_filtering(self, on: bool) -> MenuView {
        let set = MenuView { filtering: on, ..self };
        if !on && self.query.len() > 0 {
            set.filtered(Seq::empty())
        } else {
            set
        }
    }

    pub open spec fn moved_up(self) -> MenuView {
        MenuView { selected: less(self.selected as int, 1) as usize, ..self }
    }

    pub open spec fn moved_down(self) -> MenuView {
        MenuView {
            selected: smaller(
                self.selected + 1,
                less(self.visible.len() as int, 1),
            ) as usize,
            ..self
        }
    }

    /// This with a letter less typed.
    pub open spec fn erased(self) -> MenuView {
        self.filtered(
            if self.query.len() > 0 {
                self.query.drop_last()
            } else {
                self.query
            },
        )
    }

    /// This with what follows an action switched. cd counts as quitting, so
    /// from it the switch goes to stay.
    pub open spec fn switched(self) -> MenuView {
        MenuView {
            after: if self.after == Then::Stay {
                Then::Quit
            } else {
                Then::Stay
            },
            ..self
        }
    }

    /// What a key does while no click waits for it.
    pub open spec fn answered(self, key: KeyEvent) -> (MenuView, DecisionView) {
        let ctrl = key.modifiers.ctrl;
        let stay = DecisionView::Stay;
        if key.modifiers.alt && !ctrl {
            match key.code {
                KeyCode::Char(ch) => match self.pressed(ch) {
                    Some(action) => (self, DecisionView::Run(action)),
                    None => (self, stay),
                },
                _ => (self, stay),
            }
        } else {
            match key.code {
                KeyCode::Esc => (self, DecisionView::Close),
                KeyCode::Enter => if self.selected < self.visible.len() {
                    (
                        self,
                        DecisionView::Run(self.items[self.visible[self.selected as int] as int]),
                    )
                } else {
                    (self, stay)
                },
                KeyCode::Up => (self.moved_up(), stay),
                KeyCode::Down => (self.moved_down(), stay),
                KeyCode::Backspace => (self.erased(), stay),
                KeyCode::Tab | KeyCode::BackTab => (self.with_filtering(!self.filtering), stay),
                KeyCode::Char(ch) => if ctrl {
                    if ch == 'c' || ch == 'p' {
                        (self, DecisionView::Close)
                    } else if ch == 'k' {
                        (self.moved_up(), stay)
                    } else if ch == 'j' {
                        (self.moved_down(), stay)
                    } else if ch == 'h' {
                        (self.erased(), stay)
                    } else if ch == 'u' {
                        (self.filtered(Seq::empty()), stay)
                    } else if ch == 'x' {
                        (self.switched(), stay)
                    } else {
                        (self, stay)
                    }
                } else if !key.types() {
                    (self, stay)
                } else if self.filtering {
                    (self.filtered(self.query.push(ch)), stay)
                } else {
                    match self.pressed(ch) {
                        Some(action) => (self, DecisionView::Run(action)),
                        None => if ch == '/' {
                            (self.with_filtering(true), stay)
                        } else {
                            (self, stay)
                        },
                    }
                },
                _ => (self, stay),
            }
        }
    }

    /// What a key does to the menu, and what it asks for. Enter right after a
    /// click on a tool runs the tool.
    pub open spec fn handled(self, key: KeyEvent) -> (MenuView, DecisionView) {
        let taken = MenuView { pending_tool: None, ..self };
        match self.pending_tool {
            Some(i) => if key.code == KeyCode::Enter {
                (taken, DecisionView::Run(self.tools[i as int]))
            } else {
                taken.answered(key)
            },
            None => taken.answered(key),
        }
    }

    /// What the mouse does to the menu, and whether Enter is to follow.
    pub open spec fn clicked(self, mouse: MouseEvent) -> (MenuView, bool) {
        let left = mouse.kind == MouseKind::Down(Button::Left);
        if left && self.mouse_tools.covers(mouse.column, mouse.row) {
            (MenuView { pending_tool: Some(0usize), ..self }, true)
        } else if !self.mouse_rows.covers(mouse.column, mouse.row) {
            (self, false)
        } else {
            match mouse.kind {
                MouseKind::Down(_) => {
                    let row = self.mouse_first + (mouse.row - self.mouse_rows.y);
                    if left && row < self.visible.len() {
                        (MenuView { selected: row as usize, ..self }, true)
                    } else {
                        (self, false)
                    }
                },
                MouseKind::ScrollUp => (
                    MenuView { selected: less(self.selected as int, 3) as usize, ..self },
                    false,
                ),
                MouseKind::ScrollDown => (
                    MenuView {
                        selected: smaller(
                            self.selected + 3,
                            less(self.visible.len() as int, 1),
                        ) as usize,
                        ..self
                    },
                    false,
                ),
                _ => (self, false),
            }
        }
    }

    /// Lines above the list for an error, or the pointer to the command that
    /// sets actions up.
    pub open spec fn head(self) -> u16 {
        if self.error is Some {
            3
        } else if self.hint is Some {
            2
        } else {
            0
        }
    }

    /// Where the menu floats.
    pub open spec fn panel(self, area: Rect) -> Rect {
        let most = larger(widest(self.items), widest(self.tools));
        let tools: int = if self.tools.len() == 0 {
            0
        } else {
            2
        };
        screen::floating(
            area,
            larger(
                screen::capped(2 + FILTER_KEY_WIDTH + most + 1 + 2),
                MIN_WIDTH as int,
            ) as u16,
            screen::capped(
                2 + 2 + self.head() + larger(self.items.len() as int, 1) + tools,
            ) as u16,
        )
    }

    /// The lines inside the menu that are neither the target, the prompt nor
    /// the head.
    pub open spec fn available(self, inner: Rect) -> int {
        less(inner.height as int, 2 + self.head())
    }

    /// The lines the tools take, with a rule above them: none where there is no
    /// room.
    pub open spec fn tools_height(self, inner: Rect) -> int {
        if self.tools.len() == 0 || self.available(inner) < 3 {
            0
        } else {
            2
        }
    }

    /// How the inside of the menu is cut.
    pub open spec fn cuts(self, inner: Rect) -> Seq<Portion> {
        let list = smaller(
            larger(self.visible.len() as int, 1),
            less(self.available(inner), self.tools_height(inner)),
        );
        seq![
            Portion::Length(1),
            Portion::Length(1),
            Portion::Length(self.head()),
            Portion::Length(list as u16),
            Portion::Length(self.tools_height(inner) as u16),
            Portion::Min(0),
        ]
    }

    pub open spec fn title(self) -> Seq<char> {
        match self.after {
            Then::Stay => " Actions "@,
            Then::Quit => " Actions, then quit "@,
            Then::Cd => " Actions, then cd "@,
        }
    }

    /// The footer names what Ctrl-X would make follow instead, as the other
    /// hints name where a key leads.
    pub open spec fn footer(self) -> Seq<char> {
        match (self.filtering, self.after == Then::Stay) {
            (true, true) => " Enter: run  Tab: keys  ^X: quit after  Esc "@,
            (true, false) => " Enter: run  Tab: keys  ^X: stay after  Esc "@,
            (false, true) => " Enter: run  Tab: filter  ^X: quit after  Esc "@,
            (false, false) => " Enter: run  Tab: filter  ^X: stay after  Esc "@,
        }
    }

    /// The line the first tool takes clicks on.
    pub open spec fn tool_line(self, parts: Parts) -> Rect {
        Rect { y: screen::capped(parts.tools.y + 1) as u16, height: 1, ..parts.tools }
    }

    /// The key column of the first tool.
    pub open spec fn tool_key(self) -> Seq<char> {
        match self.tools[0].key {
            Some(ch) => if self.tool_owner(ch) is Some {
                seq![ch] + ARROW@
            } else {
                text::run_of(' ', KEY_WIDTH as nat)
            },
            None => text::run_of(' ', KEY_WIDTH as nat),
        }
    }

    pub open spec fn tools_drawn(self, parts: Parts, zone: bool) -> Seq<DrawnView> {
        if zone {
            seq![
                DrawnView::Line {
                    area: Rect { height: 1, ..parts.tools },
                    pieces: seq![
                        screen::piece(
                            text::run_of('─', parts.tools.width as nat),
                            Paint::Rule,
                        ),
                    ],
                },
                DrawnView::Line {
                    area: self.tool_line(parts),
                    pieces: seq![
                        screen::piece("  "@, Paint::Faint),
                        screen::piece(self.tool_key(), Paint::Faint),
                        screen::piece(self.tools[0].name, Paint::Faint),
                    ],
                },
            ]
        } else {
            Seq::empty()
        }
    }

    pub open spec fn target_drawn(self, parts: Parts, on: Platform) -> DrawnView {
        DrawnView::Line {
            area: parts.target,
            pieces: seq![
                screen::piece(
                    draw::ending(self.target.text(on), parts.target.width as usize),
                    Paint::Target,
                ),
            ],
        }
    }

    /// Where the cursor is in the prompt: after what stands in it, and on its
    /// last column at most.
    pub open spec fn cursor_drawn(parts: Parts, after: int) -> Seq<DrawnView> {
        let prompt = parts.prompt;
        if prompt.width > 0 && prompt.height > 0 {
            seq![
                DrawnView::Cursor {
                    x: screen::capped(prompt.x + smaller(after, prompt.width - 1)) as u16,
                    y: prompt.y,
                },
            ]
        } else {
            Seq::empty()
        }
    }

    pub open spec fn prompt_drawn(self, parts: Parts) -> Seq<DrawnView> {
        if self.filtering {
            seq![
                DrawnView::Line {
                    area: parts.prompt,
                    pieces: seq![screen::piece("> "@ + self.query, Paint::Plain)],
                },
            ] + Self::cursor_drawn(parts, 2 + width::text_width(self.query))
        } else {
            seq![
                DrawnView::Line {
                    area: parts.prompt,
                    pieces: seq![screen::piece(WAITING@, Paint::Faint)],
                },
            ] + Self::cursor_drawn(parts, width::text_width(WAITING@) + 1)
        }
    }

    pub open spec fn warning_drawn(self, parts: Parts) -> Seq<DrawnView> {
        match self.error {
            Some(said) => seq![
                DrawnView::Text { area: parts.warning, text: said, paint: Paint::Failed },
            ],
            None => match self.hint {
                Some(said) => seq![
                    DrawnView::Text { area: parts.warning, text: said, paint: Paint::Faint },
                ],
                None => Seq::empty(),
            },
        }
    }

    /// The first row in view: the selected one is never below the last line.
    pub open spec fn first_row(self, height: u16) -> usize {
        less(self.selected as int, less(height as int, 1)) as usize
    }

    /// The row after the last in view.
    pub open spec fn end_row(self, height: u16) -> int {
        smaller(self.first_row(height) + height, self.visible.len() as int)
    }

    /// Whether a row in view, before row `end`, has a key beside it.
    pub open spec fn keyed(self, from: int, end: int) -> bool
        decreases end - from,
    {
        if from >= end {
            false
        } else {
            self.keyed(from, end - 1) || self.shown_key(self.visible[end - 1] as int) is Some
        }
    }

    /// The key and the arrow in front of an action, or the room they would
    /// take where others have them.
    pub open spec fn key_column(self, index: int, keyed: bool) -> (Seq<char>, Seq<char>) {
        if !keyed {
            (Seq::empty(), Seq::empty())
        } else {
            match self.shown_key(index) {
                Some(ch) => (
                    if self.filtering {
                        "alt+"@ + seq![ch]
                    } else {
                        seq![ch]
                    },
                    ARROW@,
                ),
                None => (
                    Seq::empty(),
                    text::run_of(
                        ' ',
                        if self.filtering {
                            FILTER_KEY_WIDTH as nat
                        } else {
                            KEY_WIDTH as nat
                        },
                    ),
                ),
            }
        }
    }

    pub open spec fn row(self, row: int, keyed: bool) -> ListRowView {
        let index = self.visible[row] as int;
        let action = self.items[index];
        let (key, arrow) = self.key_column(index, keyed);
        ListRowView {
            pieces: seq![
                screen::piece(
                    if row == self.selected {
                        "▌ "@
                    } else {
                        "  "@
                    },
                    Paint::Plain,
                ),
                screen::piece(key, Paint::Key),
                screen::piece(arrow, Paint::Arrow),
                screen::piece(action.name, Paint::Plain),
                screen::piece(
                    if action.run_mode == RunMode::Terminal {
                        TERMINAL_SUFFIX@
                    } else {
                        ""@
                    },
                    Paint::Faint,
                ),
            ],
            paint: if row == self.selected {
                Paint::Selected
            } else {
                Paint::Plain
            },
        }
    }

    pub open spec fn rows(self, from: int, end: int, keyed: bool) -> Seq<ListRowView> {
        Seq::new((end - from) as nat, |k: int| self.row(from + k, keyed))
    }

    pub open spec fn list_drawn(self, parts: Parts) -> DrawnView {
        if self.visible.len() == 0 {
            DrawnView::Line {
                area: parts.rows,
                pieces: seq![screen::piece("No matching actions"@, Paint::Plain)],
            }
        } else {
            let from = self.first_row(parts.rows.height) as int;
            let end = self.end_row(parts.rows.height);
            DrawnView::Rows {
                area: parts.rows,
                rows: self.rows(from, end, self.keyed(from, end)),
            }
        }
    }

    /// The menu drawn over `panel`, its inside in those parts.
    pub open spec fn drawn(
        self,
        panel: Rect,
        parts: Parts,
        zone: bool,
        on: Platform,
    ) -> Seq<DrawnView> {
        (drawn::panel_opened(panel, self.title(), self.footer()) + self.tools_drawn(parts, zone))
            .push(self.target_drawn(parts, on)) + self.prompt_drawn(parts) + self.warning_drawn(
            parts,
        ) + seq![self.list_drawn(parts)]
    }

    /// This with the areas that take clicks as they were drawn.
    pub open spec fn laid_out(self, parts: Parts, zone: bool) -> MenuView {
        let tools = if zone {
            self.tool_line(parts)
        } else {
            Rect::nowhere()
        };
        if self.visible.len() == 0 {
            MenuView { mouse_tools: tools, mouse_rows: Rect::nowhere(), ..self }
        } else {
            MenuView {
                mouse_tools: tools,
                mouse_rows: parts.rows,
                mouse_first: self.first_row(parts.rows.height),
                ..self
            }
        }
    }
}

impl MenuView {
    /// Whether the inside of the menu is cut into those parts and the rest.
    pub open spec fn parts_lie(self, inner: Rect, parts: Parts, rest: Rect) -> bool {
        screen::cut_into(
            inner,
            self.cuts(inner),
            Cut::Down,
            seq![parts.target, parts.prompt, parts.warning, parts.rows, parts.tools, rest],
        )
    }

    /// Whether the menu was drawn over `area` with its inside in those parts.
    pub open spec fn drawn_in(
        self,
        area: Rect,
        on: Platform,
        parts: Parts,
        after: MenuView,
        drawn: Seq<DrawnView>,
    ) -> bool {
        let inner = self.panel(area).within();
        let zone = self.tools_height(inner) > 0;
        &&& exists|rest: Rect| #[trigger] self.parts_lie(inner, parts, rest)
        &&& after == self.laid_out(parts, zone)
        &&& drawn == self.drawn(self.panel(area), parts, zone, on)
    }

    /// Whether the menu was drawn over `area`.
    pub open spec fn drawn_somehow(
        self,
        area: Rect,
        on: Platform,
        after: MenuView,
        drawn: Seq<DrawnView>,
    ) -> bool {
        exists|parts: Parts| #[trigger] self.drawn_in(area, on, parts, after, drawn)
    }
}

/// Actions that match alike are all shown, in the list's order.
pub proof fn equal_matches_keep_their_order(items: Seq<ActionView>, query: Seq<char>, n: u32)
    requires
        items.len() <= usize::MAX,
        forall|i: int|
            0 <= i < items.len() ==> fuzzy::rank(query, #[trigger] items[i].name) == Some(n),
    ensures
        shown(items, query) == Seq::new(items.len(), |i: int| i as usize),
{
    let all = Seq::new(items.len(), |i: int| i as usize);
    assert forall|i: usize|
        i < items.len() && #[trigger] passes(items, query, i as int) implies all.contains(i) by {
        assert(all[i as int] == i);
    }
    assert forall|p: int, q: int| 0 <= p < q < all.len() implies outranks(
        items,
        query,
        #[trigger] all[p],
        #[trigger] all[q],
    ) by {
        assert(items[p].name == items[p].name && items[q].name == items[q].name);
    }
    assert forall|r: int| 0 <= r < all.len() implies (#[trigger] all[r]) < items.len() && passes(
        items,
        query,
        all[r] as int,
    ) by {
        assert(fuzzy::rank(query, items[r].name) == Some(n));
    }
    assert(shows(items, query, all));
    shown_is_unique(items, query, all, shown(items, query));
}

/// A letter runs one action only: the one that prints it.
pub proof fn one_row_prints_a_letter(menu: MenuView, i: int, j: int)
    requires
        0 <= i < menu.items.len() <= usize::MAX,
        0 <= j < menu.items.len(),
        menu.shown_key(i) is Some,
        menu.shown_key(i) == menu.shown_key(j),
    ensures
        i == j,
        menu.pressed(menu.shown_key(i)->Some_0) == Some(menu.items[i]),
{
}

/// Keys change what the menu shows of the actions, never the actions, nor what
/// they run on.
pub proof fn keys_keep_the_actions(menu: MenuView, key: KeyEvent)
    ensures
        menu.handled(key).0.target == menu.target,
        menu.handled(key).0.items == menu.items,
        menu.handled(key).0.tools == menu.tools,
{
}

/// Filtering hides no tool, and takes no letter from one.
pub proof fn filtering_hides_no_tool(
    menu: MenuView,
    query: Seq<char>,
    parts: Parts,
    zone: bool,
    ch: char,
)
    ensures
        menu.filtered(query).tools_drawn(parts, zone) == menu.tools_drawn(parts, zone),
        menu.filtered(query).pressed(ch) == menu.pressed(ch),
{
}

/// The key that leaves the filter drops what was typed in it.
pub proof fn leaving_the_filter_drops_it(menu: MenuView, key: KeyEvent)
    requires
        menu.filtering,
        key.code == KeyCode::Tab || key.code == KeyCode::BackTab,
        !key.modifiers.alt,
    ensures
        !menu.handled(key).0.filtering,
        menu.handled(key).0.query.len() == 0,
        menu.handled(key).1 is Stay,
{
}

impl Menu {
    pub open spec fn wf(&self) -> bool {
        self@.wf()
    }

    pub fn new(
        target: FsPath,
        items: Vec<Action>,
        tools: Vec<Action>,
        error: Option<String>,
        hint: Option<String>,
    ) -> (menu: Menu)
        requires
            forall|i: int|
                0 <= i < items@.len() ==> (#[trigger] items@[i]).name@.len() <= fuzzy::TEXT_LIMIT,
        ensures
            menu.wf(),
            menu@ == MenuView::opened(
                target@,
                actions_view(items@),
                actions_view(tools@),
                text::opt_view(error),
                text::opt_view(hint),
                Then::Stay,
            ),
    {
        let mut visible: Vec<usize> = Vec::new();
        let mut i: usize = 0;
        while i < items.len()
            invariant
                i <= items@.len(),
                visible@ == Seq::new(i as nat, |k: int| k as usize),
            decreases items@.len() - i,
        {
            visible.push(i);
            i += 1;
            assert(visible@ =~= Seq::new(i as nat, |k: int| k as usize));
        }
        assert(visible@ =~= Seq::new(actions_view(items@).len(), |i: int| i as usize));
        let menu = Menu {
            target,
            items,
            query: String::new(),
            visible,
            selected: 0,
            error,
            hint,
            tools,
            pending_tool: None,
            mouse_rows: Rect::none(),
            mouse_tools: Rect::none(),
            mouse_first: 0,
            filtering: false,
            after: Then::Stay,
        };
        assert(menu@.query =~= Seq::<char>::empty());
        menu
    }

    /// The menu with what follows an action set.
    pub fn then(self, after: Then) -> (menu: Menu)
        requires
            self.wf(),
        ensures
            menu.wf(),
            menu@ == (MenuView { after, ..self@ }),
    {
        let mut menu = self;
        menu.set_after(after);
        menu
    }

    /// Sets what follows an action.
    pub fn set_after(&mut self, after: Then)
        requires
            old(self).wf(),
        ensures
            final(self).wf(),
            final(self)@ == (MenuView { after, ..old(self)@ }),
    {
        self.after = after;
    }

    pub fn owner(&self, ch: char) -> (index: Option<usize>)
        ensures
            index == self@.owner(ch),
            index matches Some(i) ==> i < self.items@.len(),
    {
        let letter = ch.to_ascii_lowercase();
        let mut i: usize = self.items.len();
        while i > 0
            invariant
                i <= self.items@.len(),
                letter == text::ascii_lower(ch),
                last_with(self@.items, letter, self.items@.len() as int) == last_with(
                    self@.items,
                    letter,
                    i as int,
                ),
            decreases i,
        {
            assert(self@.items[i - 1] == self.items@[i - 1]@);
            let is_it = match self.items[i - 1].key {
                Some(key) => key == letter,
                None => false,
            };
            if is_it {
                return Some(i - 1);
            }
            i -= 1;
        }
        None
    }

    pub fn shown_key(&self, index: usize) -> (key: Option<char>)
        requires
            index < self@.items.len(),
        ensures
            key == self@.shown_key(index as int),
    {
        assert(self@.items[index as int] == self.items@[index as int]@);
        match self.items[index].key {
            Some(ch) => match self.owner(ch) {
                Some(i) => if i == index {
                    Some(ch)
                } else {
                    None
                },
                None => None,
            },
            None => None,
        }
    }

    pub fn tool_owner(&self, ch: char) -> (index: Option<usize>)
        ensures
            index == self@.tool_owner(ch),
            index matches Some(i) ==> i < self.tools@.len(),
    {
        if self.owner(ch).is_some() {
            return None;
        }
        let letter = ch.to_ascii_lowercase();
        let mut i: usize = 0;
        while i < self.tools.len()
            invariant
                i <= self.tools@.len(),
                letter == text::ascii_lower(ch),
                self@.owner(ch) is None,
                first_with(self@.tools, letter, 0) == first_with(
                    self@.tools,
                    letter,
                    i as int,
                ),
            decreases self.tools@.len() - i,
        {
            assert(self@.tools[i as int] == self.tools@[i as int]@);
            let is_it = match self.tools[i].key {
                Some(key) => key == letter,
                None => false,
            };
            if is_it {
                return Some(i);
            }
            i += 1;
        }
        None
    }

    fn press(&self, ch: char) -> (action: Option<Action>)
        ensures
            action is Some == self@.pressed(ch) is Some,
            action matches Some(a) ==> self@.pressed(ch) == Some(a@),
    {
        match self.owner(ch) {
            Some(i) => {
                assert(self@.items[i as int] == self.items@[i as int]@);
                Some(self.items[i].clone())
            },
            None => match self.tool_owner(ch) {
                Some(i) => {
                    assert(self@.tools[i as int] == self.tools@[i as int]@);
                    Some(self.tools[i].clone())
                },
                None => None,
            },
        }
    }

    /// The actions the filter shows, the best match first.
    fn filter(&mut self)
        requires
            old(self)@.query.len() <= fuzzy::PATTERN_LIMIT,
            forall|i: int|
                0 <= i < old(self)@.items.len() ==> #[trigger] old(self)@.items[i].name.len()
                    <= fuzzy::TEXT_LIMIT,
        ensures
            final(self)@ == old(self)@.filtered(old(self)@.query),
            shows(final(self)@.items, final(self)@.query, final(self)@.visible),
            final(self)@.query.len() == 0 ==> final(self)@.shows_all(),
    {
        self.selected = 0;
        let ghost all = self@.items;
        let ghost query = self@.query;
        let mut keys: Vec<RankKey> = Vec::new();
        let mut found: Vec<usize> = Vec::new();
        let mut i: usize = 0;
        while i < self.items.len()
            invariant
                i <= self.items@.len(),
                all == self@.items,
                query == self@.query,
                self@ == (MenuView { selected: 0, ..old(self)@ }),
                query.len() <= fuzzy::PATTERN_LIMIT,
                forall|k: int|
                    0 <= k < all.len() ==> #[trigger] all[k].name.len() <= fuzzy::TEXT_LIMIT,
                query.len() == 0 ==> forall|k: int|
                    0 <= k < i ==> fuzzy::rank(query, #[trigger] all[k].name) == Some(0u32),
                keys@.len() == found@.len(),
                forall|c: int|
                    0 <= c < found@.len() ==> {
                        &&& (#[trigger] found@[c]) < i
                        &&& passes(all, query, found@[c] as int)
                        &&& keys@[c].score == score(all, query, found@[c] as int)
                    },
                forall|a: int, b: int|
                    0 <= a < b < found@.len() ==> (#[trigger] found@[a]) < (#[trigger] found@[b]),
                forall|k: usize|
                    k < i && #[trigger] passes(all, query, k as int) ==> found@.contains(k),
            decreases self.items@.len() - i,
        {
            assert(all[i as int] == self.items@[i as int]@);
            assert(all[i as int].name.len() <= fuzzy::TEXT_LIMIT);
            let ghost was = found@;
            match rank_of(&self.query, &self.items[i].name) {
                Some(score) => {
                    keys.push(RankKey { score });
                    found.push(i);
                    assert forall|k: usize|
                        k < i + 1 && #[trigger] passes(all, query, k as int) implies found@.contains(
                        k,
                    ) by {
                        if k == i {
                            assert(found@[found@.len() - 1] == k);
                        } else {
                            let c = choose|c: int| 0 <= c < was.len() && was[c] == k;
                            assert(found@[c] == k);
                        }
                    }
                },
                None => {},
            }
            i += 1;
        }
        let order = stable_order(&keys);
        let mut visible: Vec<usize> = Vec::new();
        let mut k: usize = 0;
        while k < order.len()
            invariant
                k <= order@.len(),
                order@.len() == found@.len(),
                forall|p: int| 0 <= p < order@.len() ==> #[trigger] order@[p] < found@.len(),
                visible@.len() == k,
                forall|p: int| 0 <= p < k ==> #[trigger] visible@[p] == found@[order@[p] as int],
            decreases order@.len() - k,
        {
            visible.push(found[order[k]]);
            k += 1;
        }
        proof {
            let shown_now = visible@;
            assert forall|i: usize|
                i < all.len() && #[trigger] passes(all, query, i as int) implies shown_now.contains(
                i,
            ) by {
                let c = choose|c: int| 0 <= c < found@.len() && found@[c] == i;
                order::order_reaches(order@, 0, keys@.len() as usize, c as usize);
                let r = choose|r: int| 0 <= r < order@.len() && order@[r] == c as usize;
                assert(shown_now[r] == i);
            }
            assert forall|p: int, q: int| 0 <= p < q < shown_now.len() implies outranks(
                all,
                query,
                #[trigger] shown_now[p],
                #[trigger] shown_now[q],
            ) by {
                assert(order::before(keys@, order@[p], order@[q]));
            }
            assert(shows(all, query, shown_now));
            shown_is_unique(all, query, shown_now, shown(all, query));
            if query.len() == 0 {
                equal_matches_keep_their_order(all, query, 0);
            }
        }
        self.visible = visible;
    }

    /// Leaving the filter drops what was typed, so the list a key acts on is
    /// the whole list again rather than yesterday's narrowing.
    fn set_filtering(&mut self, on: bool)
        requires
            old(self).wf(),
        ensures
            final(self).wf(),
            final(self)@ == old(self)@.with_filtering(on),
            old(self)@.query.len() > 0 && final(self)@.query.len() == 0 ==> final(self)@.shows_all(),
    {
        self.filtering = on;
        if !on && !self.query.is_empty() {
            self.query = String::new();
            assert(self.query@ =~= Seq::<char>::empty());
            self.filter();
        }
    }

    fn erase(&mut self)
        requires
            old(self).wf(),
        ensures
            final(self).wf(),
            final(self)@ == old(self)@.erased(),
            old(self)@.query.len() > 0 && final(self)@.query.len() == 0 ==> final(self)@.shows_all(),
    {
        self.query.pop();
        self.filter();
    }

    fn move_down(&mut self, count: usize)
        requires
            old(self).wf(),
        ensures
            final(self).wf(),
            final(self)@ == (MenuView {
                selected: smaller(
                    old(self)@.selected + count,
                    less(old(self)@.visible.len() as int, 1),
                ) as usize,
                ..old(self)@
            }),
    {
        let last: usize = if self.visible.len() > 0 {
            self.visible.len() - 1
        } else {
            0
        };
        if self.selected < last && count < last - self.selected {
            self.selected = self.selected + count;
        } else {
            self.selected = last;
        }
    }

    fn move_up(&mut self, count: usize)
        requires
            old(self).wf(),
        ensures
            final(self).wf(),
            final(self)@ == (MenuView {
                selected: less(old(self)@.selected as int, count as int) as usize,
                ..old(self)@
            }),
    {
        if self.selected > count {
            self.selected = self.selected - count;
        } else {
            self.selected = 0;
        }
    }

    pub fn handle(&mut self, key: KeyEvent) -> (decision: Decision)
        requires
            old(self).wf(),
            key.writes() ==> old(self)@.query.len() < fuzzy::PATTERN_LIMIT,
        ensures
            final(self).wf(),
            (final(self)@, decision@) == old(self)@.handled(key),
            old(self)@.query.len() > 0 && final(self)@.query.len() == 0 ==> final(self)@.shows_all(),
    {
        let ghost was = self@;
        match self.pending_tool {
            Some(index) => {
                self.pending_tool = None;
                if key.code == KeyCode::Enter {
                    assert(self@.tools[index as int] == self.tools@[index as int]@);
                    return Decision::Run(self.tools[index].clone());
                }
            },
            None => {},
        }
        assert(self@ == (MenuView { pending_tool: None, ..was }));
        self.answer(key)
    }

    fn answer(&mut self, key: KeyEvent) -> (decision: Decision)
        requires
            old(self).wf(),
            key.writes() ==> old(self)@.query.len() < fuzzy::PATTERN_LIMIT,
        ensures
            final(self).wf(),
            (final(self)@, decision@) == old(self)@.answered(key),
            old(self)@.query.len() > 0 && final(self)@.query.len() == 0 ==> final(self)@.shows_all(),
    {
        let ctrl = key.modifiers.ctrl;
        // Holding Alt runs an action from either mode, so a key learned from
        // the list still works with the filter focused and a name half typed.
        if key.modifiers.alt && !ctrl {
            return match key.code {
                KeyCode::Char(ch) => match self.press(ch) {
                    Some(action) => Decision::Run(action),
                    None => Decision::Stay,
                },
                _ => Decision::Stay,
            };
        }
        match key.code {
            KeyCode::Esc => {
                return Decision::Close;
            },
            KeyCode::Enter => {
                if self.selected < self.visible.len() {
                    let index: usize = self.visible[self.selected];
                    assert(self@.items[index as int] == self.items@[index as int]@);
                    return Decision::Run(self.items[index].clone());
                }
            },
            KeyCode::Up => self.move_up(1),
            KeyCode::Down => self.move_down(1),
            KeyCode::Backspace => self.erase(),
            KeyCode::Tab | KeyCode::BackTab => {
                let on = !self.filtering;
                self.set_filtering(on);
            },
            KeyCode::Char(ch) => {
                if ctrl {
                    if ch == 'c' || ch == 'p' {
                        return Decision::Close;
                    } else if ch == 'k' {
                        self.move_up(1);
                    } else if ch == 'j' {
                        self.move_down(1);
                    } else if ch == 'h' {
                        self.erase();
                    } else if ch == 'u' {
                        self.query = String::new();
                        assert(self.query@ =~= Seq::<char>::empty());
                        self.filter();
                    } else if ch == 'x' {
                        // Between staying and quitting; cd counts as quitting
                        // here, so from it the switch goes to stay.
                        self.after = if self.after == Then::Stay {
                            Then::Quit
                        } else {
                            Then::Stay
                        };
                    }
                } else if is_typed_text(&key) {
                    if self.filtering {
                        self.query.push(ch);
                        self.filter();
                    } else {
                        match self.press(ch) {
                            Some(action) => {
                                return Decision::Run(action);
                            },
                            None => {
                                // The usual key for starting a search, and one
                                // no action can claim, so it is free to mean
                                // this here.
                                if ch == '/' {
                                    self.set_filtering(true);
                                }
                            },
                        }
                    }
                }
            },
            _ => {},
        }
        Decision::Stay
    }

    /// Select a displayed action; true requests execution through the Enter path.
    pub fn handle_mouse(&mut self, mouse: MouseEvent) -> (run: bool)
        requires
            old(self).wf(),
        ensures
            final(self).wf(),
            (final(self)@, run) == old(self)@.clicked(mouse),
    {
        // The zone sits outside the list, so a click there cannot move a
        // selection. It is remembered instead and read by the Enter that the
        // caller sends straight after a click it accepted.
        let left = mouse.kind == MouseKind::Down(Button::Left);
        if left && self.mouse_tools.contains(mouse.column, mouse.row) {
            self.pending_tool = Some(0);
            return true;
        }
        if !self.mouse_rows.contains(mouse.column, mouse.row) {
            return false;
        }
        match mouse.kind {
            MouseKind::Down(_) => {
                let row: u128 = self.mouse_first as u128 + (mouse.row - self.mouse_rows.y) as u128;
                if left && row < self.visible.len() as u128 {
                    self.selected = row as usize;
                    return true;
                }
            },
            MouseKind::ScrollUp => self.move_up(3),
            MouseKind::ScrollDown => self.move_down(3),
            _ => {},
        }
        false
    }

    /// Lines above the list for an error, or the pointer to the command that
    /// sets actions up.
    fn head(&self) -> (lines: u16)
        ensures
            lines == self@.head(),
    {
        if self.error.is_some() {
            3
        } else if self.hint.is_some() {
            2
        } else {
            0
        }
    }

    fn widest_of(actions: &Vec<Action>) -> (most: u128)
        ensures
            most == widest(actions_view(actions@)),
            most <= 2 * 0xffff_ffff_ffff_ffff,
    {
        let ghost all = actions_view(actions@);
        let mut most: u128 = 0;
        let mut i: usize = 0;
        assert(all.take(0) =~= Seq::<ActionView>::empty());
        while i < actions.len()
            invariant
                i <= actions@.len(),
                all == actions_view(actions@),
                most == widest(all.take(i as int)),
                most <= 2 * 0xffff_ffff_ffff_ffff,
            decreases actions@.len() - i,
        {
            assert(all.take(i + 1).drop_last() =~= all.take(i as int));
            assert(all[i as int] == actions@[i as int]@);
            let suffix: u128 = if actions[i].run_mode == RunMode::Terminal {
                width_of(TERMINAL_SUFFIX) as u128
            } else {
                0
            };
            let row: u128 = width_of(&actions[i].name) as u128 + suffix;
            if row > most {
                most = row;
            }
            i += 1;
        }
        assert(all.take(i as int) =~= all);
        most
    }

    /// Where the menu floats: the bottom right of `area`, as wide as its
    /// longest row and as tall as its list.
    ///
    /// The right is where the preview is, so the list on the left, with the
    /// item the actions are about to run on, stays in view. Sized by every
    /// action rather than the ones a filter leaves, so typing does not make
    /// the panel jump. A screen too small to float in gets the whole area.
    pub fn panel(&self, area: Rect) -> (panel: Rect)
        ensures
            panel == self@.panel(area),
    {
        let a: u128 = Self::widest_of(&self.items);
        let b: u128 = Self::widest_of(&self.tools);
        let most: u128 = if a > b {
            a
        } else {
            b
        };
        // Marker, the key column at its widest, the name, a space and borders.
        let fits: u16 = cap(2 + FILTER_KEY_WIDTH as u128 + most + 1 + 2);
        let width: u16 = if fits > MIN_WIDTH {
            fits
        } else {
            MIN_WIDTH
        };
        let tools: u128 = if self.tools.len() == 0 {
            0
        } else {
            2
        };
        let rows: u128 = if self.items.len() > 1 {
            self.items.len() as u128
        } else {
            1
        };
        let height: u16 = cap(2 + 2 + self.head() as u128 + rows + tools);
        float(area, width, height)
    }

    /// Whether the tools are shown: not where there is no room.
    fn zone(&self, inner: Rect) -> (zone: bool)
        ensures
            zone == (self@.tools_height(inner) > 0),
    {
        let above: u16 = 2 + self.head();
        let available: u16 = if inner.height > above {
            inner.height - above
        } else {
            0
        };
        self.tools.len() > 0 && available >= 3
    }

    /// How the inside of the menu is cut. The tools follow the list instead of
    /// sitting at the foot of the window, which in a full-height menu would put
    /// them far enough below the actions to be missed.
    pub fn portions(&self, inner: Rect) -> (portions: Vec<Portion>)
        ensures
            portions@ == self@.cuts(inner),
    {
        let head: u16 = self.head();
        let above: u16 = 2 + head;
        let available: u16 = if inner.height > above {
            inner.height - above
        } else {
            0
        };
        let tools: u16 = if self.zone(inner) {
            2
        } else {
            0
        };
        let room: u16 = if available > tools {
            available - tools
        } else {
            0
        };
        let wanted: usize = if self.visible.len() > 1 {
            self.visible.len()
        } else {
            1
        };
        let list: u16 = if wanted < room as usize {
            wanted as u16
        } else {
            room
        };
        let mut portions: Vec<Portion> = Vec::new();
        portions.push(Portion::Length(1));
        portions.push(Portion::Length(1));
        portions.push(Portion::Length(head));
        portions.push(Portion::Length(list));
        portions.push(Portion::Length(tools));
        portions.push(Portion::Min(0));
        assert(portions@ =~= self@.cuts(inner));
        portions
    }

    fn title(&self) -> (title: &'static str)
        ensures
            title@ == self@.title(),
    {
        match self.after {
            Then::Stay => " Actions ",
            Then::Quit => " Actions, then quit ",
            Then::Cd => " Actions, then cd ",
        }
    }

    fn footer(&self) -> (footer: &'static str)
        ensures
            footer@ == self@.footer(),
    {
        match (self.filtering, self.after == Then::Stay) {
            (true, true) => " Enter: run  Tab: keys  ^X: quit after  Esc ",
            (true, false) => " Enter: run  Tab: keys  ^X: stay after  Esc ",
            (false, true) => " Enter: run  Tab: filter  ^X: quit after  Esc ",
            (false, false) => " Enter: run  Tab: filter  ^X: stay after  Esc ",
        }
    }

    fn draw_tools(&self, drawn: &mut Vec<Drawn>, parts: Parts, zone: bool)
        requires
            zone ==> self@.tools.len() > 0,
        ensures
            drawn::all_view(final(drawn)@) == drawn::all_view(old(drawn)@) + self@.tools_drawn(
                parts,
                zone,
            ),
    {
        let ghost was = drawn::all_view(drawn@);
        if zone {
            assert(self@.tools[0] == self.tools@[0]@);
            let rule = repeated('─', parts.tools.width as usize);
            put(
                drawn,
                Drawn::Line {
                    area: Rect {
                        x: parts.tools.x,
                        y: parts.tools.y,
                        width: parts.tools.width,
                        height: 1,
                    },
                    pieces: one_piece(&rule, Paint::Rule),
                },
            );
            let owned = match self.tools[0].key {
                Some(ch) => self.tool_owner(ch).is_some(),
                None => false,
            };
            let mut key = String::new();
            match self.tools[0].key {
                Some(ch) => {
                    if owned {
                        key.push(ch);
                        key.push_str(ARROW);
                        assert(key@ =~= seq![ch] + ARROW@);
                    }
                },
                None => {},
            }
            if !owned {
                key = repeated(' ', KEY_WIDTH);
            }
            let mut pieces: Vec<Piece> = Vec::new();
            add_piece(&mut pieces, "  ", Paint::Faint);
            add_piece(&mut pieces, &key, Paint::Faint);
            add_piece(&mut pieces, &self.tools[0].name, Paint::Faint);
            assert(screen::pieces_view(pieces@) =~= seq![
                screen::piece("  "@, Paint::Faint),
                screen::piece(self@.tool_key(), Paint::Faint),
                screen::piece(self@.tools[0].name, Paint::Faint),
            ]);
            put(
                drawn,
                Drawn::Line {
                    area: Rect {
                        x: parts.tools.x,
                        y: cap(parts.tools.y as u128 + 1),
                        width: parts.tools.width,
                        height: 1,
                    },
                    pieces,
                },
            );
        }
        assert(drawn::all_view(drawn@) =~= was + self@.tools_drawn(parts, zone));
    }

    fn draw_cursor(drawn: &mut Vec<Drawn>, parts: Parts, after: u128)
        ensures
            drawn::all_view(final(drawn)@) == drawn::all_view(old(drawn)@)
                + MenuView::cursor_drawn(parts, after as int),
    {
        let ghost was = drawn::all_view(drawn@);
        let prompt = parts.prompt;
        if prompt.width > 0 && prompt.height > 0 {
            let last: u128 = (prompt.width - 1) as u128;
            let along: u128 = if after < last {
                after
            } else {
                last
            };
            put(drawn, Drawn::Cursor { x: cap(prompt.x as u128 + along), y: prompt.y });
        }
        assert(drawn::all_view(drawn@) =~= was + MenuView::cursor_drawn(parts, after as int));
    }

    fn draw_prompt(&self, drawn: &mut Vec<Drawn>, parts: Parts)
        ensures
            drawn::all_view(final(drawn)@) == drawn::all_view(old(drawn)@) + self@.prompt_drawn(
                parts,
            ),
    {
        let ghost was = drawn::all_view(drawn@);
        if self.filtering {
            let line = joined("> ", &self.query);
            put(drawn, Drawn::Line { area: parts.prompt, pieces: one_piece(&line, Paint::Plain) });
            Self::draw_cursor(drawn, parts, 2 + width_of(&self.query) as u128);
        } else {
            // Say which keys the list is listening for. Without this the rows
            // look like plain labels and the letters beside them like noise.
            put(
                drawn,
                Drawn::Line { area: parts.prompt, pieces: one_piece(WAITING, Paint::Faint) },
            );
            Self::draw_cursor(drawn, parts, width_of(WAITING) as u128 + 1);
        }
        assert(drawn::all_view(drawn@) =~= was + self@.prompt_drawn(parts));
    }

    fn draw_warning(&self, drawn: &mut Vec<Drawn>, parts: Parts)
        ensures
            drawn::all_view(final(drawn)@) == drawn::all_view(old(drawn)@) + self@.warning_drawn(
                parts,
            ),
    {
        let ghost was = drawn::all_view(drawn@);
        match &self.error {
            Some(said) => {
                put(
                    drawn,
                    Drawn::Text { area: parts.warning, text: said.clone(), paint: Paint::Failed },
                );
            },
            None => {
                match &self.hint {
                    Some(said) => {
                        put(
                            drawn,
                            Drawn::Text {
                                area: parts.warning,
                                text: said.clone(),
                                paint: Paint::Faint,
                            },
                        );
                    },
                    None => {},
                }
            },
        }
        assert(drawn::all_view(drawn@) =~= was + self@.warning_drawn(parts));
    }

    fn any_keyed(&self, from: usize, end: usize) -> (keyed: bool)
        requires
            self.wf(),
            from <= end <= self.visible@.len(),
        ensures
            keyed == self@.keyed(from as int, end as int),
    {
        let mut keyed = false;
        let mut i: usize = from;
        while i < end
            invariant
                self.wf(),
                from <= i <= end <= self.visible@.len(),
                keyed == self@.keyed(from as int, i as int),
            decreases end - i,
        {
            assert(self@.visible[i as int] < self@.items.len());
            if self.shown_key(self.visible[i]).is_some() {
                keyed = true;
            }
            i += 1;
        }
        keyed
    }

    fn row(&self, row: usize, keyed: bool) -> (res: ListRow)
        requires
            self.wf(),
            row < self.visible@.len(),
        ensures
            res@ == self@.row(row as int, keyed),
    {
        assert(self@.visible[row as int] < self@.items.len());
        let index: usize = self.visible[row];
        let action: &Action = &self.items[index];
        assert(action@ == self@.items[index as int]);
        let mut key = String::new();
        let mut arrow = String::new();
        assert(key@ =~= Seq::<char>::empty() && arrow@ =~= Seq::<char>::empty());
        if keyed {
            match self.shown_key(index) {
                Some(ch) => {
                    if self.filtering {
                        key.push_str("alt+");
                        assert(key@ =~= "alt+"@);
                    }
                    key.push(ch);
                    assert(key@ =~= if self.filtering {
                        "alt+"@ + seq![ch]
                    } else {
                        seq![ch]
                    });
                    arrow.push_str(ARROW);
                    assert(arrow@ =~= ARROW@);
                },
                None => {
                    arrow = repeated(
                        ' ',
                        if self.filtering {
                            FILTER_KEY_WIDTH
                        } else {
                            KEY_WIDTH
                        },
                    );
                },
            }
        }
        assert((key@, arrow@) == self@.key_column(index as int, keyed));
        let mut pieces: Vec<Piece> = Vec::new();
        add_piece(
            &mut pieces,
            if row == self.selected {
                "▌ "
            } else {
                "  "
            },
            Paint::Plain,
        );
        add_piece(&mut pieces, &key, Paint::Key);
        add_piece(&mut pieces, &arrow, Paint::Arrow);
        add_piece(&mut pieces, &action.name, Paint::Plain);
        add_piece(
            &mut pieces,
            if action.run_mode == RunMode::Terminal {
                TERMINAL_SUFFIX
            } else {
                ""
            },
            Paint::Faint,
        );
        let res = ListRow {
            pieces,
            paint: if row == self.selected {
                Paint::Selected
            } else {
                Paint::Plain
            },
        };
        assert(res@.pieces =~= self@.row(row as int, keyed).pieces);
        res
    }

    fn draw_list(&self, drawn: &mut Vec<Drawn>, parts: Parts, first: usize)
        requires
            self.wf(),
            first == self@.first_row(parts.rows.height),
        ensures
            drawn::all_view(final(drawn)@) == drawn::all_view(old(drawn)@).push(
                self@.list_drawn(parts),
            ),
    {
        if self.visible.len() == 0 {
            put(
                drawn,
                Drawn::Line {
                    area: parts.rows,
                    pieces: one_piece("No matching actions", Paint::Plain),
                },
            );
            return;
        }
        let height: usize = parts.rows.height as usize;
        let count: usize = self.visible.len();
        let end: usize = if height < count - first {
            first + height
        } else {
            count
        };
        let keyed = self.any_keyed(first, end);
        let mut rows: Vec<ListRow> = Vec::new();
        let mut i: usize = first;
        assert(draw::rows_view(rows@) =~= self@.rows(first as int, first as int, keyed));
        while i < end
            invariant
                self.wf(),
                first <= i <= end <= self.visible@.len(),
                draw::rows_view(rows@) == self@.rows(first as int, i as int, keyed),
            decreases end - i,
        {
            let row = self.row(i, keyed);
            put_row(&mut rows, row);
            i += 1;
            assert(draw::rows_view(rows@) =~= self@.rows(first as int, i as int, keyed));
        }
        put(drawn, Drawn::Rows { area: parts.rows, rows });
    }

    /// The menu drawn over `panel`, its inside in those parts, which then take
    /// the clicks. `zone` says whether the tools are shown.
    pub fn draw(&mut self, panel: Rect, parts: Parts, zone: bool, on: Platform) -> (drawn: Vec<
        Drawn,
    >)
        requires
            old(self).wf(),
            zone ==> old(self)@.tools.len() > 0,
        ensures
            final(self).wf(),
            final(self)@ == old(self)@.laid_out(parts, zone),
            drawn::all_view(drawn@) == old(self)@.drawn(panel, parts, zone, on),
    {
        let ghost was = self@;
        let mut drawn = open_panel(panel, self.title(), self.footer());
        self.draw_tools(&mut drawn, parts, zone);
        let shown = self.target.text(on);
        let target = tail(&shown, parts.target.width as usize);
        put(
            &mut drawn,
            Drawn::Line { area: parts.target, pieces: one_piece(&target, Paint::Target) },
        );
        self.draw_prompt(&mut drawn, parts);
        self.draw_warning(&mut drawn, parts);
        let height: usize = parts.rows.height as usize;
        let lines: usize = if height > 1 {
            height - 1
        } else {
            0
        };
        let first: usize = if self.selected > lines {
            self.selected - lines
        } else {
            0
        };
        let ghost before = drawn::all_view(drawn@);
        self.draw_list(&mut drawn, parts, first);
        assert(drawn::all_view(drawn@) =~= before + seq![was.list_drawn(parts)]);
        if zone {
            self.mouse_tools = Rect {
                x: parts.tools.x,
                y: cap(parts.tools.y as u128 + 1),
                width: parts.tools.width,
                height: 1,
            };
        } else {
            self.mouse_tools = Rect::none();
        }
        if self.visible.len() == 0 {
            self.mouse_rows = Rect::none();
        } else {
            self.mouse_rows = parts.rows;
            self.mouse_first = first;
        }
        drawn
    }

    /// The menu over the screen in `area`.
    pub fn render(&mut self, area: Rect, on: Platform) -> (drawn: Vec<Drawn>)
        requires
            old(self).wf(),
        ensures
            final(self).wf(),
            old(self)@.drawn_somehow(area, on, final(self)@, drawn::all_view(drawn@)),
    {
        let panel = self.panel(area);
        let inner = panel.inside();
        let portions = self.portions(inner);
        let cut = split(inner, &portions, Cut::Down);
        let parts = Parts {
            target: cut[0],
            prompt: cut[1],
            warning: cut[2],
            rows: cut[3],
            tools: cut[4],
        };
        let zone = self.zone(inner);
        assert(cut@ =~= seq![cut@[0], cut@[1], cut@[2], cut@[3], cut@[4], cut@[5]]);
        assert(self@.parts_lie(inner, parts, cut@[5]));
        let drawn = self.draw(panel, parts, zone, on);
        assert(old(self)@.drawn_in(area, on, parts, self@, drawn::all_view(drawn@)));
        drawn
    }
}

} // verus!
