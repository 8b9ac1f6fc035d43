//! What the mouse does.

use vstd::prelude::*;

use crate::browse::BrowserView;
use crate::disk::{Disk, DiskView};
use crate::fs_path::{FsPath, PathView};
use crate::header::{self, place_buttons, tab_offsets, Nav, Tab, Target, TargetView};
use crate::keys::{KeyCode, KeyEvent, Modifiers};
use crate::mode::Mode;
use crate::picker::{
    self, Click, ClickView, Picker, PickerView, Step, StepView, CLICK_GUARD, DOUBLE_CLICK,
};
use crate::screen::{Button, MouseEvent, MouseKind, Rect};
use crate::source::SourceView;
use crate::tree::TreeView;
use crate::world::{World, WorldView};

verus! {

/// The first of the areas from `from` on that covers a cell.
pub open spec fn target_at(
    targets: Seq<TargetView>,
    column: u16,
    row: u16,
    from: int,
) -> Option<PathView>
    decreases targets.len() - from,
{
    if from >= targets.len() {
        None
    } else if targets[from].area.covers(column, row) {
        Some(targets[from].path)
    } else {
        target_at(targets, column, row, from + 1)
    }
}

fn find_target(targets: &Vec<Target>, column: u16, row: u16) -> (path: Option<FsPath>)
    ensures
        picker::maybe(path) == target_at(header::targets_view(targets@), column, row, 0),
{
    let mut i: usize = 0;
    while i < targets.len()
        invariant
            i <= targets@.len(),
            target_at(header::targets_view(targets@), column, row, 0) == target_at(
                header::targets_view(targets@),
                column,
                row,
                i as int,
            ),
        decreases targets@.len() - i,
    {
        assert(header::targets_view(targets@)[i as int] == targets@[i as int]@);
        if targets[i].area.contains(column, row) {
            return Some(targets[i].path.clone());
        }
        i += 1;
    }
    None
}

/// The first of the buttons from `from` on that covers a cell.
pub open spec fn nav_at(
    targets: Seq<(Rect, Nav)>,
    column: u16,
    row: u16,
    from: int,
) -> Option<Nav>
    decreases targets.len() - from,
{
    if from >= targets.len() {
        None
    } else if targets[from].0.covers(column, row) {
        Some(targets[from].1)
    } else {
        nav_at(targets, column, row, from + 1)
    }
}

fn find_nav(targets: &Vec<(Rect, Nav)>, column: u16, row: u16) -> (nav: Option<Nav>)
    ensures
        nav == nav_at(targets@, column, row, 0),
{
    let mut i: usize = 0;
    while i < targets.len()
        invariant
            i <= targets@.len(),
            nav_at(targets@, column, row, 0) == nav_at(targets@, column, row, i as int),
        decreases targets@.len() - i,
    {
        if targets[i].0.contains(column, row) {
            return Some(targets[i].1);
        }
        i += 1;
    }
    None
}

/// The first of the tabs from `k` on that takes a column, the first label being
/// at `x`.
pub open spec fn tab_at(x: u16, column: u16, k: int) -> Option<Tab>
    decreases 4 - k,
{
    if k >= 4 {
        None
    } else {
        let (tab, start, end) = header::tab_places()[k];
        if x + start <= column < x + end {
            Some(tab)
        } else {
            tab_at(x, column, k + 1)
        }
    }
}

fn find_tab(x: u16, column: u16) -> (tab: Option<Tab>)
    ensures
        tab == tab_at(x, column, 0),
        tab matches Some(t) ==> !t.0.lists_places(),
{
    let offsets = tab_offsets();
    let mut k: usize = 0;
    while k < 4
        invariant
            k <= 4,
            offsets@ == header::tab_places(),
            tab_at(x, column, 0) == tab_at(x, column, k as int),
        decreases 4 - k,
    {
        let (tab, start, end) = offsets[k];
        if column as u32 >= x as u32 + start as u32 && (column as u32) < x as u32 + end as u32 {
            return Some(tab);
        }
        k += 1;
    }
    None
}

/// The first of the buttons from `k` on that takes a column.
pub open spec fn button_at(
    buttons: Seq<(Mode, u16, u16)>,
    x: u16,
    column: u16,
    k: int,
) -> Option<Mode>
    decreases buttons.len() - k,
{
    if k >= buttons.len() {
        None
    } else if x + buttons[k].1 <= column < x + buttons[k].2 {
        Some(buttons[k].0)
    } else {
        button_at(buttons, x, column, k + 1)
    }
}

/// The row a click at `row` is on, of those drawn from `first` on.
pub open spec fn row_at(area: Rect, first: usize, row: u16) -> int {
    first + (row - area.y)
}

/// Where the wheel takes the selection of `count` rows.
pub open spec fn wheeled(selected: usize, up: bool, count: usize) -> int {
    if up {
        if selected > 3 {
            selected - 3
        } else {
            0
        }
    } else if selected + 3 < count {
        selected + 3
    } else {
        count - 1
    }
}

/// As far as the rows of a list go.
pub open spec fn list_row(row: int) -> u32 {
    if row > u32::MAX {
        u32::MAX
    } else {
        row as u32
    }
}

fn cap_row(row: usize) -> (res: u32)
    ensures
        res == list_row(row as int),
{
    if row as u64 > 0xffff_ffff {
        u32::MAX
    } else {
        row as u32
    }
}

pub open spec fn is_left(mouse: MouseEvent) -> bool {
    mouse.kind == MouseKind::Down(Button::Left)
}

pub open spec fn is_right(mouse: MouseEvent) -> bool {
    mouse.kind == MouseKind::Down(Button::Right)
}

impl PickerView {
    /// Whether a press belongs to the screen that was on show a moment ago.
    pub open spec fn clicks_blocked(self, now: u64) -> bool {
        self.clicks_blocked_since is Some && now - self.clicks_blocked_since->Some_0 < CLICK_GUARD
    }

    /// This with presses taken again.
    pub open spec fn clicks_taken(self) -> PickerView {
        PickerView { clicks_blocked_since: None, ..self }
    }

    /// This with presses ignored for a while, what is under the pointer having
    /// just been replaced.
    pub open spec fn blocked(self, now: u64) -> PickerView {
        PickerView { clicks_blocked_since: Some(now), last_click: None, ..self }
    }

    /// Whether a click on `path` is the second of two.
    pub open spec fn doubled(self, path: PathView, mouse: MouseEvent, now: u64) -> bool {
        &&& self.last_click is Some
        &&& self.last_click->Some_0.path == path
        &&& self.last_click->Some_0.column == mouse.column
        &&& self.last_click->Some_0.row == mouse.row
        &&& now - self.last_click->Some_0.at <= DOUBLE_CLICK
    }

    /// This with a click the next one may make a double click of.
    pub open spec fn clicked_once(self, path: PathView, mouse: MouseEvent, now: u64) -> PickerView {
        PickerView {
            last_click: Some(
                ClickView { path, column: mouse.column, row: mouse.row, at: now },
            ),
            ..self
        }
    }

    pub open spec fn unclicked(self) -> PickerView {
        PickerView { last_click: None, ..self }
    }

    /// The list whose button on the top border is at that cell, if any.
    pub open spec fn place_button(self, column: u16, row: u16) -> Option<Mode> {
        if self.mouse.header.covers(column, row) {
            button_at(
                header::button_places(self.mouse.header.width),
                self.mouse.modes_x,
                column,
                0,
            )
        } else {
            None
        }
    }

    /// This with a mode's list, started if need be, on a row.
    pub open spec fn selected_in(self, mode: Mode, row: u32) -> PickerView {
        let p = self.started(mode);
        p.with_source(mode, Some(SourceView { selected: row, ..p.source(mode)->Some_0 }))
    }

    /// A click on a row of the list of places. A double click goes to the
    /// place, as Right does.
    #[verifier::opaque]
    pub open spec fn place_clicked(self, row: int, mouse: MouseEvent, world: WorldView) -> PickerView {
        let p = self.selected_in(self.places->Some_0, list_row(row));
        let q = p.looked(world.disk);
        match p.selection(world) {
            Some(path) => if q.doubled(path, mouse, world.now) {
                q.unclicked().place_righted(world)
            } else {
                q.clicked_once(path, mouse, world.now)
            },
            None => q,
        }
    }

    /// The wheel over a list of places.
    #[verifier::opaque]
    pub open spec fn places_wheeled(self, up: bool) -> PickerView {
        let mode = self.places->Some_0;
        let p = self.started(mode);
        let selected = p.source(mode)->Some_0.selected;
        let count = self.mouse.places.count;
        let next: int = if up {
            if selected > 3 {
                selected - 3
            } else {
                0
            }
        } else {
            let down = list_row(selected + 3);
            let last = if count > 0 {
                count - 1
            } else {
                0
            };
            if down < last {
                down as int
            } else {
                last
            }
        };
        p.selected_in(mode, list_row(next))
    }

    /// The mouse with a list of places open: a click on a row selects it, the
    /// wheel moves through it, and a click anywhere else closes it.
    #[verifier::opaque]
    pub open spec fn places_pointed(self, mouse: MouseEvent, world: WorldView) -> (
        PickerView,
        StepView,
    ) {
        let stay = StepView::Continue;
        let rows = self.mouse.places;
        let wanted = self.place_button(mouse.column, mouse.row);
        if is_left(mouse) && wanted is Some {
            (self.places_opened(wanted->Some_0), self.opening(wanted->Some_0))
        } else if is_left(mouse) && rows.area.covers(mouse.column, mouse.row) {
            let row = row_at(rows.area, rows.first, mouse.row);
            if row >= rows.count {
                (self, stay)
            } else {
                (self.place_clicked(row, mouse, world), stay)
            }
        } else {
            match mouse.kind {
                MouseKind::Down(_) => (PickerView { places: None, ..self }, stay),
                MouseKind::ScrollUp => (self.places_wheeled(true), stay),
                MouseKind::ScrollDown => (self.places_wheeled(false), stay),
                _ => (self, stay),
            }
        }
    }

    /// A right click: the action menu with Ctrl, otherwise the application for
    /// it.
    pub open spec fn right_clicked(path: PathView, mouse: MouseEvent) -> StepView {
        if mouse.ctrl {
            StepView::Actions(path)
        } else {
            StepView::Launch(path)
        }
    }

    /// A left click on a path beside the list.
    #[verifier::opaque]
    pub open spec fn path_clicked(self, path: PathView, disk: DiskView) -> PickerView {
        if self.mode != Mode::Browse {
            self.browsed_at(path, disk)
        } else {
            let p = self.with_browser(disk);
            let b = p.browser->Some_0;
            PickerView {
                preview: None,
                ..p.browsing(
                    if path.same(b.cwd) {
                        b.above(disk)
                    } else {
                        b.navigated(path, disk)
                    },
                )
            }
        }
    }

    /// A click on a step of the path: straight to that ancestor. In the search
    /// modes the path is the scan root, so the search starts from there.
    #[verifier::opaque]
    pub open spec fn crumb_clicked(self, dir: PathView, disk: DiskView) -> PickerView {
        let p = self.quiet();
        if p.mode != Mode::Browse {
            p.root_moved(dir)
        } else {
            let q = p.with_browser(disk);
            let b = q.browser->Some_0;
            if dir.same(b.cwd) {
                q
            } else {
                PickerView { preview: None, ..q.browsing(b.navigated(dir, disk)) }
            }
        }
    }

    /// This with the list on screen there.
    #[verifier::opaque]
    pub open spec fn listed(self, disk: DiskView) -> PickerView {
        if self.in_tree() {
            self.with_shown(disk)
        } else if self.mode == Mode::Browse {
            self.with_browser(disk)
        } else {
            self.started(self.mode)
        }
    }

    /// The row selected in the list on screen.
    pub open spec fn row_selected(self) -> usize {
        if self.in_tree() {
            self.shown_tree().selected
        } else if self.mode == Mode::Browse {
            self.browser->Some_0.selected
        } else {
            self.source(self.mode)->Some_0.selected as usize
        }
    }

    /// This with a row of the tree on screen selected, where it is there.
    pub open spec fn tree_row_selected(self, row: int) -> PickerView {
        let shown = self.shown_tree();
        let p = if row < shown.nodes.len() {
            self.showing_tree(TreeView { selected: row as usize, ..shown })
        } else {
            self
        };
        PickerView { found_keep: p.found is Some, ..p }
    }

    /// A double click in the tree opens or closes the folder, as in a file tree
    /// side panel; in a search it leaves the search, as Right does.
    pub open spec fn tree_doubled(self, disk: DiskView) -> PickerView {
        if self.found is Some {
            self.search_left(disk)
        } else {
            let r = self.with_tree(disk);
            PickerView { tree: Some(r.tree->Some_0.toggled(disk)), ..r }
        }
    }

    /// A click on a row of the tree.
    #[verifier::opaque]
    pub open spec fn tree_row_taken(self, row: int, mouse: MouseEvent, world: WorldView) -> PickerView {
        let q = self.tree_row_selected(row);
        let path = q.shown_tree().selected_path();
        if is_left(mouse) && path is Some {
            if !q.doubled(path->Some_0, mouse, world.now) {
                q.clicked_once(path->Some_0, mouse, world.now)
            } else {
                q.unclicked().tree_doubled(world.disk)
            }
        } else {
            q
        }
    }

    /// A row of the columns selected. A double click goes into the folder.
    #[verifier::opaque]
    pub open spec fn browse_row_taken(self, row: int, mouse: MouseEvent, world: WorldView) -> PickerView {
        let b = BrowserView { selected: row as usize, ..self.browser->Some_0 };
        let p = self.browsing(b);
        if is_left(mouse) && b.selected_path() is Some {
            let path = b.selected_path()->Some_0;
            if p.doubled(path, mouse, world.now) {
                PickerView {
                    preview: None,
                    ..p.unclicked().browsing(b.entered(world.disk))
                }
            } else {
                p.clicked_once(path, mouse, world.now)
            }
        } else {
            p
        }
    }

    /// The row the mouse takes in the list on screen, if it takes one.
    pub open spec fn row_wanted(self, mouse: MouseEvent) -> Option<int> {
        let rows = self.mouse.rows;
        match mouse.kind {
            MouseKind::Down(_) => if is_left(mouse) || is_right(mouse) {
                let row = row_at(rows.area, rows.first, mouse.row);
                if row < rows.count {
                    Some(row)
                } else {
                    None
                }
            } else {
                None
            },
            MouseKind::ScrollUp => Some(wheeled(self.row_selected(), true, rows.count)),
            MouseKind::ScrollDown => Some(wheeled(self.row_selected(), false, rows.count)),
            _ => None,
        }
    }

    /// A row of the list on screen taken.
    #[verifier::opaque]
    pub open spec fn row_taken(self, row: int, mouse: MouseEvent, world: WorldView) -> (
        PickerView,
        StepView,
    ) {
        let p = if self.in_tree() {
            self.tree_row_taken(row, mouse, world)
        } else if self.mode == Mode::Browse {
            self.browse_row_taken(row, mouse, world)
        } else {
            self.selected_in(self.mode, list_row(row))
        };
        if is_right(mouse) {
            (
                p.looked(world.disk),
                match p.selection(world) {
                    Some(path) => Self::right_clicked(path, mouse),
                    None => StepView::Continue,
                },
            )
        } else {
            (p, StepView::Continue)
        }
    }

    /// The mouse over the rows of the screen.
    #[verifier::opaque]
    pub open spec fn rows_pointed(self, mouse: MouseEvent, world: WorldView) -> (
        PickerView,
        StepView,
    ) {
        let rows = self.mouse.rows;
        if !rows.area.covers(mouse.column, mouse.row) || rows.count == 0 {
            (self, StepView::Continue)
        } else {
            let p = self.listed(world.disk);
            match p.row_wanted(mouse) {
                Some(row) => p.row_taken(row, mouse, world),
                None => (p, StepView::Continue),
            }
        }
    }

    /// A left click above the rows: a button, a step of the path, a tab, or a
    /// list's button. None where it is on none of them.
    #[verifier::opaque]
    pub open spec fn header_clicked(self, mouse: MouseEvent, world: WorldView) -> Option<
        (PickerView, StepView),
    > {
        let stay = StepView::Continue;
        let nav = nav_at(self.mouse.nav, mouse.column, mouse.row, 0);
        let crumb = target_at(self.mouse.crumbs, mouse.column, mouse.row, 0);
        let tab = tab_at(self.mouse.modes_x, mouse.column, 0);
        let wanted = self.place_button(mouse.column, mouse.row);
        if nav is Some {
            Some((self.navigated(nav->Some_0, world), stay))
        } else if crumb is Some {
            Some((self.crumb_clicked(crumb->Some_0, world.disk), stay))
        } else if !self.mouse.header.covers(mouse.column, mouse.row) {
            None
        } else if tab is Some {
            Some((self.tab_selected(tab->Some_0, world), stay))
        } else if wanted is Some {
            Some((self.places_opened(wanted->Some_0), self.opening(wanted->Some_0)))
        } else {
            None
        }
    }

    /// The mouse on a screen with nothing open over it.
    #[verifier::opaque]
    pub open spec fn screen_pointed(self, mouse: MouseEvent, world: WorldView) -> (
        PickerView,
        StepView,
    ) {
        let p = if is_left(mouse) || mouse.kind == MouseKind::Up(Button::Left) {
            self
        } else {
            self.unclicked()
        };
        let path = target_at(p.mouse.paths, mouse.column, mouse.row, 0);
        if (is_left(mouse) || is_right(mouse)) && path is Some {
            if is_right(mouse) {
                (p.unclicked(), Self::right_clicked(path->Some_0, mouse))
            } else {
                (
                    p.unclicked().path_clicked(path->Some_0, world.disk),
                    StepView::Continue,
                )
            }
        } else if is_left(mouse) && p.header_clicked(mouse, world) is Some {
            p.header_clicked(mouse, world)->Some_0
        } else {
            p.rows_pointed(mouse, world)
        }
    }

    /// What the mouse does on the screen, or on the list of places over it. A
    /// press takes away what was said before.
    #[verifier::opaque]
    pub open spec fn pointed(self, mouse: MouseEvent, world: WorldView) -> (PickerView, StepView) {
        if !self.config.mouse || self.menu is Some || self.keys is Some {
            (self, StepView::Continue)
        } else if mouse.kind is Down && self.clicks_blocked(world.now) {
            (self, StepView::Continue)
        } else {
            let p = if mouse.kind is Down {
                self.clicks_taken().quiet()
            } else {
                self
            };
            if p.places is Some {
                p.places_pointed(mouse, world)
            } else {
                p.screen_pointed(mouse, world)
            }
        }
    }

    /// What the mouse does, whatever is open.
    #[verifier::opaque]
    pub open spec fn moused(self, mouse: MouseEvent, world: WorldView) -> (PickerView, StepView) {
        let stay = StepView::Continue;
        if mouse.kind is Down && self.clicks_blocked(world.now) {
            (self, stay)
        } else {
            let p = if mouse.kind is Down {
                self.clicks_taken()
            } else {
                self
            };
            if p.config.mouse && p.menu is Some {
                let (menu, run) = p.menu->Some_0.clicked(mouse);
                let q = PickerView { menu: Some(menu), ..p };
                if run {
                    q.blocked(world.now).keyed(
                        KeyEvent { code: KeyCode::Enter, modifiers: Modifiers::none() },
                        world,
                    )
                } else {
                    (q, stay)
                }
            } else if p.config.mouse && p.keys is Some {
                let (keys, code) = p.keys->Some_0.clicked(mouse);
                let q = PickerView { keys: Some(keys), ..p };
                match code {
                    Some(code) => q.blocked(world.now).keyed(
                        KeyEvent { code, modifiers: Modifiers::none() },
                        world,
                    ),
                    None => (q, stay),
                }
            } else {
                p.pointed(mouse, world)
            }
        }
    }
}

impl Picker {
    /// Starts ignoring clicks, because what is under the pointer has just been
    /// replaced and the next one is most likely a leftover from the old screen.
    pub fn block_clicks(&mut self, now: u64)
        requires
            old(self).wf(),
        ensures
            final(self).wf(),
            final(self)@ == old(self)@.blocked(now),
    {
        self.clicks_blocked_since = Some(now);
        self.last_click = None;
    }

    /// Whether a button press should be discarded as belonging to the screen
    /// that was on show a moment ago.
    pub fn clicks_blocked(&mut self, now: u64) -> (blocked: bool)
        requires
            old(self).wf(),
        ensures
            final(self).wf(),
            blocked == old(self)@.clicks_blocked(now),
            final(self)@ == (if blocked {
                old(self)@
            } else {
                old(self)@.clicks_taken()
            }),
    {
        match self.clicks_blocked_since {
            Some(since) => {
                if now < since || now - since < CLICK_GUARD {
                    return true;
                }
                self.clicks_blocked_since = None;
                false
            },
            None => false,
        }
    }

    /// The list whose button on the top border is at that cell, if any.
    pub fn place_button_at(&self, column: u16, row: u16) -> (mode: Option<Mode>)
        ensures
            mode == self@.place_button(column, row),
    {
        if !self.mouse.header.contains(column, row) {
            return None;
        }
        let x: u16 = self.mouse.modes_x;
        let buttons = place_buttons(self.mouse.header.width);
        let mut k: usize = 0;
        while k < buttons.len()
            invariant
                k <= buttons@.len(),
                x == self@.mouse.modes_x,
                buttons@ == header::button_places(self@.mouse.header.width),
                self@.mouse.header.covers(column, row),
                button_at(buttons@, x, column, 0) == button_at(buttons@, x, column, k as int),
            decreases buttons@.len() - k,
        {
            let (mode, start, end) = buttons[k];
            if column as u32 >= x as u32 + start as u32 && (column as u32) < x as u32 + end as u32 {
                return Some(mode);
            }
            k += 1;
        }
        None
    }

    fn is_double(&self, path: &FsPath, mouse: MouseEvent, now: u64) -> (double: bool)
        ensures
            double == self@.doubled(path@, mouse, now),
    {
        match &self.last_click {
            Some(click) => click.path.is(path) && click.column == mouse.column && click.row
                == mouse.row && (now < click.at || now - click.at <= DOUBLE_CLICK),
            None => false,
        }
    }

    fn remember_click(&mut self, path: FsPath, mouse: MouseEvent, now: u64)
        requires
            old(self).wf(),
        ensures
            final(self).wf(),
            final(self)@ == old(self)@.clicked_once(path@, mouse, now),
    {
        self.last_click = Some(Click { path, column: mouse.column, row: mouse.row, at: now });
    }

    fn forget_click(&mut self)
        requires
            old(self).wf(),
        ensures
            final(self).wf(),
            final(self)@ == old(self)@.unclicked(),
    {
        self.last_click = None;
    }

    fn click_place(&mut self, row: usize, mouse: MouseEvent, world: &World)
        requires
            old(self).wf(),
            world.wf(),
            old(self)@.places is Some,
        ensures
            final(self).wf(),
            final(self)@ == old(self)@.place_clicked(row as int, mouse, world@),
    {
        reveal(PickerView::place_clicked);
        match self.places {
            Some(mode) => self.select_in(mode, cap_row(row)),
            None => {},
        }
        // A double click goes to the place, as Right does and as a double
        // click goes into a folder in browse. Enter, which would quit, stays
        // on the keyboard as it does in every list.
        match self.selected_path(world) {
            Some(path) => {
                if self.is_double(&path, mouse, world.now) {
                    self.forget_click();
                    self.right_on_place(world);
                } else {
                    self.remember_click(path, mouse, world.now);
                }
            },
            None => {},
        }
    }

    fn wheel_places(&mut self, up: bool)
        requires
            old(self).wf(),
            old(self)@.places is Some,
        ensures
            final(self).wf(),
            final(self)@ == old(self)@.places_wheeled(up),
    {
        reveal(PickerView::places_wheeled);
        let mode = match self.places {
            Some(mode) => mode,
            None => {
                return;
            },
        };
        self.start(mode);
        let i: usize = picker::mode_index(mode);
        assert(self@.sources[i as int] == picker::maybe(self.sources@[i as int]));
        let selected: u32 = match &self.sources[i] {
            Some(source) => source.selected,
            None => 0,
        };
        let count: usize = self.mouse.places.count;
        let next: usize = if up {
            if selected > 3 {
                (selected - 3) as usize
            } else {
                0
            }
        } else {
            let down: u32 = if selected > u32::MAX - 3 {
                u32::MAX
            } else {
                selected + 3
            };
            let last: usize = if count > 0 {
                count - 1
            } else {
                0
            };
            if (down as u64) < last as u64 {
                down as usize
            } else {
                last
            }
        };
        self.select_in(mode, cap_row(next));
    }

    fn point_at_places(&mut self, mouse: MouseEvent, world: &World) -> (step: Step)
        requires
            old(self).wf(),
            world.wf(),
            old(self)@.places is Some,
        ensures
            final(self).wf(),
            (final(self)@, step@) == old(self)@.places_pointed(mouse, world@),
    {
        reveal(PickerView::places_pointed);
        let left = mouse.kind == MouseKind::Down(Button::Left);
        if left {
            match self.place_button_at(mouse.column, mouse.row) {
                Some(wanted) => {
                    return if self.open_places(wanted) {
                        Step::ReloadPins
                    } else {
                        Step::Continue
                    };
                },
                None => {},
            }
        }
        let rows = self.mouse.places;
        if left && rows.area.contains(mouse.column, mouse.row) {
            match rows.row_under(mouse.column, mouse.row) {
                Some(row) => self.click_place(row, mouse, world),
                None => {},
            }
            return Step::Continue;
        }
        match mouse.kind {
            MouseKind::Down(_) => {
                self.places = None;
            },
            MouseKind::ScrollUp => self.wheel_places(true),
            MouseKind::ScrollDown => self.wheel_places(false),
            _ => {},
        }
        Step::Continue
    }

    fn right_click(path: FsPath, mouse: MouseEvent) -> (step: Step)
        ensures
            step@ == PickerView::right_clicked(path@, mouse),
    {
        if mouse.ctrl {
            Step::Actions(path)
        } else {
            Step::Launch(path)
        }
    }

    fn click_path(&mut self, path: &FsPath, disk: &Disk)
        requires
            old(self).wf(),
            disk.wf(),
        ensures
            final(self).wf(),
            final(self)@ == old(self)@.path_clicked(path@, disk@),
    {
        reveal(PickerView::path_clicked);
        if self.mode != Mode::Browse {
            self.browse_at(path, disk);
            return;
        }
        self.ensure_browser(disk);
        match &mut self.browser {
            Some(browser) => {
                if path.same_place(browser.dir()) {
                    browser.up(disk);
                } else {
                    browser.navigate_to(path, disk);
                }
            },
            None => {},
        }
        self.preview = None;
    }

    fn click_crumb(&mut self, dir: FsPath, disk: &Disk)
        requires
            old(self).wf(),
            disk.wf(),
        ensures
            final(self).wf(),
            final(self)@ == old(self)@.crumb_clicked(dir@, disk@),
    {
        reveal(PickerView::crumb_clicked);
        self.clear_notice();
        if self.mode != Mode::Browse {
            self.set_root(dir);
            return;
        }
        self.ensure_browser(disk);
        let here = match &self.browser {
            Some(browser) => dir.same_place(browser.dir()),
            None => true,
        };
        if !here {
            match &mut self.browser {
                Some(browser) => browser.navigate_to(&dir, disk),
                None => {},
            }
            self.preview = None;
        }
    }

    pub(crate) fn ensure_listed(&mut self, disk: &Disk)
        requires
            old(self).wf(),
            disk.wf(),
        ensures
            final(self).wf(),
            final(self)@ == old(self)@.listed(disk@),
            final(self)@.mouse == old(self)@.mouse,
            final(self)@.preview == old(self)@.preview,
            final(self)@.on == old(self)@.on,
            final(self)@.in_tree() ==> final(self)@.found is Some || final(self)@.tree is Some,
            final(self)@.mode == Mode::Browse && !final(self)@.tree_view ==> final(self)@.browser is Some,
            final(self)@.mode != Mode::Browse ==> final(self)@.source(final(self)@.mode) is Some,
    {
        reveal(PickerView::listed);
        if self.in_tree() {
            self.ensure_shown(disk);
        } else if self.mode == Mode::Browse {
            self.ensure_browser(disk);
        } else {
            self.start(self.mode);
        }
    }

    fn row_selected(&self) -> (row: usize)
        requires
            self.wf(),
            self@.in_tree() ==> self@.found is Some || self@.tree is Some,
            self@.mode == Mode::Browse && !self@.tree_view ==> self@.browser is Some,
            self@.mode != Mode::Browse ==> self@.source(self@.mode) is Some,
        ensures
            row == self@.row_selected(),
    {
        if self.in_tree() {
            return match &self.found {
                Some(found) => found.selected_row(),
                None => match &self.tree {
                    Some(tree) => tree.selected_row(),
                    None => 0,
                },
            };
        }
        if self.mode == Mode::Browse {
            return match &self.browser {
                Some(browser) => browser.selected_row(),
                None => 0,
            };
        }
        let i: usize = picker::mode_index(self.mode);
        assert(self@.sources[i as int] == picker::maybe(self.sources@[i as int]));
        match &self.sources[i] {
            Some(source) => source.selected as usize,
            None => 0,
        }
    }

    /// Selects a row of the tree on screen, where it is there.
    fn select_tree_row(&mut self, row: usize)
        requires
            old(self).wf(),
            old(self)@.found is Some || old(self)@.tree is Some,
        ensures
            final(self).wf(),
            final(self)@ == old(self)@.tree_row_selected(row as int),
            final(self)@.found is Some || final(self)@.tree is Some,
    {
        match &mut self.found {
            Some(found) => {
                if row < found.nodes().len() {
                    found.select(row);
                }
            },
            None => {
                match &mut self.tree {
                    Some(tree) => {
                        if row < tree.nodes().len() {
                            tree.select(row);
                        }
                    },
                    None => {},
                }
            },
        }
        self.found_keep = self.found.is_some();
    }

    /// A double click on the row selected in the tree.
    fn double_click_tree(&mut self, disk: &Disk)
        requires
            old(self).wf(),
            disk.wf(),
        ensures
            final(self).wf(),
            final(self)@ == old(self)@.tree_doubled(disk@),
    {
        // In a search, opening a folder would read it into the list of
        // matches, where what it holds would pass for matches; so there a
        // double click leaves the search, as Right does.
        if self.found.is_some() {
            self.leave_tree_search(disk);
        } else {
            self.ensure_tree(disk);
            match &mut self.tree {
                Some(tree) => tree.toggle(disk),
                None => {},
            }
        }
    }

    fn take_tree_row(&mut self, row: usize, mouse: MouseEvent, world: &World)
        requires
            old(self).wf(),
            world.wf(),
            old(self)@.found is Some || old(self)@.tree is Some,
        ensures
            final(self).wf(),
            final(self)@ == old(self)@.tree_row_taken(row as int, mouse, world@),
    {
        reveal(PickerView::tree_row_taken);
        self.select_tree_row(row);
        if mouse.kind != MouseKind::Down(Button::Left) {
            return;
        }
        match self.shown_path() {
            Some(path) => {
                if !self.is_double(&path, mouse, world.now) {
                    self.remember_click(path, mouse, world.now);
                    return;
                }
                self.forget_click();
                self.double_click_tree(&world.disk);
            },
            None => {},
        }
    }

    fn take_browse_row(&mut self, row: usize, mouse: MouseEvent, world: &World)
        requires
            old(self).wf(),
            world.wf(),
            old(self)@.browser is Some,
        ensures
            final(self).wf(),
            final(self)@ == old(self)@.browse_row_taken(row as int, mouse, world@),
    {
        reveal(PickerView::browse_row_taken);
        let path = match &mut self.browser {
            Some(browser) => {
                browser.select(row);
                browser.selected_path()
            },
            None => None,
        };
        if mouse.kind != MouseKind::Down(Button::Left) {
            return;
        }
        match path {
            Some(path) => {
                if self.is_double(&path, mouse, world.now) {
                    self.forget_click();
                    match &mut self.browser {
                        Some(browser) => browser.enter(&world.disk),
                        None => {},
                    }
                    self.preview = None;
                } else {
                    self.remember_click(path, mouse, world.now);
                }
            },
            None => {},
        }
    }

    fn row_wanted(&self, mouse: MouseEvent) -> (row: Option<usize>)
        requires
            self.wf(),
            self@.mouse.rows.area.covers(mouse.column, mouse.row),
            self@.mouse.rows.count > 0,
            self@.in_tree() ==> self@.found is Some || self@.tree is Some,
            self@.mode == Mode::Browse && !self@.tree_view ==> self@.browser is Some,
            self@.mode != Mode::Browse ==> self@.source(self@.mode) is Some,
        ensures
            row is Some == self@.row_wanted(mouse) is Some,
            row matches Some(r) ==> self@.row_wanted(mouse) == Some(r as int),
    {
        let rows = self.mouse.rows;
        match mouse.kind {
            MouseKind::Down(button) => {
                if button == Button::Middle {
                    return None;
                }
                rows.row_under(mouse.column, mouse.row)
            },
            MouseKind::ScrollUp => {
                let selected: usize = self.row_selected();
                Some(
                    if selected > 3 {
                        selected - 3
                    } else {
                        0
                    },
                )
            },
            MouseKind::ScrollDown => {
                let selected: usize = self.row_selected();
                Some(
                    if selected < rows.count && 3 < rows.count - selected {
                        selected + 3
                    } else {
                        rows.count - 1
                    },
                )
            },
            _ => None,
        }
    }

    fn take_row(&mut self, row: usize, mouse: MouseEvent, world: &World) -> (step: Step)
        requires
            old(self).wf(),
            world.wf(),
            old(self)@.in_tree() ==> old(self)@.found is Some || old(self)@.tree is Some,
            old(self)@.mode == Mode::Browse && !old(self)@.tree_view ==> old(self)@.browser is Some,
        ensures
            final(self).wf(),
            (final(self)@, step@) == old(self)@.row_taken(row as int, mouse, world@),
    {
        reveal(PickerView::row_taken);
        if self.in_tree() {
            self.take_tree_row(row, mouse, world);
        } else if self.mode == Mode::Browse {
            self.take_browse_row(row, mouse, world);
        } else {
            self.select_in(self.mode, cap_row(row));
        }
        if mouse.kind != MouseKind::Down(Button::Right) {
            return Step::Continue;
        }
        match self.selected_path(world) {
            Some(path) => Self::right_click(path, mouse),
            None => Step::Continue,
        }
    }

    fn point_at_rows(&mut self, mouse: MouseEvent, world: &World) -> (step: Step)
        requires
            old(self).wf(),
            world.wf(),
        ensures
            final(self).wf(),
            (final(self)@, step@) == old(self)@.rows_pointed(mouse, world@),
    {
        reveal(PickerView::rows_pointed);
        let rows = self.mouse.rows;
        if !rows.area.contains(mouse.column, mouse.row) || rows.count == 0 {
            return Step::Continue;
        }
        self.ensure_listed(&world.disk);
        match self.row_wanted(mouse) {
            Some(row) => self.take_row(row, mouse, world),
            None => Step::Continue,
        }
    }

    fn click_header(&mut self, mouse: MouseEvent, world: &World) -> (step: Option<Step>)
        requires
            old(self).wf(),
            world.wf(),
        ensures
            final(self).wf(),
            step is Some == old(self)@.header_clicked(mouse, world@) is Some,
            step matches Some(s) ==> old(self)@.header_clicked(mouse, world@) == Some(
                (final(self)@, s@),
            ),
            step is None ==> final(self)@ == old(self)@,
    {
        reveal(PickerView::header_clicked);
        // The buttons and the path sit outside the tabs' row, so they are
        // tested against their own recorded areas.
        match find_nav(&self.mouse.nav, mouse.column, mouse.row) {
            Some(nav) => {
                self.navigate(nav, world);
                return Some(Step::Continue);
            },
            None => {},
        }
        match find_target(&self.mouse.crumbs, mouse.column, mouse.row) {
            Some(dir) => {
                self.click_crumb(dir, &world.disk);
                return Some(Step::Continue);
            },
            None => {},
        }
        if !self.mouse.header.contains(mouse.column, mouse.row) {
            return None;
        }
        match find_tab(self.mouse.modes_x, mouse.column) {
            Some(tab) => {
                self.select_tab(tab, world);
                return Some(Step::Continue);
            },
            None => {},
        }
        match self.place_button_at(mouse.column, mouse.row) {
            Some(mode) => Some(
                if self.open_places(mode) {
                    Step::ReloadPins
                } else {
                    Step::Continue
                },
            ),
            None => None,
        }
    }

    fn point_at_screen(&mut self, mouse: MouseEvent, world: &World) -> (step: Step)
        requires
            old(self).wf(),
            world.wf(),
        ensures
            final(self).wf(),
            (final(self)@, step@) == old(self)@.screen_pointed(mouse, world@),
    {
        reveal(PickerView::screen_pointed);
        let left = mouse.kind == MouseKind::Down(Button::Left);
        let right = mouse.kind == MouseKind::Down(Button::Right);
        if !left && mouse.kind != MouseKind::Up(Button::Left) {
            self.forget_click();
        }
        if left || right {
            match find_target(&self.mouse.paths, mouse.column, mouse.row) {
                Some(path) => {
                    self.forget_click();
                    if right {
                        return Self::right_click(path, mouse);
                    }
                    self.click_path(&path, &world.disk);
                    return Step::Continue;
                },
                None => {},
            }
        }
        if left {
            match self.click_header(mouse, world) {
                Some(step) => {
                    return step;
                },
                None => {},
            }
        }
        self.point_at_rows(mouse, world)
    }

    /// What the mouse does on the screen, or on the list of places over it.
    pub fn handle_mouse(&mut self, mouse: MouseEvent, world: &World) -> (step: Step)
        requires
            old(self).wf(),
            world.wf(),
        ensures
            final(self).wf(),
            (final(self)@, step@) == old(self)@.pointed(mouse, world@),
    {
        reveal(PickerView::pointed);
        if !self.config.mouse || self.menu.is_some() || self.keys.is_some() {
            return Step::Continue;
        }
        // A press arriving just after the screen was replaced is almost always
        // the tail of a double tap aimed at what used to be there. Wheel and
        // release events are harmless, so only presses are dropped.
        match mouse.kind {
            MouseKind::Down(_) => {
                if self.clicks_blocked(world.now) {
                    return Step::Continue;
                }
                // What was said has been read.
                self.clear_notice();
            },
            _ => {},
        }
        if self.places.is_some() {
            self.point_at_places(mouse, world)
        } else {
            self.point_at_screen(mouse, world)
        }
    }

    /// What the mouse does, whatever is open. The panels read their own clicks,
    /// so the guard against presses left over from the previous screen is
    /// applied before handing the event to them as well.
    pub fn handle_pointer(&mut self, mouse: MouseEvent, world: &World) -> (step: Step)
        requires
            old(self).wf(),
            world.wf(),
        ensures
            final(self).wf(),
            (final(self)@, step@) == old(self)@.moused(mouse, world@),
    {
        reveal(PickerView::moused);
        match mouse.kind {
            MouseKind::Down(_) => {
                if self.clicks_blocked(world.now) {
                    return Step::Continue;
                }
            },
            _ => {},
        }
        if self.config.mouse && self.menu.is_some() {
            let run = match &mut self.menu {
                Some(menu) => menu.handle_mouse(mouse),
                None => false,
            };
            if !run {
                return Step::Continue;
            }
            // The menu is about to close under the pointer, so the rest of a
            // quick double tap must not reach whatever takes its place.
            self.block_clicks(world.now);
            return self.handle_key(KeyEvent::plain(KeyCode::Enter), world);
        }
        if self.config.mouse && self.keys.is_some() {
            let code = match &mut self.keys {
                Some(keys) => keys.handle_mouse(mouse),
                None => None,
            };
            return match code {
                Some(code) => {
                    self.block_clicks(world.now);
                    self.handle_key(KeyEvent::plain(code), world)
                },
                None => Step::Continue,
            };
        }
        self.handle_mouse(mouse, world)
    }
}

} // verus!
