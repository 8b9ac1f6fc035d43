//! What the mouse is for, on every screen.

use vstd::prelude::*;

use crate::browse::BrowserView;
use crate::header::Nav;
use crate::key_laws;
use crate::mode::Mode;
use crate::picker::{PickerView, StepView};
use crate::pointer;
use crate::screen::{Button, MouseEvent, MouseKind, Rect};
use crate::source::SourceView;
use crate::tree::TreeView;
use crate::world::WorldView;

verus! {

/// Whether a cell is inside an area.
pub open spec fn on(area: Rect, mouse: MouseEvent) -> bool {
    &&& area.x <= mouse.column < area.x + area.width
    &&& area.y <= mouse.row < area.y + area.height
}

/// Whether an area ends before the last column and the last row a cell can have.
pub open spec fn fits(area: Rect) -> bool {
    area.x + area.width <= u16::MAX && area.y + area.height <= u16::MAX
}

/// Whether the mouse is over a row of the screen and over nothing else that takes
/// clicks, with nothing open over the screen, and presses are taken.
pub open spec fn over_a_row(p: PickerView, mouse: MouseEvent, row: int, world: WorldView) -> bool {
    &&& p.wf()
    &&& p.config.mouse
    &&& p.menu is None && p.keys is None && p.places is None
    &&& p.clicks_blocked_since matches Some(since) ==> since <= world.now && world.now - since
        >= 300
    &&& fits(p.mouse.rows.area) && on(p.mouse.rows.area, mouse)
    &&& row == p.mouse.rows.first + (mouse.row - p.mouse.rows.area.y)
    &&& row < p.mouse.rows.count
    &&& forall|k: int|
        0 <= k < p.mouse.paths.len() ==> !on((#[trigger] p.mouse.paths[k]).area, mouse)
    &&& forall|k: int| 0 <= k < p.mouse.nav.len() ==> !on((#[trigger] p.mouse.nav[k]).0, mouse)
    &&& forall|k: int|
        0 <= k < p.mouse.crumbs.len() ==> !on((#[trigger] p.mouse.crumbs[k]).area, mouse)
    &&& !on(p.mouse.header, mouse)
}

/// Where no target is, none is found.
pub proof fn no_target_there(
    targets: Seq<crate::header::TargetView>,
    mouse: MouseEvent,
    from: int,
)
    requires
        0 <= from,
        forall|k: int| 0 <= k < targets.len() ==> !on((#[trigger] targets[k]).area, mouse),
    ensures
        pointer::target_at(targets, mouse.column, mouse.row, from) is None,
    decreases targets.len() - from,
{
    if from < targets.len() {
        assert(!on(targets[from].area, mouse));
        no_target_there(targets, mouse, from + 1);
    }
}

/// Where no button is, none is found.
pub proof fn no_button_there(targets: Seq<(Rect, Nav)>, mouse: MouseEvent, from: int)
    requires
        0 <= from,
        forall|k: int| 0 <= k < targets.len() ==> !on((#[trigger] targets[k]).0, mouse),
    ensures
        pointer::nav_at(targets, mouse.column, mouse.row, from) is None,
    decreases targets.len() - from,
{
    if from < targets.len() {
        assert(!on(targets[from].0, mouse));
        no_button_there(targets, mouse, from + 1);
    }
}

/// What the mouse over a row does is up to the rows.
proof fn over_a_row_the_rows_take_it(p: PickerView, mouse: MouseEvent, row: int, world: WorldView)
    requires
        over_a_row(p, mouse, row, world),
        mouse.kind is Down || mouse.kind is ScrollUp || mouse.kind is ScrollDown,
    ensures
        ({
            let q = if mouse.kind is Down {
                p.clicks_taken().quiet()
            } else {
                p
            };
            let r = if mouse.kind == MouseKind::Down(Button::Left) {
                q
            } else {
                q.unclicked()
            };
            p.moused(mouse, world) == r.rows_pointed(mouse, world)
        }),
{
    reveal(PickerView::moused);
    reveal(PickerView::pointed);
    reveal(PickerView::screen_pointed);
    reveal(PickerView::header_clicked);
    no_target_there(p.mouse.paths, mouse, 0);
    no_target_there(p.mouse.crumbs, mouse, 0);
    no_button_there(p.mouse.nav, mouse, 0);
}

/// A press on a row of a search selects that row. With the right button it is also
/// opened with its application, and with Ctrl held the actions for it are offered.
pub proof fn a_press_selects_a_row_of_a_search(
    p: PickerView,
    mouse: MouseEvent,
    row: int,
    world: WorldView,
)
    requires
        over_a_row(p, mouse, row, world),
        p.mode != Mode::Browse,
        p.source(p.mode) is Some,
        row <= u32::MAX,
        mouse.kind == MouseKind::Down(Button::Left) || mouse.kind == MouseKind::Down(
            Button::Right,
        ),
    ensures
        ({
            let (q, step) = p.moused(mouse, world);
            let was = p.source(p.mode)->Some_0;
            let entry = world.entry_at(was.id, row as u32);
            &&& key_laws::stays_put(p, q)
            &&& q.source(p.mode) == Some(SourceView { selected: row as u32, ..was })
            &&& mouse.kind == MouseKind::Down(Button::Left) ==> step == StepView::Continue
            &&& mouse.kind == MouseKind::Down(Button::Right) && entry is Some ==> {
                &&& !mouse.ctrl ==> step == StepView::Launch(entry->Some_0.path(p.on))
                &&& mouse.ctrl ==> step == StepView::Actions(entry->Some_0.path(p.on))
            }
        }),
{
    over_a_row_the_rows_take_it(p, mouse, row, world);
    reveal(PickerView::rows_pointed);
    reveal(PickerView::listed);
    reveal(PickerView::row_taken);
    reveal(PickerView::selection);
    reveal(PickerView::looked);
}

/// The wheel moves the selection by three rows, as far as there are rows, in a
/// search, in the columns and in the tree.
pub proof fn the_wheel_moves_by_three(p: PickerView, mouse: MouseEvent, row: int, world: WorldView)
    requires
        over_a_row(p, mouse, row, world),
        mouse.kind is ScrollUp || mouse.kind is ScrollDown,
        p.mouse.rows.count <= u32::MAX,
        p.mode != Mode::Browse ==> p.source(p.mode) is Some,
        p.mode == Mode::Browse ==> p.browser is Some,
        p.mode == Mode::Browse && p.tree_view && p.found is None ==> p.tree is Some
            && p.tree->Some_0.root.same(p.browser->Some_0.cwd),
        p.mode == Mode::Browse && p.tree_view && p.found is None
            ==> p.tree->Some_0.nodes.len() >= p.mouse.rows.count && p.tree->Some_0.selected
            < p.tree->Some_0.nodes.len(),
        p.mode == Mode::Browse && p.tree_view && p.found is Some
            ==> p.found->Some_0.nodes.len() >= p.mouse.rows.count && p.found->Some_0.selected
            < p.found->Some_0.nodes.len(),
    ensures
        ({
            let q = p.moused(mouse, world).0;
            let count = p.mouse.rows.count;
            let (was, now): (int, int) = if p.mode != Mode::Browse {
                (
                    p.source(p.mode)->Some_0.selected as int,
                    q.source(p.mode)->Some_0.selected as int,
                )
            } else if !p.tree_view {
                (p.browser->Some_0.selected as int, q.browser->Some_0.selected as int)
            } else if p.found is Some {
                (p.found->Some_0.selected as int, q.found->Some_0.selected as int)
            } else {
                (p.tree->Some_0.selected as int, q.tree->Some_0.selected as int)
            };
            &&& p.moused(mouse, world).1 == StepView::Continue
            &&& key_laws::stays_put(p, q)
            &&& mouse.kind is ScrollUp && was >= 3 ==> now == was - 3
            &&& mouse.kind is ScrollUp && was < 3 ==> now == 0
            &&& mouse.kind is ScrollDown && was + 3 < count ==> now == was + 3
            &&& mouse.kind is ScrollDown && was + 3 >= count ==> now == count - 1
        }),
{
    over_a_row_the_rows_take_it(p, mouse, row, world);
    reveal(PickerView::rows_pointed);
    reveal(PickerView::listed);
    reveal(PickerView::row_taken);
    reveal(PickerView::tree_row_taken);
    reveal(PickerView::browse_row_taken);
}

/// A press on a row of the columns selects it. A second one on the same cell within
/// half a second goes into the folder; any later one is a first one again.
pub proof fn a_press_selects_a_row_of_the_columns(
    p: PickerView,
    mouse: MouseEvent,
    row: int,
    world: WorldView,
)
    requires
        over_a_row(p, mouse, row, world),
        p.mode == Mode::Browse,
        !p.tree_view,
        p.browser is Some,
        row < p.browser->Some_0.rows.len(),
        mouse.kind == MouseKind::Down(Button::Left),
    ensures
        ({
            let was = p.browser->Some_0;
            let item = was.items[was.rows[row].index as int];
            let path = was.cwd.join(item.name, was.on);
            let (q, step) = p.moused(mouse, world);
            let second = p.last_click matches Some(click) && click.path == path && click.column
                == mouse.column && click.row == mouse.row && click.at <= world.now && world.now
                - click.at <= 500;
            let now = q.browser->Some_0;
            &&& step == StepView::Continue
            &&& key_laws::stays_put(p, q)
            &&& p.last_click is None ==> {
                &&& now == (BrowserView { selected: row as usize, ..was })
                &&& q.last_click is Some
                &&& q.last_click->Some_0.path == path
                &&& q.last_click->Some_0.at == world.now
            }
            &&& second && item.is_dir ==> {
                &&& now.cwd == path
                &&& now.items == world.disk.listing(path)
                &&& now.filter.len() == 0
                &&& q.last_click is None
            }
            &&& second && !item.is_dir ==> now.cwd == was.cwd && now.selected == row
            &&& p.last_click is Some && world.now > p.last_click->Some_0.at + 500 ==> now == (
            BrowserView { selected: row as usize, ..was })
        }),
{
    over_a_row_the_rows_take_it(p, mouse, row, world);
    reveal(PickerView::rows_pointed);
    reveal(PickerView::listed);
    reveal(PickerView::row_taken);
    reveal(PickerView::browse_row_taken);
}

/// A right press on a row of the columns or of the tree selects it and opens it
/// with its application; with Ctrl held it offers the actions for it. The folder
/// shown stays.
pub proof fn a_right_press_opens_the_row(
    p: PickerView,
    mouse: MouseEvent,
    row: int,
    world: WorldView,
)
    requires
        over_a_row(p, mouse, row, world),
        p.mode == Mode::Browse,
        p.browser is Some,
        mouse.kind == MouseKind::Down(Button::Right),
        !p.tree_view ==> row < p.browser->Some_0.rows.len(),
        p.tree_view ==> p.found is None && p.tree is Some && p.tree->Some_0.root.same(
            p.browser->Some_0.cwd,
        ) && row < p.tree->Some_0.nodes.len() && !p.tree->Some_0.nodes[row].path.is_empty(),
    ensures
        ({
            let was = p.browser->Some_0;
            let path = if p.tree_view {
                p.tree->Some_0.nodes[row].path
            } else {
                was.cwd.join(was.items[was.rows[row].index as int].name, was.on)
            };
            let (q, step) = p.moused(mouse, world);
            &&& !mouse.ctrl ==> step == StepView::Launch(path)
            &&& mouse.ctrl ==> step == StepView::Actions(path)
            &&& key_laws::stays_put(p, q)
            &&& q.browser->Some_0.cwd == was.cwd
            &&& !p.tree_view ==> q.browser->Some_0.selected == row
            &&& p.tree_view ==> q.tree->Some_0.selected == row && q.tree->Some_0.nodes
                == p.tree->Some_0.nodes
        }),
{
    over_a_row_the_rows_take_it(p, mouse, row, world);
    reveal(PickerView::rows_pointed);
    reveal(PickerView::listed);
    reveal(PickerView::row_taken);
    reveal(PickerView::browse_row_taken);
    reveal(PickerView::tree_row_taken);
    reveal(PickerView::selection);
    reveal(PickerView::looked);
}

/// A press on a row of the tree selects it. A second one on the same cell opens the
/// folder, or closes it where it is open; the root stays open.
pub proof fn a_press_selects_a_row_of_the_tree(
    p: PickerView,
    mouse: MouseEvent,
    row: int,
    world: WorldView,
)
    requires
        over_a_row(p, mouse, row, world),
        p.mode == Mode::Browse,
        p.tree_view,
        p.browser is Some,
        p.found is None,
        p.tree is Some,
        p.tree->Some_0.root.same(p.browser->Some_0.cwd),
        row < p.tree->Some_0.nodes.len(),
        !p.tree->Some_0.nodes[row].path.is_empty(),
        mouse.kind == MouseKind::Down(Button::Left),
    ensures
        ({
            let was = p.tree->Some_0;
            let node = was.nodes[row];
            let q = p.moused(mouse, world).0;
            let now = q.tree->Some_0;
            let second = p.last_click matches Some(click) && click.path == node.path
                && click.column == mouse.column && click.row == mouse.row && click.at <= world.now
                && world.now - click.at <= 500;
            &&& key_laws::stays_put(p, q)
            &&& now.selected == row
            &&& p.last_click is None ==> now == (TreeView { selected: row as usize, ..was })
            &&& second && node.is_dir && !node.open ==> {
                &&& now.nodes[row].open
                &&& now.nodes.len() == was.nodes.len() + world.disk.listing(node.path).len()
            }
            &&& second && node.open && row > 0 && was.nodes.len() <= usize::MAX ==> {
                &&& !now.nodes[row].open
                &&& now.nodes.len() <= was.nodes.len()
            }
        }),
{
    over_a_row_the_rows_take_it(p, mouse, row, world);
    reveal(PickerView::rows_pointed);
    reveal(PickerView::listed);
    reveal(PickerView::row_taken);
    reveal(PickerView::tree_row_taken);
    let was = p.tree->Some_0;
    if row > 0 && was.nodes.len() <= usize::MAX {
        crate::tree::what_left_does(TreeView { selected: row as usize, ..was });
    }
}

/// After something replaced what is under the pointer, a press within three tenths
/// of a second does nothing at all.
pub proof fn a_press_too_soon_does_nothing(p: PickerView, mouse: MouseEvent, world: WorldView)
    requires
        mouse.kind is Down,
        p.clicks_blocked_since is Some,
        p.clicks_blocked_since->Some_0 <= world.now < p.clicks_blocked_since->Some_0 + 300,
    ensures
        p.moused(mouse, world) == (p, StepView::Continue),
{
    reveal(PickerView::moused);
}

/// With the mouse turned off, nothing it does on a screen matters.
pub proof fn a_mouse_turned_off_does_nothing(p: PickerView, mouse: MouseEvent, world: WorldView)
    requires
        !p.config.mouse,
    ensures
        p.moused(mouse, world).1 == StepView::Continue,
        key_laws::stays_put(p, p.moused(mouse, world).0),
        p.moused(mouse, world).0.sources == p.sources,
        p.moused(mouse, world).0.browser == p.browser,
        p.moused(mouse, world).0.tree == p.tree,
{
    reveal(PickerView::moused);
    reveal(PickerView::pointed);
}

/// Whether presses are taken on the screen, with nothing open over it.
pub open spec fn screen_takes_presses(p: PickerView, world: WorldView) -> bool {
    &&& p.wf()
    &&& p.config.mouse
    &&& p.menu is None && p.keys is None && p.places is None
    &&& p.clicks_blocked_since is None
}

proof fn the_target_there(
    targets: Seq<crate::header::TargetView>,
    mouse: MouseEvent,
    k: int,
    from: int,
)
    requires
        0 <= from <= k < targets.len(),
        fits(targets[k].area),
        on(targets[k].area, mouse),
        forall|j: int| 0 <= j < k ==> !on((#[trigger] targets[j]).area, mouse),
    ensures
        pointer::target_at(targets, mouse.column, mouse.row, from) == Some(targets[k].path),
    decreases k - from,
{
    if from < k {
        assert(!on(targets[from].area, mouse));
        the_target_there(targets, mouse, k, from + 1);
    }
}

proof fn the_button_there(targets: Seq<(Rect, Nav)>, mouse: MouseEvent, k: int, from: int)
    requires
        0 <= from <= k < targets.len(),
        fits(targets[k].0),
        on(targets[k].0, mouse),
        forall|j: int| 0 <= j < k ==> !on((#[trigger] targets[j]).0, mouse),
    ensures
        pointer::nav_at(targets, mouse.column, mouse.row, from) == Some(targets[k].1),
    decreases k - from,
{
    if from < k {
        assert(!on(targets[from].0, mouse));
        the_button_there(targets, mouse, k, from + 1);
    }
}

/// A press on something in a side column or in the preview: with the left button
/// browse goes there, from a search too; with the right one it is opened with its
/// application, or with Ctrl held the actions for it are offered, and nothing moves.
pub proof fn a_press_beside_the_list_goes_there(
    p: PickerView,
    mouse: MouseEvent,
    k: int,
    world: WorldView,
)
    requires
        screen_takes_presses(p, world),
        0 <= k < p.mouse.paths.len(),
        fits(p.mouse.paths[k].area),
        on(p.mouse.paths[k].area, mouse),
        forall|j: int| 0 <= j < k ==> !on((#[trigger] p.mouse.paths[j]).area, mouse),
        mouse.kind == MouseKind::Down(Button::Left) || mouse.kind == MouseKind::Down(
            Button::Right,
        ),
    ensures
        ({
            let path = p.mouse.paths[k].path;
            let (q, step) = p.moused(mouse, world);
            &&& q.root == p.root && q.query == p.query
            &&& mouse.kind == MouseKind::Down(Button::Right) ==> {
                &&& !mouse.ctrl ==> step == StepView::Launch(path)
                &&& mouse.ctrl ==> step == StepView::Actions(path)
                &&& key_laws::stays_put(p, q)
                &&& q.browser == p.browser
            }
            &&& mouse.kind == MouseKind::Down(Button::Left) ==> {
                &&& step == StepView::Continue
                &&& q.mode == Mode::Browse
                &&& world.disk.is_dir(path) && (p.mode != Mode::Browse || p.browser is Some
                    && !path.same(p.browser->Some_0.cwd)) ==> {
                    &&& q.browser is Some
                    &&& q.browser->Some_0.cwd == path
                    &&& q.browser->Some_0.items == world.disk.listing(path)
                }
                &&& p.mode == Mode::Browse && p.browser is Some && path.same(
                    p.browser->Some_0.cwd,
                ) && !p.browser->Some_0.cwd.is_empty() && p.browser->Some_0.cwd.parent() is Some
                    ==> q.browser->Some_0.cwd == p.browser->Some_0.cwd.parent()->Some_0
            }
        }),
{
    reveal(PickerView::moused);
    reveal(PickerView::pointed);
    reveal(PickerView::screen_pointed);
    reveal(PickerView::path_clicked);
    reveal(PickerView::browsed_at);
    the_target_there(p.mouse.paths, mouse, k, 0);
}

/// A left press on a step of the path goes to that folder: a search starts from it
/// with what is typed kept, and browse shows it.
pub proof fn a_press_on_the_path_goes_to_that_step(
    p: PickerView,
    mouse: MouseEvent,
    k: int,
    world: WorldView,
)
    requires
        screen_takes_presses(p, world),
        forall|j: int|
            0 <= j < p.mouse.paths.len() ==> !on((#[trigger] p.mouse.paths[j]).area, mouse),
        forall|j: int| 0 <= j < p.mouse.nav.len() ==> !on((#[trigger] p.mouse.nav[j]).0, mouse),
        0 <= k < p.mouse.crumbs.len(),
        fits(p.mouse.crumbs[k].area),
        on(p.mouse.crumbs[k].area, mouse),
        forall|j: int| 0 <= j < k ==> !on((#[trigger] p.mouse.crumbs[j]).area, mouse),
        mouse.kind == MouseKind::Down(Button::Left),
    ensures
        ({
            let dir = p.mouse.crumbs[k].path;
            let (q, step) = p.moused(mouse, world);
            &&& step == StepView::Continue
            &&& q.mode == p.mode && q.query == p.query && q.tree_view == p.tree_view
            &&& p.mode != Mode::Browse && !dir.same(p.root) ==> q.root == dir
            &&& p.mode != Mode::Browse && dir.same(p.root) ==> q.root == p.root
            &&& p.mode == Mode::Browse && p.browser is Some ==> {
                &&& q.root == p.root
                &&& !dir.same(p.browser->Some_0.cwd) && world.disk.is_dir(dir)
                    ==> q.browser->Some_0.cwd == dir
                &&& dir.same(p.browser->Some_0.cwd) ==> q.browser == p.browser
            }
        }),
{
    reveal(PickerView::moused);
    reveal(PickerView::pointed);
    reveal(PickerView::screen_pointed);
    reveal(PickerView::header_clicked);
    reveal(PickerView::crumb_clicked);
    reveal(PickerView::root_moved);
    no_target_there(p.mouse.paths, mouse, 0);
    no_button_there(p.mouse.nav, mouse, 0);
    the_target_there(p.mouse.crumbs, mouse, k, 0);
}

/// A left press on a navigation button does what the key for it does: back,
/// forward, or a level up.
pub proof fn a_press_on_a_button_navigates(
    p: PickerView,
    mouse: MouseEvent,
    k: int,
    world: WorldView,
)
    requires
        screen_takes_presses(p, world),
        p.mode != Mode::Browse,
        forall|j: int|
            0 <= j < p.mouse.paths.len() ==> !on((#[trigger] p.mouse.paths[j]).area, mouse),
        0 <= k < p.mouse.nav.len(),
        fits(p.mouse.nav[k].0),
        on(p.mouse.nav[k].0, mouse),
        forall|j: int| 0 <= j < k ==> !on((#[trigger] p.mouse.nav[j]).0, mouse),
        mouse.kind == MouseKind::Down(Button::Left),
    ensures
        ({
            let nav = p.mouse.nav[k].1;
            let q = p.moused(mouse, world).0;
            &&& q.mode == p.mode
            &&& nav == Nav::Up && p.root.parent() is Some ==> q.root == p.root.parent()->Some_0
            &&& nav == Nav::Back && p.roots_back.len() > 0 ==> q.root == p.roots_back.last().root
                && q.query == p.roots_back.last().query
            &&& nav == Nav::Forward && p.roots_forward.len() > 0 ==> q.root
                == p.roots_forward.last().root && q.query == p.roots_forward.last().query
        }),
{
    reveal(PickerView::moused);
    reveal(PickerView::pointed);
    reveal(PickerView::screen_pointed);
    reveal(PickerView::header_clicked);
    reveal(PickerView::navigated);
    reveal(PickerView::search_navigated);
    reveal(PickerView::root_moved);
    reveal(PickerView::root_retraced);
    no_target_there(p.mouse.paths, mouse, 0);
    the_button_there(p.mouse.nav, mouse, k, 0);
}

/// Whether the mouse is over a list of places that takes presses, and over none of
/// the lists' buttons.
pub open spec fn over_the_places(p: PickerView, mouse: MouseEvent, world: WorldView) -> bool {
    &&& key_laws::in_places(p)
    &&& p.config.mouse
    &&& p.clicks_blocked_since is None
    &&& !on(p.mouse.header, mouse)
}

/// With a list of places open, a left press on one of its rows selects it, the
/// wheel moves the selection by three, and a press anywhere else closes the list.
/// The screen under it stays.
pub proof fn the_mouse_in_a_list_of_places(
    p: PickerView,
    mouse: MouseEvent,
    row: int,
    world: WorldView,
)
    requires
        over_the_places(p, mouse, world),
        fits(p.mouse.places.area),
        row == p.mouse.places.first + (mouse.row - p.mouse.places.area.y),
        0 <= row < p.mouse.places.count <= u32::MAX,
    ensures
        ({
            let mode = p.places->Some_0;
            let was = p.source(mode)->Some_0;
            let (q, step) = p.moused(mouse, world);
            let now = q.source(mode)->Some_0;
            let count = p.mouse.places.count;
            &&& mouse.kind == MouseKind::Down(Button::Left) && on(p.mouse.places.area, mouse)
                && p.last_click is None ==> {
                &&& q.source(mode) == Some(SourceView { selected: row as u32, ..was })
                &&& key_laws::stays_put(p, q)
                &&& step == StepView::Continue
            }
            &&& mouse.kind is Down && !on(p.mouse.places.area, mouse) ==> {
                &&& q.places is None
                &&& q.mode == p.mode && q.root == p.root && q.query == p.query
                &&& q.browser == p.browser
                &&& q.sources == p.sources
                &&& step == StepView::Continue
            }
            &&& mouse.kind is ScrollUp && was.selected >= 3 ==> now.selected == was.selected - 3
            &&& mouse.kind is ScrollUp && was.selected < 3 ==> now.selected == 0
            &&& mouse.kind is ScrollDown && was.selected + 3 < count ==> now.selected
                == was.selected + 3
            &&& mouse.kind is ScrollDown && was.selected + 3 >= count && was.selected + 3
                <= u32::MAX ==> now.selected == count - 1
            &&& mouse.kind is ScrollUp || mouse.kind is ScrollDown ==> key_laws::stays_put(p, q)
                && step == StepView::Continue
        }),
{
    reveal(PickerView::moused);
    reveal(PickerView::pointed);
    reveal(PickerView::places_pointed);
    reveal(PickerView::place_clicked);
    reveal(PickerView::places_wheeled);
    reveal(PickerView::looked);
    reveal(PickerView::selection);
}

/// A second left press on a place within half a second goes to it, as Right does.
pub proof fn a_double_press_on_a_place_goes_there(
    p: PickerView,
    mouse: MouseEvent,
    row: int,
    world: WorldView,
)
    requires
        over_the_places(p, mouse, world),
        fits(p.mouse.places.area),
        p.mode != Mode::Browse,
        on(p.mouse.places.area, mouse),
        row == p.mouse.places.first + (mouse.row - p.mouse.places.area.y),
        0 <= row < p.mouse.places.count <= u32::MAX,
        mouse.kind == MouseKind::Down(Button::Left),
        world.entry_at(p.source(p.places->Some_0)->Some_0.id, row as u32) is Some,
        ({
            let path = world.entry_at(
                p.source(p.places->Some_0)->Some_0.id,
                row as u32,
            )->Some_0.path(p.on);
            &&& p.last_click is Some
            &&& p.last_click->Some_0.path == path
            &&& p.last_click->Some_0.column == mouse.column
            &&& p.last_click->Some_0.row == mouse.row
            &&& p.last_click->Some_0.at <= world.now <= p.last_click->Some_0.at + 500
            &&& world.disk.is_dir(path)
            &&& world.refusal(path) is None
            &&& !path.same(p.root)
            &&& !path.is_empty()
        }),
    ensures
        ({
            let path = world.entry_at(
                p.source(p.places->Some_0)->Some_0.id,
                row as u32,
            )->Some_0.path(p.on);
            let q = p.moused(mouse, world).0;
            &&& q.places is None
            &&& q.mode == p.mode
            &&& q.root == path
            &&& q.query.len() == 0
        }),
{
    let mode = p.places->Some_0;
    let path = world.entry_at(p.source(mode)->Some_0.id, row as u32)->Some_0.path(p.on);
    let q = p.clicks_taken().quiet();
    let r = q.selected_in(mode, row as u32);
    assert(p.moused(mouse, world).0 == q.place_clicked(row, mouse, world)) by {
        reveal(PickerView::moused);
        reveal(PickerView::pointed);
        reveal(PickerView::places_pointed);
    }
    assert(r.looked(world.disk) == r) by {
        reveal(PickerView::looked);
    }
    assert(r.selection(world) == Some(path)) by {
        reveal(PickerView::selection);
        reveal(PickerView::looked);
    }
    let s = r.unclicked();
    assert(q.place_clicked(row, mouse, world) == s.place_righted(world)) by {
        reveal(PickerView::place_clicked);
    }
    assert(s.place_righted(world) == s.place_taken(path, world)) by {
        reveal(PickerView::place_righted);
        reveal(PickerView::selection);
        reveal(PickerView::looked);
    }
    crate::laws::a_place_taken_can_be_gone_back_from(s, path, world);
}

} // verus!
