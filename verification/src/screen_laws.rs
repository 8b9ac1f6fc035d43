//! What the screens show, and that they show what the keys and the mouse act on.

use vstd::prelude::*;

use crate::browse::{self, BrowserView};
use crate::browse_screen::{self, Columns};
use crate::draw::{self, ListRowView, RowMarks};
use crate::drawn::DrawnView;
use crate::fs_path::{PathView, Platform};
use crate::header::{self, Nav};
use crate::icons;
use crate::init::{self, InitError};
use crate::key_menu::KeyMenuView;
use crate::keys::{KeyCode, KeyEvent};
use crate::mode::{Mode, Shell};
use crate::mouse_laws;
use crate::moves;
use crate::names::{self, NamesView, PathDir, Role};
use crate::picker::{PickerView, RootVisitView, StepView};
use crate::pointer;
use crate::render::{self, Areas, ShownRowView, Tally};
use crate::screen::{Button, MouseEvent, MouseKind, Paint, Rect};
use crate::search_screen;
use crate::source::SourceView;
use crate::tree::{self, NodeView};
use crate::world::WorldView;

verus! {

/// Whether rows are drawn somewhere on a screen.
pub open spec fn draws_rows(drawn: Seq<DrawnView>, area: Rect, rows: Seq<ListRowView>) -> bool {
    exists|m: int|
        0 <= m < drawn.len() && #[trigger] drawn[m] == (DrawnView::Rows { area, rows })
}

/// The rows drawn in the columns are those from the first that takes clicks on, the
/// selected one is among them, and it alone stands out.
pub proof fn the_columns_draw_what_is_clicked(
    p: PickerView,
    columns: Columns,
    world: WorldView,
    after: PickerView,
    drawn: Seq<DrawnView>,
) -> (rows: Seq<ListRowView>)
    requires
        p.wf(),
        p.browser is Some,
        p.browse_rendered_in(columns, world, after, drawn),
        columns.current.height > 0,
        0 < p.browser->Some_0.rows.len() <= usize::MAX,
        p.browser->Some_0.selected < p.browser->Some_0.rows.len(),
    ensures
        draws_rows(drawn, columns.current, rows),
        after.browser is Some,
        after.browser->Some_0.selected == p.browser->Some_0.selected,
        after.browser->Some_0.rows == p.browser->Some_0.rows,
        after.mouse.rows.area == columns.current,
        after.mouse.rows.count == p.browser->Some_0.rows.len(),
        after.mouse.rows.first <= p.browser->Some_0.selected < after.mouse.rows.first
            + columns.current.height,
        p.browser->Some_0.rows.len() - after.mouse.rows.first >= columns.current.height
            ==> rows.len() == columns.current.height,
        p.browser->Some_0.rows.len() - after.mouse.rows.first < columns.current.height
            ==> rows.len() == p.browser->Some_0.rows.len() - after.mouse.rows.first,
        forall|k: int|
            0 <= k < rows.len() ==> ((#[trigger] rows[k]).paint == Paint::Current <==> k
                == p.browser->Some_0.selected - after.mouse.rows.first),
{
    let q = p.browse_ready(world, columns.current.height);
    let b = q.browser->Some_0;
    let dir = q.browse_dir(world);
    draw::the_window_shows_the_selection(
        p.browser->Some_0.first as int,
        p.browser->Some_0.selected as int,
        p.browser->Some_0.rows.len() as int,
        columns.current.height as int,
    );
    let rows = q.current_rows(b, columns.current);
    let top = q.browse_top(b, columns);
    let left = q.parent_column(b, columns.parent);
    let m = top.len() + left.len();
    assert(drawn[m as int] == (DrawnView::Rows { area: columns.current, rows }));
    rows
}

/// The rows drawn of a search are marked where they are selected, and those drawn
/// are those that take clicks.
pub proof fn a_search_draws_what_is_clicked(
    p: PickerView,
    areas: Areas,
    tally: Tally,
    rows: Seq<ShownRowView>,
    dir: Option<PathView>,
    k: int,
)
    requires
        p.wf(),
        p.mode != Mode::Browse,
        p.source(p.mode) is Some,
        p.source(p.mode)->Some_0.scan_error is None,
        areas.rows.height > 0,
        0 < tally.count,
        0 <= k < rows.len(),
    ensures
        ({
            let source = p.source(p.mode)->Some_0;
            let drawn = p.search_drawn(areas, tally, rows, dir);
            let at = p.search_clickable(areas, tally, dir).rows;
            &&& at.area == areas.rows && at.first == source.first && at.count == tally.count
            &&& exists|m: int|
                #![trigger drawn[m]]
                0 <= m < drawn.len() && drawn[m] is Rows && drawn[m]->Rows_area == areas.rows
                    && drawn[m]->rows.len() == rows.len() && (drawn[m]->rows[k].paint
                    == Paint::Current <==> rows[k].row == source.selected)
        }),
{
    reveal(PickerView::search_drawn);
    reveal(PickerView::search_clickable);
    let drawn = p.search_drawn(areas, tally, rows, dir);
    let before = p.preview_beside(areas, dir) + p.search_top(areas, tally);
    let m = before.len() as int;
    assert(drawn[m] == p.search_list(areas, tally, rows)[0]);
}

/// The rows of a list that are drawn are the known ones in view, each once and in
/// order.
pub proof fn the_rows_in_view_are_drawn(
    world: WorldView,
    source: u64,
    from: u32,
    to: int,
    row: u32,
)
    requires
        from <= row < to <= u32::MAX,
    ensures
        world.entry_at(source, row) is Some ==> render::known_rows(
            world,
            source,
            from,
            to,
        ).contains((row, world.entry_at(source, row)->Some_0)),
        forall|i: int|
            0 <= i < render::known_rows(world, source, from, to).len() ==> from <= (
            #[trigger] render::known_rows(world, source, from, to)[i]).0 < to,
    decreases to - from,
{
    let before = render::known_rows(world, source, from, to - 1);
    let now = render::known_rows(world, source, from, to);
    if row < to - 1 {
        the_rows_in_view_are_drawn(world, source, from, to - 1, row);
        if world.entry_at(source, row) is Some {
            let e = (row, world.entry_at(source, row)->Some_0);
            let i = choose|i: int| 0 <= i < before.len() && before[i] == e;
            assert(now[i] == e);
        }
    } else {
        if from < to - 1 {
            the_rows_in_view_are_drawn(world, source, from, to - 1, from);
        }
        if world.entry_at(source, row) is Some {
            assert(now.last() == (row, world.entry_at(source, row)->Some_0));
        }
    }
}

/// While a walk goes on a sign turns before the counts, and none once it is over.
/// A list that stopped at its limit says so, and one that did not says nothing.
pub proof fn a_search_says_how_far_it_is(
    area: Rect,
    source: SourceView,
    tally: Tally,
    frame: u32,
)
    ensures
        ({
            let line = search_screen::search_info(area, source, tally, frame);
            &&& line is Line && line->Line_area == area && line->Line_pieces.len() == 3
            &&& source.scan_done <==> line->Line_pieces[0].text[0] == ' '
            &&& source.truncated <==> line->Line_pieces[1].text.len() > 0
            &&& line->Line_pieces[0].text.subrange(
                2,
                2 + crate::text::decimal(tally.count as nat).len() as int,
            ) == crate::text::decimal(tally.count as nat)
        }),
{
    reveal_strlit(" ");
    reveal_strlit("");
    reveal_strlit("/");
    reveal_strlit("stopped at scan_limit, ^A: collect the rest ");
    let counts = search_screen::search_counts(source, tally, frame);
    let digits = crate::text::decimal(tally.count as nat);
    assert(counts.subrange(2, 2 + digits.len() as int) =~= digits);
}

/// A favorite has its star wherever it is listed, icons or no icons; without icons
/// nothing else has any mark.
pub proof fn a_star_marks_a_favorite(marks: RowMarks, name: Seq<char>, is_dir: bool)
    ensures
        marks.favorite ==> marks.icon(name, is_dir) == icons::STAR@,
        !marks.favorite && !marks.icons ==> marks.icon(name, is_dir).len() == 0,
{
    reveal_strlit("");
}

/// The buttons that can be pressed are those that lead somewhere.
pub proof fn buttons_lead_somewhere(
    p: PickerView,
    areas: Areas,
    tally: Tally,
    dir: Option<PathView>,
    nav: Nav,
)
    requires
        areas.header.x + 9 <= areas.header.end_x(),
    ensures
        ({
            let nav_buttons = p.search_clickable(areas, tally, dir).nav;
            let pressed = exists|k: int|
                0 <= k < nav_buttons.len() && (#[trigger] nav_buttons[k]).1 == nav;
            &&& nav == Nav::Back ==> (pressed <==> p.roots_back.len() > 0)
            &&& nav == Nav::Forward ==> (pressed <==> p.roots_forward.len() > 0)
            &&& nav == Nav::Up ==> (pressed <==> p.root.names.len() > 0)
        }),
{
    reveal(PickerView::search_clickable);
    let buttons = p.search_clickable(areas, tally, dir).nav;
    let ways = p.search_ways();
    let back = header::nav_target(areas.header, 0, Nav::Back, ways.back);
    let forward = header::nav_target(areas.header, 1, Nav::Forward, ways.forward);
    let up = header::nav_target(areas.header, 2, Nav::Up, ways.up);
    assert(buttons == back + forward + up);
    if ways.back {
        assert(buttons[0].1 == Nav::Back);
    }
    if ways.forward {
        assert(buttons[back.len() as int].1 == Nav::Forward);
    }
    if ways.up {
        assert(buttons[(back.len() + forward.len()) as int].1 == Nav::Up);
    }
}

/// The steps of a path lead to the folders it goes through, the last one to the
/// path itself, and each is called by its name.
pub proof fn the_steps_of_a_path_lead_there(path: PathView, on: Platform, k: int)
    requires
        0 <= k <= path.names.len(),
    ensures
        ({
            let steps = header::steps(path, on);
            &&& steps.len() == path.names.len() + 1
            &&& steps[k].1.top == path.top
            &&& steps[k].1.names == path.names.take(k)
            &&& k == path.names.len() ==> steps[k].1 == path
            &&& k > 0 && path.names[k - 1] != seq!['.'] && path.names[k - 1] != seq!['.', '.']
                ==> steps[k].0 == path.names[k - 1]
        }),
{
    assert(path.names.take(path.names.len() as int) =~= path.names);
}

/// What is said takes the place of the hints, and a failure looks apart from a
/// confirmation.
pub proof fn what_is_said_hides_the_hints(said: Seq<char>, hints: Seq<char>)
    ensures
        draw::footer(None, hints).text == hints,
        said.is_prefix_of(draw::footer(Some(said), hints).text.skip(1)),
        "Cannot"@.is_prefix_of(said) ==> draw::footer(Some(said), hints).paint
            == Paint::NoticeBad,
        said.len() > 0 && said[0] != 'C' && said[0] != 'N' ==> draw::footer(
            Some(said),
            hints,
        ).paint == Paint::Notice,
{
    reveal_strlit(" ");
    reveal_strlit("Cannot");
    reveal_strlit("No ");
    let shown = draw::footer(Some(said), hints).text;
    assert(shown.skip(1).take(said.len() as int) =~= said);
    if "Cannot"@.is_prefix_of(said) {
        assert("Cannot"@[0] == said.subrange(0, "Cannot"@.len() as int)[0]);
    }
    if "No "@.is_prefix_of(said) {
        assert("No "@[0] == said.subrange(0, "No "@.len() as int)[0]);
    }
}

/// A name that fits is shown whole, and one that does not is cut.
pub proof fn what_fits_is_shown_whole(text: Seq<char>, width: usize)
    requires
        width > 0,
    ensures
        crate::width::text_width(text) <= width ==> draw::fitted(text, width) == text
            && draw::ending(text, width) == text,
{
}

/// A left press on a tab goes to its screen: a search, the columns or the tree.
pub proof fn a_press_on_a_tab_goes_there(p: PickerView, mouse: MouseEvent, world: WorldView)
    requires
        mouse_laws::screen_takes_presses(p, world),
        mouse.kind == MouseKind::Down(Button::Left),
        mouse_laws::fits(p.mouse.header),
        mouse_laws::on(p.mouse.header, mouse),
        forall|j: int|
            0 <= j < p.mouse.paths.len() ==> !mouse_laws::on(
                (#[trigger] p.mouse.paths[j]).area,
                mouse,
            ),
        forall|j: int|
            0 <= j < p.mouse.nav.len() ==> !mouse_laws::on((#[trigger] p.mouse.nav[j]).0, mouse),
        forall|j: int|
            0 <= j < p.mouse.crumbs.len() ==> !mouse_laws::on(
                (#[trigger] p.mouse.crumbs[j]).area,
                mouse,
            ),
    ensures
        ({
            let at = mouse.column - p.mouse.modes_x;
            let q = p.moused(mouse, world).0;
            &&& 0 <= at < 4 ==> pointer::tab_at(p.mouse.modes_x, mouse.column, 0) == Some(
                (Mode::Dirs, false),
            )
            &&& 0 <= at < 25 ==> q == p.clicks_taken().quiet().tab_selected(
                pointer::tab_at(p.mouse.modes_x, mouse.column, 0)->Some_0,
                world,
            ) || at == 4 || 10 <= at < 14 || at == 20
            &&& 5 <= at < 10 ==> pointer::tab_at(p.mouse.modes_x, mouse.column, 0) == Some(
                (Mode::Files, false),
            )
            &&& 14 <= at < 20 ==> pointer::tab_at(p.mouse.modes_x, mouse.column, 0) == Some(
                (Mode::Browse, false),
            )
            &&& 21 <= at < 25 ==> pointer::tab_at(p.mouse.modes_x, mouse.column, 0) == Some(
                (Mode::Browse, true),
            )
        }),
{
    reveal(PickerView::moused);
    reveal(PickerView::pointed);
    reveal(PickerView::screen_pointed);
    reveal(PickerView::header_clicked);
    header::where_the_tabs_are();
    reveal_with_fuel(pointer::tab_at, 6);
    mouse_laws::no_target_there(p.mouse.paths, mouse, 0);
    mouse_laws::no_target_there(p.mouse.crumbs, mouse, 0);
    mouse_laws::no_button_there(p.mouse.nav, mouse, 0);
}

/// A tab gone to is the screen that is on.
pub proof fn a_tab_is_the_screen_that_is_on(p: PickerView, tab: header::Tab, world: WorldView)
    requires
        p.wf(),
        tab == (Mode::Dirs, false) || tab == (Mode::Files, false) || tab == (Mode::Browse, false)
            || tab == (Mode::Browse, true),
        p.browser is Some,
    ensures
        p.tab_selected(tab, world).mode == tab.0,
        tab.0 == Mode::Browse ==> p.tab_selected(tab, world).tree_view == tab.1,
{
    reveal(PickerView::tab_selected);
    reveal(PickerView::switched);
    reveal(PickerView::departed);
    reveal(PickerView::arrived);
    reveal(PickerView::browse_left);
    reveal(PickerView::browse_entered);
    reveal(PickerView::tree_toggled);
    reveal(PickerView::root_moved);
}

/// In the panel of keys, a left press on a row takes that row: those above the rule
/// are the first five, those below it come after. On the rule it takes none, and
/// outside the panel it closes it.
pub proof fn a_press_in_the_panel_takes_its_row(keys: KeyMenuView, mouse: MouseEvent, line: int)
    requires
        keys.tabs == 5,
        mouse.kind == MouseKind::Down(Button::Left),
        mouse_laws::fits(keys.mouse_rows),
        line == mouse.row - keys.mouse_rows.y,
    ensures
        ({
            let (now, code) = keys.clicked(mouse);
            let inside = mouse_laws::on(keys.mouse_rows, mouse);
            &&& now.entries == keys.entries
            &&& inside && line < 5 && line < keys.entries.len() ==> now.selected == line && code
                == Some(KeyCode::Enter)
            &&& inside && line == 5 ==> now == keys && code is None
            &&& inside && 5 < line <= keys.entries.len() ==> now.selected == line - 1 && code
                == Some(KeyCode::Enter)
            &&& !inside && !mouse_laws::on(keys.mouse_panel, mouse) ==> now == keys && code
                == Some(KeyCode::Esc)
        }),
{
}

/// In the panel of keys Up and Down move by a row, as far as there are rows, and
/// Enter runs the row selected.
pub proof fn keys_move_in_the_panel(keys: KeyMenuView, key: KeyEvent)
    requires
        keys.wf(),
        keys.entries.len() <= usize::MAX,
    ensures
        ({
            let (now, decision) = keys.handled(key);
            &&& now.entries == keys.entries
            &&& key.code == KeyCode::Up && keys.selected > 0 ==> now.selected == keys.selected - 1
            &&& key.code == KeyCode::Up && keys.selected == 0 ==> now.selected == 0
            &&& key.code == KeyCode::Down && keys.selected + 1 < keys.entries.len()
                ==> now.selected == keys.selected + 1
            &&& key.code == KeyCode::Down && keys.selected + 1 == keys.entries.len()
                ==> now.selected == keys.selected
            &&& key.code == KeyCode::Enter ==> decision == crate::key_menu::Decision::Run(
                keys.entries[keys.selected as int].command,
            )
            &&& key.code == KeyCode::Esc ==> decision == crate::key_menu::Decision::Close
        }),
{
    keys.what_always_holds();
}

/// F5 in the tree reads it again from where it is, with what is open kept open.
pub proof fn f5_reads_the_tree_again(p: PickerView, key: KeyEvent, world: WorldView)
    requires
        p.wf(),
        p.naming is None && p.menu is None && p.keys is None && p.places is None,
        p.mode == Mode::Browse && p.tree_view,
        p.browser is Some,
        p.tree is Some,
        p.tree->Some_0.root.same(p.browser->Some_0.cwd),
        key.code == KeyCode::F(5),
    ensures
        ({
            let (q, step) = p.keyed(key, world);
            &&& step == StepView::ReloadPins
            &&& q.tree == Some(tree::refreshed(p.tree->Some_0, world.disk))
            &&& q.preview is None
            &&& q.mode == Mode::Browse && q.tree_view
            &&& q.tree_query == p.tree_query
            &&& q.browser->Some_0.cwd == p.browser->Some_0.cwd
        }),
{
    reveal(PickerView::keyed);
    reveal(PickerView::main_keyed);
    reveal(PickerView::screen_refreshed);
}

/// The commands are the one that goes to folders, the same with an f for files,
/// and with zoxide its two, and no others.
pub proof fn the_commands_there_are(names: NamesView)
    ensures
        ({
            let commands = names.commands();
            &&& commands[0] == (names.base, Role::Dirs)
            &&& commands[1].1 == Role::Files
            &&& commands[1].0.len() == names.base.len() + 1
            &&& commands[1].0.last() == 'f'
            &&& names.base.is_prefix_of(commands[1].0)
            &&& !names.zoxide ==> commands.len() == 2
            &&& names.zoxide ==> commands.len() == 4 && commands[2] == ("zi"@, Role::Recent)
                && commands[3] == ("z"@, Role::Jump)
        }),
{
}

proof fn the_first_folder_with(dirs: Seq<PathDir>, command: int, k: int, from: int)
    requires
        0 <= from <= k < dirs.len(),
        names::program_in(dirs[k], command) is Some,
        forall|j: int| 0 <= j < k ==> names::program_in(#[trigger] dirs[j], command) is None,
    ensures
        names::first_with(dirs, command, from) == Some(k),
    decreases k - from,
{
    if from < k {
        assert(names::program_in(dirs[from], command) is None);
        the_first_folder_with(dirs, command, k, from + 1);
    }
}

/// A name that a program on PATH has already is reported with the first such
/// program, and whether that comes before the one written.
pub proof fn a_name_taken_is_reported(
    commands: Seq<(Seq<char>, Role)>,
    n: int,
    dirs: Seq<PathDir>,
    ours: Option<usize>,
    k: int,
)
    requires
        0 < n <= commands.len(),
        0 <= k < dirs.len(),
        !dirs[k].skip,
        n - 1 < dirs[k].programs@.len(),
        dirs[k].programs@[n - 1] is Some,
        forall|j: int| 0 <= j < k ==> names::program_in(#[trigger] dirs[j], n - 1) is None,
    ensures
        ({
            let taken = names::taken_for(commands, n, dirs, ours);
            &&& taken.len() > 0
            &&& taken.last().name == commands[n - 1].0
            &&& taken.last().path == dirs[k].programs@[n - 1]->Some_0@
            &&& ours is None ==> taken.last().first is None
            &&& ours is Some && k < ours->Some_0 ==> taken.last().first == Some(true)
            &&& ours is Some && k >= ours->Some_0 ==> taken.last().first == Some(false)
        }),
{
    the_first_folder_with(dirs, n - 1, k, 0);
}

/// As more matches arrive in the tree's search, a row selected by hand stays
/// selected while it is among them; otherwise the best match is.
pub proof fn a_row_chosen_by_hand_stays(
    p: PickerView,
    matches: Seq<crate::moves::MatchView>,
    k: int,
)
    requires
        p.tree is Some,
        p.found is Some,
        p.found_keep,
        !p.found->Some_0.nodes[p.found->Some_0.selected as int].path.is_empty(),
        p.rebuilt(matches).found->Some_0.nodes.len() <= usize::MAX,
        0 <= k < p.rebuilt(matches).found->Some_0.nodes.len(),
        p.rebuilt(matches).found->Some_0.nodes[k].path
            == p.found->Some_0.nodes[p.found->Some_0.selected as int].path,
    ensures
        ({
            let was = p.found->Some_0;
            let now = p.rebuilt(matches).found->Some_0;
            now.nodes[now.selected as int].path == was.nodes[was.selected as int].path
        }),
{
    reveal(PickerView::rebuilt);
    let was = p.found->Some_0;
    let now = p.rebuilt(matches).found->Some_0;
    tree::a_row_is_found_by_its_path(now.nodes, was.nodes[was.selected as int].path, k);
}

/// The rows drawn of the tree are those that take clicks, and the selected one alone
/// stands out.
pub proof fn the_tree_draws_what_is_clicked(
    p: PickerView,
    areas: Areas,
    tally: Tally,
    world: WorldView,
    after: PickerView,
    drawn: Seq<DrawnView>,
    k: int,
)
    requires
        p.wf(),
        p.browser is Some,
        p.found is None,
        p.tree is Some,
        p.tree->Some_0.root.same(p.browser->Some_0.cwd),
        0 < p.tree->Some_0.nodes.len() <= usize::MAX,
        p.tree->Some_0.selected < p.tree->Some_0.nodes.len(),
        areas.rows.height > 0,
        p.tree_rendered_in(areas, tally, world, after, drawn),
        0 <= k < areas.rows.height,
        after.mouse.rows.first + k < p.tree->Some_0.nodes.len(),
    ensures
        ({
            let was = p.tree->Some_0;
            let at = after.mouse.rows;
            &&& at.area == areas.rows && at.count == was.nodes.len()
            &&& at.first <= was.selected < at.first + areas.rows.height
            &&& after.tree is Some && after.tree->Some_0.nodes == was.nodes
            &&& after.tree->Some_0.selected == was.selected
            &&& drawn.last() is Rows && drawn.last()->Rows_area == areas.rows
            &&& k < drawn.last()->rows.len() <= areas.rows.height
            &&& drawn.last()->rows[k].paint == Paint::Current <==> at.first + k == was.selected
        }),
{
    let was = p.tree->Some_0;
    draw::the_window_shows_the_selection(
        was.first as int,
        was.selected as int,
        was.nodes.len() as int,
        areas.rows.height as int,
    );
}

/// In a list of places, the row selected alone stands out, and the rows drawn are
/// those that take clicks.
pub proof fn a_list_of_places_draws_what_is_clicked(
    p: PickerView,
    mode: Mode,
    area: Rect,
    tally: Tally,
    rows: Seq<ShownRowView>,
    k: int,
)
    requires
        p.source(mode) is Some,
        p.source(mode)->Some_0.scan_error is None,
        area.height > 0,
        0 < tally.count <= tally.total,
        0 <= k < rows.len(),
    ensures
        ({
            let source = p.source(mode)->Some_0;
            let drawn = p.places_list(mode, area, tally, rows);
            let at = p.places_rows_at(mode, area, tally);
            &&& at.area == area && at.first == source.first && at.count == tally.count
            &&& drawn.len() == 1 && drawn[0] is Rows && drawn[0]->Rows_area == area
            &&& drawn[0]->rows.len() == rows.len()
            &&& drawn[0]->rows[k].paint == Paint::Current <==> rows[k].row == source.selected
        }),
{
}

/// A line of a listing beside the rows leads to what is listed on it.
pub proof fn a_line_beside_the_rows_leads_there(
    names: Seq<Seq<char>>,
    dir: PathView,
    area: Rect,
    on: Platform,
    k: int,
)
    requires
        0 <= k < names.len(),
        area.y + k < u16::MAX,
        area.x + area.width <= u16::MAX,
    ensures
        ({
            let targets = render::name_targets(names, dir, area, on);
            &&& targets.len() == names.len()
            &&& targets[k].path == dir.join(names[k], on)
            &&& targets[k].area.x == area.x && targets[k].area.width == area.width
            &&& targets[k].area.y == area.y + k && targets[k].area.height == 1
        }),
{
}

/// The preview draws as many names as there is room for, from the first, and only
/// where it is of the folder shown.
pub proof fn the_preview_fits_its_room(p: PickerView, dir: PathView, height: u16)
    requires
        p.preview is Some,
    ensures
        ({
            let shown = render::preview_shown(p, dir, height);
            let names = p.preview->Some_0.names;
            &&& p.preview->Some_0.dir != dir ==> shown.len() == 0
            &&& p.preview->Some_0.dir == dir ==> shown.is_prefix_of(names)
            &&& p.preview->Some_0.dir == dir && names.len() <= height ==> shown == names
            &&& p.preview->Some_0.dir == dir && names.len() > height ==> shown.len() == height
        }),
{
    let shown = render::preview_shown(p, dir, height);
    if p.preview->Some_0.dir == dir {
        assert(shown =~= p.preview->Some_0.names.subrange(0, shown.len() as int));
    }
}

/// No two screens or lists have one name.
pub proof fn every_mode_has_its_name(a: Mode, b: Mode)
    requires
        a != b,
    ensures
        a.name() != b.name(),
        Mode::Dirs.name() == "dirs"@,
        Mode::Files.name() == "files"@,
        Mode::Browse.name() == "browse"@,
        Mode::Recent.name() == "recent"@,
        Mode::Favorites.name() == "favorites"@,
{
    reveal_strlit("dirs");
    reveal_strlit("files");
    reveal_strlit("browse");
    reveal_strlit("recent");
    reveal_strlit("favorites");
    assert("dirs"@.len() == 4);
    assert("files"@.len() == 5);
    assert("browse"@.len() == 6 && "recent"@.len() == 6);
    assert("browse"@[0] == 'b' && "recent"@[0] == 'r');
    assert("favorites"@.len() == 9);
}

/// Scripts go to the folder named, or else to the one the program is in, with the
/// ending their shell takes; without a folder asked for nothing is written, and for
/// bash there are none to write.
pub proof fn where_scripts_go(shell: Shell, named: PathView, home: PathView)
    ensures
        init::planned(shell, None, Some(home)) == Ok::<Option<init::ScriptsView>, InitError>(None),
        shell == Shell::Bash ==> init::planned(shell, Some(Some(named)), Some(home)) is Err,
        shell != Shell::Bash ==> {
            let there = init::planned(shell, Some(Some(named)), Some(home));
            let beside = init::planned(shell, Some(None), Some(home));
            &&& there is Ok && there->Ok_0 is Some && there->Ok_0->Some_0.dir == named
            &&& beside is Ok && beside->Ok_0 is Some && beside->Ok_0->Some_0.dir == home
            &&& init::planned(shell, Some(None), None) is Err
            &&& shell == Shell::Cmd ==> there->Ok_0->Some_0.ext == ".cmd"@
            &&& shell != Shell::Cmd ==> there->Ok_0->Some_0.ext == ".ps1"@
        },
{
}

/// A row of a search has the star of a favorite when the folder it leads to is one,
/// which for a file is the folder it is in.
pub proof fn a_search_stars_the_folder_of_a_row(p: PickerView, row: ShownRowView, selected: u32)
    ensures
        ({
            let path = row.entry.path(p.on);
            let folder = if p.mode == Mode::Files && path.names.len() > 0 {
                PathView { top: path.top, names: path.names.drop_last() }
            } else {
                path
            };
            let drawn = p.search_row(row, selected);
            &&& p.pinned.holds(folder) ==> drawn.pieces.len() > 1 && drawn.pieces[1].text
                == icons::STAR@
            &&& row.row == selected ==> drawn.pieces[0] == draw::pointer(true)
            &&& row.row != selected ==> drawn.pieces[0] == draw::pointer(false)
            &&& draw::pointer(true) != draw::pointer(false)
        }),
{
    icons::the_star_is_there();
}

/// In the columns and in the tree a pinned folder has its star, and so has a pinned
/// place in a list of places.
pub proof fn pinned_folders_have_their_star(
    p: PickerView,
    b: BrowserView,
    row: int,
    node: NodeView,
    place: ShownRowView,
    selected: u32,
    current: bool,
    width: u16,
)
    requires
        width >= 2 + crate::width::text_width(icons::STAR@),
    ensures
        ({
            let item = b.items[b.rows[row].index as int];
            &&& item.is_dir && p.pinned.holds(b.cwd.join(item.name, p.on)) ==> p.current_row(
                b,
                row,
                width,
            ).pieces[1].text == icons::STAR@
            &&& node.is_dir && p.pinned.holds(node.path) ==> p.tree_row(
                node,
                current,
                width,
            ).pieces[2].text == icons::STAR@
            &&& p.pinned.holds(place.entry.path(p.on)) ==> p.place_row(
                place,
                selected,
                width,
            ).pieces[1].text == icons::STAR@
        }),
{
    icons::the_star_is_there();
}

/// What is typed is drawn after the prompt.
pub proof fn what_is_typed_is_drawn(area: Rect, typed: Seq<char>)
    ensures
        render::prompt_line(area, typed) is Line,
        render::prompt_line(area, typed)->Line_area == area,
        render::prompt_line(area, typed)->Line_pieces.len() == 2,
        render::prompt_line(area, typed)->Line_pieces[1].text == typed,
{
}

/// A screen shows on its border the tab that is on, and what is said there is.
pub proof fn a_screen_says_where_it_is(
    p: PickerView,
    areas: Areas,
    tally: Tally,
    said: Seq<char>,
)
    requires
        p.notice == Some(said),
        p.mode == Mode::Dirs || p.mode == Mode::Files,
        p.source(p.mode) is Some,
    ensures
        ({
            let top = p.search_top(areas, tally);
            &&& top[0] is Frame && top[0]->Frame_area == areas.list
            &&& said.is_prefix_of(top[0]->footer[0].text.skip(1))
            &&& top[1]->Line_pieces[1].text == p.query
            &&& areas.prompt.x + 2 + p.query.len() < u16::MAX ==> top[2] == (DrawnView::Cursor {
                x: (areas.prompt.x + 2 + p.query.len()) as u16,
                y: areas.prompt.y,
            })
            &&& forall|k: int|
                0 <= k < 4 && (header::all_tabs()[k] == (p.mode, false) <==> (#[trigger]
                header::tab_piece(header::all_tabs()[k], (p.mode, false))).paint
                    == Paint::HeaderOpen) || !(0 <= k < 4)
        }),
{
    reveal_strlit(" ");
    what_is_said_hides_the_hints(said, Seq::empty());
    let top = p.search_top(areas, tally);
    assert(top[0]->footer[0].text.skip(1).take(said.len() as int) =~= said);
}

/// The buttons of browse that can be pressed are those that lead somewhere.
pub proof fn browse_buttons_lead_somewhere(b: BrowserView, area: Rect, nav: Nav)
    requires
        area.x + 9 <= area.end_x(),
    ensures
        ({
            let buttons = header::nav_targets(area, browse_screen::browse_ways(b));
            let pressed = exists|k: int|
                0 <= k < buttons.len() && (#[trigger] buttons[k]).1 == nav;
            &&& nav == Nav::Back ==> (pressed <==> b.back.len() > 0)
            &&& nav == Nav::Forward ==> (pressed <==> b.forward.len() > 0)
            &&& nav == Nav::Up && b.cwd.names.len() > 0 ==> pressed
            &&& nav == Nav::Up && b.cwd.names.len() == 0 && b.on == Platform::Unix ==> !pressed
        }),
{
    let ways = browse_screen::browse_ways(b);
    let buttons = header::nav_targets(area, ways);
    let back = header::nav_target(area, 0, Nav::Back, ways.back);
    let forward = header::nav_target(area, 1, Nav::Forward, ways.forward);
    let up = header::nav_target(area, 2, Nav::Up, ways.up);
    assert(buttons == back + forward + up);
    if ways.back {
        assert(buttons[0].1 == Nav::Back);
    }
    if ways.forward {
        assert(buttons[back.len() as int].1 == Nav::Forward);
    }
    if ways.up {
        assert(buttons[(back.len() + forward.len()) as int].1 == Nav::Up);
    }
}

/// A hundred places are remembered in browse, and of more the oldest is forgotten;
/// so it is with the places a search has started from.
pub proof fn a_hundred_places_are_remembered(
    stack: Seq<browse::VisitView>,
    visit: browse::VisitView,
    roots: Seq<RootVisitView>,
    root: RootVisitView,
)
    ensures
        ({
            let now = browse::remembered(stack, visit);
            &&& now.last() == visit
            &&& stack.len() < 100 ==> now == stack.push(visit)
            &&& stack.len() == 100 ==> now.len() == 100 && now[0] == stack[1]
        }),
        ({
            let now = moves::visited(roots, root);
            &&& now.last() == root
            &&& roots.len() < 100 ==> now == roots.push(root)
            &&& roots.len() == 100 ==> now.len() == 100 && now[0] == roots[1]
        }),
{
}

} // verus!
