//! What each key is for, on every screen.

use vstd::prelude::*;

use crate::browse::{self, BrowserView};
use crate::fs_path;
use crate::fuzzy;
use crate::keys::{KeyCode, KeyEvent};
use crate::mode::Mode;
use crate::picker::{PickerView, StepView};
use crate::source::SourceView;
use crate::tree::TreeView;
use crate::world::WorldView;

verus! {

/// Whether no prompt, menu or panel takes the keys.
pub open spec fn uncovered(p: PickerView) -> bool {
    p.naming is None && p.menu is None && p.keys is None
}

/// Whether a search takes the keys, and its list has been started.
pub open spec fn in_search(p: PickerView) -> bool {
    &&& p.wf()
    &&& uncovered(p)
    &&& p.places is None
    &&& p.mode != Mode::Browse
    &&& p.source(p.mode) is Some
}

/// Whether the columns take the keys.
pub open spec fn in_columns(p: PickerView) -> bool {
    &&& p.wf()
    &&& uncovered(p)
    &&& p.places is None
    &&& p.mode == Mode::Browse
    &&& !p.tree_view
    &&& p.browser is Some
}

/// Whether the tree takes the keys, with nothing typed into it, and is there.
pub open spec fn in_folders(p: PickerView) -> bool {
    &&& p.wf()
    &&& uncovered(p)
    &&& p.places is None
    &&& p.mode == Mode::Browse
    &&& p.tree_view
    &&& p.found is None
    &&& p.browser is Some
    &&& p.tree is Some
    &&& p.tree->Some_0.root.same(p.browser->Some_0.cwd)
}

/// Whether the matches of what is typed into the tree take the keys.
pub open spec fn in_matches(p: PickerView) -> bool {
    &&& p.wf()
    &&& uncovered(p)
    &&& p.places is None
    &&& p.mode == Mode::Browse
    &&& p.tree_view
    &&& p.found is Some
}

/// Whether a list of places takes the keys, and has been started.
pub open spec fn in_places(p: PickerView) -> bool {
    &&& p.wf()
    &&& uncovered(p)
    &&& p.places is Some
    &&& p.places->Some_0.lists_places()
    &&& p.source(p.places->Some_0) is Some
}

/// Whether two states show the same screen at the same place, with the same typed.
pub open spec fn stays_put(p: PickerView, q: PickerView) -> bool {
    &&& q.mode == p.mode
    &&& q.search_mode == p.search_mode
    &&& q.tree_view == p.tree_view
    &&& q.root == p.root
    &&& q.query == p.query
    &&& q.tree_query == p.tree_query
    &&& q.places == p.places
    &&& q.places_query == p.places_query
    &&& q.naming == p.naming
    &&& q.menu == p.menu
    &&& q.keys == p.keys
}

/// Up selects the row above in a search, and stays on the first one; Down selects
/// the row below. Ctrl-K and Ctrl-J are the same keys. Nothing else changes of the
/// list or of where the search is.
pub proof fn up_and_down_move_by_a_row_in_a_search(p: PickerView, key: KeyEvent, world: WorldView)
    requires
        in_search(p),
    ensures
        ({
            let was = p.source(p.mode)->Some_0;
            let q = p.keyed(key, world).0;
            let now = q.source(p.mode)->Some_0;
            let up = key.code == KeyCode::Up || key.code == KeyCode::Char('k')
                && key.modifiers.ctrl;
            let down = key.code == KeyCode::Down || key.code == KeyCode::Char('j')
                && key.modifiers.ctrl;
            &&& up || down ==> {
                &&& q.wf()
                &&& stays_put(p, q)
                &&& q.source(p.mode) is Some
                &&& now == (SourceView { selected: now.selected, ..was })
                &&& p.keyed(key, world).1 == StepView::Continue
            }
            &&& up && was.selected > 0 ==> now.selected == was.selected - 1
            &&& up && was.selected == 0 ==> now.selected == 0
            &&& down && was.selected < u32::MAX ==> now.selected == was.selected + 1
        }),
{
    reveal(PickerView::keyed);
    reveal(PickerView::main_keyed);
    reveal(PickerView::search_keyed);
}

/// Down and then Up leave a search on the row it was on, and so do Up and then
/// Down away from the first row.
pub proof fn down_and_up_cancel_in_a_search(
    p: PickerView,
    up: KeyEvent,
    down: KeyEvent,
    world: WorldView,
)
    requires
        in_search(p),
        up.code == KeyCode::Up,
        down.code == KeyCode::Down,
    ensures
        p.source(p.mode)->Some_0.selected < u32::MAX ==> p.keyed(down, world).0.keyed(
            up,
            world,
        ).0.source(p.mode) == p.source(p.mode),
        p.source(p.mode)->Some_0.selected > 0 ==> p.keyed(up, world).0.keyed(
            down,
            world,
        ).0.source(p.mode) == p.source(p.mode),
{
    up_and_down_move_by_a_row_in_a_search(p, up, world);
    up_and_down_move_by_a_row_in_a_search(p, down, world);
    up_and_down_move_by_a_row_in_a_search(p.keyed(down, world).0, up, world);
    up_and_down_move_by_a_row_in_a_search(p.keyed(up, world).0, down, world);
}

/// Up and Down move the selection of the columns by a row, and Page Up and Page
/// Down by ten, as far as there are rows. Nothing else changes.
pub proof fn up_and_down_move_in_the_columns(p: PickerView, key: KeyEvent, world: WorldView)
    requires
        in_columns(p),
        p.browser->Some_0.rows.len() <= usize::MAX,
        ({
            ||| key.code == KeyCode::Up || key.code == KeyCode::Down
            ||| key.code == KeyCode::PageUp || key.code == KeyCode::PageDown
            ||| key.modifiers.ctrl && (key.code == KeyCode::Char('k') || key.code
                == KeyCode::Char('j'))
        }),
    ensures
        ({
            let by: int = if key.code == KeyCode::Up || key.code == KeyCode::Char('k')
                && key.modifiers.ctrl {
                -1
            } else if key.code == KeyCode::Down || key.code == KeyCode::Char('j')
                && key.modifiers.ctrl {
                1
            } else if key.code == KeyCode::PageUp {
                -10
            } else {
                10
            };
            let was = p.browser->Some_0;
            let q = p.keyed(key, world).0;
            let now = q.browser->Some_0;
            &&& stays_put(p, q)
            &&& q.browser is Some
            &&& now == (BrowserView { selected: now.selected, ..was })
            &&& 0 <= was.selected + by < was.rows.len() ==> now.selected == was.selected + by
            &&& was.selected + by < 0 ==> now.selected == 0
            &&& was.rows.len() > 0 && was.selected + by >= was.rows.len() ==> now.selected == was.rows.len() - 1
            &&& p.keyed(key, world).1 == StepView::Continue
        }),
{
    reveal(PickerView::keyed);
    reveal(PickerView::main_keyed);
    reveal(PickerView::browse_keyed);
}

/// Up and Down move the selection of the tree by a row, and Page Up and Page Down
/// by ten, as far as there are rows: on the tree of folders, and on the matches of
/// what is typed. Nothing else changes of the tree.
pub proof fn up_and_down_move_in_the_tree(p: PickerView, key: KeyEvent, world: WorldView)
    requires
        in_folders(p) || in_matches(p),
        in_folders(p) ==> p.tree->Some_0.nodes.len() <= usize::MAX,
        in_matches(p) ==> p.found->Some_0.nodes.len() <= usize::MAX,
        ({
            ||| key.code == KeyCode::Up || key.code == KeyCode::Down
            ||| key.code == KeyCode::PageUp || key.code == KeyCode::PageDown
            ||| key.modifiers.ctrl && (key.code == KeyCode::Char('k') || key.code
                == KeyCode::Char('j'))
        }),
    ensures
        ({
            let by: int = if key.code == KeyCode::Up || key.code == KeyCode::Char('k')
                && key.modifiers.ctrl {
                -1
            } else if key.code == KeyCode::Down || key.code == KeyCode::Char('j')
                && key.modifiers.ctrl {
                1
            } else if key.code == KeyCode::PageUp {
                -10
            } else {
                10
            };
            let q = p.keyed(key, world).0;
            let (was, now) = (
                if p.found is Some {
                    p.found->Some_0
                } else {
                    p.tree->Some_0
                },
                if p.found is Some {
                    q.found->Some_0
                } else {
                    q.tree->Some_0
                },
            );
            &&& stays_put(p, q)
            &&& q.found is Some == p.found is Some
            &&& p.found is Some ==> q.tree == p.tree
            &&& p.found is None ==> q.tree is Some
            &&& q.browser == p.browser
            &&& now == (TreeView { selected: now.selected, ..was })
            &&& 0 <= was.selected + by < was.nodes.len() ==> now.selected == was.selected + by
            &&& was.selected + by < 0 ==> now.selected == 0
            &&& was.nodes.len() > 0 && was.selected + by >= was.nodes.len() ==> now.selected == was.nodes.len() - 1
        }),
{
    reveal(PickerView::keyed);
    reveal(PickerView::main_keyed);
    reveal(PickerView::tree_keyed);
}

/// Up and Down move the selection of a list of places by a row, and Page Up and
/// Page Down by ten, no higher than the first row. The screen under the list stays
/// as it is.
pub proof fn up_and_down_move_in_a_list_of_places(p: PickerView, key: KeyEvent, world: WorldView)
    requires
        in_places(p),
        ({
            ||| key.code == KeyCode::Up || key.code == KeyCode::Down
            ||| key.code == KeyCode::PageUp || key.code == KeyCode::PageDown
            ||| key.modifiers.ctrl && (key.code == KeyCode::Char('k') || key.code
                == KeyCode::Char('j'))
        }),
    ensures
        ({
            let by: int = if key.code == KeyCode::Up || key.code == KeyCode::Char('k')
                && key.modifiers.ctrl {
                -1
            } else if key.code == KeyCode::Down || key.code == KeyCode::Char('j')
                && key.modifiers.ctrl {
                1
            } else if key.code == KeyCode::PageUp {
                -10
            } else {
                10
            };
            let mode = p.places->Some_0;
            let was = p.source(mode)->Some_0;
            let q = p.keyed(key, world).0;
            let now = q.source(mode)->Some_0;
            &&& stays_put(p, q)
            &&& q.browser == p.browser
            &&& q.tree == p.tree
            &&& q.source(mode) is Some
            &&& now == (SourceView { selected: now.selected, ..was })
            &&& 0 <= was.selected + by <= u32::MAX ==> now.selected == was.selected + by
            &&& was.selected + by < 0 ==> now.selected == 0
            &&& p.keyed(key, world).1 == StepView::Continue
        }),
{
    reveal(PickerView::keyed);
    reveal(PickerView::places_keyed);
    reveal(PickerView::places_moved);
}

/// Down and then Up leave the columns and the tree on the row they were on, away
/// from the last row.
pub proof fn down_and_up_cancel_in_browse(
    p: PickerView,
    up: KeyEvent,
    down: KeyEvent,
    world: WorldView,
)
    requires
        up.code == KeyCode::Up,
        down.code == KeyCode::Down,
        in_columns(p) ==> p.browser->Some_0.rows.len() <= usize::MAX,
        in_folders(p) ==> p.tree->Some_0.nodes.len() <= usize::MAX,
    ensures
        in_columns(p) && p.browser->Some_0.selected + 1 < p.browser->Some_0.rows.len()
            ==> p.keyed(down, world).0.keyed(up, world).0.browser == p.browser,
        in_folders(p) && p.tree->Some_0.selected + 1 < p.tree->Some_0.nodes.len() ==> p.keyed(
            down,
            world,
        ).0.keyed(up, world).0.tree == p.tree,
{
    reveal(PickerView::keyed);
    reveal(PickerView::main_keyed);
    reveal(PickerView::browse_keyed);
    reveal(PickerView::tree_keyed);
}

/// F5 in a search collects its list anew: another list, over the same folder with
/// the same typed, whose scan has been asked for and not been heard from.
pub proof fn f5_scans_again(p: PickerView, key: KeyEvent, world: WorldView)
    requires
        in_search(p),
        key.code == KeyCode::F(5),
    ensures
        ({
            let q = p.keyed(key, world).0;
            let now = q.source(p.mode)->Some_0;
            &&& stays_put(p, q)
            &&& q.source(p.mode) is Some
            &&& now.id == p.next_id
            &&& q.next_id != p.next_id
            &&& now.mode == p.mode
            &&& now.root == p.root
            &&& now.query == p.query
            &&& now.selected == 0
            &&& now.scanning
            &&& !now.scan_done
            &&& !now.truncated
            &&& now.scan_error is None
            &&& now.scanned_order is None
            &&& now.browse_order is None
            &&& p.unlimited ==> now.limit == 0
            &&& !p.unlimited ==> now.limit == p.config.scan_limit
            &&& q.preview is None
            &&& forall|mode: Mode| mode != p.mode ==> #[trigger] q.source(mode) == p.source(mode)
            &&& p.keyed(key, world).1 == StepView::ReloadPins
        }),
{
    reveal(PickerView::keyed);
    reveal(PickerView::main_keyed);
    reveal(PickerView::screen_refreshed);
}

/// A list that F5 starts is none of those there were, as long as each of them was
/// numbered before it.
pub proof fn f5_gives_another_list(p: PickerView, key: KeyEvent, world: WorldView)
    requires
        in_search(p),
        key.code == KeyCode::F(5),
        p.source(p.mode)->Some_0.id < p.next_id,
    ensures
        p.keyed(key, world).0.source(p.mode)->Some_0.id != p.source(p.mode)->Some_0.id,
        p.keyed(key, world).0.source(p.mode) != p.source(p.mode),
{
    f5_scans_again(p, key, world);
}

/// F5 in the columns reads the folder again as it is now: everything it holds is
/// listed, with what is typed kept, and the same name selected where it still has
/// a row.
pub proof fn f5_reads_the_columns_again(p: PickerView, key: KeyEvent, world: WorldView)
    requires
        in_columns(p),
        key.code == KeyCode::F(5),
        world.disk.listing(p.browser->Some_0.cwd).len() <= usize::MAX,
    ensures
        ({
            let was = p.browser->Some_0;
            let q = p.keyed(key, world).0;
            let now = q.browser->Some_0;
            &&& stays_put(p, q)
            &&& q.browser is Some
            &&& now.cwd == was.cwd
            &&& now.items == world.disk.listing(was.cwd)
            &&& now.filter == was.filter
            &&& browse::rows_are(now.items, now.filter, now.rows)
            &&& now.back == was.back
            &&& now.forward == was.forward
            &&& q.preview is None
            &&& p.keyed(key, world).1 == StepView::ReloadPins
        }),
{
    reveal(PickerView::keyed);
    reveal(PickerView::main_keyed);
    reveal(PickerView::screen_refreshed);
    let was = p.browser->Some_0;
    browse::rows_are_there(world.disk.listing(was.cwd), was.filter);
}

/// F5 in a list of places collects that list anew, and the favorites are read
/// again for theirs.
pub proof fn f5_reads_a_list_of_places_again(p: PickerView, key: KeyEvent, world: WorldView)
    requires
        in_places(p),
        key.code == KeyCode::F(5),
    ensures
        ({
            let mode = p.places->Some_0;
            let (q, step) = p.keyed(key, world);
            let now = q.source(mode)->Some_0;
            &&& stays_put(p, q)
            &&& q.source(mode) is Some
            &&& now.id == p.next_id
            &&& q.next_id != p.next_id
            &&& now.mode == mode
            &&& now.query == p.places_query
            &&& now.scanning
            &&& !now.scan_done
            &&& now.selected == 0
            &&& mode == Mode::Favorites ==> step == StepView::ReloadPins
            &&& mode == Mode::Recent ==> step == StepView::Continue
        }),
{
    reveal(PickerView::keyed);
    reveal(PickerView::places_keyed);
    reveal(PickerView::places_reread);
}

/// What is selected in a search is the entry on the selected row of its list, and
/// in files the folder that Ctrl-B pins and Ctrl-N names is the one that holds
/// the file. In dirs it is the folder itself.
pub proof fn ctrl_b_in_a_search_pins_the_folder(p: PickerView, key: KeyEvent, world: WorldView)
    requires
        in_search(p),
        key.code == KeyCode::Char('b') || key.code == KeyCode::Char('n'),
        key.modifiers.ctrl,
    ensures
        ({
            let list = p.source(p.mode)->Some_0;
            let selected = world.entry_at(list.id, list.selected);
            let step = p.keyed(key, world).1;
            &&& selected is None ==> step == StepView::Continue
            &&& selected matches Some(entry) ==> {
                let path = entry.path(p.on);
                let folder = if p.mode == Mode::Files && path.parent() is Some {
                    path.parent()->Some_0
                } else {
                    path
                };
                &&& p.pin_target(world) == Some(folder)
                &&& key.code == KeyCode::Char('b') ==> step == StepView::Pin(folder)
                &&& key.code == KeyCode::Char('n') ==> step == StepView::Name(folder)
            }
        }),
{
    reveal(PickerView::keyed);
    reveal(PickerView::main_keyed);
    reveal(PickerView::pinning);
    reveal(PickerView::starting_to_name);
    reveal(PickerView::pin_target);
    reveal(PickerView::looked);
}

/// In a search, the folder that Ctrl-B pins is the one that Enter prints for the
/// same selection.
pub proof fn ctrl_b_pins_what_enter_prints(p: PickerView, world: WorldView)
    requires
        in_search(p),
        p.after_cd is None,
        p.accepted(world).1 is Some,
        p.accepted(world).1->Some_0.exact is None,
        !fs_path::parsed(p.accepted(world).1->Some_0.display, p.on).is_absolute(p.on),
    ensures
        p.pin_target(world) is Some,
        p.output(p.accepted(world).1) == Some(p.pin_target(world)->Some_0.text(p.on)),
{
    reveal(PickerView::pin_target);
    reveal(PickerView::looked);
    reveal(PickerView::accepted);
}

/// Enter in a search takes the entry on the selected row. A folder is printed as
/// it is, and of a file the folder that holds it. With no row nothing is taken.
pub proof fn enter_in_a_search_takes_the_selected_row(
    p: PickerView,
    key: KeyEvent,
    world: WorldView,
)
    requires
        in_search(p),
        key.code == KeyCode::Enter,
    ensures
        p.keyed(key, world).1 == StepView::Accept,
        stays_put(p, p.keyed(key, world).0),
        p.keyed(key, world).0.sources == p.sources,
        ({
            let list = p.source(p.mode)->Some_0;
            let entry = world.entry_at(list.id, list.selected);
            &&& p.accepted(world).1 == entry
            &&& entry is Some && p.after_cd is None && entry->Some_0.exact is None
                && !fs_path::parsed(entry->Some_0.display, p.on).is_absolute(p.on) ==> {
                let e = entry->Some_0;
                let path = e.root.join(e.display, p.on);
                &&& p.mode == Mode::Dirs ==> p.output(entry) == Some(path.text(p.on))
                &&& p.mode == Mode::Files && path.parent() is Some ==> p.output(entry) == Some(
                    path.parent()->Some_0.text(p.on),
                )
            }
            &&& entry is None && p.after_cd is None ==> p.output(entry) is None
        }),
{
    reveal(PickerView::keyed);
    reveal(PickerView::main_keyed);
    reveal(PickerView::accepted);
    reveal(PickerView::looked);
}

/// Enter in the columns goes to the selected folder, or with a file selected or
/// nothing to the folder shown. On the list of drives with none there it takes
/// nothing.
pub proof fn enter_in_the_columns_goes_to_the_folder(
    p: PickerView,
    key: KeyEvent,
    world: WorldView,
)
    requires
        in_columns(p),
        key.code == KeyCode::Enter,
        p.after_cd is None,
    ensures
        p.keyed(key, world).1 == StepView::Accept,
        stays_put(p, p.keyed(key, world).0),
        p.keyed(key, world).0.browser == p.browser,
        ({
            let b = p.browser->Some_0;
            let folder = if b.selected < b.rows.len() && b.items[b.rows[b.selected as int].index as int].is_dir {
                b.cwd.join(b.items[b.rows[b.selected as int].index as int].name, b.on)
            } else {
                b.cwd
            };
            &&& folder.is_empty() ==> p.accepted(world).1 is None
            &&& !folder.is_empty() ==> p.accepted(world).1 is Some
                && p.accepted(world).1->Some_0.display == folder.text(p.on)
                && p.accepted(world).1->Some_0.exact is None
                && p.accepted(world).1->Some_0.root.is_empty()
        }),
{
    reveal(PickerView::keyed);
    reveal(PickerView::main_keyed);
    reveal(PickerView::accepted);
    reveal(PickerView::looked);
}

/// Enter in the tree goes to the selected folder, or to the folder holding the
/// selected file; on the matches of what is typed too.
pub proof fn enter_in_the_tree_goes_to_the_folder(p: PickerView, key: KeyEvent, world: WorldView)
    requires
        in_folders(p) || in_matches(p),
        key.code == KeyCode::Enter,
    ensures
        p.keyed(key, world).1 == StepView::Accept,
        stays_put(p, p.keyed(key, world).0),
        ({
            let t = if p.found is Some {
                p.found->Some_0
            } else {
                p.tree->Some_0
            };
            let node = t.nodes[t.selected as int];
            let folder = if !node.is_dir && node.path.parent() is Some {
                node.path.parent()->Some_0
            } else {
                node.path
            };
            &&& folder.is_empty() ==> p.accepted(world).1 is None
            &&& !folder.is_empty() ==> p.accepted(world).1 is Some
                && p.accepted(world).1->Some_0.display == folder.text(p.on)
                && p.accepted(world).1->Some_0.exact is None
        }),
{
    reveal(PickerView::keyed);
    reveal(PickerView::main_keyed);
    reveal(PickerView::accepted);
    reveal(PickerView::looked);
}

/// Enter in a list of places takes the place on the selected row, and prints it
/// as the list has it.
pub proof fn enter_in_a_list_takes_the_place(p: PickerView, key: KeyEvent, world: WorldView)
    requires
        in_places(p),
        key.code == KeyCode::Enter,
    ensures
        p.keyed(key, world).1 == StepView::Accept,
        stays_put(p, p.keyed(key, world).0),
        ({
            let list = p.source(p.places->Some_0)->Some_0;
            let entry = world.entry_at(list.id, list.selected);
            &&& p.accepted(world).1 == entry
            &&& entry is Some && p.after_cd is None && entry->Some_0.exact is Some ==> p.output(
                entry,
            ) == entry->Some_0.exact
            &&& entry is Some && p.after_cd is None && entry->Some_0.exact is None
                && fs_path::parsed(entry->Some_0.display, p.on).is_absolute(p.on) ==> p.output(
                entry,
            ) == Some(entry->Some_0.display)
        }),
{
    reveal(PickerView::keyed);
    reveal(PickerView::places_keyed);
    reveal(PickerView::accepted);
    reveal(PickerView::looked);
}

/// A letter typed in a search is added to what is typed there, the list goes by
/// it, and the first row is selected. The same of the letters of a list of places,
/// and the search under that keeps what it has.
pub proof fn a_letter_is_typed_into_the_list(p: PickerView, c: char, key: KeyEvent, world: WorldView)
    requires
        in_search(p) || in_places(p),
        key.code == KeyCode::Char(c),
        !key.modifiers.ctrl,
        !key.modifiers.alt,
    ensures
        ({
            let q = p.keyed(key, world).0;
            let mode = if p.places is Some {
                p.places->Some_0
            } else {
                p.mode
            };
            &&& p.keyed(key, world).1 == StepView::Continue
            &&& q.mode == p.mode && q.root == p.root && q.places == p.places
            &&& p.places is None ==> q.query == p.query.push(c) && q.places_query == p.places_query
            &&& p.places is Some ==> q.places_query == p.places_query.push(c) && q.query == p.query
            &&& q.source(mode) is Some
            &&& q.source(mode)->Some_0 == (SourceView {
                query: if p.places is Some {
                    p.places_query.push(c)
                } else {
                    p.query.push(c)
                },
                selected: 0,
                ..p.source(mode)->Some_0
            })
            &&& forall|other: Mode| other != mode ==> #[trigger] q.source(other) == p.source(other)
        }),
{
    reveal(PickerView::keyed);
    reveal(PickerView::main_keyed);
    reveal(PickerView::search_keyed);
    reveal(PickerView::queried);
    reveal(PickerView::places_keyed);
    reveal(PickerView::places_moved);
    reveal(PickerView::places_queried);
}

/// A letter typed in the columns is added to the filter of the level, the rows are
/// the matches of it, and the best of them is selected. The folder stays.
pub proof fn a_letter_filters_the_columns(p: PickerView, c: char, key: KeyEvent, world: WorldView)
    requires
        in_columns(p),
        p.browser->Some_0.items.len() <= usize::MAX,
        key.code == KeyCode::Char(c),
        !key.modifiers.ctrl,
        !key.modifiers.alt,
    ensures
        ({
            let was = p.browser->Some_0;
            let q = p.keyed(key, world).0;
            let now = q.browser->Some_0;
            &&& p.keyed(key, world).1 == StepView::Continue
            &&& stays_put(p, q)
            &&& q.browser is Some
            &&& now == (BrowserView {
                filter: was.filter.push(c),
                rows: now.rows,
                selected: 0,
                ..was
            })
            &&& browse::rows_are(now.items, now.filter, now.rows)
        }),
{
    reveal(PickerView::keyed);
    reveal(PickerView::main_keyed);
    reveal(PickerView::browse_keyed);
    browse::rows_are_there(p.browser->Some_0.items, p.browser->Some_0.filter.push(c));
}

/// A letter typed in the columns selects the best match of the level: no name of
/// the folder scores higher with the matcher.
pub proof fn typing_selects_the_best_match(
    p: PickerView,
    c: char,
    key: KeyEvent,
    world: WorldView,
    i: int,
)
    requires
        in_columns(p),
        p.browser->Some_0.items.len() <= usize::MAX,
        key.code == KeyCode::Char(c),
        !key.modifiers.ctrl,
        !key.modifiers.alt,
        0 <= i < p.browser->Some_0.items.len(),
        fuzzy::found(
            p.browser->Some_0.filter.push(c),
            p.browser->Some_0.items[i].name,
        ) is Some,
    ensures
        ({
            let typed = p.browser->Some_0.filter.push(c);
            let now = p.keyed(key, world).0.browser->Some_0;
            let chosen = now.items[now.rows[now.selected as int].index as int];
            &&& now.selected < now.rows.len()
            &&& fuzzy::found(typed, chosen.name) is Some
            &&& fuzzy::found(typed, chosen.name)->Some_0.0 >= fuzzy::found(
                typed,
                p.browser->Some_0.items[i].name,
            )->Some_0.0
        }),
{
    a_letter_filters_the_columns(p, c, key, world);
    let now = p.keyed(key, world).0.browser->Some_0;
    browse::every_match_has_a_row(now.items, now.filter, now.rows, i);
    let r = choose|r: int| 0 <= r < now.rows.len() && (#[trigger] now.rows[r]).index == i;
    browse::every_match_has_a_row(
        now.items,
        now.filter,
        now.rows,
        now.rows[0].index as int,
    );
}

/// A letter typed in the tree is added to what is typed there. Everything below the
/// root of the tree is then searched for it, and the matches there are asked for.
pub proof fn a_letter_searches_the_tree(p: PickerView, c: char, key: KeyEvent, world: WorldView)
    requires
        in_folders(p),
        !p.tree->Some_0.root.is_empty(),
        key.code == KeyCode::Char(c),
        !key.modifiers.ctrl,
        !key.modifiers.alt,
    ensures
        ({
            let (q, step) = p.keyed(key, world);
            &&& step == StepView::Match
            &&& q.mode == p.mode && q.tree_view && q.root == p.root
            &&& q.query == p.query
            &&& q.tree_query == p.tree_query.push(c)
            &&& q.tree == p.tree
            &&& q.browser == p.browser
            &&& q.found is Some
            &&& q.tree_search is Some
            &&& q.tree_search->Some_0.query == p.tree_query.push(c)
            &&& q.tree_search_root.same(p.tree->Some_0.root)
            &&& p.tree_search is None ==> {
                &&& q.tree_search->Some_0.root == p.tree->Some_0.root
                &&& q.tree_search->Some_0.scanning
                &&& q.tree_search->Some_0.id == p.next_id
            }
            &&& p.tree_search is Some && p.tree_search_root.same(p.tree->Some_0.root)
                ==> q.tree_search->Some_0.id == p.tree_search->Some_0.id
        }),
{
    reveal(PickerView::keyed);
    reveal(PickerView::main_keyed);
    reveal(PickerView::tree_keyed);
    reveal(PickerView::tree_queried);
    reveal(PickerView::rebuilt);
}

/// Backspace takes the last letter away, on every screen, and nothing else of what
/// is typed. It is remembered when, so that holding it goes no further.
pub proof fn backspace_takes_the_last_letter(p: PickerView, key: KeyEvent, world: WorldView)
    requires
        key.code == KeyCode::Backspace,
        in_columns(p) ==> p.browser->Some_0.items.len() <= usize::MAX,
    ensures
        in_search(p) && p.query.len() > 0 ==> {
            let q = p.keyed(key, world).0;
            &&& q.query == p.query.take(p.query.len() - 1)
            &&& q.source(p.mode) is Some
            &&& q.source(p.mode)->Some_0.query == q.query
            &&& q.source(p.mode)->Some_0.selected == 0
            &&& q.source(p.mode)->Some_0.id == p.source(p.mode)->Some_0.id
            &&& q.root == p.root && q.mode == p.mode
            &&& q.last_erase == Some(world.now)
        },
        in_columns(p) && p.browser->Some_0.filter.len() > 0 ==> {
            let (was, q) = (p.browser->Some_0, p.keyed(key, world).0);
            let now = q.browser->Some_0;
            &&& q.browser is Some
            &&& now.filter == was.filter.take(was.filter.len() - 1)
            &&& browse::rows_are(now.items, now.filter, now.rows)
            &&& now.items == was.items
            &&& now.cwd == was.cwd
            &&& now.selected == 0
            &&& q.last_erase == Some(world.now)
        },
        in_places(p) ==> {
            let q = p.keyed(key, world).0;
            &&& p.places_query.len() > 0 ==> q.places_query == p.places_query.take(
                p.places_query.len() - 1,
            )
            &&& p.places_query.len() == 0 ==> q.places_query == p.places_query
            &&& q.places == p.places && q.query == p.query && q.root == p.root
        },
        (in_folders(p) || in_matches(p)) && p.tree_query.len() > 1 ==> {
            let q = p.keyed(key, world).0;
            &&& p.with_tree(world.disk) == p && !p.tree->Some_0.root.is_empty() ==> {
                &&& q.tree_query == p.tree_query.take(p.tree_query.len() - 1)
                &&& p.keyed(key, world).1 == StepView::Match
            }
            &&& q.browser == p.browser || p.browser is None
        },
{
    reveal(PickerView::keyed);
    reveal(PickerView::main_keyed);
    reveal(PickerView::search_keyed);
    reveal(PickerView::search_erased);
    reveal(PickerView::queried);
    reveal(PickerView::browse_keyed);
    reveal(PickerView::places_keyed);
    reveal(PickerView::places_moved);
    reveal(PickerView::places_queried);
    if in_search(p) && p.query.len() > 0 {
        assert(p.query.drop_last() =~= p.query.take(p.query.len() - 1));
    }
    if in_columns(p) && p.browser->Some_0.filter.len() > 0 {
        let b = p.browser->Some_0;
        assert(b.filter.drop_last() =~= b.filter.take(b.filter.len() - 1));
        browse::rows_are_there(b.items, b.filter.drop_last());
    }
    if in_places(p) && p.places_query.len() > 0 {
        assert(p.places_query.drop_last() =~= p.places_query.take(p.places_query.len() - 1));
    }
    if (in_folders(p) || in_matches(p)) && p.tree_query.len() > 1 {
        reveal(PickerView::tree_keyed);
        reveal(PickerView::tree_queried);
        reveal(PickerView::rebuilt);
        assert(p.tree_query.drop_last() =~= p.tree_query.take(p.tree_query.len() - 1));
    }
}

/// Backspace with nothing typed goes up a level, unless it has just been deleting:
/// a search starts from the folder above, and the columns show it with the folder
/// they were in selected.
pub proof fn backspace_with_nothing_typed_goes_up(p: PickerView, key: KeyEvent, world: WorldView)
    requires
        key.code == KeyCode::Backspace,
        p.last_erase matches Some(at) ==> at <= world.now && world.now - at > 1_500,
    ensures
        in_search(p) && p.query.len() == 0 && p.root.parent() is Some ==> p.keyed(
            key,
            world,
        ).0.root == p.root.parent()->Some_0,
        in_columns(p) && p.browser->Some_0.filter.len() == 0 && p.browser->Some_0.cwd.parent() is Some
            && !p.browser->Some_0.cwd.is_empty() ==> p.keyed(key, world).0.browser->Some_0.cwd
            == p.browser->Some_0.cwd.parent()->Some_0,
{
    reveal(PickerView::keyed);
    reveal(PickerView::main_keyed);
    reveal(PickerView::search_keyed);
    reveal(PickerView::search_erased);
    reveal(PickerView::navigated);
    reveal(PickerView::search_navigated);
    reveal(PickerView::root_moved);
    reveal(PickerView::browse_keyed);
}

/// Ctrl-U leaves nothing typed, on every screen, and stays where it is.
pub proof fn ctrl_u_leaves_nothing_typed(p: PickerView, key: KeyEvent, world: WorldView)
    requires
        key.code == KeyCode::Char('u'),
        key.modifiers.ctrl,
        !key.modifiers.alt,
        in_columns(p) ==> p.browser->Some_0.items.len() <= usize::MAX,
    ensures
        in_search(p) ==> {
            let q = p.keyed(key, world).0;
            &&& q.query.len() == 0
            &&& q.source(p.mode)->Some_0.query.len() == 0
            &&& q.root == p.root && q.mode == p.mode
        },
        in_columns(p) ==> {
            let now = p.keyed(key, world).0.browser->Some_0;
            &&& now.filter.len() == 0
            &&& now.cwd == p.browser->Some_0.cwd
            &&& now.items == p.browser->Some_0.items
            &&& now.rows.len() == now.items.len()
        },
        in_places(p) ==> {
            let q = p.keyed(key, world).0;
            q.places_query.len() == 0 && q.places == p.places && q.query == p.query
        },
        in_folders(p) || in_matches(p) ==> {
            let q = p.keyed(key, world).0;
            q.tree_query.len() == 0 && q.found is None && q.tree == p.tree
        },
{
    reveal(PickerView::keyed);
    reveal(PickerView::main_keyed);
    reveal(PickerView::search_keyed);
    reveal(PickerView::queried);
    reveal(PickerView::browse_keyed);
    reveal(PickerView::places_keyed);
    reveal(PickerView::places_moved);
    reveal(PickerView::places_queried);
    reveal(PickerView::tree_keyed);
    reveal(PickerView::tree_queried);
    if in_columns(p) {
        browse::rows_are_there(p.browser->Some_0.items, Seq::empty());
    }
}

} // verus!
