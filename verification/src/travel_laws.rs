//! Where the keys lead: into folders and out of them, between the screens, and
//! back.

use vstd::prelude::*;

use crate::browse::{self, BrowserView, VisitView};
use crate::fs_path::{PathView, Platform};
use crate::key_laws;
use crate::keys::{KeyCode, KeyEvent, Modifiers};
use crate::mode::Mode;
use crate::picker::{PickerView, RootVisitView, StepView};
use crate::world::WorldView;

verus! {

/// Right in the columns goes into the selected folder: it is listed as it is on
/// the disk with nothing typed and the first row selected, the place left is what
/// going back leads to, and nothing is ahead. On a file it does nothing.
pub proof fn right_goes_into_the_selected_folder(p: PickerView, key: KeyEvent, world: WorldView)
    requires
        key_laws::in_columns(p),
        key.code == KeyCode::Right,
        !key.modifiers.ctrl,
        !key.modifiers.alt,
        p.browser->Some_0.selected < p.browser->Some_0.rows.len(),
        p.browser->Some_0.back.len() < browse::HISTORY_LIMIT,
    ensures
        ({
            let was = p.browser->Some_0;
            let item = was.items[was.rows[was.selected as int].index as int];
            let inside = was.cwd.join(item.name, was.on);
            let q = p.keyed(key, world).0;
            let now = q.browser->Some_0;
            &&& p.keyed(key, world).1 == StepView::Continue
            &&& key_laws::stays_put(p, q)
            &&& !item.is_dir ==> q.browser == p.browser
            &&& item.is_dir ==> {
                &&& now.cwd == inside
                &&& now.items == world.disk.listing(inside)
                &&& now.filter.len() == 0
                &&& now.selected == 0
                &&& !was.cwd.same(inside) ==> {
                    &&& now.back == was.back.push(
                        VisitView { cwd: was.cwd, filter: was.filter, selected: Some(item.name) },
                    )
                    &&& now.forward.len() == 0
                }
            }
        }),
{
    reveal(PickerView::keyed);
    reveal(PickerView::main_keyed);
    reveal(PickerView::browse_keyed);
}

/// Left in the columns goes to the folder above, with the folder it was in
/// selected there. At the top it does nothing.
pub proof fn left_goes_to_the_folder_above(
    p: PickerView,
    key: KeyEvent,
    above: PathView,
    name: Seq<char>,
    world: WorldView,
)
    requires
        key_laws::in_columns(p),
        key.code == KeyCode::Left && !key.modifiers.ctrl && !key.modifiers.alt || key.code
            == KeyCode::Char('h') && key.modifiers.ctrl && !key.modifiers.alt,
        p.browser->Some_0.cwd == above.join(name, p.on),
        crate::fs_path::plain_name(name, p.on),
        world.disk.listing(above).len() <= usize::MAX,
    ensures
        ({
            let was = p.browser->Some_0;
            let q = p.keyed(key, world).0;
            let now = q.browser->Some_0;
            &&& key_laws::stays_put(p, q)
            &&& now.cwd == above
            &&& now.items == world.disk.listing(above)
            &&& now.filter.len() == 0
            &&& browse::item_names(world.disk.listing(above)).contains(name)
                ==> now.selected_path() == Some(was.cwd)
            &&& now.forward.len() == 0
            &&& now.back.len() > 0
            &&& now.back.last().cwd == was.cwd
            &&& now.back.last().filter == was.filter
        }),
{
    reveal(PickerView::keyed);
    reveal(PickerView::main_keyed);
    reveal(PickerView::browse_keyed);
    let was = p.browser->Some_0;
    crate::fs_path::a_joined_name_is_the_last(above, name, p.on);
    assert(was.cwd.names.len() == above.names.len() + 1);
    let left = BrowserView {
        back: browse::remembered(was.back, was.visit()),
        forward: Seq::empty(),
        ..was
    };
    if browse::item_names(world.disk.listing(above)).contains(name) {
        browse::a_name_that_is_listed_is_selected(left, above, name, world.disk);
    }
    assert(was.above(world.disk) == left.placed(above, Seq::empty(), Some(name), world.disk));
}

/// Left in a search starts it from the folder above, with what is typed kept;
/// Ctrl-H is the same key.
pub proof fn left_in_a_search_starts_it_a_level_up(p: PickerView, key: KeyEvent, world: WorldView)
    requires
        key_laws::in_search(p),
        key.code == KeyCode::Left && !key.modifiers.ctrl && !key.modifiers.alt || key.code
            == KeyCode::Char('h') && key.modifiers.ctrl && !key.modifiers.alt,
        p.roots_back.len() < 100,
    ensures
        ({
            let q = p.keyed(key, world).0;
            &&& q.mode == p.mode && q.query == p.query
            &&& p.root.parent() is None ==> q.root == p.root
            &&& p.root.parent() matches Some(parent) ==> {
                &&& q.root == parent
                &&& !parent.same(p.root) ==> {
                    &&& q.roots_back == p.roots_back.push(
                        RootVisitView { root: p.root, query: p.query },
                    )
                    &&& q.roots_forward.len() == 0
                    &&& forall|mode: Mode| (#[trigger] q.source(mode)) is None
                }
            }
        }),
{
    reveal(PickerView::keyed);
    reveal(PickerView::main_keyed);
    reveal(PickerView::search_keyed);
    reveal(PickerView::navigated);
    reveal(PickerView::search_navigated);
    reveal(PickerView::root_moved);
}

/// Whether a key goes back through the places visited: Left with Ctrl or Alt, or
/// Ctrl-T.
pub open spec fn goes_back(key: KeyEvent) -> bool {
    ||| key.code == KeyCode::Left && (key.modifiers.ctrl || key.modifiers.alt)
    ||| key.code == KeyCode::Char('t') && key.modifiers == Modifiers::only_ctrl()
}

/// Ctrl-Left, Alt-Left and Ctrl-T in a search go back to the place it last started
/// from, with what was typed there; Ctrl-Right and Alt-Right undo that. With no
/// such place the search stays.
pub proof fn history_keys_retrace_the_search(p: PickerView, key: KeyEvent, world: WorldView)
    requires
        key_laws::in_search(p),
        goes_back(key) || key.code == KeyCode::Right && (key.modifiers.ctrl || key.modifiers.alt),
    ensures
        ({
            let q = p.keyed(key, world).0;
            let here = RootVisitView { root: p.root, query: p.query };
            &&& q.mode == p.mode
            &&& goes_back(key) && p.roots_back.len() > 0 ==> {
                &&& q.root == p.roots_back.last().root
                &&& q.query == p.roots_back.last().query
                &&& q.roots_back == p.roots_back.take(p.roots_back.len() - 1)
                &&& q.roots_forward == p.roots_forward.push(here)
            }
            &&& goes_back(key) && p.roots_back.len() == 0 ==> q.root == p.root && q.query == p.query
            &&& !goes_back(key) && p.roots_forward.len() > 0 ==> {
                &&& q.root == p.roots_forward.last().root
                &&& q.query == p.roots_forward.last().query
                &&& q.roots_forward == p.roots_forward.take(p.roots_forward.len() - 1)
                &&& q.roots_back == p.roots_back.push(here)
            }
            &&& !goes_back(key) && p.roots_forward.len() == 0 ==> q.root == p.root && q.query
                == p.query
        }),
{
    reveal(PickerView::keyed);
    reveal(PickerView::main_keyed);
    reveal(PickerView::navigated);
    reveal(PickerView::search_navigated);
    reveal(PickerView::root_retraced);
    if p.roots_back.len() > 0 {
        assert(p.roots_back.drop_last() =~= p.roots_back.take(p.roots_back.len() - 1));
    }
    if p.roots_forward.len() > 0 {
        assert(p.roots_forward.drop_last() =~= p.roots_forward.take(p.roots_forward.len() - 1));
    }
}

/// In browse the same keys retrace the folders visited, as columns and as a tree:
/// back to the newest one that is still there, with what was typed there, and
/// forward again.
pub proof fn history_keys_retrace_the_folders(p: PickerView, key: KeyEvent, world: WorldView)
    requires
        p.wf(),
        key_laws::uncovered(p),
        p.places is None,
        p.mode == Mode::Browse,
        p.browser is Some,
        goes_back(key) || key.code == KeyCode::Right && (key.modifiers.ctrl || key.modifiers.alt),
    ensures
        ({
            let was = p.browser->Some_0;
            let now = p.keyed(key, world).0.browser->Some_0;
            let trail = if goes_back(key) {
                was.back
            } else {
                was.forward
            };
            let there = trail.last();
            &&& p.keyed(key, world).0.mode == Mode::Browse
            &&& p.keyed(key, world).0.root == p.root
            &&& trail.len() == 0 ==> now.cwd == was.cwd && now.filter == was.filter && now.selected
                == was.selected && now.items == was.items
            &&& trail.len() > 0 && (there.cwd.is_empty() || world.disk.is_dir(there.cwd)) ==> {
                &&& now.cwd == there.cwd
                &&& now.filter == there.filter
                &&& now.items == world.disk.listing(there.cwd)
                &&& goes_back(key) ==> {
                    &&& now.back == was.back.take(was.back.len() - 1)
                    &&& now.forward.len() > 0
                    &&& now.forward.last().cwd == was.cwd
                    &&& now.forward.last().filter == was.filter
                }
                &&& !goes_back(key) ==> {
                    &&& now.forward == was.forward.take(was.forward.len() - 1)
                    &&& now.back.len() > 0
                    &&& now.back.last().cwd == was.cwd
                    &&& now.back.last().filter == was.filter
                }
            }
        }),
{
    reveal(PickerView::keyed);
    reveal(PickerView::main_keyed);
    reveal(PickerView::navigated);
    reveal(PickerView::browse_retraced);
    let was = p.browser->Some_0;
    assert(browse::remembered(was.forward, was.visit()).last() == was.visit());
    assert(browse::remembered(was.back, was.visit()).last() == was.visit());
}

/// Right on a search result looks inside it in browse: a folder is gone into, a
/// file is shown in the folder holding it. One that is not there any more is named,
/// and the search stays on.
pub proof fn right_on_a_result_looks_inside(p: PickerView, key: KeyEvent, world: WorldView)
    requires
        key_laws::in_search(p),
        key.code == KeyCode::Right,
        !key.modifiers.ctrl,
        !key.modifiers.alt,
        world.entry_at(
            p.source(p.mode)->Some_0.id,
            p.source(p.mode)->Some_0.selected,
        ) is Some,
    ensures
        ({
            let list = p.source(p.mode)->Some_0;
            let path = world.entry_at(list.id, list.selected)->Some_0.path(p.on);
            let q = p.keyed(key, world).0;
            &&& q.root == p.root && q.query == p.query && q.search_mode == p.search_mode
            &&& world.disk.is_dir(path) ==> {
                &&& q.mode == Mode::Browse
                &&& q.browser is Some
                &&& q.browser->Some_0.cwd == path
                &&& q.browser->Some_0.filter.len() == 0
                &&& q.browser->Some_0.items == world.disk.listing(path)
            }
            &&& !world.disk.is_dir(path) && world.disk.is_file(path) && path.parent() is Some ==> {
                &&& q.mode == Mode::Browse
                &&& q.browser is Some
                &&& q.browser->Some_0.cwd == path.parent()->Some_0
            }
            &&& !world.disk.is_there(path) ==> {
                &&& q.mode == p.mode
                &&& q.notice == Some("Not there any more: "@ + path.text(p.on))
            }
        }),
{
    reveal(PickerView::keyed);
    reveal(PickerView::main_keyed);
    reveal(PickerView::search_keyed);
    reveal(PickerView::result_righted);
    reveal(PickerView::selection);
    reveal(PickerView::looked);
    reveal(PickerView::browsed_at);
}

/// What the action keys work on: in a search the entry on the selected row, as it
/// is, in the columns the selected row or with none the folder shown, in the tree
/// the selected row, and in a list of places the selected place. Ctrl-O opens it,
/// Ctrl-E shows it in its folder, and Ctrl-P offers the actions for it; the screen
/// stays.
pub proof fn action_keys_work_on_what_is_selected(
    p: PickerView,
    key: KeyEvent,
    path: PathView,
    world: WorldView,
)
    requires
        key.modifiers.ctrl,
        key.code == KeyCode::Char('o') || key.code == KeyCode::Char('e') || key.code
            == KeyCode::Char('p'),
        ({
            ||| key_laws::in_search(p) && {
                let entry = world.entry_at(
                    p.source(p.mode)->Some_0.id,
                    p.source(p.mode)->Some_0.selected,
                );
                entry is Some && entry->Some_0.path(p.on) == path
            }
            ||| key_laws::in_places(p) && {
                let list = p.source(p.places->Some_0)->Some_0;
                let entry = world.entry_at(list.id, list.selected);
                entry is Some && entry->Some_0.path(p.on) == path
            }
            ||| key_laws::in_columns(p) && {
                let b = p.browser->Some_0;
                if b.selected < b.rows.len() {
                    path == b.cwd.join(
                        b.items[b.rows[b.selected as int].index as int].name,
                        b.on,
                    )
                } else {
                    path == b.cwd && !b.cwd.is_empty()
                }
            }
            ||| key_laws::in_folders(p) && path
                == p.tree->Some_0.nodes[p.tree->Some_0.selected as int].path && !path.is_empty()
            ||| key_laws::in_matches(p) && path
                == p.found->Some_0.nodes[p.found->Some_0.selected as int].path && !path.is_empty()
        }),
    ensures
        ({
            let (q, step) = p.keyed(key, world);
            &&& key.code == KeyCode::Char('o') ==> step == StepView::Launch(path)
            &&& key.code == KeyCode::Char('e') ==> step == StepView::ShowFolder(path)
            &&& key.code == KeyCode::Char('p') ==> step == StepView::Actions(path)
            &&& key_laws::stays_put(p, q)
            &&& q.browser == p.browser
            &&& q.tree == p.tree
            &&& q.sources == p.sources
        }),
{
    reveal(PickerView::keyed);
    reveal(PickerView::main_keyed);
    reveal(PickerView::places_keyed);
    reveal(PickerView::selection);
    reveal(PickerView::looked);
}

/// Ctrl-B pins and Ctrl-N names a folder. In the columns it is the selected one,
/// or with a file selected the folder shown; in the tree the selected one, or the
/// folder holding the selected file; in a list of places the selected place. On the
/// list of drives itself there is none, and the screen says so.
pub proof fn ctrl_b_works_on_a_folder(p: PickerView, key: KeyEvent, folder: PathView, world: WorldView)
    requires
        key.modifiers.ctrl,
        key.code == KeyCode::Char('b') || key.code == KeyCode::Char('n'),
        !folder.is_empty(),
        ({
            ||| key_laws::in_places(p) && {
                let list = p.source(p.places->Some_0)->Some_0;
                let entry = world.entry_at(list.id, list.selected);
                entry is Some && entry->Some_0.path(p.on) == folder
            }
            ||| key_laws::in_columns(p) && {
                let b = p.browser->Some_0;
                if b.selected < b.rows.len() && b.items[b.rows[b.selected as int].index as int].is_dir {
                    folder == b.cwd.join(
                        b.items[b.rows[b.selected as int].index as int].name,
                        b.on,
                    )
                } else {
                    folder == b.cwd
                }
            }
            ||| (key_laws::in_folders(p) || key_laws::in_matches(p)) && {
                let t = if p.found is Some {
                    p.found->Some_0
                } else {
                    p.tree->Some_0
                };
                let node = t.nodes[t.selected as int];
                if !node.is_dir && node.path.parent() is Some {
                    folder == node.path.parent()->Some_0
                } else {
                    folder == node.path
                }
            }
        }),
    ensures
        key.code == KeyCode::Char('b') ==> p.keyed(key, world).1 == StepView::Pin(folder),
        key.code == KeyCode::Char('n') ==> p.keyed(key, world).1 == StepView::Name(folder),
        key_laws::stays_put(p, p.keyed(key, world).0),
{
    reveal(PickerView::keyed);
    reveal(PickerView::main_keyed);
    reveal(PickerView::places_keyed);
    reveal(PickerView::pinning);
    reveal(PickerView::starting_to_name);
    reveal(PickerView::pin_target);
    reveal(PickerView::looked);
}

/// Ctrl with D or F goes straight to that search, from the other one with what is
/// typed kept; the list of the one gone to goes by it.
pub proof fn ctrl_d_and_ctrl_f_go_to_their_search(p: PickerView, key: KeyEvent, world: WorldView)
    requires
        key_laws::in_search(p),
        key.modifiers.ctrl,
        !key.modifiers.alt,
        key.code == KeyCode::Char('d') || key.code == KeyCode::Char('f'),
    ensures
        ({
            let to = if key.code == KeyCode::Char('d') {
                Mode::Dirs
            } else {
                Mode::Files
            };
            let q = p.keyed(key, world).0;
            &&& q.mode == to
            &&& q.search_mode == to
            &&& q.root == p.root
            &&& q.query == p.query
            &&& q.places is None
            &&& q.source(to) is Some
            &&& p.source(to) is None ==> {
                &&& q.source(to)->Some_0.mode == to
                &&& q.source(to)->Some_0.root == p.root
                &&& q.source(to)->Some_0.query == p.query
                &&& q.source(to)->Some_0.scanning
            }
            &&& p.source(to) is Some ==> q.source(to) == p.source(to)
            &&& q.source(p.mode) == p.source(p.mode)
            &&& p.keyed(key, world).1 == StepView::Continue
        }),
{
    reveal(PickerView::keyed);
    reveal(PickerView::main_keyed);
    reveal(PickerView::switched);
    reveal(PickerView::departed);
    reveal(PickerView::arrived);
}

/// Shift-Tab goes from one search to the other, and twice comes back.
pub proof fn shift_tab_takes_turns(p: PickerView, key: KeyEvent, world: WorldView)
    requires
        key_laws::in_search(p),
        key.code == KeyCode::BackTab,
    ensures
        p.mode == Mode::Dirs ==> p.keyed(key, world).0.mode == Mode::Files,
        p.mode == Mode::Files ==> p.keyed(key, world).0.mode == Mode::Dirs,
        p.keyed(key, world).0.root == p.root,
        p.keyed(key, world).0.query == p.query,
        p.keyed(key, world).0.keyed(key, world).0.mode == p.mode,
{
    reveal(PickerView::keyed);
    reveal(PickerView::main_keyed);
    reveal(PickerView::switched);
    reveal(PickerView::departed);
    reveal(PickerView::arrived);
}

/// Shift-Tab in browse shows it as a tree, and as columns again.
pub proof fn shift_tab_turns_browse_into_a_tree(p: PickerView, key: KeyEvent, world: WorldView)
    requires
        p.wf(),
        key_laws::uncovered(p),
        p.places is None,
        p.mode == Mode::Browse,
        key.code == KeyCode::BackTab,
    ensures
        p.keyed(key, world).0.mode == Mode::Browse,
        p.keyed(key, world).0.tree_view == !p.tree_view,
        p.keyed(key, world).0.root == p.root,
{
    reveal(PickerView::keyed);
    reveal(PickerView::main_keyed);
    reveal(PickerView::tree_toggled);
}

/// Tab goes from a search to browse, and from browse to the search it came from.
pub proof fn tab_goes_between_a_search_and_browse(p: PickerView, key: KeyEvent, world: WorldView)
    requires
        p.wf(),
        key_laws::uncovered(p),
        p.places is None,
        key.code == KeyCode::Tab,
    ensures
        p.mode != Mode::Browse ==> p.keyed(key, world).0.mode == Mode::Browse
            && p.keyed(key, world).0.search_mode == p.mode && p.keyed(key, world).0.root == p.root,
        p.mode == Mode::Browse ==> p.keyed(key, world).0.mode == p.search_mode,
        p.keyed(key, world).0.query == p.query,
        p.keyed(key, world).1 == StepView::Continue,
{
    let q = p.touched(key).quiet();
    assert(p.keyed(key, world) == (q.crossed(world), StepView::Continue)) by {
        reveal(PickerView::keyed);
        reveal(PickerView::main_keyed);
    }
    crossing(q, world);
}

proof fn crossing(p: PickerView, world: WorldView)
    requires
        p.wf(),
    ensures
        p.mode != Mode::Browse ==> p.crossed(world).mode == Mode::Browse && p.crossed(
            world,
        ).search_mode == p.mode && p.crossed(world).root == p.root,
        p.mode == Mode::Browse ==> p.crossed(world).mode == p.search_mode,
        p.crossed(world).query == p.query,
{
    reveal(PickerView::switched);
    reveal(PickerView::departed);
    reveal(PickerView::arrived);
    if p.mode == Mode::Browse {
        let moved = PickerView { search_mode: p.search_mode, ..p };
        assert(moved.browse_left(world.disk).query == p.query) by {
            reveal(PickerView::browse_left);
            reveal(PickerView::root_moved);
        }
    } else {
        reveal(PickerView::browse_entered);
    }
}

/// Ctrl-R opens the recent places over the screen and Ctrl-S the favorites, with
/// nothing typed and collected anew; the same key closes the list, and the other
/// one opens the other. The favorites are read again as their list opens.
pub proof fn ctrl_r_and_ctrl_s_open_their_list(p: PickerView, key: KeyEvent, world: WorldView)
    requires
        p.wf(),
        key_laws::uncovered(p),
        p.places matches Some(open) ==> open.lists_places(),
        key.modifiers.ctrl,
        !key.modifiers.alt,
        key.code == KeyCode::Char('r') || key.code == KeyCode::Char('s'),
    ensures
        ({
            let mode = if key.code == KeyCode::Char('r') {
                Mode::Recent
            } else {
                Mode::Favorites
            };
            let (q, step) = p.keyed(key, world);
            &&& q.mode == p.mode && q.root == p.root && q.query == p.query
            &&& q.browser == p.browser && q.tree == p.tree && q.tree_query == p.tree_query
            &&& p.places == Some(mode) ==> q.places is None
            &&& p.places != Some(mode) ==> {
                &&& q.places == Some(mode)
                &&& q.places_query.len() == 0
                &&& q.source(mode) is Some
                &&& q.source(mode)->Some_0.mode == mode
                &&& q.source(mode)->Some_0.scanning
                &&& q.source(mode)->Some_0.selected == 0
                &&& q.source(mode)->Some_0.query.len() == 0
                &&& mode == Mode::Favorites ==> step == StepView::ReloadPins
            }
        }),
{
    reveal(PickerView::keyed);
    reveal(PickerView::main_keyed);
    reveal(PickerView::places_keyed);
    reveal(PickerView::switched);
    reveal(PickerView::places_opened);
}

/// Ctrl-A in a search that stopped at its ceiling collects all of it, with what is
/// typed kept; in one that did not stop it does nothing.
pub proof fn ctrl_a_collects_the_rest(p: PickerView, key: KeyEvent, world: WorldView)
    requires
        key_laws::in_search(p),
        key.code == KeyCode::Char('a'),
        key.modifiers.ctrl,
        !key.modifiers.alt,
    ensures
        ({
            let was = p.source(p.mode)->Some_0;
            let q = p.keyed(key, world).0;
            let now = q.source(p.mode)->Some_0;
            &&& key_laws::stays_put(p, q)
            &&& !was.truncated ==> q.source(p.mode) == p.source(p.mode) && q.unlimited
                == p.unlimited
            &&& was.truncated ==> {
                &&& q.unlimited
                &&& now.limit == 0
                &&& now.query == p.query
                &&& now.root == p.root
                &&& now.scanning && !now.scan_done
                &&& now.id == p.next_id
            }
        }),
{
    reveal(PickerView::keyed);
    reveal(PickerView::main_keyed);
    reveal(PickerView::search_keyed);
    reveal(PickerView::collected);
}

/// Esc in a list clears what is typed while something is, and is the end once
/// nothing is.
pub proof fn esc_clears_and_then_ends(p: PickerView, key: KeyEvent, world: WorldView)
    requires
        key.code == KeyCode::Esc,
    ensures
        key_laws::in_search(p) && p.query.len() > 0 ==> {
            let (q, step) = p.keyed(key, world);
            step == StepView::Continue && q.query.len() == 0 && q.root == p.root && q.mode == p.mode
        },
        key_laws::in_search(p) && p.query.len() == 0 ==> p.keyed(key, world).1 == StepView::Cancel,
        key_laws::in_columns(p) && p.browser->Some_0.filter.len() > 0 ==> {
            let (q, step) = p.keyed(key, world);
            &&& step == StepView::Continue
            &&& q.browser->Some_0.filter.len() == 0
            &&& q.browser->Some_0.cwd == p.browser->Some_0.cwd
        },
        key_laws::in_columns(p) && p.browser->Some_0.filter.len() == 0 ==> p.keyed(key, world).1
            == StepView::Cancel,
        (key_laws::in_folders(p) || key_laws::in_matches(p)) && p.tree_query.len() > 0 ==> {
            let (q, step) = p.keyed(key, world);
            step == StepView::Continue && q.tree_query.len() == 0 && q.found is None
        },
        (key_laws::in_folders(p) || key_laws::in_matches(p)) && p.tree_query.len() == 0 ==> p.keyed(
            key,
            world,
        ).1 == StepView::Cancel,
        key_laws::in_places(p) ==> {
            let (q, step) = p.keyed(key, world);
            &&& step == StepView::Continue
            &&& p.places_query.len() > 0 ==> q.places == p.places && q.places_query.len() == 0
            &&& p.places_query.len() == 0 ==> q.places is None
            &&& q.query == p.query && q.mode == p.mode
        },
{
    reveal(PickerView::keyed);
    reveal(PickerView::main_keyed);
    reveal(PickerView::places_keyed);
    reveal(PickerView::places_escaped);
    reveal(PickerView::places_queried);
    reveal(PickerView::escaped);
    reveal(PickerView::queried);
    reveal(PickerView::tree_queried);
}

/// Right in the tree opens the selected folder: what it holds stands below it, a
/// level deeper, in the order listed, and the rows around it stay.
pub proof fn right_in_the_tree_opens_the_folder(
    p: PickerView,
    key: KeyEvent,
    world: WorldView,
    k: int,
)
    requires
        key_laws::in_folders(p),
        key.code == KeyCode::Right,
        !key.modifiers.ctrl,
        !key.modifiers.alt,
        p.tree->Some_0.selected < p.tree->Some_0.nodes.len(),
        p.tree->Some_0.nodes[p.tree->Some_0.selected as int].is_dir,
        !p.tree->Some_0.nodes[p.tree->Some_0.selected as int].open,
        p.tree->Some_0.nodes[p.tree->Some_0.selected as int].depth < usize::MAX,
        0 <= k < world.disk.listing(
            p.tree->Some_0.nodes[p.tree->Some_0.selected as int].path,
        ).len(),
    ensures
        ({
            let was = p.tree->Some_0;
            let now = p.keyed(key, world).0.tree->Some_0;
            let at = was.selected as int;
            let node = was.nodes[at];
            let held = world.disk.listing(node.path);
            &&& now.selected == was.selected
            &&& now.nodes[at].open
            &&& now.nodes[at].path == node.path
            &&& now.nodes.len() == was.nodes.len() + held.len()
            &&& now.nodes[at + 1 + k].path == node.path.join(held[k].name, was.on)
            &&& now.nodes[at + 1 + k].is_dir == held[k].is_dir
            &&& now.nodes[at + 1 + k].depth == node.depth + 1
            &&& !now.nodes[at + 1 + k].open
            &&& forall|i: int| 0 <= i < at ==> (#[trigger] now.nodes[i]).path == was.nodes[i].path
            &&& forall|i: int|
                at < i < was.nodes.len() ==> #[trigger] was.nodes[i].path == now.nodes[i
                    + held.len()].path
        }),
{
    reveal(PickerView::keyed);
    reveal(PickerView::main_keyed);
    reveal(PickerView::tree_keyed);
}

/// Right on an open folder of the tree selects the first row inside it.
pub proof fn right_on_an_open_folder_steps_into_it(p: PickerView, key: KeyEvent, world: WorldView)
    requires
        key_laws::in_folders(p),
        key.code == KeyCode::Right,
        !key.modifiers.ctrl,
        !key.modifiers.alt,
        p.tree->Some_0.selected + 1 < p.tree->Some_0.nodes.len() <= usize::MAX,
        p.tree->Some_0.nodes[p.tree->Some_0.selected as int].is_dir,
        p.tree->Some_0.nodes[p.tree->Some_0.selected as int].open,
        p.tree->Some_0.nodes[p.tree->Some_0.selected + 1].depth
            == p.tree->Some_0.nodes[p.tree->Some_0.selected as int].depth + 1,
    ensures
        p.keyed(key, world).0.tree->Some_0.selected == p.tree->Some_0.selected + 1,
        p.keyed(key, world).0.tree->Some_0.nodes == p.tree->Some_0.nodes,
{
    reveal(PickerView::keyed);
    reveal(PickerView::main_keyed);
    reveal(PickerView::tree_keyed);
}

/// Left in the tree closes an open folder: the row stays selected, and what was
/// below it is gone. On a closed row it selects the folder that holds it: a row
/// above that is less deep, with none as shallow in between.
pub proof fn left_in_the_tree_closes_or_climbs(p: PickerView, key: KeyEvent, world: WorldView)
    requires
        key_laws::in_folders(p),
        key.code == KeyCode::Left,
        !key.modifiers.ctrl,
        !key.modifiers.alt,
        0 < p.tree->Some_0.selected < p.tree->Some_0.nodes.len() <= usize::MAX,
    ensures
        ({
            let was = p.tree->Some_0;
            let now = p.keyed(key, world).0.tree->Some_0;
            let at = was.selected as int;
            &&& was.nodes[at].open ==> {
                &&& now.selected == was.selected
                &&& now.nodes.len() <= was.nodes.len()
                &&& !now.nodes[at].open
                &&& now.nodes[at].path == was.nodes[at].path
                &&& at + 1 < now.nodes.len() ==> now.nodes[at + 1].depth <= was.nodes[at].depth
            }
            &&& !was.nodes[at].open ==> {
                &&& now.nodes == was.nodes
                &&& now.selected < was.selected
                &&& now.selected > 0 ==> was.nodes[now.selected as int].depth < was.nodes[at].depth
                &&& forall|i: int|
                    now.selected < i < at ==> (#[trigger] was.nodes[i]).depth
                        >= was.nodes[at].depth
            }
        }),
{
    reveal(PickerView::keyed);
    reveal(PickerView::main_keyed);
    reveal(PickerView::tree_keyed);
    reveal(PickerView::tree_lefted);
    let was = p.tree->Some_0;
    crate::tree::what_left_does(was);
}

/// Right on a place in a list closes the list and goes there: a search starts from
/// it with nothing typed, and browse shows it in the folder it is in. A place that
/// is not there any more is only said.
pub proof fn right_on_a_place_goes_there(p: PickerView, key: KeyEvent, world: WorldView)
    requires
        key_laws::in_places(p),
        key.code == KeyCode::Right,
        key.modifiers == Modifiers::none(),
        p.browser is Some,
        world.entry_at(
            p.source(p.places->Some_0)->Some_0.id,
            p.source(p.places->Some_0)->Some_0.selected,
        ) is Some,
    ensures
        ({
            let source = p.source(p.places->Some_0)->Some_0;
            let path = world.entry_at(source.id, source.selected)->Some_0.path(p.on);
            let (q, step) = p.keyed(key, world);
            &&& step == StepView::Continue
            &&& q.mode == p.mode || world.refusal(path) is Some
            &&& !world.disk.is_there(path) ==> {
                &&& q.places == p.places && q.root == p.root && q.browser == p.browser
                &&& q.notice == Some("Not there any more: "@ + path.text(p.on))
            }
            &&& world.disk.is_there(path) ==> q.places is None
            &&& world.disk.is_there(path) && p.mode == Mode::Browse && p.on == Platform::Unix
                && path.names.len() > 0 && path.names.last() != seq!['.'] && path.names.last()
                != seq!['.', '.'] && world.disk.is_dir(
                PathView { top: path.top, names: path.names.drop_last() },
            ) ==> q.browser is Some && q.browser->Some_0.cwd == (PathView {
                top: path.top,
                names: path.names.drop_last(),
            })
            &&& world.disk.is_dir(path) && p.mode != Mode::Browse && world.refusal(path) is None
                && !path.same(p.root) && !path.is_empty() ==> q.root == path && q.query.len()
                == 0 && q.mode == p.mode
        }),
{
    let source = p.source(p.places->Some_0)->Some_0;
    let path = world.entry_at(source.id, source.selected)->Some_0.path(p.on);
    let t = p.touched(key).quiet();
    assert(t.looked(world.disk) == t && t.selection(world) == Some(path)) by {
        reveal(PickerView::looked);
        reveal(PickerView::selection);
    }
    assert(p.keyed(key, world) == (t.place_righted(world), StepView::Continue)) by {
        reveal(PickerView::keyed);
        reveal(PickerView::places_keyed);
        reveal(PickerView::places_moved);
    }
    reveal(PickerView::place_righted);
    if world.disk.is_there(path) {
        if p.mode != Mode::Browse {
            if world.disk.is_dir(path) && world.refusal(path) is None && !path.same(p.root)
                && !path.is_empty() {
                crate::laws::a_place_taken_can_be_gone_back_from(t, path, world);
            }
            assert(t.place_taken(path, world).places is None) by {
                reveal(PickerView::place_taken);
                reveal(PickerView::browsed_at);
                reveal(PickerView::switched);
                reveal(PickerView::departed);
                reveal(PickerView::arrived);
                reveal(PickerView::browse_left);
                reveal(PickerView::browse_entered);
                reveal(PickerView::queried);
                reveal(PickerView::root_moved);
                reveal(PickerView::tree_queried);
            }
            assert(world.refusal(path) is None ==> t.place_taken(path, world).mode == p.mode) by {
                reveal(PickerView::place_taken);
                reveal(PickerView::browsed_at);
                reveal(PickerView::switched);
                reveal(PickerView::departed);
                reveal(PickerView::arrived);
                reveal(PickerView::browse_left);
                reveal(PickerView::browse_entered);
                reveal(PickerView::queried);
                reveal(PickerView::root_moved);
            }
        } else {
            reveal(PickerView::place_taken);
        }
    }
}

/// Left on the root line of the tree moves the tree, and browse with it, to the
/// folder above.
pub proof fn left_on_the_root_line_goes_up(p: PickerView, key: KeyEvent, world: WorldView)
    requires
        key_laws::in_folders(p),
        key.code == KeyCode::Left,
        !key.modifiers.ctrl,
        !key.modifiers.alt,
        p.tree->Some_0.selected == 0,
    ensures
        ({
            let was = p.browser->Some_0;
            let q = p.keyed(key, world).0;
            &&& q.mode == p.mode && q.tree_view
            &&& was.cwd.names.len() > 0 ==> {
                let above = PathView { top: was.cwd.top, names: was.cwd.names.drop_last() };
                &&& q.browser is Some && q.browser->Some_0.cwd == above
                &&& q.tree is Some && q.tree->Some_0.root == above
            }
            &&& was.cwd.names.len() == 0 && was.on == Platform::Unix ==> q.browser == p.browser
                && q.tree == p.tree
        }),
{
    reveal(PickerView::keyed);
    reveal(PickerView::main_keyed);
    reveal(PickerView::tree_keyed);
    reveal(PickerView::tree_lefted);
}

/// Right on a match in the tree ends the search and shows the match in the tree of
/// folders.
pub proof fn right_on_a_match_shows_it_in_the_tree(p: PickerView, key: KeyEvent, world: WorldView)
    requires
        key_laws::in_matches(p),
        key.code == KeyCode::Right,
        !key.modifiers.ctrl,
        !key.modifiers.alt,
        p.browser is Some,
        !p.found->Some_0.nodes[p.found->Some_0.selected as int].path.is_empty(),
    ensures
        ({
            let q = p.keyed(key, world).0;
            &&& q.found is None
            &&& q.tree_query.len() == 0
            &&& q.mode == p.mode && q.tree_view
            &&& q.tree is Some
            &&& q.browser == p.browser
        }),
{
    reveal(PickerView::keyed);
    reveal(PickerView::main_keyed);
    reveal(PickerView::tree_keyed);
    reveal(PickerView::search_left);
}

/// A search that moves keeps no list of the place it was at, of either kind: each is
/// started from the new place when it is next shown.
pub proof fn a_search_that_moves_starts_anew(p: PickerView, key: KeyEvent, world: WorldView)
    requires
        key_laws::in_search(p),
        key.code == KeyCode::Left,
        !key.modifiers.ctrl,
        !key.modifiers.alt,
        p.root.names.len() > 0,
    ensures
        ({
            let q = p.keyed(key, world).0;
            let other = if p.mode == Mode::Dirs {
                Mode::Files
            } else {
                Mode::Dirs
            };
            &&& q.source(other) is None
            &&& q.source(p.mode) matches Some(source) ==> source.root == q.root && source.scanning
                && source.query == p.query
            &&& q.roots_back.len() > 0 && q.roots_back.last().root == p.root
                && q.roots_back.last().query == p.query
            &&& q.roots_forward.len() == 0
        }),
{
    reveal(PickerView::keyed);
    reveal(PickerView::main_keyed);
    reveal(PickerView::search_keyed);
    reveal(PickerView::navigated);
    reveal(PickerView::search_navigated);
    reveal(PickerView::root_moved);
}

/// A match that the tree of folders then shows is the row selected there.
pub proof fn a_match_gone_to_is_selected(
    p: PickerView,
    key: KeyEvent,
    world: WorldView,
    k: int,
)
    requires
        key_laws::in_matches(p),
        key.code == KeyCode::Right,
        !key.modifiers.ctrl,
        !key.modifiers.alt,
        p.browser is Some,
        !p.found->Some_0.nodes[p.found->Some_0.selected as int].path.is_empty(),
        0 <= k < p.keyed(key, world).0.tree->Some_0.nodes.len() <= usize::MAX,
        p.keyed(key, world).0.tree->Some_0.nodes[k].path
            == p.found->Some_0.nodes[p.found->Some_0.selected as int].path,
    ensures
        ({
            let was = p.found->Some_0;
            let now = p.keyed(key, world).0.tree->Some_0;
            now.nodes[now.selected as int].path == was.nodes[was.selected as int].path
        }),
{
    let was = p.found->Some_0;
    let now = p.keyed(key, world).0.tree->Some_0;
    reveal(PickerView::keyed);
    reveal(PickerView::main_keyed);
    reveal(PickerView::tree_keyed);
    reveal(PickerView::search_left);
    crate::tree::a_row_is_found_by_its_path(now.nodes, was.nodes[was.selected as int].path, k);
}

/// Tab from a search shows in browse what is selected there, in the folder it is
/// in; with nothing selected, or where it is gone, it shows the folder searched.
pub proof fn tab_shows_what_is_selected(p: PickerView, key: KeyEvent, world: WorldView)
    requires
        key_laws::in_search(p),
        key.code == KeyCode::Tab,
        p.browser is None,
        p.on == Platform::Unix,
    ensures
        ({
            let source = p.source(p.mode)->Some_0;
            let entry = world.entry_at(source.id, source.selected);
            let q = p.keyed(key, world).0;
            let b = q.browser->Some_0;
            &&& q.mode == Mode::Browse
            &&& q.browser is Some
            &&& entry is None ==> b.cwd == p.root
            &&& entry is Some && !world.disk.is_there(entry->Some_0.path(p.on)) ==> b.cwd == p.root
            &&& entry is Some && world.disk.is_there(entry->Some_0.path(p.on)) ==> {
                let path = entry->Some_0.path(p.on);
                let folder = PathView { top: path.top, names: path.names.drop_last() };
                path.names.len() > 0 && path.names.last() != seq!['.'] && path.names.last()
                    != seq!['.', '.'] && world.disk.is_dir(folder) ==> b.cwd == folder
            }
        }),
{
    reveal(PickerView::keyed);
    reveal(PickerView::main_keyed);
    reveal(PickerView::switched);
    reveal(PickerView::departed);
    reveal(PickerView::arrived);
    reveal(PickerView::browse_entered);
}

} // verus!
