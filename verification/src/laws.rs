//! What holds of the picker however it is used.

use vstd::prelude::*;

use crate::action_menu::{DecisionView, MenuView};
use crate::browse::{self, BrowserView};
use crate::disk::DiskView;
use crate::favorites::{self, FavoriteView};
use crate::fs_path::{PathView, Platform};
use crate::header::Nav;
use crate::input::{self, Ask, PlacesAsk};
use crate::key_menu::{self, Command};
use crate::keys::{KeyCode, KeyEvent, Modifiers};
use crate::mode::Mode;
use crate::moves::{self, MatchView};
use crate::picker::{
    Config, PickerView, RootVisitView, StepView, CLICK_GUARD, NOTICE_LINGER, ROOT_HISTORY,
};
use crate::pointer;
use crate::scan::EntryView;
use crate::screen::MouseEvent;
use crate::text;
use crate::tree;
use crate::world::WorldView;

verus! {

/// Going back undoes a move of the search: the place it started from comes
/// back, with what was typed there, and what was typed had stayed meanwhile.
pub proof fn going_back_undoes_a_move(p: PickerView, root: PathView)
    requires
        !root.same(p.root),
    ensures
        p.root_moved(root).root == root,
        p.root_moved(root).query == p.query,
        p.root_moved(root).has_roots(false),
        p.root_moved(root).root_retraced(false).root == p.root,
        p.root_moved(root).root_retraced(false).query == p.query,
        p.roots_back.len() < ROOT_HISTORY ==> p.root_moved(root).root_retraced(false).roots_back
            == p.roots_back,
{
    reveal(PickerView::root_moved);
    reveal(PickerView::root_retraced);
    let visit = RootVisitView { root: p.root, query: p.query };
    assert(moves::visited(p.roots_back, visit).last() == visit);
    if p.roots_back.len() < ROOT_HISTORY {
        assert(moves::visited(p.roots_back, visit).drop_last() =~= p.roots_back);
    }
}

/// A step back and a step forward lead to the place they started from, and so
/// do a step forward and a step back.
pub proof fn a_step_each_way_is_none(p: PickerView, forward: bool)
    requires
        p.has_roots(forward),
    ensures
        ({
            let q = p.root_retraced(forward).root_retraced(!forward);
            &&& q.root == p.root
            &&& q.query == p.query
            &&& q.roots_back == p.roots_back
            &&& q.roots_forward == p.roots_forward
        }),
{
    reveal(PickerView::root_retraced);
    let here = RootVisitView { root: p.root, query: p.query };
    if forward {
        let visit = p.roots_forward.last();
        assert(p.roots_back.push(here).drop_last() =~= p.roots_back);
        assert(p.roots_forward.drop_last().push(visit) =~= p.roots_forward);
    } else {
        let visit = p.roots_back.last();
        assert(p.roots_forward.push(here).drop_last() =~= p.roots_forward);
        assert(p.roots_back.drop_last().push(visit) =~= p.roots_back);
    }
}

/// A new place to search from ends what was ahead, and every list is collected
/// again for it.
pub proof fn a_new_place_ends_what_was_ahead(p: PickerView, root: PathView)
    requires
        !root.same(p.root),
    ensures
        !p.root_moved(root).has_roots(true),
        forall|mode: Mode| (#[trigger] p.root_moved(root).source(mode)) is None,
{
    reveal(PickerView::root_moved);
}

/// The places a search has started from are kept up to a number, in both
/// directions together.
pub proof fn the_trail_is_bounded(p: PickerView, root: PathView, forward: bool)
    requires
        p.wf(),
    ensures
        p.root_moved(root).roots_back.len() + p.root_moved(root).roots_forward.len()
            <= ROOT_HISTORY,
        p.root_retraced(forward).roots_back.len() + p.root_retraced(forward).roots_forward.len()
            <= ROOT_HISTORY,
{
    reveal(PickerView::root_moved);
    reveal(PickerView::root_retraced);
}

/// Whether the screen under a list of places is the same.
pub open spec fn same_screen(p: PickerView, q: PickerView) -> bool {
    &&& q.mode == p.mode
    &&& q.search_mode == p.search_mode
    &&& q.root == p.root
    &&& q.query == p.query
    &&& q.browser == p.browser
    &&& q.tree == p.tree
    &&& q.tree_view == p.tree_view
    &&& q.tree_query == p.tree_query
    &&& q.found == p.found
    &&& q.roots_back == p.roots_back
    &&& q.roots_forward == p.roots_forward
    &&& forall|mode: Mode| !mode.lists_places() ==> #[trigger] q.source(mode) == p.source(mode)
}

/// A list of places is closed by what opened it, and the screen under it is as
/// it was throughout.
pub proof fn a_list_closes_by_what_opened_it(p: PickerView, mode: Mode)
    requires
        p.wf(),
        mode.lists_places(),
        p.places != Some(mode),
    ensures
        p.places_opened(mode).places == Some(mode),
        p.places_opened(mode).places_query.len() == 0,
        same_screen(p, p.places_opened(mode)),
        p.places_opened(mode).places_opened(mode).places is None,
        same_screen(p, p.places_opened(mode).places_opened(mode)),
{
    reveal(PickerView::places_opened);
}

/// Esc in a list of places clears what is typed, and with nothing typed closes
/// the list; the screen under it stays as it is either way.
pub proof fn esc_clears_a_list_before_it_closes(p: PickerView)
    requires
        p.wf(),
        p.places is Some,
        p.places->Some_0.lists_places(),
    ensures
        p.places_query.len() > 0 ==> p.places_escaped().places == p.places
            && p.places_escaped().places_query.len() == 0,
        p.places_query.len() == 0 ==> p.places_escaped().places is None,
        same_screen(p, p.places_escaped()),
{
    reveal(PickerView::places_escaped);
    reveal(PickerView::places_queried);
}

/// Esc clears what is typed on a screen, and with nothing typed it is the end.
pub proof fn esc_clears_before_it_ends(p: PickerView, disk: DiskView)
    requires
        p.wf(),
        p.mode == Mode::Browse && !p.tree_view ==> p.browser is Some,
    ensures
        p.typed().len() > 0 ==> p.escaped(disk).1 == StepView::Continue && p.escaped(
            disk,
        ).0.typed().len() == 0,
        p.typed().len() == 0 ==> p.escaped(disk) == (p, StepView::Cancel),
{
    reveal(PickerView::escaped);
    reveal(PickerView::queried);
    reveal(PickerView::tree_queried);
}

/// Ctrl-C ends every list, whatever is typed.
pub proof fn ctrl_c_ends_every_list(p: PickerView, world: WorldView)
    requires
        p.naming is None,
        p.menu is None,
        p.keys is None,
    ensures
        p.keyed(KeyEvent { code: KeyCode::Char('c'), modifiers: Modifiers::only_ctrl() }, world).1
            == StepView::Cancel,
{
    reveal(PickerView::keyed);
    reveal(PickerView::places_keyed);
    reveal(PickerView::main_keyed);
    let key = KeyEvent { code: KeyCode::Char('c'), modifiers: Modifiers::only_ctrl() };
    assert(input::ask_of(key) == Ask::Cancel);
    assert(input::places_ask_of(key) == PlacesAsk::Cancel);
}

/// Backspace takes back the letter typed last, in a search.
pub proof fn backspace_takes_back_a_letter(p: PickerView, c: char, world: WorldView)
    requires
        p.wf(),
        p.mode != Mode::Browse,
    ensures
        p.queried(p.query.push(c), world.disk).query == p.query.push(c),
        p.queried(p.query.push(c), world.disk).search_erased(world).query == p.query,
        p.queried(p.query.push(c), world.disk).search_erased(world).root == p.root,
{
    reveal(PickerView::queried);
    reveal(PickerView::search_erased);
    assert(p.query.push(c).drop_last() =~= p.query);
}

/// Held down to clear what was typed, Backspace stops at the empty filter: for
/// as long as it goes on within the pause, the search stays where it is.
pub proof fn holding_backspace_stops_at_the_empty_filter(p: PickerView, world: WorldView)
    requires
        p.query.len() == 0,
        p.erasing(world.now),
    ensures
        p.search_erased(world) == p.erased(world.now),
        p.search_erased(world).root == p.root,
        p.search_erased(world).erasing(world.now),
{
    reveal(PickerView::search_erased);
}

/// A row of the panel of keys that names a shortcut does what the shortcut does
/// with the panel closed.
pub proof fn a_row_does_what_its_shortcut_does(
    p: PickerView,
    key: KeyEvent,
    code: KeyCode,
    modifiers: Modifiers,
    world: WorldView,
)
    requires
        p.naming is None,
        p.menu is None,
        p.keys is Some,
        key.code != KeyCode::Esc,
        p.keys->Some_0.handled(key).1 == key_menu::Decision::Run(
            Command::Press(code, modifiers),
        ),
    ensures
        p.keyed(key, world) == (PickerView { keys: None, ..p }).keyed(
            KeyEvent { code, modifiers },
            world,
        ),
{
    reveal(PickerView::keyed);
    reveal(PickerView::panel_keyed);
    let pressed = KeyEvent { code, modifiers };
    let closed = PickerView { keys: None, ..p };
    assert((PickerView { keys: None, ..p.touched(key) }).touched(pressed) == closed.touched(
        pressed,
    ));
}

/// A confirmation goes quiet once its time is up and not before; any other
/// message stays until something replaces it.
pub proof fn a_confirmation_passes_and_a_failure_stays(
    p: PickerView,
    said: Seq<char>,
    now: u64,
    later: u64,
)
    requires
        now <= later,
    ensures
        p.confirmed(said, now).notice == Some(said),
        p.confirmed(said, now).notice_due(later) == (later - now >= NOTICE_LINGER),
        p.noted(said).notice == Some(said),
        !p.noted(said).notice_due(later),
{
}

/// After a click has changed what is under the pointer, presses are ignored for
/// a while, and only they are.
pub proof fn a_second_press_does_not_reach_what_was_behind(
    p: PickerView,
    mouse: MouseEvent,
    since: u64,
    world: WorldView,
)
    requires
        since <= world.now,
        mouse.kind is Down,
    ensures
        world.now - since < CLICK_GUARD ==> p.blocked(since).moused(mouse, world) == (
            p.blocked(since),
            StepView::Continue,
        ),
        world.now - since >= CLICK_GUARD ==> !p.blocked(since).clicks_blocked(world.now),
{
    reveal(PickerView::moused);
}

/// Tab from browse starts the search where browse is, and keeps what is typed
/// there. Where that is somewhere new the screen says so, and going back
/// undoes it.
pub proof fn tab_searches_from_where_browse_is(p: PickerView, world: WorldView)
    requires
        !p.search_mode.lists_places(),
        p.search_mode != Mode::Browse,
        p.mode == Mode::Browse,
        p.browser is Some,
        !p.browser->Some_0.cwd.is_empty(),
    ensures
        ({
            let q = p.crossed(world);
            let cwd = p.browser->Some_0.cwd;
            &&& q.mode == p.search_mode
            &&& q.root.same(cwd)
            &&& q.query == p.query
            &&& q.browser == p.browser
            &&& q.browser_root == q.root
            &&& q.tree_view == p.tree_view
            &&& cwd.same(p.root) ==> q.root == p.root
            &&& !cwd.same(p.root) ==> {
                &&& q.root == cwd
                &&& q.notice == Some("Searching from "@ + cwd.text(p.on) + "  Ctrl-Left: back"@)
                &&& q.root_retraced(false).root == p.root
                &&& q.root_retraced(false).query == p.query
            }
        }),
{
    reveal(PickerView::switched);
    reveal(PickerView::departed);
    reveal(PickerView::browse_left);
    reveal(PickerView::arrived);
    let cwd = p.browser->Some_0.cwd;
    let moved = (PickerView { search_mode: p.search_mode, ..p }).with_browser(world.disk);
    assert(moved == p);
    if !cwd.same(p.root) {
        going_back_undoes_a_move(p, cwd);
        reveal(PickerView::root_moved);
        reveal(PickerView::root_retraced);
    } else {
        reveal(PickerView::root_moved);
    }
}

/// Browse is found as it was left: its folder, what is selected and what is
/// typed stay as the modes are switched.
pub proof fn browse_is_found_as_it_was_left(p: PickerView, world: WorldView)
    requires
        p.wf(),
        p.mode == Mode::Browse,
        p.browser is Some,
        !p.browser->Some_0.cwd.is_empty(),
    ensures
        p.crossed(world).crossed(world).mode == Mode::Browse,
        p.crossed(world).crossed(world).browser == p.browser,
        p.crossed(world).crossed(world).tree_view == p.tree_view,
        p.crossed(world).crossed(world).search_mode == p.search_mode,
{
    tab_searches_from_where_browse_is(p, world);
    let q = p.crossed(world);
    reveal(PickerView::switched);
    reveal(PickerView::departed);
    reveal(PickerView::arrived);
    reveal(PickerView::browse_entered);
    reveal(PickerView::browse_left);
    reveal(PickerView::root_moved);
}

/// Browse opens on the folder being searched; what is selected in the search is
/// shown in the folder holding it.
pub proof fn browse_opens_on_the_folder_searched(p: PickerView, world: WorldView)
    requires
        p.wf(),
        p.mode != Mode::Browse,
        p.browser is None || !p.browser_root.same(p.root),
    ensures
        ({
            let q = p.crossed(world);
            let shown = moves::revealed_entry(p.mode, p.entry_of(p.mode, world), world.disk, p.on);
            let fresh = BrowserView::fresh(p.root, p.on, world.disk);
            &&& q.mode == Mode::Browse
            &&& q.root == p.root
            &&& q.query == p.query
            &&& q.search_mode == p.mode
            &&& shown is None ==> q.browser == Some(fresh) && fresh.cwd == p.root
            &&& shown matches Some(path) ==> q.browser == Some(fresh.showing(path, world.disk))
        }),
{
    reveal(PickerView::switched);
    reveal(PickerView::departed);
    reveal(PickerView::arrived);
    reveal(PickerView::browse_entered);
}

/// Tab there and back comes back to the search it left, with what was typed.
/// The search is where it was, as long as browse is.
pub proof fn tab_comes_back_to_the_search_it_left(p: PickerView, world: WorldView)
    requires
        p.wf(),
        p.mode != Mode::Browse,
        !p.crossed(world).browser->Some_0.cwd.is_empty(),
    ensures
        p.crossed(world).mode == Mode::Browse,
        p.crossed(world).crossed(world).mode == p.mode,
        p.crossed(world).crossed(world).query == p.query,
        p.crossed(world).browser->Some_0.cwd.same(p.root) ==> p.crossed(world).crossed(world).root
            == p.root,
{
    reveal(PickerView::switched);
    reveal(PickerView::departed);
    reveal(PickerView::arrived);
    reveal(PickerView::browse_entered);
    let q = p.crossed(world);
    assert(q.browser is Some);
    assert(q.mode == Mode::Browse && q.search_mode == p.mode && q.query == p.query);
    assert(q.root == p.root);
    tab_searches_from_where_browse_is(q, world);
}

/// Left in a search widens it by a level, and what is typed stays; at the top
/// of a drive it stays where it is and the screen says so.
pub proof fn left_widens_the_search(p: PickerView)
    ensures
        p.search_navigated(crate::header::Nav::Up).query == p.query,
        p.root.parent() matches Some(parent) ==> p.search_navigated(
            crate::header::Nav::Up,
        ).root == parent,
        p.root.parent() is None ==> p.search_navigated(crate::header::Nav::Up).root == p.root
            && p.search_navigated(crate::header::Nav::Up).notice == Some(
            "Already at the top of the drive"@,
        ),
{
    reveal(PickerView::search_navigated);
    reveal(PickerView::root_moved);
}

/// Right on a place in a list takes a search there: it starts from the place
/// with nothing typed, and going back brings back where it started and what
/// was typed.
pub proof fn a_place_taken_can_be_gone_back_from(p: PickerView, path: PathView, world: WorldView)
    requires
        p.wf(),
        p.mode != Mode::Browse,
        world.disk.is_dir(path),
        !path.is_empty(),
        !path.same(p.root),
        world.refusal(path) is None,
    ensures
        ({
            let q = p.place_taken(path, world);
            &&& q.places is None
            &&& q.mode == p.mode
            &&& q.root == path
            &&& q.query.len() == 0
            &&& q.root_retraced(false).root == p.root
            &&& q.root_retraced(false).query == p.query
        }),
{
    reveal(PickerView::place_taken);
    reveal(PickerView::browsed_at);
    let there = (PickerView { places: None, ..p }).browsed_at(path, world.disk);
    let b = (PickerView { mode: Mode::Browse, places: None, ..p }).with_browser(
        world.disk,
    ).browser->Some_0;
    assert(b.navigated(path, world.disk).cwd == path);
    assert(there.browser == Some(b.navigated(path, world.disk)));
    assert(there.mode == Mode::Browse && there.search_mode == p.mode);
    let back = there.crossed(world);
    assert(back == there.switched(p.mode, world));
    reveal(PickerView::switched);
    reveal(PickerView::departed);
    reveal(PickerView::browse_left);
    reveal(PickerView::arrived);
    reveal(PickerView::root_moved);
    reveal(PickerView::root_retraced);
    reveal(PickerView::queried);
}

/// A place that may not be searched is opened in browse, which says why.
pub proof fn a_place_that_may_not_be_searched_opens_in_browse(
    p: PickerView,
    path: PathView,
    world: WorldView,
)
    requires
        p.mode != Mode::Browse,
        world.refusal(path) is Some,
    ensures
        p.place_taken(path, world).mode == Mode::Browse,
        p.place_taken(path, world).places is None,
        p.place_taken(path, world).root == p.root,
        p.place_taken(path, world).notice == Some(
            "Opened in browse: "@ + world.refusal(path)->Some_0,
        ),
{
    reveal(PickerView::place_taken);
    reveal(PickerView::browsed_at);
}

/// Collecting the rest of a list keeps what is typed and where the search is,
/// and there is no ceiling from then on.
pub proof fn collecting_the_rest_keeps_the_filter(p: PickerView)
    requires
        p.wf(),
        p.mode != Mode::Browse,
        p.source(p.mode) is Some,
        p.source(p.mode)->Some_0.truncated,
    ensures
        ({
            let q = p.collected();
            &&& q.unlimited
            &&& q.query == p.query
            &&& q.root == p.root
            &&& q.source(p.mode) is Some
            &&& q.source(p.mode)->Some_0.query == p.query
            &&& q.source(p.mode)->Some_0.limit == 0
            &&& !q.source(p.mode)->Some_0.scan_done
        }),
{
    reveal(PickerView::collected);
}

/// Browse shown as a tree and as columns again, with nothing done in between,
/// is in the folder it was in.
pub proof fn toggling_the_tree_twice_stays_in_place(p: PickerView, world: WorldView)
    requires
        p.mode == Mode::Browse,
        !p.tree_view,
        p.tree is None,
        p.found is None,
    ensures
        p.tree_toggled(world).in_tree(),
        p.tree_toggled(world).browser == p.browser,
        !p.tree_toggled(world).tree_toggled(world).tree_view,
        p.tree_toggled(world).tree_toggled(world).mode == Mode::Browse,
        p.tree_toggled(world).tree_toggled(world).browser == p.browser,
{
    reveal(PickerView::tree_toggled);
}

/// Leaving the tree for the columns selects what was selected in the tree, in
/// the folder holding it.
pub proof fn leaving_the_tree_selects_what_was_chosen_there(
    p: PickerView,
    dir: PathView,
    name: Seq<char>,
    world: WorldView,
)
    requires
        p.in_tree(),
        p.browser is Some,
        p.browser->Some_0.on == p.on,
        p.tree_selection() == Some(dir.join(name, p.on)),
        !dir.join(name, p.on).same(p.browser->Some_0.cwd),
        crate::fs_path::plain_name(name, p.on),
        world.disk.is_dir(dir),
        world.disk.listing(dir).len() <= usize::MAX,
        browse::item_names(world.disk.listing(dir)).contains(name),
    ensures
        !p.tree_toggled(world).tree_view,
        p.tree_toggled(world).browser->Some_0.cwd == dir,
        p.tree_toggled(world).browser->Some_0.selected_path() == Some(dir.join(name, p.on)),
{
    reveal(PickerView::tree_toggled);
    browse::what_is_shown_in_place_is_selected(p.browser->Some_0, dir, name, world.disk);
}

/// The actions run on what was selected when the menu opened: no key changes
/// the target, nor what actions there are.
pub proof fn the_target_of_the_menu_stays(menu: MenuView, key: KeyEvent)
    ensures
        menu.handled(key).0.target == menu.target,
        menu.handled(key).0.items == menu.items,
        menu.handled(key).0.tools == menu.tools,
{
}

/// Alt with a letter runs its action while typing, even one the filter hides:
/// what is typed makes no difference.
pub proof fn an_alt_letter_runs_its_action_whatever_is_typed(
    menu: MenuView,
    typed: Seq<char>,
    ch: char,
    key: KeyEvent,
)
    requires
        menu.pending_tool is None,
        key.code == KeyCode::Char(ch),
        key.modifiers.alt,
        !key.modifiers.ctrl,
    ensures
        menu.filtered(typed).handled(key).1 == menu.handled(key).1,
        menu.pressed(ch) matches Some(action) ==> menu.filtered(typed).handled(key).1
            == DecisionView::Run(action),
{
}

/// A press of the mouse takes away what was said before it, a failure too.
pub proof fn a_press_takes_away_what_was_said(p: PickerView, mouse: MouseEvent, world: WorldView)
    requires
        mouse.kind is Down,
        p.config.mouse,
        p.menu is None,
        p.keys is None,
        !p.clicks_blocked(world.now),
    ensures
        p.pointed(mouse, world) == p.quiet().pointed(mouse, world),
{
    reveal(PickerView::pointed);
}

/// The mouse selects and moves. Nothing but a right press hands a path to
/// another program or opens the menu of actions, and no press ends the picker.
pub proof fn only_a_right_press_starts_anything(
    p: PickerView,
    mouse: MouseEvent,
    world: WorldView,
)
    ensures
        ({
            let step = p.pointed(mouse, world).1;
            ||| step is Continue
            ||| step is ReloadPins
            ||| pointer::is_right(mouse) && (step is Launch || step is Actions)
        }),
{
    reveal(PickerView::pointed);
    reveal(PickerView::places_pointed);
    reveal(PickerView::screen_pointed);
    reveal(PickerView::header_clicked);
    reveal(PickerView::rows_pointed);
    reveal(PickerView::row_taken);
}

/// Whether two states are on the same screen, in the same folder, searching from
/// the same place.
pub open spec fn in_the_same_place(p: PickerView, q: PickerView) -> bool {
    &&& q.mode == p.mode
    &&& q.tree_view == p.tree_view
    &&& q.root == p.root
    &&& p.browser is Some ==> {
        &&& q.browser is Some
        &&& q.browser->Some_0.cwd == p.browser->Some_0.cwd
        &&& q.browser->Some_0.filter == p.browser->Some_0.filter
    }
}

proof fn listing_stays_in_place(p: PickerView, disk: DiskView)
    ensures
        in_the_same_place(p, p.listed(disk)),
        in_the_same_place(p, p.looked(disk)),
{
    reveal(PickerView::listed);
    reveal(PickerView::looked);
}

proof fn a_right_press_on_a_row_stays_in_place(
    p: PickerView,
    row: int,
    mouse: MouseEvent,
    world: WorldView,
)
    requires
        pointer::is_right(mouse),
    ensures
        in_the_same_place(p, p.row_taken(row, mouse, world).0),
{
    reveal(PickerView::row_taken);
    reveal(PickerView::tree_row_taken);
    reveal(PickerView::browse_row_taken);
    let q = if p.in_tree() {
        p.tree_row_taken(row, mouse, world)
    } else if p.mode == Mode::Browse {
        p.browse_row_taken(row, mouse, world)
    } else {
        p.selected_in(p.mode, pointer::list_row(row))
    };
    assert(in_the_same_place(p, q));
    listing_stays_in_place(q, world.disk);
}

/// A right press leaves the picker where it is: on the same screen, in the same
/// folder, searching from the same place.
pub proof fn a_right_press_stays_in_place(p: PickerView, mouse: MouseEvent, world: WorldView)
    requires
        pointer::is_right(mouse),
    ensures
        in_the_same_place(p, p.pointed(mouse, world).0),
{
    reveal(PickerView::pointed);
    reveal(PickerView::places_pointed);
    reveal(PickerView::screen_pointed);
    reveal(PickerView::rows_pointed);
    let q = p.clicks_taken().quiet().unclicked();
    listing_stays_in_place(q, world.disk);
    let r = q.listed(world.disk);
    if let Some(row) = r.row_wanted(mouse) {
        a_right_press_on_a_row_stays_in_place(r, row, mouse, world);
    }
}

/// A search cannot start above the top of a drive: it stays, and says so.
pub proof fn a_search_stops_at_the_top(p: PickerView, world: WorldView)
    requires
        p.mode != Mode::Browse,
        p.root.parent() is None,
    ensures
        p.navigated(Nav::Up, world) == p.noted("Already at the top of the drive"@),
{
    reveal(PickerView::navigated);
    reveal(PickerView::search_navigated);
}

/// Closing the panel of keys, by Esc or by what opened it, does nothing else.
pub proof fn closing_the_panel_does_nothing(p: PickerView, key: KeyEvent, world: WorldView)
    requires
        p.keys is Some,
        p.naming is None,
        p.menu is None,
        key.code == KeyCode::Esc || input::ask_of(key) == Ask::Keys,
    ensures
        p.keyed(key, world) == (
            (PickerView { keys: None, ..p.touched(key) }),
            StepView::Continue,
        ),
{
    reveal(PickerView::keyed);
    reveal(PickerView::panel_keyed);
}

/// Icons are for display only: with them or without, the same is selected,
/// pinned and gone to, and a scan collects as much.
pub proof fn icons_change_nothing_but_the_picture(p: PickerView, icons: bool, world: WorldView)
    ensures
        ({
            let q = PickerView { config: Config { icons, ..p.config }, ..p };
            &&& q.selection(world) == p.selection(world)
            &&& q.pin_target(world) == p.pin_target(world)
            &&& q.accepted(world).1 == p.accepted(world).1
            &&& q.limit() == p.limit()
            &&& forall|entry: Option<EntryView>| #[trigger] q.output(entry) == p.output(entry)
        }),
{
    reveal(PickerView::selection);
    reveal(PickerView::pin_target);
    reveal(PickerView::accepted);
    reveal(PickerView::looked);
}

/// Matches as the tree takes them.
pub open spec fn places_of(entries: Seq<(EntryView, bool)>, on: Platform) -> Seq<(PathView, bool)> {
    entries.map_values(|e: (EntryView, bool)| (e.0.path(on), e.1))
}

/// With something typed into the tree and the matches there are taken in, the
/// best of them is selected, so Enter pressed at once goes there.
pub proof fn the_best_match_is_selected_at_once(
    p: PickerView,
    query: Seq<char>,
    entries: Seq<(EntryView, bool)>,
    after: PickerView,
    disk: DiskView,
)
    requires
        p.wants_matches(query, disk),
        entries.len() > 0,
        forall|i: int|
            0 <= i < entries.len() ==> (#[trigger] entries[i]).0.path(p.on).names.len() > 0,
        tree::with_matches(
            p.with_tree(disk).tree->Some_0.root,
            places_of(entries, p.on),
            p.on,
        ).len() <= usize::MAX,
        p.tree_queried(query, disk).found_rebuilt(entries, disk, after),
    ensures
        after.found is Some,
        after.found->Some_0.selected_node().path == entries[0].0.path(p.on),
{
    reveal(PickerView::tree_queried);
    reveal(PickerView::rebuilt);
    let q = p.tree_queried(query, disk);
    let root = p.with_tree(disk).tree->Some_0.root;
    let matches = choose|matches: Seq<MatchView>|
        #[trigger] moves::matched_in(matches, entries, q.tree_query) && after == q.search_shown(
            matches,
            disk,
        );
    let rows = moves::found_rows(matches, p.on);
    assert(rows =~= places_of(entries, p.on)) by {
        assert forall|i: int| 0 <= i < rows.len() implies rows[i] == places_of(entries, p.on)[i] by {
            assert(matches[i].entry == entries[i].0);
        }
    }
    assert forall|i: int| 0 <= i < rows.len() implies (#[trigger] rows[i]).0.names.len() > 0 by {
        assert(rows[i].0 == entries[i].0.path(p.on));
    }
    assert(q.with_tree(disk) == q);
    tree::every_match_is_shown_once_and_bright(root, rows, p.on);
}

/// Enter in the name prompt with nothing typed asks to save an empty name, which
/// leaves the folder pinned without a name in whatever list it is saved to.
pub proof fn an_empty_name_keeps_the_favorite(
    p: PickerView,
    key: KeyEvent,
    list: Seq<FavoriteView>,
    is_dir: bool,
)
    requires
        p.naming is Some,
        text::trimmed(p.naming->Some_0.name).len() == 0,
        key.code == KeyCode::Enter,
    ensures
        ({
            let folder = p.naming->Some_0.path;
            let saved = favorites::saved_as(
                list,
                folder.text(p.on),
                is_dir,
                text::trimmed(p.naming->Some_0.name),
                p.on,
            );
            &&& p.naming_keyed(key) == (
                PickerView { naming: None, ..p },
                StepView::SaveName(folder, text::trimmed(p.naming->Some_0.name)),
            )
            &&& is_dir ==> saved is Some
            &&& saved matches Some(now) ==> favorites::pinned_without_name(
                now,
                folder.text(p.on),
                p.on,
            )
        }),
{
    reveal(PickerView::naming_keyed);
    favorites::an_empty_name_leaves_the_folder_pinned(
        list,
        p.naming->Some_0.path.text(p.on),
        is_dir,
        text::trimmed(p.naming->Some_0.name),
        p.on,
    );
}

} // verus!
