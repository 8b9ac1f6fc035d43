//! What searching, pinning and going somewhere come to.

use vstd::prelude::*;

use crate::favorites::{self, FavoriteView, PinView};
use crate::fs_path::{self, PathView, Platform};
use crate::key_laws;
use crate::keys::{KeyCode, KeyEvent};
use crate::mode::Mode;
use crate::picker::{PickerView, StepView};
use crate::scan::{self, EntryView, Resolved, Volume, Walked};
use crate::session::{self, OpeningView};
use crate::source::{Shown, SourceView};
use crate::turns::ReportView;
use crate::world::{self, WorldView};

verus! {

/// What an entry that is only relative to its root prints is the root with it
/// joined, and a whole path prints as it is. In files it is the folder the file is
/// in; from a list of places it never is. The folder an action left for is printed
/// before anything selected, and with nothing taken nothing is printed.
pub proof fn what_the_picker_prints(p: PickerView, entry: EntryView)
    ensures
        ({
            let path = if entry.exact is Some {
                fs_path::parsed(entry.exact->Some_0, p.on)
            } else if fs_path::parsed(entry.display, p.on).is_absolute(p.on) {
                fs_path::parsed(entry.display, p.on)
            } else {
                entry.root.join(entry.display, p.on)
            };
            let out = p.output(Some(entry));
            &&& p.after_cd is None && p.places is None && p.mode == Mode::Files
                && path.names.len() > 0 ==> out == Some(
                (PathView { top: path.top, names: path.names.drop_last() }).text(p.on),
            )
            &&& p.after_cd is None && (p.places is Some || p.mode != Mode::Files) ==> {
                &&& entry.exact is Some ==> out == entry.exact
                &&& entry.exact is None && path == entry.root.join(entry.display, p.on)
                    && !fs_path::parsed(entry.display, p.on).is_absolute(p.on) ==> out == Some(
                    path.text(p.on),
                )
            }
            &&& p.after_cd is Some ==> out == Some(p.after_cd->Some_0.text(p.on))
            &&& p.after_cd is None ==> p.output(None) is None
        }),
{
}

/// A search for folders lists folders, one for files files; neither lists the
/// folder searched, nor what cannot be told, nor anything outside.
pub proof fn a_search_lists_what_it_is_for(
    root: PathView,
    walked: Walked,
    mode: Mode,
    on: Platform,
)
    ensures
        ({
            let listed = scan::entry_of(root, walked, mode, on) is Some;
            &&& listed ==> walked.depth > 0
            &&& listed ==> walked.is_dir is Some
            &&& listed && mode == Mode::Dirs ==> walked.is_dir == Some(true)
            &&& listed && mode == Mode::Files ==> walked.is_dir == Some(false)
            &&& listed ==> root.names.is_prefix_of(walked.path@.names)
            &&& walked.depth > 0 && walked.path@.top == root.top && root.names.is_prefix_of(
                walked.path@.names,
            ) ==> {
                &&& mode == Mode::Dirs && walked.is_dir == Some(true) ==> listed
                &&& mode == Mode::Files && walked.is_dir == Some(false) ==> listed
                &&& mode == Mode::Browse && walked.is_dir is Some ==> listed
            }
            &&& mode.lists_places() ==> !listed
        }),
{
}

/// What a search lists leads to what the walk came upon.
pub proof fn a_row_leads_to_what_was_found(root: PathView, walked: Walked, mode: Mode)
    requires
        root.top == seq!['/'],
        walked.path@.top == root.top,
        walked.path@.names.len() > root.names.len(),
        forall|i: int|
            0 <= i < walked.path@.names.len() ==> fs_path::plain_name(
                #[trigger] walked.path@.names[i],
                Platform::Unix,
            ),
        scan::entry_of(root, walked, mode, Platform::Unix) is Some,
    ensures
        scan::entry_of(root, walked, mode, Platform::Unix)->Some_0.path(Platform::Unix)
            == walked.path@,
        scan::entry_of(root, walked, mode, Platform::Unix)->Some_0.root == root,
{
    let path = walked.path@;
    let below = path.names.skip(root.names.len() as int);
    assert forall|i: int| 0 <= i < below.len() implies fs_path::plain_name(
        #[trigger] below[i],
        Platform::Unix,
    ) by {
        assert(below[i] == path.names[i + root.names.len()]);
    }
    assert(root.names + below =~= path.names) by {
        assert(root.names =~= path.names.take(root.names.len() as int));
    }
    fs_path::what_is_below_is_reached_by_joining(root, below);
    fs_path::a_path_written_out_reads_back(path);
}

/// With nothing typed and the walk over, the rows of a search are in the order the
/// walk gave; with something typed, or in a list of places, in the matcher's.
pub proof fn rows_follow_the_walk_or_the_match(source: SourceView, n: u32)
    ensures
        source.query.len() == 0 && (source.mode == Mode::Dirs || source.mode == Mode::Files
            || source.mode == Mode::Browse) && source.browse_order is Some ==> {
            let order = source.browse_order->Some_0;
            &&& n < order.len() ==> source.row(n) == Some(Shown::Item(order[n as int]))
            &&& n >= order.len() ==> source.row(n) is None
        },
        source.query.len() > 0 || source.browse_order is None || source.mode == Mode::Recent
            || source.mode == Mode::Favorites ==> source.row(n) == Some(Shown::Matched(n)),
{
}

/// A report on a list keeps the selection where it is while that row is there, and
/// otherwise on the last row. The end of the walk is taken in once, with its order
/// shown only when everything it found is listed, and with what went wrong kept.
pub proof fn a_report_keeps_a_row_selected(source: SourceView, report: ReportView)
    ensures
        ({
            let now = source.ticked(report);
            &&& source.selected < report.count ==> now.selected == source.selected
            &&& 0 < report.count <= source.selected ==> now.selected == report.count - 1
            &&& report.count == 0 ==> now.selected == 0
            &&& now.query == source.query && now.id == source.id && now.root == source.root
            &&& now.mode == source.mode
            &&& now.truncated == report.truncated
            &&& report.finished is None ==> now.scanning == source.scanning && now.scan_done
                == source.scan_done && now.scan_error == source.scan_error
            &&& source.scanning && report.finished is Some ==> !now.scanning && now.scan_done
            &&& source.scanning && report.finished is Some && report.finished->Some_0 is Err
                ==> now.scan_error == Some(report.finished->Some_0->Err_0)
            &&& source.scanning && report.finished is Some && report.finished->Some_0 is Ok && (
            source.mode == Mode::Dirs || source.mode == Mode::Files) && source.browse_order
                is None ==> {
                let order = report.finished->Some_0->Ok_0;
                &&& report.listed == report.sent ==> now.browse_order == Some(order)
                &&& report.listed != report.sent ==> now.browse_order is None
                    && now.scanned_order == Some(order)
            }
        }),
{
}

/// The row of a list the program was told of is what it was told.
pub proof fn a_row_is_what_was_told(w: WorldView, k: int)
    requires
        0 <= k < w.listed.len(),
        forall|j: int|
            0 <= j < k ==> (#[trigger] w.listed[j]).source != w.listed[k].source || w.listed[j].row
                != w.listed[k].row,
    ensures
        w.entry_at(w.listed[k].source, w.listed[k].row) == Some(w.listed[k].entry),
{
    the_first_told(w, k, 0);
}

proof fn the_first_told(w: WorldView, k: int, from: int)
    requires
        0 <= from <= k < w.listed.len(),
        forall|j: int|
            0 <= j < k ==> (#[trigger] w.listed[j]).source != w.listed[k].source || w.listed[j].row
                != w.listed[k].row,
    ensures
        world::entry_from(w.listed, w.listed[k].source, w.listed[k].row, from) == Some(
            w.listed[k].entry,
        ),
    decreases k - from,
{
    if from < k {
        assert(w.listed[from].source != w.listed[k].source || w.listed[from].row
            != w.listed[k].row);
        the_first_told(w, k, from + 1);
    }
}

/// Every list has its own place, so what is kept for one is not another's.
pub proof fn every_list_is_kept_apart(
    p: PickerView,
    mode: Mode,
    other: Mode,
    source: Option<SourceView>,
)
    requires
        p.sources.len() == 5,
        mode != other,
    ensures
        p.with_source(mode, source).source(mode) == source,
        p.with_source(mode, source).source(other) == p.source(other),
{
}

/// Whether a list has just been started.
pub open spec fn just_started(source: SourceView) -> bool {
    &&& source.scanning && !source.scan_done && !source.truncated
    &&& source.scan_error is None && source.browse_order is None && source.scanned_order is None
    &&& source.selected == 0
}

/// A folder pinned or unpinned is shown so at once, and the list of favorites is
/// read again: straight away while it is open, and otherwise when it is next shown.
/// What could not be done changes nothing, and why is said until something else
/// is.
pub proof fn a_pin_is_taken_in(
    p: PickerView,
    path: PathView,
    outcome: Result<(bool, favorites::IndexView), Seq<char>>,
)
    requires
        p.wf(),
    ensures
        ({
            let q = p.pinned_or_not(path, outcome);
            &&& q.mode == p.mode && q.root == p.root && q.query == p.query
            &&& q.browser == p.browser && q.places == p.places && q.places_query
                == p.places_query
            &&& q.notice is Some && q.notice_since is None
            &&& q.source(Mode::Dirs) == p.source(Mode::Dirs) && q.source(Mode::Files) == p.source(
                Mode::Files,
            ) && q.source(Mode::Recent) == p.source(Mode::Recent)
            &&& outcome is Err ==> {
                &&& q.pinned == p.pinned && q.sources == p.sources
                &&& q.notice == Some("Cannot update favorites: "@ + outcome->Err_0)
            }
            &&& outcome is Ok ==> {
                &&& q.pinned == outcome->Ok_0.1
                &&& p.places != Some(Mode::Favorites) ==> q.source(Mode::Favorites) is None
                &&& p.places == Some(Mode::Favorites) ==> q.source(Mode::Favorites) is Some
                    && just_started(q.source(Mode::Favorites)->Some_0) && q.source(
                    Mode::Favorites,
                )->Some_0.query == p.places_query && q.source(Mode::Favorites)->Some_0.id
                    == p.next_id
                &&& outcome->Ok_0.0 ==> q.notice == Some("Pinned: "@ + path.text(p.on))
                &&& !outcome->Ok_0.0 ==> q.notice == Some("Unpinned: "@ + path.text(p.on))
            }
        }),
{
    reveal(PickerView::pinned_or_not);
}

/// A name saved is said for a while, and the list of favorites is read again; a
/// name that could not be saved changes nothing, and why is said.
pub proof fn a_name_is_taken_in(
    p: PickerView,
    path: PathView,
    name: Seq<char>,
    outcome: Result<favorites::IndexView, Seq<char>>,
    now: u64,
)
    requires
        p.wf(),
    ensures
        ({
            let q = p.named_or_not(path, name, outcome, now);
            &&& q.mode == p.mode && q.root == p.root && q.query == p.query && q.places == p.places
            &&& outcome is Err ==> q.pinned == p.pinned && q.sources == p.sources && q.notice
                == Some("Cannot name the favorite: "@ + outcome->Err_0) && q.notice_since is None
            &&& outcome is Ok ==> {
                &&& q.pinned == outcome->Ok_0
                &&& q.source(Mode::Favorites) is None
                &&& q.source(Mode::Dirs) == p.source(Mode::Dirs)
                &&& q.notice_since == Some(now)
                &&& name.len() > 0 ==> q.notice == Some(path.text(p.on) + " is now :"@ + name)
                &&& name.len() == 0 ==> q.notice == Some("Name removed: "@ + path.text(p.on))
            }
        }),
{
    reveal(PickerView::named_or_not);
}

/// A confirmation is taken away three seconds after it was given, and no sooner;
/// what failed stays.
pub proof fn a_confirmation_stays_three_seconds(p: PickerView, now: u64)
    ensures
        p.notice_since is None ==> !p.notice_due(now),
        p.notice_since is Some && now < p.notice_since->Some_0 + 3_000 ==> !p.notice_due(now),
        p.notice_since is Some && now >= p.notice_since->Some_0 + 3_000 ==> p.notice_due(now),
{
}

/// An action that says itself what follows is followed by that, and any other by
/// what is set for the run.
pub proof fn an_action_is_followed_by_its_own(p: PickerView, action: crate::action_menu::ActionView)
    ensures
        action.follow is Some ==> Some(p.follows(action)) == action.follow,
        action.follow is None ==> p.follows(action) == p.after_action,
{
}

/// An action that ends the run with cd ends in a folder: the one it ran on, or the
/// one the file is in.
pub proof fn cd_ends_in_a_folder(p: PickerView, target: PathView, world: WorldView)
    ensures
        ({
            let q = p.leaving_for(target, world.disk);
            &&& q.output(None) is Some
            &&& world.disk.is_dir(target) ==> q.output(None) == Some(target.text(p.on))
            &&& !world.disk.is_dir(target) && target.names.len() > 0 ==> q.output(None) == Some(
                (PathView { top: target.top, names: target.names.drop_last() }).text(p.on),
            )
        }),
{
}

/// A picker opens in the search asked for, with what is asked for typed, from the
/// root asked for. Where that may not be searched it opens in browse there, and
/// says why.
pub proof fn a_picker_opens_where_it_is_asked_to(opening: OpeningView, world: WorldView)
    requires
        opening.mode == Mode::Dirs || opening.mode == Mode::Files,
    ensures
        ({
            let p = opening.opened(world.disk);
            &&& p.root == opening.root
            &&& p.search_mode == opening.mode
            &&& p.after_action == opening.after_action
            &&& p.menu is None && p.keys is None && p.places is None && p.naming is None
            &&& !p.tree_view
            &&& p.roots_back.len() == 0 && p.roots_forward.len() == 0
            &&& opening.refused is None ==> {
                &&& p.mode == opening.mode
                &&& p.query == opening.query
                &&& opening.pinned is Ok ==> p.notice is None
            }
            &&& opening.refused is Some ==> {
                &&& p.mode == Mode::Browse
                &&& p.browser is Some
                &&& p.browser->Some_0.filter == opening.query
                &&& p.notice == Some("Opened in browse: "@ + opening.refused->Some_0)
            }
            &&& opening.pinned is Ok ==> p.pinned == opening.pinned->Ok_0
            &&& opening.pinned is Err ==> p.notice is Some && p.pinned.keys.len() == 0
        }),
{
    reveal(PickerView::queried);
}

/// Asked for a list of places, a picker opens in browse with the list over it and
/// what is asked for typed into the list.
pub proof fn a_list_asked_for_opens_over_browse(opening: OpeningView, world: WorldView)
    requires
        opening.mode == Mode::Recent || opening.mode == Mode::Favorites,
    ensures
        ({
            let p = opening.opened(world.disk);
            &&& p.mode == Mode::Browse
            &&& p.places == Some(opening.mode)
            &&& p.places_query == opening.query
            &&& p.search_mode == Mode::Dirs
            &&& p.root == opening.root
            &&& p.query.len() == 0
        }),
{
    reveal(PickerView::places_opened);
    reveal(PickerView::places_queried);
}

/// Pinning adds a folder at the end of the list and leaves the rest alone.
pub proof fn pinning_adds_at_the_end(list: Seq<FavoriteView>, asked: PinView)
    requires
        forall|i: int|
            0 <= i < list.len() ==> !favorites::same_folder(
                (#[trigger] list[i]).path,
                asked.directory,
                asked.on,
            ),
        asked.wanted != Some(false),
    ensures
        asked.outcome(list).len() == list.len() + 1,
        asked.outcome(list).take(list.len() as int) == list,
        asked.outcome(list).last().path == asked.directory,
        asked.outcome(list).last().name == asked.name,
{
    assert(!favorites::pinned(list, asked.directory, asked.on));
    assert(asked.outcome(list).take(list.len() as int) =~= list);
}

proof fn what_is_left_unpinned(
    list: Seq<FavoriteView>,
    directory: Seq<char>,
    on: Platform,
    f: FavoriteView,
)
    ensures
        favorites::unpinned(list, directory, on).contains(f) <==> (list.contains(f)
            && !favorites::same_folder(f.path, directory, on)),
    decreases list.len(),
{
    if list.len() > 0 {
        what_is_left_unpinned(list.drop_last(), directory, on, f);
        let before = favorites::unpinned(list.drop_last(), directory, on);
        let out = favorites::unpinned(list, directory, on);
        if list.drop_last().contains(f) {
            let i = choose|i: int| 0 <= i < list.drop_last().len() && list.drop_last()[i] == f;
            assert(list[i] == f);
        }
        assert(list.contains(list.last()));
        if list.contains(f) && f != list.last() {
            let i = choose|i: int| 0 <= i < list.len() && list[i] == f;
            assert(list.drop_last()[i] == f);
        }
        if before.contains(f) && out != before {
            let i = choose|i: int| 0 <= i < before.len() && before[i] == f;
            assert(out[i] == f);
        }
        if out != before {
            assert(out.last() == list.last());
            assert(out.contains(list.last()));
            if out.contains(f) && f != list.last() {
                let i = choose|i: int| 0 <= i < out.len() && out[i] == f;
                assert(before[i] == f);
            }
        }
    }
}

/// Unpinning takes a folder out of the list, and nothing else.
pub proof fn unpinning_takes_out_one_folder(
    list: Seq<FavoriteView>,
    asked: PinView,
    f: FavoriteView,
)
    requires
        asked.wanted == Some(false) || (asked.wanted is None && favorites::pinned(
            list,
            asked.directory,
            asked.on,
        )),
    ensures
        asked.outcome(list).contains(f) <==> (list.contains(f) && !favorites::same_folder(
            f.path,
            asked.directory,
            asked.on,
        )),
{
    what_is_left_unpinned(list, asked.directory, asked.on, f);
    if !favorites::pinned(list, asked.directory, asked.on) && list.contains(f) {
        let i = choose|i: int| 0 <= i < list.len() && list[i] == f;
        assert(!favorites::same_folder(list[i].path, asked.directory, asked.on));
    }
}

/// Naming a pinned folder gives it that name, and no other favorite another.
pub proof fn naming_names_one_folder(list: Seq<FavoriteView>, asked: PinView, i: int)
    requires
        0 <= i < list.len(),
        asked.wanted == Some(true),
        asked.name is Some,
        favorites::pinned(list, asked.directory, asked.on),
    ensures
        ({
            let now = asked.outcome(list);
            &&& now.len() == list.len()
            &&& now[i].path == list[i].path
            &&& favorites::same_folder(list[i].path, asked.directory, asked.on) ==> now[i].name
                == asked.name
            &&& !favorites::same_folder(list[i].path, asked.directory, asked.on) ==> now[i]
                == list[i]
        }),
{
}

/// A name that is another folder's is refused, in whatever case; so is a name with
/// a space or a slash, one that starts with the mark, and pinning what is no folder.
pub proof fn what_cannot_be_pinned(list: Seq<FavoriteView>, asked: PinView, i: int)
    requires
        asked.wanted == Some(true),
    ensures
        !asked.is_dir ==> !asked.allowed(list),
        asked.name is Some && asked.name->Some_0.len() == 0 ==> !asked.allowed(list),
        asked.name is Some && asked.name->Some_0.len() > 0 && asked.name->Some_0[0] == '@'
            ==> !asked.allowed(list),
        asked.name is Some && asked.name->Some_0.contains('/') ==> !asked.allowed(list),
        asked.name is Some && asked.name->Some_0.contains('\\') ==> !asked.allowed(list),
        asked.name is Some && 0 <= i < list.len() && list[i].name is Some
            && crate::text::same_but_case(list[i].name->Some_0, asked.name->Some_0)
            && !favorites::same_folder(list[i].path, asked.directory, asked.on)
            ==> !asked.allowed(list),
        asked.is_dir && asked.name is None ==> asked.allowed(list),
{
    if asked.name is Some && 0 <= i < list.len() {
        some_other_is_called(list, asked.name->Some_0, asked.directory, asked.on, i, 0);
    }
}

proof fn some_other_is_called(
    list: Seq<FavoriteView>,
    name: Seq<char>,
    directory: Seq<char>,
    on: Platform,
    i: int,
    from: int,
)
    requires
        0 <= from <= i < list.len(),
    ensures
        list[i].name is Some && crate::text::same_but_case(list[i].name->Some_0, name)
            && !favorites::same_folder(list[i].path, directory, on)
            ==> favorites::first_other_called(list, name, directory, on, from) is Some,
    decreases i - from,
{
    if from < i {
        some_other_is_called(list, name, directory, on, i, from + 1);
    }
}

/// A favorite in the list of places leads to its folder, whether it has a name or
/// not, and a name is shown before the path.
pub proof fn a_favorite_leads_to_its_folder(favorite: FavoriteView, on: Platform)
    requires
        fs_path::parsed(favorite.path, on).is_absolute(on),
    ensures
        scan::saved_entry(favorite).path(on) == fs_path::parsed(favorite.path, on),
        favorite.name is None ==> scan::saved_entry(favorite).display == favorite.path,
        favorite.name is Some ==> favorite.name->Some_0.is_prefix_of(
            scan::saved_entry(favorite).display.skip(1),
        ) && scan::saved_entry(favorite).display.len() > favorite.path.len()
            && scan::saved_entry(favorite).display.skip(
            scan::saved_entry(favorite).display.len() - favorite.path.len(),
        ) == favorite.path,
{
    reveal_strlit(":");
    reveal_strlit("  ");
    if favorite.name is Some {
        let name = favorite.name->Some_0;
        let display = scan::saved_entry(favorite).display;
        assert(display.skip(1).take(name.len() as int) =~= name);
        assert(display.skip(display.len() - favorite.path.len()) =~= favorite.path);
    }
}

/// Anything may be searched on Unix. On Windows a local drive may be, unless it
/// leads off it; a share or a drive of the network may not.
pub proof fn only_local_drives_are_searched(root: Volume, resolved: Resolved, on: Platform)
    ensures
        on == Platform::Unix ==> scan::scan_refusal(root, resolved, on) is None,
        on == Platform::Windows && root.path@.drive() is None ==> scan::scan_refusal(
            root,
            resolved,
            on,
        ) is Some,
        on == Platform::Windows && root.drive_type == 4 ==> scan::scan_refusal(root, resolved, on)
            is Some,
        on == Platform::Windows && root.path@.drive() is Some && (root.drive_type == 2
            || root.drive_type == 3) ==> {
            &&& resolved is Missing ==> scan::scan_refusal(root, resolved, on) is None
            &&& resolved is Failed ==> scan::scan_refusal(root, resolved, on) is Some
            &&& resolved is At && resolved->At_0.path@.drive() is Some
                && resolved->At_0.drive_type == 3 ==> scan::scan_refusal(root, resolved, on)
                is None
            &&& resolved is At && resolved->At_0.path@.drive() is None ==> scan::scan_refusal(
                root,
                resolved,
                on,
            ) is Some
            &&& resolved is At && resolved->At_0.drive_type == 4 ==> scan::scan_refusal(
                root,
                resolved,
                on,
            ) is Some
        },
{
}

/// Backspace held down past the last letter of a search stays there: with nothing
/// typed and a letter taken no more than a second and a half ago, the search does
/// not move.
pub proof fn backspace_too_many_stays(p: PickerView, key: KeyEvent, world: WorldView)
    requires
        key_laws::in_search(p),
        key.code == KeyCode::Backspace,
        p.query.len() == 0,
        p.last_erase is Some,
        p.last_erase->Some_0 <= world.now <= p.last_erase->Some_0 + 1_500,
    ensures
        p.keyed(key, world).1 == StepView::Continue,
        p.keyed(key, world).0.root == p.root,
        p.keyed(key, world).0.mode == p.mode,
        p.keyed(key, world).0.query.len() == 0,
        p.keyed(key, world).0.last_erase == Some(world.now),
{
    reveal(PickerView::keyed);
    reveal(PickerView::main_keyed);
    reveal(PickerView::search_keyed);
    reveal(PickerView::search_erased);
}

/// The preview is of the folder selected: its first five hundred names, or word
/// that it cannot be read.
pub proof fn the_preview_shows_the_folder(dir: PathView, world: WorldView, on: Platform, i: int)
    ensures
        ({
            let items = world.disk.listing(dir);
            let names = session::preview_names(dir, world, on);
            &&& world.unreadable.contains(dir) ==> names.len() == 1
            &&& !world.unreadable.contains(dir) ==> {
                &&& items.len() <= 500 ==> names.len() == items.len()
                &&& items.len() > 500 ==> names.len() == 500
                &&& 0 <= i < names.len() ==> items[i].name.is_prefix_of(names[i])
            }
        }),
{
    let items = world.disk.listing(dir);
    let names = session::preview_names(dir, world, on);
    if !world.unreadable.contains(dir) && 0 <= i < names.len() {
        assert(names[i].take(items[i].name.len() as int) =~= items[i].name);
    }
}

/// In the columns the preview is of the selected folder, and there is none of a
/// file.
pub proof fn the_preview_is_of_what_is_selected(p: PickerView, row: int, world: WorldView)
    requires
        p.wf(),
        p.mode == Mode::Browse && !p.tree_view,
        p.browser is Some,
        row == p.browser->Some_0.selected,
        row < p.browser->Some_0.rows.len(),
    ensures
        ({
            let b = p.browser->Some_0;
            let path = b.cwd.join(b.items[b.rows[row].index as int].name, b.on);
            let q = p.previewed(world);
            &&& world.disk.is_dir(path) ==> q.preview is Some && q.preview->Some_0.dir == path
            &&& !world.disk.is_dir(path) ==> q.preview is None
            &&& q.browser == p.browser && key_laws::stays_put(p, q)
        }),
{
    reveal(PickerView::previewed);
    reveal(PickerView::preview_target);
    reveal(PickerView::listed);
}

/// A walk that is called off stops at once; otherwise what is no candidate is passed
/// over, a candidate is kept while there is room, and the first one too many ends
/// the walk, which says so.
pub proof fn a_walk_keeps_what_it_has_room_for(
    entry: Option<EntryView>,
    signals: scan::Signals,
    found: nat,
    most: usize,
)
    ensures
        ({
            let (visit, now) = scan::visited(entry, signals, found, most);
            &&& now.cancel == signals.cancel && now.done == signals.done
            &&& signals.cancel ==> visit == scan::VisitView::Quit && now == signals
            &&& !signals.cancel && entry is None ==> visit == scan::VisitView::Pass && now
                == signals
            &&& !signals.cancel && entry is Some && found < most ==> visit
                == scan::VisitView::Keep(entry->Some_0) && now == signals
            &&& !signals.cancel && entry is Some && found >= most ==> visit
                == scan::VisitView::Quit && now.truncated
        }),
{
}

/// What was opened is said for a while, and what could not be until something else
/// is; nothing else changes.
pub proof fn what_was_opened_is_said(
    p: PickerView,
    path: PathView,
    outcome: Result<(), Seq<char>>,
    now: u64,
)
    ensures
        ({
            let q = p.open_reported(path, outcome, now);
            &&& q == (PickerView { notice: q.notice, notice_since: q.notice_since, ..p })
            &&& q.notice is Some
            &&& outcome is Ok ==> q.notice_since == Some(now) && "Opened: "@.is_prefix_of(
                q.notice->Some_0,
            )
            &&& outcome is Err ==> q.notice_since is None && "Cannot open "@.is_prefix_of(
                q.notice->Some_0,
            )
        }),
{
    let q = p.open_reported(path, outcome, now);
    let said = q.notice->Some_0;
    assert(outcome is Ok ==> said.subrange(0, "Opened: "@.len() as int) =~= "Opened: "@);
    assert(outcome is Err ==> said.subrange(0, "Cannot open "@.len() as int) =~= "Cannot open "@);
}

/// Favorites read again replace those known; what could not be read leaves them, and
/// is said.
pub proof fn favorites_read_again_replace_the_old(
    p: PickerView,
    pinned: Result<favorites::IndexView, Seq<char>>,
)
    ensures
        pinned is Ok ==> p.pins_reloaded(pinned) == (PickerView { pinned: pinned->Ok_0, ..p }),
        pinned is Err ==> {
            let q = p.pins_reloaded(pinned);
            &&& q.pinned == p.pinned
            &&& q.notice is Some && q.notice_since is None
            &&& q == (PickerView { notice: q.notice, notice_since: None, ..p })
        },
{
}

/// What a refusal is told for is the folder refused, and no other.
pub proof fn a_refusal_is_of_its_folder(w: WorldView, k: int, path: PathView)
    ensures
        0 <= k < w.refused.len() && (forall|j: int|
            0 <= j < k ==> (#[trigger] w.refused[j]).path != w.refused[k].path) ==> w.refusal(
            w.refused[k].path,
        ) == Some(w.refused[k].reason),
        (forall|j: int| 0 <= j < w.refused.len() ==> (#[trigger] w.refused[j]).path != path)
            ==> w.refusal(path) is None,
{
    if 0 <= k < w.refused.len() {
        the_first_refusal(w, w.refused[k].path, k, 0);
    }
    no_refusal(w, path, 0);
}

proof fn the_first_refusal(w: WorldView, path: PathView, k: int, from: int)
    requires
        0 <= from <= k < w.refused.len(),
        w.refused[k].path == path,
    ensures
        (forall|j: int| 0 <= j < k ==> (#[trigger] w.refused[j]).path != path)
            ==> world::refusal_from(w.refused, path, from) == Some(w.refused[k].reason),
    decreases k - from,
{
    if from < k {
        the_first_refusal(w, path, k, from + 1);
    }
}

proof fn no_refusal(w: WorldView, path: PathView, from: int)
    requires
        0 <= from,
    ensures
        (forall|j: int| 0 <= j < w.refused.len() ==> (#[trigger] w.refused[j]).path != path)
            ==> world::refusal_from(w.refused, path, from) is None,
    decreases w.refused.len() - from,
{
    if from < w.refused.len() {
        no_refusal(w, path, from + 1);
    }
}

/// Anything new heard of a list draws it again, and while it is filling it is drawn
/// all the time.
pub proof fn what_is_new_is_drawn(source: SourceView, report: ReportView)
    ensures
        report.changed ==> source.stirred(report),
        report.running ==> source.stirred(report),
        source.scanning && report.finished is Some ==> source.stirred(report),
        !source.scan_done && report.finished is None ==> source.stirred(report),
{
}

} // verus!
