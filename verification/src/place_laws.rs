//! What paths, names and folders mean to each other.

use vstd::prelude::*;

use crate::browse::{self, BrowserView, ItemView};
use crate::disk::DiskView;
use crate::favorites::{self, FavoriteView, IndexView};
use crate::fs_path::{self, PathView, Platform};
use crate::keys::{self, KeyCode, KeyEvent, Modifiers};
use crate::marks;
use crate::names::{self, NamesView};
use crate::picker::{PickerView, StepView};
use crate::scan;
use crate::session;
use crate::text;
use crate::world::WorldView;

verus! {

/// Two paths are one place only if their names are, one by one. Without a drive or
/// a share, so have to be their tops.
pub proof fn one_place_has_one_path(a: PathView, b: PathView)
    ensures
        a.same(a),
        a.same(b) == b.same(a),
        a.same(b) ==> a.names == b.names,
        a.top.len() < 2 && b.top.len() < 2 ==> (a.same(b) <==> a == b),
        a.top.len() >= 2 && fs_path::letter(a.top[0]) && a.top[1] == ':' && b.top.len() < 2
            ==> !a.same(b),
{
}

/// A path has a parent as long as it has names, with the last of them less; what is
/// under a folder has the folder's names first.
pub proof fn a_parent_is_a_name_shorter(path: PathView, base: PathView)
    ensures
        path.parent() is Some <==> path.names.len() > 0,
        path.parent() is Some ==> {
            let parent = path.parent()->Some_0;
            &&& parent.top == path.top
            &&& parent.names.len() == path.names.len() - 1
            &&& parent.names.push(path.names.last()) == path.names
            &&& path.under(parent)
            &&& !parent.under(path)
        },
        path.under(path),
        path.under(base) ==> base.names.len() <= path.names.len() && path.names.take(
            base.names.len() as int,
        ) == base.names,
{
    if path.names.len() > 0 {
        assert(path.names.drop_last().push(path.names.last()) =~= path.names);
        assert(path.names.drop_last() =~= path.names.subrange(0, path.names.len() - 1));
    }
    assert(path.names =~= path.names.subrange(0, path.names.len() as int));
    if path.under(base) {
        assert(path.names.take(base.names.len() as int) =~= base.names);
    }
}

/// On Unix a path written from the top is read with that top and is the same
/// wherever it is taken from; any other is taken from where it is.
pub proof fn a_path_from_the_top_is_absolute(written: Seq<char>)
    ensures
        ({
            let on = Platform::Unix;
            let path = fs_path::parsed(written, on);
            &&& written.len() > 0 && written[0] == '/' ==> path.is_absolute(on) && path.top
                == seq!['/']
            &&& (written.len() == 0 || written[0] != '/') ==> !path.is_absolute(on)
                && path.top.len() == 0
        }),
{
}

/// What is there on a disk: a folder is what can be listed, and only a folder or
/// the list of drives lists anything.
pub proof fn only_folders_list_anything(disk: DiskView, path: PathView)
    ensures
        disk.is_dir(path) ==> disk.is_there(path),
        disk.is_file(path) ==> disk.is_there(path),
        disk.is_dir(path) && (path.top.len() > 0 || path.names.len() > 0) ==> disk.listing(path)
            == disk.folders[path],
        !disk.is_dir(path) && (path.top.len() > 0 || path.names.len() > 0) ==> disk.listing(
            path,
        ).len() == 0,
        path.top.len() == 0 && path.names.len() == 0 ==> disk.listing(path) == disk.drives,
        disk.is_dir(path) <==> disk.folders.contains_key(path),
        disk.is_file(path) <==> disk.files.contains(path),
{
}

/// The folder above one is its parent. Above the top of a drive on Windows it is
/// the list of drives, where the drive goes by its letter; above the top of
/// anything else there is none.
pub proof fn what_is_above_a_folder(dir: PathView, on: Platform)
    ensures
        dir.names.len() > 0 ==> browse::folder_above(dir, on) == Some(
            PathView { top: dir.top, names: dir.names.drop_last() },
        ),
        dir.names.len() > 0 && dir.names.last() != seq!['.'] && dir.names.last() != seq![
            '.',
            '.',
        ] ==> browse::named_in_parent(dir, on) == Some(dir.names.last()),
        dir.names.len() == 0 && on == Platform::Unix ==> browse::folder_above(dir, on) is None,
        dir.names.len() == 0 && dir.top.len() == 0 ==> browse::folder_above(dir, on) is None,
        dir.names.len() == 0 && on == Platform::Windows && dir.top.len() == 3 && 'A' <= dir.top[0]
            <= 'Z' && dir.top[1] == ':' && dir.top[2] == '\\' ==> {
            &&& browse::folder_above(dir, on) is Some
            &&& browse::folder_above(dir, on)->Some_0.top.len() == 0
            &&& browse::folder_above(dir, on)->Some_0.names.len() == 0
            &&& browse::named_in_parent(dir, on) == Some(dir.top)
        },
{
    if dir.top.len() == 3 {
        assert(dir.top =~= seq![dir.top[0], dir.top[1], dir.top[2]]);
    }
}

/// Going somewhere leads into a folder, and to a file in the folder it is in; what
/// is not there leads nowhere.
pub proof fn where_a_path_leads(path: PathView, disk: DiskView)
    ensures
        ({
            let to = BrowserView::destination(path, disk);
            &&& disk.is_dir(path) ==> to is Some && to->Some_0.0 == path && to->Some_0.1 is None
            &&& !disk.is_dir(path) && disk.is_file(path) && path.names.len() > 0 ==> {
                &&& to is Some
                &&& to->Some_0.0 == (PathView { top: path.top, names: path.names.drop_last() })
                &&& path.names.last() != seq!['.'] && path.names.last() != seq!['.', '.']
                    ==> to->Some_0.1 == Some(path.names.last())
            }
            &&& !disk.is_there(path) ==> to is None
        }),
{
}

/// Something shown in its folder is shown there by its name, a folder too.
pub proof fn what_is_shown_is_shown_in_its_folder(path: PathView, disk: DiskView)
    requires
        path.names.len() > 0,
        path.names.last() != seq!['.'],
        path.names.last() != seq!['.', '.'],
        disk.is_dir(PathView { top: path.top, names: path.names.drop_last() }),
    ensures
        BrowserView::revealed(path, disk, Platform::Unix) == Some(
            (
                PathView { top: path.top, names: path.names.drop_last() },
                Some(path.names.last()),
            ),
        ),
{
}

/// A folder is listed with a separator after its name, and a file without.
pub proof fn folders_end_in_a_separator(item: ItemView)
    ensures
        ({
            let label = item.label(Platform::Unix);
            &&& item.is_dir && !item.name.contains('/') ==> label == item.name.push('/')
            &&& !item.is_dir ==> label == item.name
        }),
{
}

/// A letter's drive is listed exactly where its bit is set.
pub proof fn a_drive_is_listed_for_its_bit(mask: u32, n: nat, k: u32)
    requires
        k < n <= 26,
    ensures
        browse::drives_in(mask, n).contains(
            ItemView { name: seq![(65 + k) as char, ':', '\\'], is_dir: true },
        ) <==> (mask >> k) & 1 == 1,
    decreases n,
{
    let drive = ItemView { name: seq![(65 + k) as char, ':', '\\'], is_dir: true };
    let before = browse::drives_in(mask, (n - 1) as nat);
    let now = browse::drives_in(mask, n);
    let last = ItemView { name: seq![(64 + n) as char, ':', '\\'], is_dir: true };
    if k < n - 1 {
        a_drive_is_listed_for_its_bit(mask, (n - 1) as nat, k);
        assert(last.name[0] != drive.name[0]);
        if before.contains(drive) {
            let i = choose|i: int| 0 <= i < before.len() && before[i] == drive;
            assert(now[i] == drive);
        }
        if now.contains(drive) {
            let i = choose|i: int| 0 <= i < now.len() && now[i] == drive;
            assert(before[i] == drive);
        }
    } else {
        drives_below(mask, (n - 1) as nat);
        if now.contains(drive) {
            let i = choose|i: int| 0 <= i < now.len() && now[i] == drive;
            if i < before.len() {
                assert((before[i].name[0] as int) < 65 + k);
            }
        }
        if (mask >> k) & 1 == 1 {
            assert(now.last() == drive);
        }
    }
}

proof fn drives_below(mask: u32, n: nat)
    requires
        n <= 26,
    ensures
        forall|i: int|
            0 <= i < browse::drives_in(mask, n).len() ==> (
            #[trigger] browse::drives_in(mask, n)[i]).name.len() == 3 && (browse::drives_in(
                mask,
                n,
            )[i].name[0] as int) < 65 + n,
    decreases n,
{
    if n > 0 {
        drives_below(mask, (n - 1) as nat);
        let before = browse::drives_in(mask, (n - 1) as nat);
        let now = browse::drives_in(mask, n);
        assert forall|i: int| 0 <= i < now.len() implies (#[trigger] now[i]).name.len() == 3 && (
        now[i].name[0] as int) < 65 + n by {
            if i < before.len() {
                assert(now[i] == before[i]);
            }
        }
    }
}

/// A folder is marked as pinned when it is in the list, and no folder is when the
/// list is empty. On Unix one written otherwise, but for a separator at the end,
/// is not it.
pub proof fn a_pinned_folder_is_known(list: Seq<FavoriteView>, path: PathView, i: int)
    ensures
        ({
            let on = Platform::Unix;
            let index = IndexView { keys: favorites::keys_of(list, on), on };
            let written = path.text(on);
            &&& 0 <= i < list.len() && list[i].path == written ==> index.holds(path)
            &&& 0 <= i < list.len() && list[i].path == written.push('/') ==> index.holds(path)
            &&& list.len() == 0 ==> !index.holds(path)
            &&& (written.len() == 0 || written.last() != '/') && (forall|j: int|
                0 <= j < list.len() ==> !written.is_prefix_of((#[trigger] list[j]).path))
                ==> !index.holds(path)
        }),
{
    let on = Platform::Unix;
    let keys = favorites::keys_of(list, on);
    let index = IndexView { keys, on };
    let written = path.text(on);
    if 0 <= i < list.len() {
        assert(keys[i] == favorites::key_of(list[i].path, on));
        if list[i].path == written.push('/') {
            assert(written.push('/').drop_last() =~= written);
        }
    }
    if written.len() == 0 || written.last() != '/' {
        if index.holds(path) {
            let j = choose|j: int| 0 <= j < keys.len() && keys[j] == favorites::key_of(written, on);
            assert(keys[j] == favorites::key_of(list[j].path, on));
            stripped_is_the_front(list[j].path, '/');
        }
    }
}

proof fn stripped_is_the_front(t: Seq<char>, c: char)
    ensures
        text::stripped_end(t, c).is_prefix_of(t),
    decreases t.len(),
{
    if text::ends_in(t, c) {
        stripped_is_the_front(t.drop_last(), c);
        let s = text::stripped_end(t.drop_last(), c);
        assert(s =~= t.subrange(0, s.len() as int)) by {
            assert(s =~= t.drop_last().subrange(0, s.len() as int));
        }
    } else {
        assert(t =~= t.subrange(0, t.len() as int));
    }
}

/// On Unix two ways of writing a folder are one folder when they go through the
/// same names from the same top, and not otherwise.
pub proof fn one_folder_is_one_path(a: Seq<char>, b: Seq<char>)
    ensures
        ({
            let on = Platform::Unix;
            let (left, right) = (fs_path::parsed(a, on), fs_path::parsed(b, on));
            &&& favorites::same_folder(a, a, on)
            &&& left.top == right.top && left.names == right.names ==> favorites::same_folder(
                a,
                b,
                on,
            )
            &&& left.names != right.names ==> !favorites::same_folder(a, b, on)
            &&& left.top != right.top ==> !favorites::same_folder(a, b, on)
        }),
{
}

/// Names are the same in any case, and different in any other letter.
pub proof fn a_name_is_one_in_any_case(a: Seq<char>, b: Seq<char>, i: int)
    ensures
        text::same_but_case(a, a),
        a.len() != b.len() ==> !text::same_but_case(a, b),
        0 <= i < a.len() && a.len() == b.len() && 'a' <= a[i] <= 'z' && b[i] != a[i] && b[i] as int
            != a[i] as int - 32 ==> !text::same_but_case(a, b),
        a.len() == b.len() && (forall|k: int|
            0 <= k < a.len() ==> 'a' <= (#[trigger] a[k]) <= 'z' && b[k] as int == a[k] as int - 32)
            ==> text::same_but_case(a, b),
{
    if 0 <= i < a.len() && a.len() == b.len() && text::same_but_case(a, b) {
        assert(text::ascii_lower(a[i]) == text::ascii_lower(b[i]));
    }
}

/// A text trimmed is a part of it that neither starts nor ends with a blank, with
/// nothing but blanks taken away; one that does neither is left alone.
pub proof fn trimming_takes_blanks_from_the_ends(t: Seq<char>)
    ensures
        ({
            let trimmed = text::trimmed(t);
            &&& trimmed.len() > 0 ==> !text::whitespace(trimmed[0]) && !text::whitespace(
                trimmed.last(),
            )
            &&& t.len() > 0 && !text::whitespace(t[0]) && !text::whitespace(t.last()) ==> trimmed
                == t
            &&& t.len() > 0 && text::whitespace(t[0]) ==> trimmed == text::trimmed(t.drop_first())
            &&& trimmed.len() <= t.len()
        }),
{
    start_trimmed(t);
    end_trimmed(text::trimmed_start(t));
}

proof fn start_trimmed(t: Seq<char>)
    ensures
        text::trimmed_start(t).len() <= t.len(),
        text::trimmed_start(t).len() > 0 ==> !text::whitespace(text::trimmed_start(t)[0]),
    decreases t.len(),
{
    if t.len() > 0 && text::whitespace(t[0]) {
        start_trimmed(t.drop_first());
    }
}

proof fn end_trimmed(t: Seq<char>)
    ensures
        text::trimmed_end(t).len() <= t.len(),
        text::trimmed_end(t).len() > 0 ==> !text::whitespace(text::trimmed_end(t).last())
            && text::trimmed_end(t)[0] == t[0],
    decreases t.len(),
{
    if t.len() > 0 && text::whitespace(t.last()) {
        end_trimmed(t.drop_last());
    }
}

/// What is a blank: a space, a tab or the end of a line is one, a letter or a digit
/// is none.
pub proof fn letters_are_no_blanks(c: char)
    ensures
        text::whitespace(' ') && text::whitespace('\t') && text::whitespace('\n')
            && text::whitespace('\r'),
        'a' <= c <= 'z' || 'A' <= c <= 'Z' || '0' <= c <= '9' || c == '/' || c == '-' || c == '_'
            ==> !text::whitespace(c),
{
}

/// The number a text of digits stands for.
pub open spec fn value(digits: Seq<char>) -> int
    decreases digits.len(),
{
    if digits.len() == 0 {
        0
    } else {
        value(digits.drop_last()) * 10 + (digits.last() as int - '0' as int)
    }
}

/// A number written out stands for itself.
pub proof fn a_number_written_out_is_itself(n: nat)
    ensures
        value(text::decimal(n)) == n,
        text::decimal(n).len() > 0,
    decreases n,
{
    if n < 10 {
        assert(text::decimal(n).drop_last() =~= Seq::<char>::empty());
        assert(value(Seq::<char>::empty()) == 0);
    } else {
        a_number_written_out_is_itself(n / 10);
        assert(text::decimal(n).drop_last() =~= text::decimal(n / 10));
    }
}

/// A text cut at a character is put together again by it, and no part holds it.
pub proof fn parts_make_up_the_text(t: Seq<char>, c: char)
    ensures
        text::strung(text::parts(t, c), seq![c]) == t,
        text::parts(t, c).len() > 0,
        forall|i: int|
            0 <= i < text::parts(t, c).len() ==> !(#[trigger] text::parts(t, c)[i]).contains(c),
    decreases t.len(),
{
    let now = text::parts(t, c);
    if t.len() == 0 {
        assert(now[0] =~= t);
    } else {
        let before = text::parts(t.drop_last(), c);
        parts_make_up_the_text(t.drop_last(), c);
        assert(t =~= t.drop_last().push(t.last()));
        if t.last() == c {
            assert(now.drop_last() =~= before);
            assert(text::strung(now, seq![c]) =~= t);
            assert forall|i: int| 0 <= i < now.len() implies !(#[trigger] now[i]).contains(c) by {
                if i < before.len() {
                    assert(now[i] == before[i]);
                }
            }
        } else {
            assert(now.drop_last() =~= before.drop_last());
            assert(text::strung(now, seq![c]) =~= t);
            assert forall|i: int| 0 <= i < now.len() implies !(#[trigger] now[i]).contains(c) by {
                if i < before.len() - 1 {
                    assert(now[i] == before[i]);
                } else if now[i].contains(c) {
                    let k = choose|k: int| 0 <= k < now[i].len() && now[i][k] == c;
                    assert(before[i][k] == c);
                    assert(before[i].contains(c));
                }
            }
        }
    }
}

/// Of the lines zoxide answers with, those that hold something are listed.
pub proof fn recent_lists_every_line(answer: Seq<Seq<char>>, line: Seq<char>)
    ensures
        scan::filled(answer).contains(line) <==> (answer.contains(line) && line.len() > 0),
    decreases answer.len(),
{
    reveal(Seq::filter);
    let now = scan::filled(answer);
    if answer.len() > 0 {
        let rest = answer.drop_last();
        let before = scan::filled(rest);
        recent_lists_every_line(rest, line);
        assert(answer =~= rest.push(answer.last()));
        assert(answer.contains(line) <==> rest.contains(line) || line == answer.last()) by {
            if rest.contains(line) {
                let i = choose|i: int| 0 <= i < rest.len() && rest[i] == line;
                assert(answer[i] == line);
            }
            if line == answer.last() {
                assert(answer[answer.len() - 1] == line);
            }
            if answer.contains(line) && line != answer.last() {
                let i = choose|i: int| 0 <= i < answer.len() && answer[i] == line;
                assert(rest[i] == line);
            }
        }
        if answer.last().len() > 0 {
            assert(now == before.push(answer.last()));
            if before.contains(line) {
                let i = choose|i: int| 0 <= i < before.len() && before[i] == line;
                assert(now[i] == line);
            }
            if line == answer.last() {
                assert(now[now.len() - 1] == line);
            }
            if now.contains(line) && line != answer.last() {
                let i = choose|i: int| 0 <= i < now.len() && now[i] == line;
                assert(before[i] == line);
            }
        } else {
            assert(now == before);
        }
    }
}

/// Ctrl-N names the folder that Ctrl-B pins, on every screen and in every list.
pub proof fn ctrl_n_names_what_ctrl_b_pins(p: PickerView, world: WorldView, path: PathView)
    requires
        p.naming is None && p.menu is None && p.keys is None,
    ensures
        ({
            let held = Modifiers { ctrl: true, alt: false, shift: false, other: false };
            let pins = p.keyed(KeyEvent { code: KeyCode::Char('b'), modifiers: held }, world).1;
            let names = p.keyed(KeyEvent { code: KeyCode::Char('n'), modifiers: held }, world).1;
            &&& names == StepView::Name(path) <==> pins == StepView::Pin(path)
            &&& names is Name || names == StepView::Continue
        }),
{
    reveal(PickerView::keyed);
    reveal(PickerView::main_keyed);
    reveal(PickerView::places_keyed);
    reveal(PickerView::pinning);
    reveal(PickerView::starting_to_name);
}

/// The name a prompt starts with is the one the folder has.
pub proof fn a_prompt_starts_with_the_name(
    list: Seq<FavoriteView>,
    path: PathView,
    on: Platform,
    k: int,
    from: int,
)
    requires
        0 <= from <= k < list.len(),
        fs_path::parsed(list[k].path, on).same(path),
        forall|j: int|
            0 <= j < k ==> !fs_path::parsed((#[trigger] list[j]).path, on).same(path),
    ensures
        list[k].name is Some ==> session::name_of(list, path, on, from) == list[k].name->Some_0,
        list[k].name is None ==> session::name_of(list, path, on, from).len() == 0,
    decreases k - from,
{
    if from < k {
        assert(!fs_path::parsed(list[from].path, on).same(path));
        a_prompt_starts_with_the_name(list, path, on, k, from + 1);
    }
}

/// What is typed after the mark is a favorite's name, and anything else a path.
pub proof fn a_starting_point_is_a_name_or_a_path(written: Seq<char>, list: Seq<FavoriteView>)
    ensures
        written.len() == 0 || written[0] != '@' ==> favorites::place_named(written, list) == Some(
            written,
        ),
        written.len() > 0 && written[0] == '@' && list.len() == 0 ==> favorites::place_named(
            written,
            list,
        ) is None,
{
}

/// The favorites are kept beside the configuration.
pub proof fn favorites_are_kept_beside_the_configuration(config: PathView)
    requires
        config.names.len() > 0,
        config.names.last() != seq!['.'],
        config.names.last() != seq!['.', '.'],
    ensures
        ({
            let file = favorites::file_beside(config);
            &&& file.parent() == config.parent()
            &&& file.names.last() == "favorites.toml"@
        }),
{
    let file = favorites::file_beside(config);
    assert(file.names.drop_last() =~= config.names.drop_last());
}

/// Folders pinned before names existed come first, without names, and nothing is
/// lost or moved.
pub proof fn older_favorites_come_first(
    paths: Seq<Seq<char>>,
    list: Seq<FavoriteView>,
    i: int,
)
    ensures
        ({
            let all = favorites::all_of(paths, list);
            &&& all.len() == paths.len() + list.len()
            &&& 0 <= i < paths.len() ==> all[i].path == paths[i] && all[i].name is None
            &&& 0 <= i < list.len() ==> all[paths.len() + i] == list[i]
        }),
{
}

/// A name the commands can have starts with a letter and goes on with letters,
/// digits and underscores, and is not one of zoxide's where it is used.
pub proof fn what_a_command_can_be_called(names: NamesView, i: int)
    ensures
        names.base.len() == 0 ==> !names.valid(),
        names.base.len() > 0 && ('0' <= names.base[0] <= '9' || names.base[0] == '_'
            || names.base[0] == '-') ==> !names.valid(),
        0 <= i < names.base.len() && (names.base[i] == ' ' || names.base[i] == '-' || names.base[i]
            == '/' || names.base[i] == '.' || names.base[i] == '\'') ==> !names.valid(),
        names.zoxide && (names.base == "z"@ || names.base == "zi"@) ==> !names.valid(),
        !names.zoxide && names.base.len() > 0 && (forall|k: int|
            0 <= k < names.base.len() ==> 'a' <= #[trigger] names.base[k] <= 'z') ==> names.valid(),
{
    if 0 <= i < names.base.len() && names.valid() {
        assert(i > 0 ==> names::word_char(names.base[i]));
    }
    if names.base.len() > 0 && forall|k: int|
        0 <= k < names.base.len() ==> 'a' <= #[trigger] names.base[k] <= 'z' {
        assert('a' <= names.base[0] <= 'z');
    }
}

/// On Unix only a file of its own name answers to a command; on Windows one with
/// an ending does, a script of PowerShell's always.
pub proof fn what_answers_to_a_command(name: Seq<char>, pathext: Option<Seq<char>>, i: int)
    ensures
        names::program_files(name, pathext, Platform::Unix) == seq![name],
        names::program_files(name, pathext, Platform::Windows).contains(name + ".ps1"@),
        0 <= i < names::program_files(name, pathext, Platform::Windows).len()
            ==> name.is_prefix_of(names::program_files(name, pathext, Platform::Windows)[i]),
{
    let endings = names::extensions(pathext);
    let files = names::program_files(name, pathext, Platform::Windows);
    assert(endings.contains(".ps1"@)) by {
        let listed = match pathext {
            Some(list) => names::filled(text::parts(list, ';')),
            None => seq![".com"@, ".exe"@, ".bat"@, ".cmd"@],
        };
        if !listed.contains(".ps1"@) {
            assert(endings == listed.push(".ps1"@));
            assert(endings[endings.len() - 1] == ".ps1"@);
        }
    }
    let k = choose|k: int| 0 <= k < endings.len() && endings[k] == ".ps1"@;
    assert(files[k] == name + ".ps1"@);
    if 0 <= i < files.len() {
        assert(files[i] == name + endings[i]);
        assert(files[i].subrange(0, name.len() as int) =~= name);
    }
}

/// A separator at the end makes no difference to a folder, and on Unix anything else
/// does.
pub proof fn a_folder_is_spelled_alike(dir: Seq<char>, other: Seq<char>)
    ensures
        names::spelled_alike(dir, dir, Platform::Unix),
        names::spelled_alike(dir, dir.push('/'), Platform::Unix),
        dir.len() > 0 && other.len() > 0 && dir.last() != '/' && dir.last() != '\\' && other.last()
            != '/' && other.last() != '\\' && dir != other ==> !names::spelled_alike(
            dir,
            other,
            Platform::Unix,
        ),
{
    assert(dir.push('/').drop_last() =~= dir);
    assert(dir.push('/').last() == '/');
}

/// The wait after an action ends with Enter, Esc or Ctrl-C, and with nothing else.
pub proof fn what_ends_the_wait(key: KeyEvent)
    ensures
        key.code == KeyCode::Enter || key.code == KeyCode::Esc ==> keys::returns_to_picker(key),
        key.code == KeyCode::Char('c') && key.modifiers.ctrl ==> keys::returns_to_picker(key),
        key.code == KeyCode::Char('c') && !key.modifiers.ctrl ==> !keys::returns_to_picker(key),
        key.code == KeyCode::Char('q') || key.code == KeyCode::Up || key.code == KeyCode::Down
            ==> !keys::returns_to_picker(key),
{
}

/// The letters of a name that are marked are those matched in it, counted from where
/// it starts.
pub proof fn marks_are_counted_from_the_name(
    indices: Seq<u32>,
    start: int,
    end: int,
    at: u32,
)
    requires
        0 <= start,
        at + start <= u32::MAX,
    ensures
        marks::within(indices, start, end).contains(at) <==> (at + start < end && indices.contains(
            (at + start) as u32,
        )),
    decreases indices.len(),
{
    let now = marks::within(indices, start, end);
    if indices.len() > 0 {
        let rest = indices.drop_last();
        let before = marks::within(rest, start, end);
        let whole = (at + start) as u32;
        marks_are_counted_from_the_name(rest, start, end, at);
        assert(indices.contains(whole) <==> rest.contains(whole) || whole == indices.last()) by {
            if rest.contains(whole) {
                let i = choose|i: int| 0 <= i < rest.len() && rest[i] == whole;
                assert(indices[i] == whole);
            }
            if indices.contains(whole) && whole != indices.last() {
                let i = choose|i: int| 0 <= i < indices.len() && indices[i] == whole;
                assert(rest[i] == whole);
            }
            assert(indices[indices.len() - 1] == indices.last());
        }
        if start <= indices.last() < end {
            let last = (indices.last() - start) as u32;
            assert(now == before.push(last));
            assert(last == at <==> indices.last() == whole);
            if before.contains(at) {
                let i = choose|i: int| 0 <= i < before.len() && before[i] == at;
                assert(now[i] == at);
            }
            if last == at {
                assert(now[now.len() - 1] == at);
            }
            if now.contains(at) && last != at {
                let i = choose|i: int| 0 <= i < now.len() && now[i] == at;
                assert(before[i] == at);
            }
        }
    }
}

} // verus!
