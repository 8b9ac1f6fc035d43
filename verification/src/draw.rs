//! What is written where: names cut to the room there is, matched letters
//! marked, and the lines and bars around the lists.

use vstd::prelude::*;

use crate::fuzzy;
use crate::icons;
use crate::screen::{self, add_piece, painted, Paint, Piece, PieceView};
use crate::text::{self, chars_of, joined, starts_with, string_of, string_together};
use crate::width::{self, count_front, place_back, width_of};

verus! {

/// `text` cut to `width` columns, ending in an ellipsis when it does not fit.
pub open spec fn fitted(text: Seq<char>, width: usize) -> Seq<char> {
    if width == 0 {
        Seq::empty()
    } else if width::text_width(text) <= width {
        text
    } else {
        text.take(width::fits_to(text, 0, width - 1)).push('…')
    }
}

/// Trims `text` to `width` terminal columns, ending in an ellipsis when it does
/// not fit. Counts display width, so a Japanese name is not cut mid-cell.
pub fn fit(text: &str, width: usize) -> (shown: String)
    ensures
        shown@ == fitted(text@, width),
{
    if width == 0 {
        let empty = String::new();
        assert(empty@ =~= Seq::<char>::empty());
        return empty;
    }
    if width_of(text) <= width {
        return text.to_owned();
    }
    let chars = chars_of(text);
    let n: usize = count_front(&chars, width - 1);
    let mut shown = string_of(&chars, 0, n);
    shown.push('…');
    assert(chars@.subrange(0, n as int) =~= text@.take(n as int));
    shown
}

/// A name that is cut leaves room for the ellipsis: what is kept takes at most
/// one column less than there is, and the next character would not have fitted.
pub proof fn fitted_leaves_room(text: Seq<char>, width: usize)
    requires
        width > 0,
        width::text_width(text) > width,
    ensures
        fitted(text, width).last() == '…',
        fitted(text, width).drop_last().is_prefix_of(text),
        width::total_cells(fitted(text, width).drop_last()) <= width - 1,
{
    let n = width::fits_to(text, 0, width - 1);
    width::front_fits(text, 0, width - 1);
    assert(fitted(text, width).drop_last() =~= text.take(n));
    assert(text.subrange(0, n) =~= text.take(n));
}

/// The end of `text` that fits in `width` columns, led by an ellipsis when
/// something was cut.
pub open spec fn ending(text: Seq<char>, width: usize) -> Seq<char> {
    if width::text_width(text) <= width {
        text
    } else {
        seq!['…'] + text.skip(kept_from(text, width))
    }
}

/// From where the end of `text` fits in `room` columns with an ellipsis before
/// it.
pub open spec fn kept_from(text: Seq<char>, room: usize) -> int {
    if room == 0 {
        text.len() as int
    } else {
        width::fits_from(text, text.len() as int, room - 1)
    }
}

fn keep_from(chars: &Vec<char>, room: usize) -> (from: usize)
    ensures
        from == kept_from(chars@, room),
        from <= chars@.len(),
{
    if room == 0 {
        chars.len()
    } else {
        place_back(chars, room - 1)
    }
}

/// The end of `text` that fits in `width` columns, led by an ellipsis when
/// something was cut. The name at the end of a path is the part that says
/// which item the actions run on, so that is the end that is kept.
pub fn tail(text: &str, width: usize) -> (shown: String)
    ensures
        shown@ == ending(text@, width),
{
    if width_of(text) <= width {
        return text.to_owned();
    }
    let chars = chars_of(text);
    let from: usize = keep_from(&chars, width);
    let mut shown = String::new();
    shown.push('…');
    let end = string_of(&chars, from, chars.len());
    shown.push_str(&end);
    assert(shown@ =~= seq!['…'] + text@.skip(from as int));
    shown
}

/// The end of a text that is cut takes at most one column less than there is.
pub proof fn ending_leaves_room(text: Seq<char>, width: usize)
    requires
        width > 0,
        width::text_width(text) > width,
    ensures
        ending(text, width)[0] == '…',
        ending(text, width).drop_first().is_suffix_of(text),
        width::total_cells(ending(text, width).drop_first()) <= width - 1,
{
    let from = kept_from(text, width);
    width::back_fits(text, text.len() as int, width - 1);
    let rest = text.skip(from);
    assert(ending(text, width).drop_first() =~= rest);
    assert(text.subrange(from, text.len() as int) =~= rest);
}

/// Where two spaces stand, from `from` on.
pub open spec fn two_spaces(text: Seq<char>, from: int) -> Option<int>
    decreases text.len() - from,
{
    if from + 1 >= text.len() {
        None
    } else if text[from] == ' ' && text[from + 1] == ' ' {
        Some(from)
    } else {
        two_spaces(text, from + 1)
    }
}

/// How many characters a favorite's name takes, the `:name` and the two spaces
/// after it.
pub open spec fn head_len(text: Seq<char>) -> int {
    if text.len() > 0 && text[0] == ':' {
        match two_spaces(text, 0) {
            Some(at) => at + 2,
            None => 0,
        }
    } else {
        0
    }
}

/// How many characters after the head are dropped to fit in `width` columns.
pub open spec fn cut_len(text: Seq<char>, width: usize) -> int {
    let head = text.take(head_len(text));
    let room = if width::text_width(head) >= width {
        0
    } else {
        (width - width::text_width(head)) as usize
    };
    kept_from(text.skip(head_len(text)), room)
}

/// Where a position goes when the characters from `head` to `head + cut` give
/// way to an ellipsis. Positions in the head stay, those in the tail move with
/// it, and those in between are gone.
pub open spec fn moved(hit: u32, head: int, cut: int) -> Option<u32> {
    if hit < head {
        Some(hit)
    } else if hit >= head + cut {
        Some(((hit - cut + 1) % 0x1_0000_0000) as u32)
    } else {
        None
    }
}

pub open spec fn all_moved(hits: Seq<u32>, head: int, cut: int) -> Seq<u32>
    decreases hits.len(),
{
    if hits.len() == 0 {
        hits
    } else {
        let before = all_moved(hits.drop_last(), head, cut);
        match moved(hits.last(), head, cut) {
            Some(hit) => before.push(hit),
            None => before,
        }
    }
}

/// A place cut to `width` columns, and where its matches are then.
pub open spec fn with_end_kept(text: Seq<char>, hits: Seq<u32>, width: usize) -> (
    Seq<char>,
    Seq<u32>,
) {
    if width::text_width(text) <= width {
        (text, hits)
    } else {
        let head = head_len(text);
        let cut = cut_len(text, width);
        (
            text.take(head).push('…') + text.skip(head + cut),
            all_moved(hits, head, cut),
        )
    }
}

fn length_of_head(chars: &Vec<char>) -> (n: usize)
    ensures
        n == head_len(chars@),
        n <= chars@.len(),
{
    if chars.len() == 0 || chars[0] != ':' {
        return 0;
    }
    let mut i: usize = 0;
    while i < chars.len() - 1
        invariant
            i < chars@.len(),
            chars@[0] == ':',
            two_spaces(chars@, 0) == two_spaces(chars@, i as int),
        decreases chars@.len() - i,
    {
        if chars[i] == ' ' && chars[i + 1] == ' ' {
            return i + 2;
        }
        i += 1;
    }
    0
}

/// `text` cut to `width` columns from the front, since the end of a path is
/// what tells places apart, with `hits` (sorted char positions) moved to
/// match. A favorite's name, the `:name` before the two spaces, is kept
/// whole and the path after it is what gets cut.
pub fn keep_the_end(text: &str, hits: &Vec<u32>, width: usize) -> (res: (String, Vec<u32>))
    ensures
        (res.0@, res.1@) == with_end_kept(text@, hits@, width),
{
    if width_of(text) <= width {
        let same = hits.clone();
        assert(same@ =~= hits@);
        return (text.to_owned(), same);
    }
    let chars = chars_of(text);
    let head: usize = length_of_head(&chars);
    let name = string_of(&chars, 0, head);
    assert(name@ =~= text@.take(head as int));
    let taken: usize = width_of(&name);
    let room: usize = if taken >= width {
        0
    } else {
        width - taken
    };
    let rest = chars_of(&string_of(&chars, head, chars.len()));
    assert(rest@ =~= text@.skip(head as int));
    let cut: usize = keep_from(&rest, room);
    assert(cut == cut_len(text@, width));
    let mut shown = name;
    shown.push('…');
    let end = string_of(&rest, cut, rest.len());
    shown.push_str(&end);
    assert(shown@ =~= text@.take(head as int).push('…') + text@.skip(head + cut));
    let mut out: Vec<u32> = Vec::new();
    let mut i: usize = 0;
    assert(out@ =~= all_moved(hits@.take(0), head as int, cut as int));
    while i < hits.len()
        invariant
            i <= hits@.len(),
            head + cut <= usize::MAX,
            out@ == all_moved(hits@.take(i as int), head as int, cut as int),
        decreases hits@.len() - i,
    {
        assert(hits@.take(i + 1).drop_last() =~= hits@.take(i as int));
        let hit: u64 = hits[i] as u64;
        let from: u64 = head as u64;
        let gone: u64 = cut as u64;
        if hit < from {
            out.push(hits[i]);
        } else if hit >= from + gone {
            let to: u64 = (hit - gone + 1) % 0x1_0000_0000;
            out.push(to as u32);
        }
        i += 1;
    }
    assert(hits@.take(i as int) =~= hits@);
    (shown, out)
}

/// The name of a favorite is kept whole and the end of its path stays, however
/// much of the path in between is cut.
pub proof fn the_name_and_the_end_stay(text: Seq<char>, hits: Seq<u32>, width: usize)
    ensures
        text.take(head_len(text)).is_prefix_of(with_end_kept(text, hits, width).0),
        width::text_width(text) > width ==> text.skip(
            head_len(text) + cut_len(text, width),
        ).is_suffix_of(with_end_kept(text, hits, width).0),
{
    head_is_inside(text);
    let head = head_len(text);
    let shown = with_end_kept(text, hits, width).0;
    assert(text.take(head) =~= shown.subrange(0, head));
    if width::text_width(text) > width {
        let rest = text.skip(head);
        let cut = cut_len(text, width);
        let room = if width::text_width(text.take(head)) >= width {
            0
        } else {
            width - width::text_width(text.take(head))
        };
        if room > 0 {
            width::back_fits(rest, rest.len() as int, room - 1);
        }
        let end = text.skip(head + cut);
        assert(end =~= shown.subrange(shown.len() - end.len(), shown.len() as int));
    }
}

proof fn two_spaces_are_inside(text: Seq<char>, from: int)
    requires
        0 <= from,
    ensures
        two_spaces(text, from) matches Some(at) ==> from <= at && at + 2 <= text.len(),
    decreases text.len() - from,
{
    if from + 1 < text.len() && !(text[from] == ' ' && text[from + 1] == ' ') {
        two_spaces_are_inside(text, from + 1);
    }
}

proof fn head_is_inside(text: Seq<char>)
    ensures
        0 <= head_len(text) <= text.len(),
{
    two_spaces_are_inside(text, 0);
}

/// How many of the positions have been passed once those below `pos` have.
pub open spec fn passed(indices: Seq<u32>, pos: nat) -> nat
    decreases pos,
{
    if pos == 0 {
        0
    } else {
        let k = passed(indices, (pos - 1) as nat);
        if k < indices.len() && indices[k as int] == pos - 1 {
            k + 1
        } else {
            k
        }
    }
}

/// Whether the character at `pos` is marked.
pub open spec fn marked(indices: Seq<u32>, pos: nat) -> bool {
    let k = passed(indices, pos);
    k < indices.len() && indices[k as int] == pos
}

/// The first `n` characters in runs, the marked ones apart from the rest.
pub open spec fn runs(text: Seq<char>, indices: Seq<u32>, n: nat) -> Seq<PieceView>
    decreases n,
{
    if n == 0 {
        Seq::empty()
    } else {
        let before = runs(text, indices, (n - 1) as nat);
        let c = text[n - 1];
        let paint = if marked(indices, (n - 1) as nat) {
            Paint::Match
        } else {
            Paint::Plain
        };
        if before.len() > 0 && before.last().paint == paint {
            before.update(
                before.len() - 1,
                PieceView { text: before.last().text.push(c), ..before.last() },
            )
        } else {
            before.push(screen::piece(seq![c], paint))
        }
    }
}

/// `text` in runs, the characters at `indices` (sorted, char positions) coloured.
pub fn match_spans(text: &str, indices: &Vec<u32>) -> (spans: Vec<Piece>)
    ensures
        screen::pieces_view(spans@) == runs(text@, indices@, text@.len()),
{
    let chars = chars_of(text);
    let mut spans: Vec<Piece> = Vec::new();
    let mut run = String::new();
    let mut run_hit = false;
    let mut next: usize = 0;
    let mut pos: usize = 0;
    while pos < chars.len()
        invariant
            pos <= chars@.len(),
            chars@ == text@,
            next == passed(indices@, pos as nat),
            next <= pos,
            next <= indices@.len(),
            pos == 0 ==> run@.len() == 0 && spans@.len() == 0,
            pos > 0 ==> run@.len() > 0,
            pos > 0 ==> screen::pieces_view(spans@).push(
                screen::piece(
                    run@,
                    if run_hit {
                        Paint::Match
                    } else {
                        Paint::Plain
                    },
                ),
            ) == runs(text@, indices@, pos as nat),
        decreases chars@.len() - pos,
    {
        let hit = next < indices.len() && indices[next] as u64 == pos as u64;
        assert(hit == marked(indices@, pos as nat));
        let ghost before = screen::pieces_view(spans@);
        let ghost was = run@;
        let ghost paint = if hit {
            Paint::Match
        } else {
            Paint::Plain
        };
        if hit {
            next += 1;
        }
        if pos > 0 && hit != run_hit {
            add_piece(
                &mut spans,
                &run,
                if run_hit {
                    Paint::Match
                } else {
                    Paint::Plain
                },
            );
            run = String::new();
        }
        run.push(chars[pos]);
        proof {
            let after = runs(text@, indices@, (pos + 1) as nat);
            if pos == 0 || hit != run_hit {
                assert(run@ =~= seq![text@[pos as int]]);
                assert(screen::pieces_view(spans@) =~= runs(text@, indices@, pos as nat));
                assert(pos > 0 ==> runs(text@, indices@, pos as nat).last().paint != paint);
                assert(screen::pieces_view(spans@).push(screen::piece(run@, paint)) =~= after);
            } else {
                assert(before.push(screen::piece(was, paint)).update(
                    before.len() as int,
                    screen::piece(run@, paint),
                ) =~= before.push(screen::piece(run@, paint)));
                assert(screen::pieces_view(spans@).push(screen::piece(run@, paint)) =~= after);
            }
        }
        run_hit = hit;
        pos += 1;
    }
    if !run.is_empty() {
        add_piece(
            &mut spans,
            &run,
            if run_hit {
                Paint::Match
            } else {
                Paint::Plain
            },
        );
    }
    assert(screen::pieces_view(spans@) =~= runs(text@, indices@, text@.len()));
    spans
}

/// Splitting a text into runs loses nothing of it.
pub proof fn runs_read_as_the_text(text: Seq<char>, indices: Seq<u32>, n: nat)
    requires
        n <= text.len(),
    ensures
        screen::line_text(runs(text, indices, n)) == text.take(n as int),
    decreases n,
{
    if n == 0 {
        assert(text.take(0) =~= Seq::<char>::empty());
    } else {
        runs_read_as_the_text(text, indices, (n - 1) as nat);
        let before = runs(text, indices, (n - 1) as nat);
        let after = runs(text, indices, n);
        assert(text.take(n as int) =~= text.take(n - 1).push(text[n - 1]));
        if after.len() == before.len() {
            assert(after.drop_last() =~= before.drop_last());
            assert(screen::line_text(after) =~= screen::line_text(before).push(text[n - 1]));
        } else {
            assert(after.drop_last() =~= before);
            assert(screen::line_text(after) =~= screen::line_text(before).push(text[n - 1]));
        }
    }
}

/// With the positions in increasing order, exactly the characters at them are
/// marked.
pub proof fn the_marked_ones_are_those_given(indices: Seq<u32>, pos: nat)
    requires
        fuzzy::increasing(indices),
    ensures
        marked(indices, pos) <==> exists|k: int|
            0 <= k < indices.len() && #[trigger] indices[k] == pos,
{
    passed_counts_those_below(indices, pos);
    let k = passed(indices, pos);
    if exists|j: int| 0 <= j < indices.len() && #[trigger] indices[j] == pos {
        let j = choose|j: int| 0 <= j < indices.len() && #[trigger] indices[j] == pos;
        if j < k {
            assert(indices[j] < pos);
        }
        if j > k {
            assert(indices[k as int] < indices[j]);
        }
    }
}

proof fn passed_counts_those_below(indices: Seq<u32>, pos: nat)
    requires
        fuzzy::increasing(indices),
    ensures
        passed(indices, pos) <= indices.len(),
        forall|j: int| 0 <= j < passed(indices, pos) ==> #[trigger] indices[j] < pos,
        forall|j: int| passed(indices, pos) <= j < indices.len() ==> #[trigger] indices[j] >= pos,
    decreases pos,
{
    if pos > 0 {
        passed_counts_those_below(indices, (pos - 1) as nat);
        let k = passed(indices, (pos - 1) as nat);
        assert forall|j: int| passed(indices, pos) <= j < indices.len() implies #[trigger] indices[j]
            >= pos by {
            assert(indices[j] >= pos - 1);
            if indices[j] == pos - 1 && j > k {
                assert(indices[k as int] < indices[j]);
            }
        }
    }
}

/// What stands before a row: fzf's pointer bar, on the row the cursor is on.
pub open spec fn pointer(current: bool) -> PieceView {
    if current {
        screen::piece("▌ "@, Paint::Pointer)
    } else {
        screen::piece("  "@, Paint::Plain)
    }
}

pub(crate) fn pointer_piece(current: bool) -> (piece: Piece)
    ensures
        piece@ == pointer(current),
{
    if current {
        painted("▌ ", Paint::Pointer)
    } else {
        painted("  ", Paint::Plain)
    }
}

/// Builds one row, colouring the characters at `indices` (sorted, char
/// positions), with an icon before the text where there is one. The current
/// row gets fzf's pointer bar in the gutter.
pub fn highlight_line(current: bool, icon: &str, text: &str, indices: &Vec<u32>) -> (line: Vec<
    Piece,
>)
    ensures
        screen::pieces_view(line@) == row_pieces(current, icon@, text@, indices@),
{
    let mut line: Vec<Piece> = Vec::new();
    line.push(pointer_piece(current));
    assert(screen::pieces_view(line@) =~= seq![pointer(current)]);
    if !icon.is_empty() {
        add_piece(&mut line, icon, Paint::Icon(icons::meaning(icon)));
    }
    let mut spans = match_spans(text, indices);
    let ghost before = screen::pieces_view(line@);
    let ghost after = screen::pieces_view(spans@);
    line.append(&mut spans);
    assert(screen::pieces_view(line@) =~= before + after);
    assert(screen::pieces_view(line@) =~= row_pieces(current, icon@, text@, indices@));
    line
}

pub open spec fn row_pieces(
    current: bool,
    icon: Seq<char>,
    text: Seq<char>,
    indices: Seq<u32>,
) -> Seq<PieceView> {
    let lead = if icon.len() == 0 {
        seq![pointer(current)]
    } else {
        seq![pointer(current), screen::piece(icon, Paint::Icon(icons::meant(icon)))]
    };
    lead + runs(text, indices, text.len())
}

/// A favorite marker takes the icon slot, including when Nerd Font icons are disabled.
#[derive(Clone, Copy, Debug, PartialEq, Eq, Structural)]
pub struct RowMarks {
    pub icons: bool,
    pub favorite: bool,
    /// The row stands for the directory the listing is inside, which is the
    /// only folder on screen that is actually open.
    pub inside: bool,
}

impl RowMarks {
    /// The icon of a row of that name.
    pub open spec fn icon(self, name: Seq<char>, is_dir: bool) -> Seq<char> {
        if self.favorite {
            icons::STAR@
        } else if self.inside && is_dir && self.icons {
            icons::OPEN_FOLDER@
        } else {
            icons::prefix_of(name, is_dir, self.icons)
        }
    }

    pub fn prefix(self, name: &str, is_dir: bool) -> (icon: &'static str)
        ensures
            icon@ == self.icon(name@, is_dir),
    {
        if self.favorite {
            icons::STAR
        } else if self.inside && is_dir && self.icons {
            icons::OPEN_FOLDER
        } else {
            icons::prefix(name, is_dir, self.icons)
        }
    }
}

/// A row of a list: its pieces, and how the whole of it looks.
#[derive(Debug)]
pub struct ListRow {
    pub pieces: Vec<Piece>,
    pub paint: Paint,
}

#[verifier::ext_equal]
pub struct ListRowView {
    pub pieces: Seq<PieceView>,
    pub paint: Paint,
}

impl View for ListRow {
    type V = ListRowView;

    open spec fn view(&self) -> ListRowView {
        ListRowView { pieces: screen::pieces_view(self.pieces@), paint: self.paint }
    }
}

pub open spec fn rows_view(rows: Seq<ListRow>) -> Seq<ListRowView> {
    rows.map_values(|r: ListRow| r@)
}

/// The positions below `len`.
pub open spec fn below(hits: Seq<u32>, len: int) -> Seq<u32>
    decreases hits.len(),
{
    if hits.len() == 0 {
        hits
    } else if hits.last() < len {
        below(hits.drop_last(), len).push(hits.last())
    } else {
        below(hits.drop_last(), len)
    }
}

fn those_below(hits: &Vec<u32>, len: usize) -> (kept: Vec<u32>)
    ensures
        kept@ == below(hits@, len as int),
{
    let mut kept: Vec<u32> = Vec::new();
    let mut i: usize = 0;
    assert(kept@ =~= below(hits@.take(0), len as int));
    while i < hits.len()
        invariant
            i <= hits@.len(),
            kept@ == below(hits@.take(i as int), len as int),
        decreases hits@.len() - i,
    {
        assert(hits@.take(i + 1).drop_last() =~= hits@.take(i as int));
        if (hits[i] as u64) < len as u64 {
            kept.push(hits[i]);
        }
        i += 1;
    }
    assert(hits@.take(i as int) =~= hits@);
    kept
}

/// How a row of a browse column looks. Only the focused column gets a
/// background; a side column still marks where the middle one sits, but
/// quietly.
pub open spec fn row_paint(current: bool, side: bool, is_dir: bool) -> Paint {
    match (current, side, is_dir) {
        (true, false, _) => Paint::Current,
        (true, true, _) => Paint::Here,
        (false, true, true) => Paint::SideDir,
        (false, false, true) => Paint::Dir,
        (false, true, false) => Paint::Side,
        (false, false, false) => Paint::Plain,
    }
}

/// The icon of a browse row, where the column has room for it.
pub open spec fn roomy_icon(
    marks: RowMarks,
    name: Seq<char>,
    is_dir: bool,
    width: usize,
) -> Seq<char> {
    let icon = marks.icon(name, is_dir);
    if width >= 2 + width::text_width(icon) {
        icon
    } else {
        ""@
    }
}

/// How many columns are left for a name after the pointer and the icon.
pub open spec fn room_after(width: usize, icon: Seq<char>) -> usize {
    if width >= 2 + width::text_width(icon) {
        (width - 2 - width::text_width(icon)) as usize
    } else {
        0
    }
}

pub open spec fn column_row(
    label: Seq<char>,
    is_dir: bool,
    current: bool,
    side: bool,
    hits: Seq<u32>,
    width: usize,
    marks: RowMarks,
) -> ListRowView {
    let icon = roomy_icon(marks, label, is_dir, width);
    let shown = fitted(label, room_after(width, icon));
    ListRowView {
        pieces: row_pieces(current && !side, icon, shown, below(hits, shown.len() as int)),
        paint: row_paint(current, side, is_dir),
    }
}

fn room_for(width: usize, icon: &str) -> (room: usize)
    ensures
        room == room_after(width, icon@),
{
    let taken: usize = width_of(icon);
    if width >= 2 && width - 2 >= taken {
        width - 2 - taken
    } else {
        0
    }
}

/// One row of a browse column, trimmed to width. Side columns are drawn muted.
pub fn browse_row(
    label: &str,
    is_dir: bool,
    current: bool,
    side: bool,
    hits: &Vec<u32>,
    width: usize,
    marks: RowMarks,
) -> (row: ListRow)
    ensures
        row@ == column_row(label@, is_dir, current, side, hits@, width, marks),
{
    let icon = marks.prefix(label, is_dir);
    let taken: usize = width_of(icon);
    let icon = if width >= 2 && width - 2 >= taken {
        icon
    } else {
        ""
    };
    let shown = fit(label, room_for(width, icon));
    let kept = those_below(hits, shown.unicode_len());
    let pieces = highlight_line(current && !side, icon, &shown, &kept);
    let paint = match (current, side, is_dir) {
        (true, false, _) => Paint::Current,
        (true, true, _) => Paint::Here,
        (false, true, true) => Paint::SideDir,
        (false, false, true) => Paint::Dir,
        (false, true, false) => Paint::Side,
        (false, false, false) => Paint::Plain,
    };
    ListRow { pieces, paint }
}

/// The first `k` hints on the bottom border.
pub open spec fn hint_line(hints: Seq<Seq<char>>, k: int) -> Seq<char> {
    " "@ + text::strung(hints.take(k), "  "@) + " "@
}

/// How many of the first `k` hints fit in `width` columns; one at least.
pub open spec fn hints_kept(hints: Seq<Seq<char>>, k: int, width: usize) -> int
    decreases k,
{
    if k <= 1 || width::text_width(hint_line(hints, k)) <= width {
        k
    } else {
        hints_kept(hints, k - 1, width)
    }
}

/// The key hints that fit in `width` columns.
pub open spec fn fitting_hints(hints: Seq<Seq<char>>, width: usize) -> Seq<char> {
    hint_line(hints, hints_kept(hints, hints.len() as int, width))
}

/// Key hints for the bottom border, most important first, keeping as many
/// whole hints as fit in `width` columns.
///
/// The border draws them right-aligned and cuts whatever does not fit from
/// the left, which is where Tab is. Dropping the least used hints instead
/// keeps the keys that move between screens on a narrow terminal.
pub fn fit_hints(hints: &Vec<String>, width: usize) -> (line: String)
    ensures
        line@ == fitting_hints(text::views(hints@), width),
{
    let ghost all = text::views(hints@);
    let mut kept: usize = hints.len();
    loop
        invariant
            kept <= hints@.len(),
            all == text::views(hints@),
            hints_kept(all, hints@.len() as int, width) == hints_kept(all, kept as int, width),
        decreases kept,
    {
        let strung = string_together(hints, kept, "  ");
        let line = joined(&joined(" ", &strung), " ");
        if kept <= 1 || width_of(&line) <= width {
            return line;
        }
        kept -= 1;
    }
}

/// The first hint stays, whole and first, however narrow the screen is.
pub proof fn the_first_hint_stays(hints: Seq<Seq<char>>, width: usize)
    requires
        hints.len() > 0,
    ensures
        (" "@ + hints[0]).is_prefix_of(fitting_hints(hints, width)),
{
    let k = hints_kept(hints, hints.len() as int, width);
    hints_kept_is_some(hints, hints.len() as int, width);
    strung_starts_with_the_first(hints.take(k), "  "@);
    let strung = text::strung(hints.take(k), "  "@);
    let line = fitting_hints(hints, width);
    assert(hints[0] =~= strung.subrange(0, hints[0].len() as int));
    assert(" "@ + hints[0] =~= line.subrange(0, (" "@ + hints[0]).len() as int));
}

proof fn hints_kept_is_some(hints: Seq<Seq<char>>, k: int, width: usize)
    requires
        1 <= k,
    ensures
        1 <= hints_kept(hints, k, width) <= k,
    decreases k,
{
    if k > 1 && width::text_width(hint_line(hints, k)) > width {
        hints_kept_is_some(hints, k - 1, width);
    }
}

proof fn strung_starts_with_the_first(texts: Seq<Seq<char>>, between: Seq<char>)
    requires
        texts.len() > 0,
    ensures
        texts[0].is_prefix_of(text::strung(texts, between)),
    decreases texts.len(),
{
    let out = text::strung(texts, between);
    if texts.len() > 1 {
        strung_starts_with_the_first(texts.drop_last(), between);
        let before = text::strung(texts.drop_last(), between);
        assert(texts[0] =~= before.subrange(0, texts[0].len() as int));
        assert(texts[0] =~= out.subrange(0, texts[0].len() as int));
    } else {
        assert(texts[0] =~= out.subrange(0, texts[0].len() as int));
    }
}

/// What the bottom border says: a notice when there is one, otherwise the key
/// hints. A failure is marked apart from a confirmation.
pub open spec fn footer(notice: Option<Seq<char>>, hints: Seq<char>) -> PieceView {
    match notice {
        Some(said) => screen::piece(
            " "@ + said + " "@,
            if "Cannot"@.is_prefix_of(said) || "No "@.is_prefix_of(said) {
                Paint::NoticeBad
            } else {
                Paint::Notice
            },
        ),
        None => screen::piece(hints, Paint::Border),
    }
}

/// The bottom border: a notice when there is one, otherwise the key hints.
///
/// A notice is drawn in its own colour so it cannot be mistaken for the hints
/// that are always there, and failures are marked apart from confirmations.
pub fn footer_line(notice: &Option<String>, hints: &str) -> (piece: Piece)
    ensures
        piece@ == footer(text::opt_view(*notice), hints@),
{
    match notice {
        Some(said) => {
            let failed = starts_with(said, "Cannot") || starts_with(said, "No ");
            let line = joined(&joined(" ", said), " ");
            painted(
                &line,
                if failed {
                    Paint::NoticeBad
                } else {
                    Paint::Notice
                },
            )
        },
        None => painted(hints, Paint::Border),
    }
}

/// The row to draw first, given where the last frame started.
pub open spec fn window_start(first: int, selected: int, count: int, height: int) -> int {
    let most = if count > height {
        count - height
    } else {
        0
    };
    let from = if first < most {
        first
    } else {
        most
    };
    if height == 0 {
        0
    } else if selected < from {
        selected
    } else if selected >= from + height {
        selected + 1 - height
    } else {
        from
    }
}

/// The row to draw first, given where the last frame started.
///
/// The window only moves when the selection would fall outside it, which is
/// how a list is normally read: the cursor travels to the edge and the rows
/// start moving only once it is there. Recomputing the start from the
/// selection alone glued the selection to the bottom row for good, once the
/// list was longer than the screen.
pub fn scroll_window(first: usize, selected: usize, count: usize, height: usize) -> (start: usize)
    ensures
        start == window_start(first as int, selected as int, count as int, height as int),
{
    if height == 0 {
        return 0;
    }
    let most: usize = if count > height {
        count - height
    } else {
        0
    };
    let from: usize = if first < most {
        first
    } else {
        most
    };
    if selected < from {
        selected
    } else if selected - from >= height {
        selected - height + 1
    } else {
        from
    }
}

/// The selection is always in the window, and a window that it is in already
/// stays where it is.
pub proof fn the_window_shows_the_selection(first: int, selected: int, count: int, height: int)
    requires
        0 <= first,
        0 <= selected < count,
        0 < height,
    ensures
        window_start(first, selected, count, height) <= selected < window_start(
            first,
            selected,
            count,
            height,
        ) + height,
        0 <= window_start(first, selected, count, height),
        count > height ==> window_start(first, selected, count, height) <= count - height,
        count <= height ==> window_start(first, selected, count, height) == 0,
        first <= selected < first + height && first + height <= count ==> window_start(
            first,
            selected,
            count,
            height,
        ) == first,
{
}

/// First visible row that puts `focus` in the middle of a `height`-tall window.
pub open spec fn centred_start(focus: int, len: int, height: int) -> int {
    if height == 0 || len <= height {
        0
    } else {
        let back = if focus < height / 2 {
            0
        } else {
            focus - height / 2
        };
        if back < len - height {
            back
        } else {
            len - height
        }
    }
}

/// First visible row that puts `focus` in the middle of a `height`-tall window.
///
/// The parent column is context, so the folders either side of the current one
/// matter as much as the row itself; pinning it to the last line hid them and
/// left the marker against the bottom edge. Near the ends of the list the
/// window stops rather than scrolling past them.
pub fn centred_scroll(focus: usize, len: usize, height: usize) -> (start: usize)
    ensures
        start == centred_start(focus as int, len as int, height as int),
{
    if height == 0 || len <= height {
        return 0;
    }
    let back: usize = if focus < height / 2 {
        0
    } else {
        focus - height / 2
    };
    if back < len - height {
        back
    } else {
        len - height
    }
}

/// The focus is in the window, and away from its edges where the list goes on
/// past them.
pub proof fn the_focus_is_off_the_edges(focus: int, len: int, height: int)
    requires
        0 <= focus < len,
        0 < height,
    ensures
        centred_start(focus, len, height) <= focus < centred_start(focus, len, height) + height,
        0 < centred_start(focus, len, height) < len - height ==> focus - centred_start(
            focus,
            len,
            height,
        ) == height / 2,
{
}

/// How long a scrollbar's thumb is.
pub open spec fn thumb_len(count: int, height: int) -> int {
    if height * height / count < 1 {
        1
    } else {
        height * height / count
    }
}

/// Where a scrollbar's thumb goes, as its first row and its length.
pub open spec fn thumb(first: int, count: int, height: int) -> Option<(int, int)> {
    if height == 0 || count <= height {
        None
    } else {
        let len = thumb_len(count, height);
        let travel = height - len;
        let last = count - height;
        let at = if first < last {
            first
        } else {
            last
        };
        let between = (at * travel + last / 2) / last;
        let start = if at == 0 {
            0
        } else if at == last {
            travel
        } else if travel < 2 {
            between
        } else if between < 1 {
            1
        } else if between > travel - 1 {
            travel - 1
        } else {
            between
        };
        Some((start, len))
    }
}

proof fn thumb_len_is_inside(count: int, height: int)
    requires
        0 < height < count,
    ensures
        1 <= thumb_len(count, height) <= height,
{
    assert(height * height / count <= height) by (nonlinear_arith)
        requires
            0 < height < count,
    ;
}

proof fn between_is_inside(at: int, travel: int, last: int)
    requires
        0 <= at <= last,
        0 < last,
        0 <= travel,
    ensures
        0 <= (at * travel + last / 2) / last <= travel,
{
    assert(0 <= (at * travel + last / 2) / last <= travel) by (nonlinear_arith)
        requires
            0 <= at <= last,
            0 < last,
            0 <= travel,
    {
        assert(at * travel <= last * travel);
        assert(0 <= at * travel);
        assert(at * travel + last / 2 < last * travel + last);
    }
}

/// Where a scrollbar's thumb goes, as its first row and its length, or
/// `None` when every row already fits.
///
/// The thumb reaches an end of the track only when the window reaches that
/// end of the list. Rounding alone parks it on the last row while rows are
/// still hidden below, which is the one thing a scrollbar must not say.
pub fn scroll_thumb(first: usize, count: usize, height: usize) -> (res: Option<(usize, usize)>)
    ensures
        res is Some == thumb(first as int, count as int, height as int) is Some,
        res matches Some((start, len)) ==> thumb(first as int, count as int, height as int) == Some(
            (start as int, len as int),
        ),
{
    if height == 0 || count <= height {
        return None;
    }
    proof {
        thumb_len_is_inside(count as int, height as int);
        assert(height * height <= 0xffff_ffff_ffff_ffff * 0xffff_ffff_ffff_ffff)
            by (nonlinear_arith)
            requires
                0 <= height <= 0xffff_ffff_ffff_ffff,
        ;
    }
    let square: u128 = (height as u128) * (height as u128);
    let share: u128 = square / (count as u128);
    let len: usize = if share < 1 {
        1
    } else {
        share as usize
    };
    let travel: usize = height - len;
    let last: usize = count - height;
    let at: usize = if first < last {
        first
    } else {
        last
    };
    proof {
        between_is_inside(at as int, travel as int, last as int);
        assert(at * travel <= 0xffff_ffff_ffff_ffff * 0xffff_ffff_ffff_ffff)
            by (nonlinear_arith)
            requires
                0 <= at <= 0xffff_ffff_ffff_ffff,
                0 <= travel <= 0xffff_ffff_ffff_ffff,
        ;
    }
    let along: u128 = (at as u128) * (travel as u128);
    let between: u128 = (along + (last as u128) / 2) / (last as u128);
    let middle: usize = between as usize;
    let start: usize = if at == 0 {
        0
    } else if at == last {
        travel
    } else if travel < 2 {
        // A track too short to leave a row between its ends has nowhere
        // else to put a position in the middle.
        middle
    } else if middle < 1 {
        1
    } else if middle > travel - 1 {
        travel - 1
    } else {
        middle
    };
    Some((start, len))
}

/// The thumb lies on the track, and where the track leaves room it touches an
/// end exactly when the list does.
pub proof fn the_thumb_touches_an_end_when_the_list_does(first: int, count: int, height: int)
    requires
        0 < height < count,
        0 <= first <= count - height,
    ensures
        thumb(first, count, height) matches Some((start, len)) && {
            &&& 1 <= len
            &&& 0 <= start
            &&& start + len <= height
            &&& height - len >= 2 ==> (start == 0 <==> first == 0)
            &&& height - len >= 2 ==> (start + len == height <==> first == count - height)
        },
{
    thumb_len_is_inside(count, height);
    between_is_inside(first, height - thumb_len(count, height), count - height);
}

/// The thumb never moves back as the window goes down the list.
pub proof fn the_thumb_never_moves_back(a: int, b: int, count: int, height: int)
    requires
        0 < height < count,
        0 <= a <= b <= count - height,
    ensures
        thumb(a, count, height)->Some_0.0 <= thumb(b, count, height)->Some_0.0,
{
    let len = thumb_len(count, height);
    let travel = height - len;
    let last = count - height;
    thumb_len_is_inside(count, height);
    between_is_inside(a, travel, last);
    between_is_inside(b, travel, last);
    assert((a * travel + last / 2) / last <= (b * travel + last / 2) / last) by (nonlinear_arith)
        requires
            0 <= a <= b,
            0 <= travel,
            0 < last,
    {
        assert(a * travel <= b * travel);
    }
}

} // verus!
