//! How many columns of a terminal text takes.

use vstd::prelude::*;

verus! {

/// The columns a text takes.
pub uninterp spec fn text_width(text: Seq<char>) -> usize;

/// unicode-width's `UnicodeWidthStr::width`. The widths are tables of Unicode
/// and are not spelled out; characters next to each other can take a width
/// together that is not the sum of theirs. The same text gives the same width.
#[verifier::external_body]
pub(crate) fn width_of(text: &str) -> (width: usize)
    ensures
        width == text_width(text@),
{
    unicode_width::UnicodeWidthStr::width(text)
}

/// The columns a character takes alone, or none for a control character.
pub uninterp spec fn glyph_width(c: char) -> Option<usize>;

/// unicode-width's `UnicodeWidthChar::width`. The table is Unicode's and is
/// not spelled out; the same character gives the same width.
#[verifier::external_body]
fn width_of_char(c: char) -> (width: Option<usize>)
    ensures
        width == glyph_width(c),
{
    unicode_width::UnicodeWidthChar::width(c)
}

/// The columns a character takes alone, none counting as no columns.
pub open spec fn cells(c: char) -> usize {
    match glyph_width(c) {
        Some(w) => w,
        None => 0,
    }
}

pub fn cells_of(c: char) -> (w: usize)
    ensures
        w == cells(c),
{
    match width_of_char(c) {
        Some(w) => w,
        None => 0,
    }
}

/// The columns characters take one by one.
pub open spec fn total_cells(text: Seq<char>) -> int
    decreases text.len(),
{
    if text.len() == 0 {
        0
    } else {
        total_cells(text.drop_last()) + cells(text.last())
    }
}

/// Where the characters from `from` on stop fitting in `room` columns.
pub open spec fn fits_to(text: Seq<char>, from: int, room: int) -> int
    decreases text.len() - from,
{
    if from >= text.len() || cells(text[from]) > room {
        from
    } else {
        fits_to(text, from + 1, room - cells(text[from]))
    }
}

/// From where the characters up to `to` fit in `room` columns.
pub open spec fn fits_from(text: Seq<char>, to: int, room: int) -> int
    decreases to,
{
    if to <= 0 || cells(text[to - 1]) > room {
        to
    } else {
        fits_from(text, to - 1, room - cells(text[to - 1]))
    }
}

/// How many of the first characters fit in `room` columns.
pub fn count_front(chars: &Vec<char>, room: usize) -> (n: usize)
    ensures
        n == fits_to(chars@, 0, room as int),
        n <= chars@.len(),
{
    let mut n: usize = 0;
    let mut left: usize = room;
    while n < chars.len() && cells_of(chars[n]) <= left
        invariant
            n <= chars@.len(),
            fits_to(chars@, 0, room as int) == fits_to(chars@, n as int, left as int),
        ensures
            n <= chars@.len(),
            n == fits_to(chars@, 0, room as int),
        decreases chars@.len() - n,
    {
        left -= cells_of(chars[n]);
        n += 1;
    }
    n
}

/// The place from which the last characters fit in `room` columns.
pub fn place_back(chars: &Vec<char>, room: usize) -> (n: usize)
    ensures
        n == fits_from(chars@, chars@.len() as int, room as int),
        n <= chars@.len(),
{
    let mut n: usize = chars.len();
    let mut left: usize = room;
    while n > 0 && cells_of(chars[n - 1]) <= left
        invariant
            n <= chars@.len(),
            fits_from(chars@, chars@.len() as int, room as int) == fits_from(
                chars@,
                n as int,
                left as int,
            ),
        ensures
            n <= chars@.len(),
            n == fits_from(chars@, chars@.len() as int, room as int),
        decreases n,
    {
        left -= cells_of(chars[n - 1]);
        n -= 1;
    }
    n
}

/// What fits at the front fits, and one more character would not.
pub proof fn front_fits(text: Seq<char>, from: int, room: int)
    requires
        0 <= from <= text.len(),
        0 <= room,
    ensures
        from <= fits_to(text, from, room) <= text.len(),
        total_cells(text.subrange(from, fits_to(text, from, room))) <= room,
        fits_to(text, from, room) < text.len() ==> total_cells(
            text.subrange(from, fits_to(text, from, room) + 1),
        ) > room,
    decreases text.len() - from,
{
    let to = fits_to(text, from, room);
    if from >= text.len() || cells(text[from]) > room {
        assert(text.subrange(from, to) =~= Seq::<char>::empty());
        if from < text.len() {
            assert(text.subrange(from, to + 1).drop_last() =~= Seq::<char>::empty());
        }
    } else {
        front_fits(text, from + 1, room - cells(text[from]));
        total_cells_first(text, from, to);
        if to < text.len() {
            total_cells_first(text, from, to + 1);
        }
    }
}

proof fn total_cells_first(text: Seq<char>, from: int, to: int)
    requires
        0 <= from < to <= text.len(),
    ensures
        total_cells(text.subrange(from, to)) == cells(text[from]) + total_cells(
            text.subrange(from + 1, to),
        ),
    decreases to - from,
{
    let s = text.subrange(from, to);
    if to == from + 1 {
        assert(s.drop_last() =~= Seq::<char>::empty());
        assert(text.subrange(from + 1, to) =~= Seq::<char>::empty());
    } else {
        total_cells_first(text, from, to - 1);
        assert(s.drop_last() =~= text.subrange(from, to - 1));
        assert(text.subrange(from + 1, to).drop_last() =~= text.subrange(from + 1, to - 1));
    }
}

/// What fits at the end fits, and one more character would not.
pub proof fn back_fits(text: Seq<char>, to: int, room: int)
    requires
        0 <= to <= text.len(),
        0 <= room,
    ensures
        0 <= fits_from(text, to, room) <= to,
        total_cells(text.subrange(fits_from(text, to, room), to)) <= room,
        fits_from(text, to, room) > 0 ==> total_cells(
            text.subrange(fits_from(text, to, room) - 1, to),
        ) > room,
    decreases to,
{
    let from = fits_from(text, to, room);
    if to <= 0 || cells(text[to - 1]) > room {
        assert(text.subrange(from, to) =~= Seq::<char>::empty());
        if to > 0 {
            assert(text.subrange(from - 1, to).drop_last() =~= Seq::<char>::empty());
        }
    } else {
        back_fits(text, to - 1, room - cells(text[to - 1]));
        assert(text.subrange(from, to).drop_last() =~= text.subrange(from, to - 1));
        if from > 0 {
            assert(text.subrange(from - 1, to).drop_last() =~= text.subrange(from - 1, to - 1));
        }
    }
}

} // verus!
