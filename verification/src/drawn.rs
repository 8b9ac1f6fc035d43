//! A screen as the things drawn on it, in the order they are drawn.

use vstd::prelude::*;

use crate::draw::{self, ListRow, ListRowView};
use crate::screen::{self, painted, Paint, Piece, PieceView, Rect};

verus! {

#[derive(Debug)]
pub enum Drawn {
    /// What was under the area is gone.
    Clear(Rect),
    /// A box, with what its top and its bottom border say. A panel's bottom
    /// line is centred, a screen's is on the right.
    Frame { area: Rect, title: Vec<Piece>, footer: Vec<Piece>, panel: bool },
    /// One line of text.
    Line { area: Rect, pieces: Vec<Piece> },
    /// Text that is wrapped where it does not fit.
    Text { area: Rect, text: String, paint: Paint },
    /// The rows of a list.
    Rows { area: Rect, rows: Vec<ListRow> },
    /// A line down the area.
    Bar(Rect),
    /// A scrollbar's thumb, over a line that is there already.
    Thumb { x: u16, y: u16, start: usize, len: usize },
    /// Where the cursor is.
    Cursor { x: u16, y: u16 },
}

#[verifier::ext_equal]
pub enum DrawnView {
    Clear(Rect),
    Frame { area: Rect, title: Seq<PieceView>, footer: Seq<PieceView>, panel: bool },
    Line { area: Rect, pieces: Seq<PieceView> },
    Text { area: Rect, text: Seq<char>, paint: Paint },
    Rows { area: Rect, rows: Seq<ListRowView> },
    Bar(Rect),
    Thumb { x: u16, y: u16, start: usize, len: usize },
    Cursor { x: u16, y: u16 },
}

impl View for Drawn {
    type V = DrawnView;

    open spec fn view(&self) -> DrawnView {
        match *self {
            Drawn::Clear(area) => DrawnView::Clear(area),
            Drawn::Frame { area, title, footer, panel } => DrawnView::Frame {
                area,
                title: screen::pieces_view(title@),
                footer: screen::pieces_view(footer@),
                panel,
            },
            Drawn::Line { area, pieces } => DrawnView::Line {
                area,
                pieces: screen::pieces_view(pieces@),
            },
            Drawn::Text { area, text, paint } => DrawnView::Text { area, text: text@, paint },
            Drawn::Rows { area, rows } => DrawnView::Rows { area, rows: draw::rows_view(rows@) },
            Drawn::Bar(area) => DrawnView::Bar(area),
            Drawn::Thumb { x, y, start, len } => DrawnView::Thumb { x, y, start, len },
            Drawn::Cursor { x, y } => DrawnView::Cursor { x, y },
        }
    }
}

pub open spec fn all_view(drawn: Seq<Drawn>) -> Seq<DrawnView> {
    drawn.map_values(|d: Drawn| d@)
}

/// Adds something to a screen.
pub fn put(drawn: &mut Vec<Drawn>, more: Drawn)
    ensures
        all_view(final(drawn)@) == all_view(old(drawn)@).push(more@),
{
    let ghost was = all_view(drawn@);
    drawn.push(more);
    assert(all_view(drawn@) =~= was.push(more@));
}

/// Adds a row to a list.
pub fn put_row(rows: &mut Vec<ListRow>, row: ListRow)
    ensures
        draw::rows_view(final(rows)@) == draw::rows_view(old(rows)@).push(row@),
{
    let ghost was = draw::rows_view(rows@);
    rows.push(row);
    assert(draw::rows_view(rows@) =~= was.push(row@));
}

/// A line of one piece.
pub fn one_piece(text: &str, paint: Paint) -> (line: Vec<Piece>)
    ensures
        screen::pieces_view(line@) == seq![screen::piece(text@, paint)],
{
    let mut line: Vec<Piece> = Vec::new();
    line.push(painted(text, paint));
    assert(screen::pieces_view(line@) =~= seq![screen::piece(text@, paint)]);
    line
}

/// What a panel is opened with: the area cleared, and a box around it.
pub open spec fn panel_opened(
    area: Rect,
    title: Seq<char>,
    footer: Seq<char>,
) -> Seq<DrawnView> {
    seq![
        DrawnView::Clear(area),
        DrawnView::Frame {
            area,
            title: seq![screen::piece(title, Paint::Plain)],
            footer: seq![screen::piece(footer, Paint::Plain)],
            panel: true,
        },
    ]
}

/// Clears `area` and draws the frame every floating panel shares. The picker is
/// still drawn underneath, and the border has a colour of its own so the panel
/// is not taken for part of it.
pub fn open_panel(area: Rect, title: &str, footer: &str) -> (drawn: Vec<Drawn>)
    ensures
        all_view(drawn@) == panel_opened(area, title@, footer@),
{
    let mut drawn: Vec<Drawn> = Vec::new();
    put(&mut drawn, Drawn::Clear(area));
    put(
        &mut drawn,
        Drawn::Frame {
            area,
            title: one_piece(title, Paint::Plain),
            footer: one_piece(footer, Paint::Plain),
            panel: true,
        },
    );
    assert(all_view(drawn@) =~= panel_opened(area, title@, footer@));
    drawn
}

} // verus!
