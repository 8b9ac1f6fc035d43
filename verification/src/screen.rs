//! Places on the screen: areas, what the mouse does in them, and how what is
//! drawn in them looks.

use ratatui::layout::{Constraint, Direction, Layout};
use vstd::prelude::*;

use crate::icons::Kind;

verus! {

/// An area of cells.
#[derive(Clone, Copy, Debug, PartialEq, Eq, Structural)]
pub struct Rect {
    pub x: u16,
    pub y: u16,
    pub width: u16,
    pub height: u16,
}

pub open spec fn capped(i: int) -> int {
    if i > u16::MAX {
        u16::MAX as int
    } else {
        i
    }
}

/// As far as the screen's coordinates go.
pub fn cap(i: u128) -> (res: u16)
    ensures
        res == capped(i as int),
{
    if i > 65_535 {
        u16::MAX
    } else {
        i as u16
    }
}

impl Rect {
    pub open spec fn nowhere() -> Rect {
        Rect { x: 0, y: 0, width: 0, height: 0 }
    }

    /// The column after the last.
    pub open spec fn end_x(self) -> int {
        capped(self.x + self.width)
    }

    /// The row after the last.
    pub open spec fn end_y(self) -> int {
        capped(self.y + self.height)
    }

    pub open spec fn covers(self, column: u16, row: u16) -> bool {
        self.x <= column < self.end_x() && self.y <= row < self.end_y()
    }

    /// No area at all.
    pub fn none() -> (area: Rect)
        ensures
            area == Rect::nowhere(),
    {
        Rect { x: 0, y: 0, width: 0, height: 0 }
    }

    pub fn right(self) -> (x: u16)
        ensures
            x == self.end_x(),
    {
        if self.x > u16::MAX - self.width {
            u16::MAX
        } else {
            self.x + self.width
        }
    }

    pub fn bottom(self) -> (y: u16)
        ensures
            y == self.end_y(),
    {
        if self.y > u16::MAX - self.height {
            u16::MAX
        } else {
            self.y + self.height
        }
    }

    pub fn contains(self, column: u16, row: u16) -> (res: bool)
        ensures
            res == self.covers(column, row),
    {
        self.x <= column && column < self.right() && self.y <= row && row < self.bottom()
    }

    /// One row of cells, as far as the screen's coordinates go.
    pub open spec fn one_row(x: u16, y: u16, width: u16) -> Rect {
        Rect {
            x,
            y,
            width: if width > u16::MAX - x {
                (u16::MAX - x) as u16
            } else {
                width
            },
            height: if y == u16::MAX {
                0
            } else {
                1
            },
        }
    }

    pub fn row(x: u16, y: u16, width: u16) -> (area: Rect)
        ensures
            area == Rect::one_row(x, y, width),
    {
        Rect {
            x,
            y,
            width: if width > u16::MAX - x {
                u16::MAX - x
            } else {
                width
            },
            height: if y == u16::MAX {
                0
            } else {
                1
            },
        }
    }

    /// What is left of the area inside a border all round it.
    pub open spec fn within(self) -> Rect {
        Rect {
            x: if capped(self.x + 1) < self.end_x() {
                capped(self.x + 1) as u16
            } else {
                self.end_x() as u16
            },
            y: if capped(self.y + 1) < self.end_y() {
                capped(self.y + 1) as u16
            } else {
                self.end_y() as u16
            },
            width: if self.width < 2 {
                0
            } else {
                (self.width - 2) as u16
            },
            height: if self.height < 2 {
                0
            } else {
                (self.height - 2) as u16
            },
        }
    }

    pub fn inside(self) -> (inner: Rect)
        ensures
            inner == self.within(),
    {
        let right: u16 = self.right();
        let bottom: u16 = self.bottom();
        Rect {
            x: if self.x < u16::MAX && self.x + 1 < right {
                self.x + 1
            } else {
                right
            },
            y: if self.y < u16::MAX && self.y + 1 < bottom {
                self.y + 1
            } else {
                bottom
            },
            width: if self.width < 2 {
                0
            } else {
                self.width - 2
            },
            height: if self.height < 2 {
                0
            } else {
                self.height - 2
            },
        }
    }
}

/// Where a panel of this size floats: the bottom right of `area`, inside the
/// picker's own border. A screen too small to float in gives it the whole area.
pub open spec fn floating(area: Rect, width: u16, height: u16) -> Rect {
    if area.width < width + 4 || area.height < height + 2 {
        area
    } else {
        Rect {
            x: (area.end_x() - width - 2) as u16,
            y: (area.end_y() - height - 1) as u16,
            width,
            height,
        }
    }
}

/// Where a panel of this size floats: the bottom right of `area`, inside the
/// picker's own border. A screen too small to float in gives it the whole area.
pub fn float(area: Rect, width: u16, height: u16) -> (panel: Rect)
    ensures
        panel == floating(area, width, height),
{
    if (area.width as u32) < width as u32 + 4 || (area.height as u32) < height as u32 + 2 {
        return area;
    }
    Rect {
        x: area.right() - width - 2,
        y: area.bottom() - height - 1,
        width,
        height,
    }
}

/// A panel that floats stays inside the area it floats over.
pub proof fn floating_stays_inside(area: Rect, width: u16, height: u16)
    requires
        area.x + area.width <= u16::MAX,
        area.y + area.height <= u16::MAX,
    ensures
        floating(area, width, height).x >= area.x,
        floating(area, width, height).y >= area.y,
        floating(area, width, height).end_x() <= area.end_x(),
        floating(area, width, height).end_y() <= area.end_y(),
{
}

/// How much of an area a part of it takes.
#[derive(Clone, Copy, Debug, PartialEq, Eq, Structural)]
pub enum Portion {
    Length(u16),
    Percentage(u16),
    Min(u16),
}

/// Which way an area is cut.
#[derive(Clone, Copy, Debug, PartialEq, Eq, Structural)]
pub enum Cut {
    /// Parts side by side.
    Across,
    /// Parts one above the other.
    Down,
}

/// How far the first `i` parts of an area of that size reach into it, in
/// hundredths of a cell.
pub open spec fn reach(portions: Seq<Portion>, i: int, size: int) -> int
    decreases i,
{
    if i <= 0 {
        0
    } else {
        reach(portions, i - 1, size) + match portions[i - 1] {
            Portion::Length(n) => 100 * n,
            Portion::Percentage(p) => p * size,
            Portion::Min(n) => 100 * n,
        }
    }
}

/// Whether every part but one at the end can have the share it asks for, and
/// that one the rest: it asks for nothing, or is not there and nothing is left.
pub open spec fn fits(portions: Seq<Portion>, size: int) -> bool {
    let n = portions.len() as int;
    &&& n > 0
    &&& rest_is_last(portions)
    &&& if portions[n - 1] is Min {
        portions[n - 1] == Portion::Min(0) && reach(portions, n - 1, size) <= 100 * size
    } else {
        reach(portions, n, size) == 100 * size
    }
}

/// Where the part after the first `i` starts, to the nearest cell.
pub open spec fn edge(portions: Seq<Portion>, i: int, size: int) -> int {
    if i == portions.len() {
        size
    } else {
        (reach(portions, i, size) + 50) / 100
    }
}

/// The `i`th part of an area in which all of them fit.
pub open spec fn share(area: Rect, portions: Seq<Portion>, cut: Cut, i: int) -> Rect {
    match cut {
        Cut::Across => {
            let from = edge(portions, i, area.width as int);
            let to = edge(portions, i + 1, area.width as int);
            Rect { x: (area.x + from) as u16, width: (to - from) as u16, ..area }
        },
        Cut::Down => {
            let from = edge(portions, i, area.height as int);
            let to = edge(portions, i + 1, area.height as int);
            Rect { y: (area.y + from) as u16, height: (to - from) as u16, ..area }
        },
    }
}

/// Whether an area has all of a part in it, and the part goes through all of it
/// the other way.
pub open spec fn goes_through(area: Rect, cut: Cut, part: Rect) -> bool {
    match cut {
        Cut::Across => {
            &&& part.y == area.y && part.height == area.height
            &&& area.x <= part.x && part.x + part.width <= area.x + area.width
        },
        Cut::Down => {
            &&& part.x == area.x && part.width == area.width
            &&& area.y <= part.y && part.y + part.height <= area.y + area.height
        },
    }
}

/// Whether the area, along the cut, is where the screen's coordinates go.
pub open spec fn on_screen(area: Rect, cut: Cut) -> bool {
    match cut {
        Cut::Across => area.x + area.width <= u16::MAX,
        Cut::Down => area.y + area.height <= u16::MAX,
    }
}

/// How big an area is along the cut.
pub open spec fn extent(area: Rect, cut: Cut) -> int {
    match cut {
        Cut::Across => area.width as int,
        Cut::Down => area.height as int,
    }
}

/// Where an area starts, along the cut.
pub open spec fn start(area: Rect, cut: Cut) -> int {
    match cut {
        Cut::Across => area.x as int,
        Cut::Down => area.y as int,
    }
}

/// Whether the parts follow one another from the start of the area, with
/// nothing between them.
pub open spec fn follow_on(area: Rect, cut: Cut, parts: Seq<Rect>) -> bool {
    &&& parts.len() > 0 ==> start(parts[0], cut) == start(area, cut)
    &&& forall|i: int|
        0 < i < parts.len() ==> start(#[trigger] parts[i], cut) == start(parts[i - 1], cut)
            + extent(parts[i - 1], cut)
}

/// Whether only the last part, if any, asks for what is left.
pub open spec fn rest_is_last(portions: Seq<Portion>) -> bool {
    forall|i: int| 0 <= i < portions.len() - 1 ==> !((#[trigger] portions[i]) is Min)
}

/// Whether the parts are those an area is cut into. Where their shares do not
/// fit, which of them give way is the layout's to say.
pub open spec fn cut_into(area: Rect, portions: Seq<Portion>, cut: Cut, parts: Seq<Rect>) -> bool {
    &&& parts.len() == portions.len()
    &&& forall|i: int| 0 <= i < parts.len() ==> goes_through(area, cut, #[trigger] parts[i])
    &&& rest_is_last(portions) ==> follow_on(area, cut, parts)
    &&& on_screen(area, cut) && fits(portions, extent(area, cut)) ==> forall|i: int|
        0 <= i < parts.len() ==> #[trigger] parts[i] == share(area, portions, cut, i)
}

/// ratatui's `Layout::split`, with nothing between the parts and room that is
/// left over at the end. Every part lies inside the area, which the solver
/// requires. Each starts where the one before it ends, and the first at the
/// start, since the solver gives up any size before it lets two parts overlap or
/// stand apart. Where the lengths and percentages fit, each part has the size it
/// asks for, rounded to cells where it starts and ends, and a last one that
/// asks for at least nothing has what is left. Where they do not fit, which of
/// them the solver gives up is not said: it walks hash maps that each process
/// seeds anew, so nothing fixes its choice among equals.
#[verifier::external_body]
pub(crate) fn split(area: Rect, portions: &Vec<Portion>, cut: Cut) -> (parts: Vec<Rect>)
    ensures
        cut_into(area, portions@, cut, parts@),
{
    let constraints = portions.iter().map(|p| match *p {
        Portion::Length(n) => Constraint::Length(n),
        Portion::Percentage(n) => Constraint::Percentage(n),
        Portion::Min(n) => Constraint::Min(n),
    });
    let direction = match cut {
        Cut::Across => Direction::Horizontal,
        Cut::Down => Direction::Vertical,
    };
    let area = ratatui::layout::Rect { x: area.x, y: area.y, width: area.width, height: area.height };
    let parts = Layout::new(direction, constraints).split(area);
    parts.iter().map(|r| Rect { x: r.x, y: r.y, width: r.width, height: r.height }).collect()
}

/// The buttons of a mouse.
#[derive(Clone, Copy, Debug, PartialEq, Eq, Structural)]
pub enum Button {
    Left,
    Right,
    Middle,
}

/// What the mouse did.
#[derive(Clone, Copy, Debug, PartialEq, Eq, Structural)]
pub enum MouseKind {
    Down(Button),
    Up(Button),
    ScrollUp,
    ScrollDown,
    /// Moved, dragged, or scrolled sideways.
    Other,
}

#[derive(Clone, Copy, Debug, PartialEq, Eq, Structural)]
pub struct MouseEvent {
    pub kind: MouseKind,
    pub column: u16,
    pub row: u16,
    /// Ctrl is held with it.
    pub ctrl: bool,
}

/// How a piece of text looks. The program picks the colours.
#[derive(Clone, Copy, Debug, PartialEq, Eq, Structural)]
pub enum Paint {
    /// As what is around it.
    Plain,
    Border,
    Prompt,
    Info,
    Header,
    /// The tab shown, or the button of the list that is open.
    HeaderOpen,
    Pointer,
    /// Letters that matched.
    Match,
    /// A folder in the column being worked in.
    Dir,
    /// The side columns are context, not the subject.
    Side,
    SideDir,
    /// Where the middle column is, in a side column.
    Here,
    /// The folders above the one in view.
    Trail,
    HerePath,
    Notice,
    NoticeBad,
    /// The row the cursor is on.
    Current,
    /// An icon, coloured by what it stands for.
    Icon(Kind),
    /// The key of a row in a panel, and the arrow after it.
    Key,
    Arrow,
    /// Said in passing.
    Faint,
    /// A name underlined.
    Underlined,
    /// A rule between the parts of a panel.
    Rule,
    /// The path the actions run on.
    Target,
    /// Something went wrong.
    Failed,
    /// The row selected in a panel.
    Selected,
    /// A folder listed in the preview.
    PreviewDir,
}

/// A run of text that looks the same.
#[derive(Debug)]
pub struct Piece {
    pub text: String,
    pub paint: Paint,
}

#[verifier::ext_equal]
pub struct PieceView {
    pub text: Seq<char>,
    pub paint: Paint,
}

impl View for Piece {
    type V = PieceView;

    open spec fn view(&self) -> PieceView {
        PieceView { text: self.text@, paint: self.paint }
    }
}

pub open spec fn pieces_view(pieces: Seq<Piece>) -> Seq<PieceView> {
    pieces.map_values(|p: Piece| p@)
}

pub open spec fn piece(text: Seq<char>, paint: Paint) -> PieceView {
    PieceView { text, paint }
}

/// The text of a line.
pub open spec fn line_text(pieces: Seq<PieceView>) -> Seq<char>
    decreases pieces.len(),
{
    if pieces.len() == 0 {
        Seq::empty()
    } else {
        line_text(pieces.drop_last()) + pieces.last().text
    }
}

/// A run of text in one paint.
pub fn painted(text: &str, paint: Paint) -> (piece: Piece)
    ensures
        piece@ == self::piece(text@, paint),
{
    Piece { text: text.to_owned(), paint }
}

/// Adds a run of text to a line.
pub fn add_piece(line: &mut Vec<Piece>, text: &str, paint: Paint)
    ensures
        pieces_view(final(line)@) == pieces_view(old(line)@).push(piece(text@, paint)),
{
    let ghost was = pieces_view(line@);
    line.push(painted(text, paint));
    assert(pieces_view(line@) =~= was.push(piece(text@, paint)));
}

} // verus!
