//! What stands above the lists: the tabs on the top border, the buttons, and
//! the path.

use vstd::prelude::*;

use crate::fs_path::{FsPath, PathView, Platform};
use crate::mode::Mode;
use crate::screen::{self, add_piece, painted, Paint, Piece, PieceView, Rect};
use crate::text::{self, ends_with_char};
use crate::width::{self, width_of};

verus! {

/// A tab on the top border: a mode, and for browse which way it is drawn,
/// true for the tree.
pub type Tab = (Mode, bool);

/// Every search, then browse as columns and as a tree.
pub open spec fn all_tabs() -> Seq<Tab> {
    seq![(Mode::Dirs, false), (Mode::Files, false), (Mode::Browse, false), (Mode::Browse, true)]
}

/// Every search, then browse as columns and as a tree. The tree is a tab of
/// its own so that it can be seen, and reached, without the key panel.
pub fn tabs() -> (tabs: Vec<Tab>)
    ensures
        tabs@ == all_tabs(),
{
    let mut tabs: Vec<Tab> = Vec::new();
    tabs.push((Mode::Dirs, false));
    tabs.push((Mode::Files, false));
    tabs.push((Mode::Browse, false));
    tabs.push((Mode::Browse, true));
    assert(tabs@ =~= all_tabs());
    tabs
}

pub open spec fn tab_name(tab: Tab) -> Seq<char> {
    if tab.1 {
        "tree"@
    } else {
        tab.0.name()
    }
}

pub fn tab_label(tab: Tab) -> (label: &'static str)
    ensures
        label@ == tab_name(tab),
{
    if tab.1 {
        "tree"
    } else {
        tab.0.label()
    }
}

pub open spec fn between_tabs(tab: Tab) -> Seq<char> {
    if tab == (Mode::Browse, false) {
        "]  ["@
    } else {
        "|"@
    }
}

/// What is drawn before a tab's label, after the one before it.
///
/// The two searches share a bracket and browse has its own: Shift-Tab steps
/// within a bracket and Tab goes across, and four tabs in one row would read
/// as four of the same kind.
pub fn tab_separator(tab: Tab) -> (text: &'static str)
    ensures
        text@ == between_tabs(tab),
{
    if tab.0 == Mode::Browse && !tab.1 {
        "]  ["
    } else {
        "|"
    }
}

/// Where a tab's label starts, in columns from the first label.
pub open spec fn tab_start(k: int) -> int
    decreases k, 0nat,
{
    if k <= 0 {
        0
    } else {
        tab_end(k - 1) + between_tabs(all_tabs()[k]).len()
    }
}

/// Where a tab's label ends.
pub open spec fn tab_end(k: int) -> int
    decreases k, 1nat,
{
    tab_start(k) + tab_name(all_tabs()[k]).len()
}

/// Where each tab's label starts and ends.
pub open spec fn tab_places() -> Seq<(Tab, u16, u16)> {
    Seq::new(4, |k: int| (all_tabs()[k], tab_start(k) as u16, tab_end(k) as u16))
}

/// The columns the labels of the tabs are drawn at, from the first.
pub proof fn where_the_tabs_are()
    ensures
        tab_places()[0] == ((Mode::Dirs, false), 0u16, 4u16),
        tab_places()[1] == ((Mode::Files, false), 5u16, 10u16),
        tab_places()[2] == ((Mode::Browse, false), 14u16, 20u16),
        tab_places()[3] == ((Mode::Browse, true), 21u16, 25u16),
        tab_places().len() == 4,
{
    tab_columns();
}

proof fn tab_columns()
    ensures
        tab_start(0) == 0,
        tab_end(0) == 4,
        tab_start(1) == 5,
        tab_end(1) == 10,
        tab_start(2) == 14,
        tab_end(2) == 20,
        tab_start(3) == 21,
        tab_end(3) == 25,
{
    reveal_with_fuel(tab_start, 5);
    reveal_with_fuel(tab_end, 5);
    reveal_strlit("dirs");
    reveal_strlit("files");
    reveal_strlit("browse");
    reveal_strlit("tree");
    reveal_strlit("]  [");
    reveal_strlit("|");
}

/// Where each tab's label starts and ends, counted in columns from the first
/// label. Drawing and clicking both go by it, so a click cannot land on a
/// different tab from the one drawn there.
pub fn tab_offsets() -> (offsets: Vec<(Tab, u16, u16)>)
    ensures
        offsets@ == tab_places(),
{
    let tabs = tabs();
    let mut offsets: Vec<(Tab, u16, u16)> = Vec::new();
    let mut x: u16 = 0;
    let mut k: usize = 0;
    proof {
        tab_columns();
    }
    while k < tabs.len()
        invariant
            k <= 4,
            tabs@ == all_tabs(),
            offsets@.len() == k,
            x == (if k == 0 {
                0
            } else {
                tab_end(k - 1)
            }),
            forall|i: int| 0 <= i < k ==> #[trigger] offsets@[i] == tab_places()[i],
        decreases 4 - k,
    {
        proof {
            tab_columns();
            reveal_with_fuel(tab_start, 2);
            reveal_with_fuel(tab_end, 2);
        }
        let tab: Tab = tabs[k];
        if k > 0 {
            x += tab_separator(tab).unicode_len() as u16;
        }
        let end: u16 = x + tab_label(tab).unicode_len() as u16;
        offsets.push((tab, x, end));
        x = end;
        k += 1;
    }
    assert(offsets@ =~= tab_places());
    offsets
}

/// The lists that open over the screen, as buttons after the tabs, each with
/// its icon: the star the rows mark favorites with, and a clock for the recent
/// places. They sit outside the brackets so they read as lists rather than as
/// more tabs. The icons are plain Unicode, so they show without a Nerd Font.
pub const FAVORITES_ICON: &'static str = "★ ";

pub const RECENT_ICON: &'static str = "◷ ";

pub open spec fn button_icon(mode: Mode) -> Seq<char> {
    if mode == Mode::Favorites {
        FAVORITES_ICON@
    } else {
        RECENT_ICON@
    }
}

fn icon_of(mode: Mode) -> (icon: &'static str)
    ensures
        icon@ == button_icon(mode),
{
    if mode == Mode::Favorites {
        FAVORITES_ICON
    } else {
        RECENT_ICON
    }
}

/// Where a list's button ends when it starts at `x`.
pub open spec fn button_end(mode: Mode, x: int) -> int {
    x + width::text_width(button_icon(mode)) + width::text_width(mode.name())
}

/// The buttons that fit on a border `width` columns wide, and where.
pub open spec fn button_places(width: u16) -> Seq<(Mode, u16, u16)> {
    let a = tab_end(3) + 3;
    let b = button_end(Mode::Favorites, a);
    let c = b + 2;
    let d = button_end(Mode::Recent, c);
    if b + 3 > width {
        Seq::empty()
    } else if d + 3 > width {
        seq![(Mode::Favorites, a as u16, b as u16)]
    } else {
        seq![(Mode::Favorites, a as u16, b as u16), (Mode::Recent, c as u16, d as u16)]
    }
}

/// Where each button starts and ends, counted in columns from the first tab
/// label, leaving out any that would run into the border's corner at `width`.
/// Drawing and clicking both go by it. The buttons are the last thing on the
/// border, so a narrow screen loses them and keeps the tabs.
pub fn place_buttons(width: u16) -> (buttons: Vec<(Mode, u16, u16)>)
    ensures
        buttons@ == button_places(width),
{
    proof {
        tab_columns();
    }
    let mut buttons: Vec<(Mode, u16, u16)> = Vec::new();
    let most: u128 = width as u128;
    let offsets = tab_offsets();
    // After the closing bracket and a gap the width of the one between tabs.
    let a: u128 = offsets[3].2 as u128 + 3;
    let b: u128 = a + width_of(icon_of(Mode::Favorites)) as u128 + width_of(
        Mode::Favorites.label(),
    ) as u128;
    // The first label sits at column 2 of the box, and the corner takes the
    // last column.
    if b + 3 <= most {
        buttons.push((Mode::Favorites, a as u16, b as u16));
        let c: u128 = b + 2;
        let d: u128 = c + width_of(icon_of(Mode::Recent)) as u128 + width_of(
            Mode::Recent.label(),
        ) as u128;
        if d + 3 <= most {
            buttons.push((Mode::Recent, c as u16, d as u16));
        }
    }
    assert(buttons@ =~= button_places(width));
    buttons
}

/// No two of the tabs and buttons on the top border share a column, and all of
/// them stand before its corner.
pub proof fn tabs_and_buttons_stand_apart(width: u16)
    ensures
        forall|i: int, j: int|
            0 <= i < j < 4 ==> (#[trigger] tab_places()[i]).1 < tab_places()[i].2 && tab_places()[i].2
                < (#[trigger] tab_places()[j]).1,
        forall|i: int, j: int|
            0 <= i < 4 && 0 <= j < button_places(width).len() ==> (#[trigger] tab_places()[i]).2 < (
            #[trigger] button_places(width)[j]).1,
        forall|i: int, j: int|
            0 <= i < j < button_places(width).len() ==> (#[trigger] button_places(width)[i]).2 < (
            #[trigger] button_places(width)[j]).1,
        forall|j: int|
            0 <= j < button_places(width).len() ==> (#[trigger] button_places(width)[j]).2 + 3
                <= width,
{
    tab_columns();
}

pub open spec fn tab_piece(tab: Tab, shown: Tab) -> PieceView {
    screen::piece(
        tab_name(tab),
        if tab == shown {
            Paint::HeaderOpen
        } else {
            Paint::Header
        },
    )
}

/// The tabs in their brackets.
pub open spec fn bracketed(shown: Tab) -> Seq<PieceView> {
    seq![
        screen::piece("["@, Paint::Header),
        tab_piece((Mode::Dirs, false), shown),
        screen::piece("|"@, Paint::Header),
        tab_piece((Mode::Files, false), shown),
        screen::piece("]  ["@, Paint::Header),
        tab_piece((Mode::Browse, false), shown),
        screen::piece("|"@, Paint::Header),
        tab_piece((Mode::Browse, true), shown),
        screen::piece("]"@, Paint::Header),
    ]
}

/// The buttons of the lists of places.
pub open spec fn button_pieces(
    buttons: Seq<(Mode, u16, u16)>,
    open: Option<Mode>,
) -> Seq<PieceView>
    decreases buttons.len(),
{
    if buttons.len() == 0 {
        Seq::empty()
    } else {
        let mode = buttons.last().0;
        button_pieces(buttons.drop_last(), open).push(screen::piece("  "@, Paint::Header)).push(
            screen::piece(button_icon(mode), Paint::Header),
        ).push(
            screen::piece(
                mode.name(),
                if open == Some(mode) {
                    Paint::HeaderOpen
                } else {
                    Paint::Header
                },
            ),
        )
    }
}

/// The top border's line.
pub open spec fn tabs_line(shown: Tab, open: Option<Mode>, width: u16) -> Seq<PieceView> {
    (bracketed(shown) + button_pieces(button_places(width), open)).push(
        screen::piece(" "@, Paint::Header),
    )
}

/// The tabs, `[dirs|files]  [browse|tree]`, drawn on the top border with the
/// one shown underlined, then the buttons for the lists of places with the
/// open one underlined. Recent and favorites are not screens but lists that
/// open over one, so they are buttons rather than tabs.
pub fn mode_tabs(shown: Tab, open: Option<Mode>, width: u16) -> (line: Vec<Piece>)
    ensures
        screen::pieces_view(line@) == tabs_line(shown, open, width),
{
    let mut line: Vec<Piece> = Vec::new();
    add_piece(&mut line, "[", Paint::Header);
    let tabs = tabs();
    let mut i: usize = 0;
    assert(bracketed(shown).take(1) =~= seq![screen::piece("["@, Paint::Header)]);
    assert(screen::pieces_view(line@) =~= bracketed(shown).take(1));
    while i < tabs.len()
        invariant
            i <= 4,
            tabs@ == all_tabs(),
            screen::pieces_view(line@) == bracketed(shown).take(
                if i == 0 {
                    1
                } else {
                    2 * i
                },
            ),
        decreases 4 - i,
    {
        let tab: Tab = tabs[i];
        if i > 0 {
            add_piece(&mut line, tab_separator(tab), Paint::Header);
        }
        add_piece(
            &mut line,
            tab_label(tab),
            if tab.0 == shown.0 && tab.1 == shown.1 {
                Paint::HeaderOpen
            } else {
                Paint::Header
            },
        );
        i += 1;
        assert(screen::pieces_view(line@) =~= bracketed(shown).take(2 * i));
    }
    add_piece(&mut line, "]", Paint::Header);
    assert(screen::pieces_view(line@) =~= bracketed(shown));
    let buttons = place_buttons(width);
    let mut k: usize = 0;
    assert(screen::pieces_view(line@) =~= bracketed(shown) + button_pieces(
        buttons@.take(0),
        open,
    ));
    while k < buttons.len()
        invariant
            k <= buttons@.len(),
            buttons@ == button_places(width),
            screen::pieces_view(line@) == bracketed(shown) + button_pieces(
                buttons@.take(k as int),
                open,
            ),
        decreases buttons@.len() - k,
    {
        assert(buttons@.take(k + 1).drop_last() =~= buttons@.take(k as int));
        let ghost was = screen::pieces_view(line@);
        let mode: Mode = buttons[k].0;
        let is_open = match open {
            Some(m) => m == mode,
            None => false,
        };
        add_piece(&mut line, "  ", Paint::Header);
        add_piece(&mut line, icon_of(mode), Paint::Header);
        add_piece(
            &mut line,
            mode.label(),
            if is_open {
                Paint::HeaderOpen
            } else {
                Paint::Header
            },
        );
        k += 1;
        assert(screen::pieces_view(line@) =~= bracketed(shown) + button_pieces(
            buttons@.take(k as int),
            open,
        ));
    }
    assert(buttons@.take(k as int) =~= buttons@);
    add_piece(&mut line, " ", Paint::Header);
    line
}

/// A click lands on the tab drawn there: the text of the top border from where
/// a tab starts to where it ends, past the first bracket, is its name.
pub proof fn tabs_are_drawn_where_they_are_clicked(
    shown: Tab,
    open: Option<Mode>,
    width: u16,
    k: int,
)
    requires
        0 <= k < 4,
    ensures
        tab_places()[k].2 + 1 <= screen::line_text(tabs_line(shown, open, width)).len(),
        screen::line_text(tabs_line(shown, open, width)).subrange(
            tab_places()[k].1 + 1,
            tab_places()[k].2 + 1,
        ) == tab_name(all_tabs()[k]),
{
    tab_columns();
    reveal_strlit("dirs");
    reveal_strlit("files");
    reveal_strlit("browse");
    reveal_strlit("tree");
    reveal_strlit("]  [");
    reveal_strlit("|");
    reveal_strlit("[");
    reveal_strlit("]");
    let tabs = bracketed(shown);
    let line = tabs_line(shown, open, width);
    reveal_with_fuel(screen::line_text, 10);
    let t1 = tabs.take(1);
    let t2 = tabs.take(2);
    let t3 = tabs.take(3);
    let t4 = tabs.take(4);
    let t5 = tabs.take(5);
    let t6 = tabs.take(6);
    let t7 = tabs.take(7);
    let t8 = tabs.take(8);
    assert(tabs.drop_last() =~= t8);
    assert(t8.drop_last() =~= t7);
    assert(t7.drop_last() =~= t6);
    assert(t6.drop_last() =~= t5);
    assert(t5.drop_last() =~= t4);
    assert(t4.drop_last() =~= t3);
    assert(t3.drop_last() =~= t2);
    assert(t2.drop_last() =~= t1);
    assert(t1.drop_last() =~= Seq::<PieceView>::empty());
    let text = screen::line_text(tabs);
    assert(text =~= "["@ + "dirs"@ + "|"@ + "files"@ + "]  ["@ + "browse"@ + "|"@ + "tree"@ + "]"@);
    line_text_of_longer(tabs, line.skip(9));
    assert(tabs + line.skip(9) =~= line);
    assert(line.take(9) =~= tabs);
    let all = screen::line_text(line);
    assert(all.take(text.len() as int) =~= text);
    assert(all.subrange(tab_places()[k].1 + 1, tab_places()[k].2 + 1) =~= text.subrange(
        tab_places()[k].1 + 1,
        tab_places()[k].2 + 1,
    ));
    assert(text.subrange(tab_places()[k].1 + 1, tab_places()[k].2 + 1) =~= tab_name(all_tabs()[k]));
}

proof fn line_text_of_longer(a: Seq<PieceView>, b: Seq<PieceView>)
    ensures
        screen::line_text(a + b) == screen::line_text(a) + screen::line_text(b),
    decreases b.len(),
{
    if b.len() == 0 {
        assert(a + b =~= a);
    } else {
        assert((a + b).drop_last() =~= a + b.drop_last());
        line_text_of_longer(a, b.drop_last());
        assert(screen::line_text(a + b) =~= screen::line_text(a) + screen::line_text(b));
    }
}

/// The buttons drawn at the head of the header, mirroring the history keys
/// (Ctrl or Alt with the arrows) and Left, so the same moves are reachable
/// without the keyboard.
#[derive(Clone, Copy, Debug, PartialEq, Eq, Structural)]
pub enum Nav {
    Back,
    Forward,
    Up,
}

/// The columns each of those buttons takes, padding included.
pub const NAV_WIDTH: u16 = 3;

/// Which of the buttons have somewhere to go.
#[derive(Clone, Copy, Debug, PartialEq, Eq, Structural)]
pub struct Ways {
    pub back: bool,
    pub forward: bool,
    pub up: bool,
}

pub open spec fn nav_piece(glyph: Seq<char>, enabled: bool) -> PieceView {
    screen::piece(
        glyph,
        if enabled {
            Paint::Header
        } else {
            Paint::Border
        },
    )
}

pub open spec fn nav_pieces(ways: Ways) -> Seq<PieceView> {
    seq![
        nav_piece(" ◀ "@, ways.back),
        nav_piece(" ▶ "@, ways.forward),
        nav_piece(" ▲ "@, ways.up),
        screen::piece(" "@, Paint::Plain),
    ]
}

/// Where the button at place `k` takes clicks, if it does.
pub open spec fn nav_target(area: Rect, k: int, nav: Nav, enabled: bool) -> Seq<(Rect, Nav)> {
    if enabled && area.x + 3 * (k + 1) <= area.end_x() {
        seq![(Rect::one_row((area.x + 3 * k) as u16, area.y, NAV_WIDTH), nav)]
    } else {
        Seq::empty()
    }
}

pub open spec fn nav_targets(area: Rect, ways: Ways) -> Seq<(Rect, Nav)> {
    nav_target(area, 0, Nav::Back, ways.back) + nav_target(area, 1, Nav::Forward, ways.forward)
        + nav_target(area, 2, Nav::Up, ways.up)
}

/// The columns the buttons and the space after them take.
pub const NAV_ROOM: u16 = 10;

/// What is left of a row after the buttons.
pub open spec fn after_nav(area: Rect) -> Rect {
    Rect {
        x: if area.x + NAV_ROOM > u16::MAX {
            u16::MAX
        } else {
            (area.x + NAV_ROOM) as u16
        },
        width: if area.width < NAV_ROOM {
            0
        } else {
            (area.width - NAV_ROOM) as u16
        },
        ..area
    }
}

pub fn after_buttons(area: Rect) -> (rest: Rect)
    ensures
        rest == after_nav(area),
{
    Rect {
        x: if area.x > u16::MAX - NAV_ROOM {
            u16::MAX
        } else {
            area.x + NAV_ROOM
        },
        width: if area.width < NAV_ROOM {
            0
        } else {
            area.width - NAV_ROOM
        },
        y: area.y,
        height: area.height,
    }
}

fn nav_paint(enabled: bool) -> (paint: Paint)
    ensures
        paint == (if enabled {
            Paint::Header
        } else {
            Paint::Border
        }),
{
    if enabled {
        Paint::Header
    } else {
        Paint::Border
    }
}

fn add_target(targets: &mut Vec<(Rect, Nav)>, area: Rect, k: u16, nav: Nav, enabled: bool)
    requires
        k < 3,
    ensures
        final(targets)@ == old(targets)@ + nav_target(area, k as int, nav, enabled),
{
    let ghost was = targets@;
    if enabled && area.x as u32 + 3 * (k as u32 + 1) <= area.right() as u32 {
        targets.push((Rect::row(area.x + 3 * k, area.y, NAV_WIDTH), nav));
    }
    assert(targets@ =~= was + nav_target(area, k as int, nav, enabled));
}

/// The three buttons, greyed out where there is nowhere to go, and where each
/// takes clicks.
pub fn nav_buttons(area: Rect, ways: Ways) -> (res: (Vec<Piece>, Vec<(Rect, Nav)>))
    ensures
        screen::pieces_view(res.0@) == nav_pieces(ways),
        res.1@ == nav_targets(area, ways),
{
    let mut pieces: Vec<Piece> = Vec::new();
    add_piece(&mut pieces, " ◀ ", nav_paint(ways.back));
    add_piece(&mut pieces, " ▶ ", nav_paint(ways.forward));
    add_piece(&mut pieces, " ▲ ", nav_paint(ways.up));
    add_piece(&mut pieces, " ", Paint::Plain);
    assert(screen::pieces_view(pieces@) =~= nav_pieces(ways));
    let mut targets: Vec<(Rect, Nav)> = Vec::new();
    add_target(&mut targets, area, 0, Nav::Back, ways.back);
    add_target(&mut targets, area, 1, Nav::Forward, ways.forward);
    add_target(&mut targets, area, 2, Nav::Up, ways.up);
    assert(targets@ =~= nav_targets(area, ways));
    (pieces, targets)
}

/// A piece of the path row, and the directory it leads to.
#[derive(Debug)]
pub struct Crumb {
    pub piece: Piece,
    pub dir: Option<FsPath>,
}

#[verifier::ext_equal]
pub struct CrumbView {
    pub piece: PieceView,
    pub dir: Option<PathView>,
}

impl View for Crumb {
    type V = CrumbView;

    open spec fn view(&self) -> CrumbView {
        CrumbView {
            piece: self.piece@,
            dir: match self.dir {
                Some(dir) => Some(dir@),
                None => None,
            },
        }
    }
}

pub open spec fn crumbs_view(crumbs: Seq<Crumb>) -> Seq<CrumbView> {
    crumbs.map_values(|c: Crumb| c@)
}

/// The step of `path` that is `k` names below its top.
pub open spec fn step_of(path: PathView, k: int) -> PathView {
    PathView { top: path.top, names: path.names.take(k) }
}

/// What a directory is called on the path row: its name, or all of it where it
/// has none, as a root does.
pub open spec fn crumb_text(dir: PathView, on: Platform) -> Seq<char> {
    match dir.file_name() {
        Some(name) => name,
        None => dir.text(on),
    }
}

/// Each step of a path with the directory it stands for, root first.
pub open spec fn steps(path: PathView, on: Platform) -> Seq<(Seq<char>, PathView)> {
    Seq::new(
        path.names.len() + 1,
        |k: int| (crumb_text(step_of(path, k), on), step_of(path, k)),
    )
}

pub open spec fn steps_view(steps: Seq<(String, FsPath)>) -> Seq<(Seq<char>, PathView)> {
    steps.map_values(|s: (String, FsPath)| (s.0@, s.1@))
}

/// Each step of `path` paired with the directory it stands for, root first.
pub fn breadcrumb(path: &FsPath, on: Platform) -> (crumbs: Vec<(String, FsPath)>)
    ensures
        steps_view(crumbs@) == steps(path@, on),
{
    let mut crumbs: Vec<(String, FsPath)> = Vec::new();
    let mut dir = FsPath { top: path.top.clone(), names: Vec::new() };
    let mut k: usize = 0;
    assert(dir@.names =~= path@.names.take(0));
    loop
        invariant
            k <= path.names@.len(),
            dir@ == step_of(path@, k as int),
            crumbs@.len() == k,
            forall|i: int| 0 <= i < k ==> #[trigger] steps_view(crumbs@)[i] == steps(path@, on)[i],
        decreases path.names@.len() - k,
    {
        let shown = match dir.file_name() {
            Some(name) => name,
            None => dir.text(on),
        };
        let ghost was = steps_view(crumbs@);
        crumbs.push((shown, dir.clone()));
        assert(steps_view(crumbs@) =~= was.push((shown@, dir@)));
        if k == path.names.len() {
            assert(steps_view(crumbs@) =~= steps(path@, on));
            return crumbs;
        }
        let ghost names = dir@.names;
        dir.names.push(path.names[k].clone());
        assert(dir@.names =~= names.push(path@.names[k as int]));
        assert(path@.names.take(k + 1) =~= path@.names.take(k as int).push(path@.names[k as int]));
        k += 1;
    }
}

/// The first `n` steps of a path as pieces, a separator between them where the
/// one before does not end in one. The last step is the one being looked at.
pub open spec fn crumbs_to(path: PathView, on: Platform, n: int) -> Seq<CrumbView>
    decreases n,
{
    if n <= 0 {
        Seq::empty()
    } else {
        let before = crumbs_to(path, on, n - 1);
        let (shown, dir) = steps(path, on)[n - 1];
        let led = if n > 1 && !text::ends_in(before.last().piece.text, on.sep()) {
            before.push(
                CrumbView { piece: screen::piece(seq![on.sep()], Paint::Trail), dir: None },
            )
        } else {
            before
        };
        led.push(
            CrumbView {
                piece: screen::piece(
                    shown,
                    if n == path.names.len() + 1 {
                        Paint::HerePath
                    } else {
                        Paint::Trail
                    },
                ),
                dir: Some(dir),
            },
        )
    }
}

/// The path row's pieces.
pub open spec fn path_crumbs(path: PathView, on: Platform) -> Seq<CrumbView> {
    crumbs_to(path, on, path.names.len() as int + 1)
}

fn push_crumb(crumbs: &mut Vec<Crumb>, crumb: Crumb)
    ensures
        crumbs_view(final(crumbs)@) == crumbs_view(old(crumbs)@).push(crumb@),
{
    let ghost was = crumbs_view(crumbs@);
    crumbs.push(crumb);
    assert(crumbs_view(crumbs@) =~= was.push(crumb@));
}

/// The path as pieces, each paired with the directory it leads to.
///
/// The trailing segment is the one being looked at, so it stands out while the
/// trail above it stays quiet; a path that reads as one flat string is easy to
/// overlook next to the mode tabs.
pub fn crumb_spans(path: &FsPath, on: Platform) -> (crumbs: Vec<Crumb>)
    ensures
        crumbs_view(crumbs@) == path_crumbs(path@, on),
{
    let steps = breadcrumb(path, on);
    assert(steps_view(steps@).len() == steps@.len());
    let mut crumbs: Vec<Crumb> = Vec::new();
    let mut i: usize = 0;
    assert(crumbs_view(crumbs@) =~= crumbs_to(path@, on, 0));
    while i < steps.len()
        invariant
            i <= steps@.len(),
            steps_view(steps@) == self::steps(path@, on),
            steps@.len() == path@.names.len() + 1,
            crumbs_view(crumbs@) == crumbs_to(path@, on, i as int),
            i > 0 ==> crumbs@.len() > 0,
        decreases steps@.len() - i,
    {
        assert(steps_view(steps@)[i as int] == (steps@[i as int].0@, steps@[i as int].1@));
        let ghost before = crumbs_view(crumbs@);
        if i > 0 {
            let last: &Crumb = &crumbs[crumbs.len() - 1];
            assert(last@ == before.last());
            if !ends_with_char(&last.piece.text, on.separator()) {
                let mut between = String::new();
                between.push(on.separator());
                assert(between@ =~= seq![on.sep()]);
                push_crumb(
                    &mut crumbs,
                    Crumb { piece: painted(&between, Paint::Trail), dir: None },
                );
            }
        }
        let paint = if i == steps.len() - 1 {
            Paint::HerePath
        } else {
            Paint::Trail
        };
        push_crumb(
            &mut crumbs,
            Crumb { piece: painted(&steps[i].0, paint), dir: Some(steps[i].1.clone()) },
        );
        i += 1;
        assert(crumbs_view(crumbs@) =~= crumbs_to(path@, on, i as int));
    }
    crumbs
}

/// An area that leads to a place when it is clicked.
#[derive(Debug)]
pub struct Target {
    pub area: Rect,
    pub path: FsPath,
}

#[verifier::ext_equal]
pub struct TargetView {
    pub area: Rect,
    pub path: PathView,
}

impl View for Target {
    type V = TargetView;

    open spec fn view(&self) -> TargetView {
        TargetView { area: self.area, path: self.path@ }
    }
}

pub open spec fn targets_view(targets: Seq<Target>) -> Seq<TargetView> {
    targets.map_values(|t: Target| t@)
}

pub fn push_target(targets: &mut Vec<Target>, target: Target)
    ensures
        targets_view(final(targets)@) == targets_view(old(targets)@).push(target@),
{
    let ghost was = targets_view(targets@);
    targets.push(target);
    assert(targets_view(targets@) =~= was.push(target@));
}

/// The columns the first `k` pieces take.
pub open spec fn columns(crumbs: Seq<CrumbView>, k: int) -> int
    decreases k,
{
    if k <= 0 {
        0
    } else {
        columns(crumbs, k - 1) + width::text_width(crumbs[k - 1].piece.text)
    }
}

/// Where the first `k` pieces, drawn from column `x` on, take clicks: those
/// that lead somewhere and end by `limit`.
pub open spec fn clickable(
    crumbs: Seq<CrumbView>,
    k: int,
    x: int,
    y: u16,
    limit: int,
) -> Seq<TargetView>
    decreases k,
{
    if k <= 0 {
        Seq::empty()
    } else {
        let before = clickable(crumbs, k - 1, x, y, limit);
        match crumbs[k - 1].dir {
            Some(dir) => if x + columns(crumbs, k) <= limit {
                before.push(
                    TargetView {
                        area: Rect::one_row(
                            (x + columns(crumbs, k - 1)) as u16,
                            y,
                            width::text_width(crumbs[k - 1].piece.text) as u16,
                        ),
                        path: dir,
                    },
                )
            } else {
                before
            },
            None => before,
        }
    }
}

proof fn columns_grow(crumbs: Seq<CrumbView>, k: int)
    ensures
        columns(crumbs, k) >= 0,
    decreases k,
{
    if k > 0 {
        columns_grow(crumbs, k - 1);
    }
}

/// Where the pieces of a path, drawn from column `x` on, take clicks. A path
/// too long for the row is clipped, and the part that is not drawn must not
/// answer clicks.
pub fn clickable_crumbs(crumbs: &Vec<Crumb>, x: u128, y: u16, limit: u16) -> (targets: Vec<Target>)
    ensures
        targets_view(targets@) == clickable(
            crumbs_view(crumbs@),
            crumbs@.len() as int,
            x as int,
            y,
            limit as int,
        ),
{
    let ghost all = crumbs_view(crumbs@);
    let mut targets: Vec<Target> = Vec::new();
    let mut inside = x <= limit as u128;
    let mut at: u16 = if inside {
        x as u16
    } else {
        0
    };
    let mut k: usize = 0;
    assert(targets_view(targets@) =~= Seq::<TargetView>::empty());
    while k < crumbs.len()
        invariant
            k <= crumbs@.len(),
            all == crumbs_view(crumbs@),
            inside == (x + columns(all, k as int) <= limit),
            inside ==> at == x + columns(all, k as int),
            targets_view(targets@) == clickable(all, k as int, x as int, y, limit as int),
        decreases crumbs@.len() - k,
    {
        assert(all[k as int] == crumbs@[k as int]@);
        proof {
            columns_grow(all, k as int);
        }
        let w: usize = width_of(&crumbs[k].piece.text);
        let start: u16 = at;
        if inside {
            if w as u128 <= (limit - at) as u128 {
                at = at + w as u16;
            } else {
                inside = false;
            }
        }
        if inside {
            match &crumbs[k].dir {
                Some(dir) => {
                    push_target(
                        &mut targets,
                        Target { area: Rect::row(start, y, w as u16), path: dir.clone() },
                    );
                },
                None => {},
            }
        }
        k += 1;
    }
    targets
}

/// The crumbs' pieces alone.
pub open spec fn crumb_pieces(crumbs: Seq<CrumbView>) -> Seq<PieceView> {
    crumbs.map_values(|c: CrumbView| c.piece)
}

/// Adds the crumbs' pieces to a line.
pub fn add_crumbs(line: &mut Vec<Piece>, crumbs: &Vec<Crumb>)
    ensures
        screen::pieces_view(final(line)@) == screen::pieces_view(old(line)@) + crumb_pieces(
            crumbs_view(crumbs@),
        ),
{
    let ghost all = crumb_pieces(crumbs_view(crumbs@));
    let ghost was = screen::pieces_view(line@);
    let mut k: usize = 0;
    assert(was =~= was + all.take(0));
    while k < crumbs.len()
        invariant
            k <= crumbs@.len(),
            all == crumb_pieces(crumbs_view(crumbs@)),
            screen::pieces_view(line@) == was + all.take(k as int),
        decreases crumbs@.len() - k,
    {
        assert(all[k as int] == crumbs@[k as int].piece@);
        add_piece(line, &crumbs[k].piece.text, crumbs[k].piece.paint);
        k += 1;
        assert(screen::pieces_view(line@) =~= was + all.take(k as int));
    }
    assert(all.take(k as int) =~= all);
}

/// The scan root as a breadcrumb, paired with where each step above the
/// current one can be clicked. The last segment stands out, so the folder a
/// search covers can be found in the header at a glance.
pub fn search_location(path: &FsPath, area: Rect, on: Platform) -> (res: (Vec<Piece>, Vec<Target>))
    ensures
        screen::pieces_view(res.0@) == crumb_pieces(path_crumbs(path@, on)),
        targets_view(res.1@) == clickable(
            path_crumbs(path@, on),
            path_crumbs(path@, on).len() as int,
            area.x as int,
            area.y,
            area.end_x(),
        ),
{
    let crumbs = crumb_spans(path, on);
    let targets = clickable_crumbs(&crumbs, area.x as u128, area.y, area.right());
    let mut line: Vec<Piece> = Vec::new();
    add_crumbs(&mut line, &crumbs);
    assert(screen::pieces_view(line@) =~= crumb_pieces(path_crumbs(path@, on)));
    (line, targets)
}

/// What is cut off for lack of room cannot be clicked: every step that can be is
/// drawn whole, where it is clicked.
pub proof fn what_is_cut_off_cannot_be_clicked(
    crumbs: Seq<CrumbView>,
    k: int,
    x: int,
    y: u16,
    limit: int,
    i: int,
)
    requires
        0 <= k <= crumbs.len(),
        0 <= x,
        limit <= u16::MAX,
        0 <= i < clickable(crumbs, k, x, y, limit).len(),
    ensures
        ({
            let target = clickable(crumbs, k, x, y, limit)[i];
            exists|n: int|
                0 <= n < k && #[trigger] crumbs[n].dir == Some(target.path) && target.area
                    == Rect::one_row(
                    (x + columns(crumbs, n)) as u16,
                    y,
                    width::text_width(crumbs[n].piece.text) as u16,
                ) && x + columns(crumbs, n + 1) <= limit
        }),
    decreases k,
{
    if k > 0 {
        let before = clickable(crumbs, k - 1, x, y, limit);
        if i < before.len() {
            what_is_cut_off_cannot_be_clicked(crumbs, k - 1, x, y, limit, i);
        } else {
            assert(crumbs[k - 1].dir is Some);
        }
    }
}

} // verus!
