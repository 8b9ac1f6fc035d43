//! The columns of browse.

use vstd::prelude::*;

use crate::browse::{self, Browser, BrowserView, Item, ItemView};
use crate::draw::{self, browse_row, centred_scroll, scroll_window, ListRow, ListRowView, RowMarks};
use crate::drawn::{self, put, put_row, Drawn, DrawnView};
use crate::fs_path::{FsPath, PathView};
use crate::header::{
    self, add_crumbs, clickable_crumbs, crumb_spans, nav_buttons, push_target, Target, TargetView,
    Ways, NAV_ROOM,
};
use crate::icons::{self, Kind};
use crate::mode::Mode;
use crate::picker::{self, Clickable, ClickableView, Picker, PickerView, RowsAt};
use crate::render::{self, count_of, draw_frame, draw_prompt, draw_rule, draw_thumb, stacked};
use crate::screen::{self, add_piece, cap, split, Cut, Paint, Piece, PieceView, Portion, Rect};
use crate::text::{self, ends_with_char, joined};
use crate::width::{self, width_of};
use crate::world::{World, WorldView};

verus! {

/// Which ways the buttons of browse lead.
pub open spec fn browse_ways(b: BrowserView) -> Ways {
    Ways {
        back: b.back.len() > 0,
        forward: b.forward.len() > 0,
        up: browse::folder_above(b.cwd, b.on) is Some,
    }
}

/// A star, where the folder is a favorite.
pub open spec fn star(starred: bool) -> Seq<PieceView> {
    if starred {
        seq![screen::piece(icons::STAR@, Paint::Icon(Kind::Star))]
    } else {
        Seq::empty()
    }
}

/// What stands for the list of drives, which has no path.
pub open spec fn at_drives(b: BrowserView) -> Seq<PieceView> {
    if b.cwd.is_empty() {
        seq![screen::piece("Drives"@, Paint::HerePath)]
    } else {
        Seq::empty()
    }
}

/// The row of buttons and the path.
pub open spec fn location(b: BrowserView, starred: bool) -> Seq<PieceView> {
    (header::nav_pieces(browse_ways(b)) + star(starred) + at_drives(b) + header::crumb_pieces(
        header::path_crumbs(b.cwd, b.on),
    )).push(screen::piece(" "@, Paint::Plain))
}

/// The column the path starts at.
pub open spec fn path_start(area: Rect, starred: bool) -> int {
    area.x + NAV_ROOM + (if starred {
        width::text_width(icons::STAR@) as int
    } else {
        0
    })
}

/// Where the path takes clicks.
pub open spec fn location_crumbs(b: BrowserView, starred: bool, area: Rect) -> Seq<TargetView> {
    let crumbs = header::path_crumbs(b.cwd, b.on);
    header::clickable(
        crumbs,
        crumbs.len() as int,
        path_start(area, starred),
        area.y,
        area.end_x(),
    )
}

pub(crate) fn ways_of(browser: &Browser) -> (ways: Ways)
    ensures
        ways == browse_ways(browser@),
{
    Ways {
        back: browser.has_history(false),
        forward: browser.has_history(true),
        up: browser.parent_dir().is_some(),
    }
}

/// The navigation buttons and the path, on a row of their own below the mode
/// tabs.
///
/// A path is long and changes with every move, so it gets a row to itself
/// rather than trailing a list of tabs that never change.
pub fn browse_location(browser: &Browser, starred: bool, area: Rect) -> (line: Vec<Piece>)
    ensures
        screen::pieces_view(line@) == location(browser@, starred),
{
    let (mut line, _) = nav_buttons(area, ways_of(browser));
    let ghost ways = screen::pieces_view(line@);
    if starred {
        add_piece(&mut line, icons::STAR, Paint::Icon(Kind::Star));
    }
    assert(screen::pieces_view(line@) =~= ways + star(starred));
    if browser.dir().is_empty() {
        add_piece(&mut line, "Drives", Paint::HerePath);
    }
    assert(screen::pieces_view(line@) =~= ways + star(starred) + at_drives(browser@));
    let crumbs = crumb_spans(browser.dir(), browser.platform());
    add_crumbs(&mut line, &crumbs);
    add_piece(&mut line, " ", Paint::Plain);
    line
}

/// Where each step of the path can be clicked.
pub fn path_areas(browser: &Browser, starred: bool, area: Rect) -> (targets: Vec<Target>)
    ensures
        header::targets_view(targets@) == location_crumbs(browser@, starred, area),
{
    let crumbs = crumb_spans(browser.dir(), browser.platform());
    let mut x: u128 = area.x as u128 + NAV_ROOM as u128;
    if starred {
        x = x + width_of(icons::STAR) as u128;
    }
    clickable_crumbs(&crumbs, x, area.y, area.right())
}

/// How many of `count` rows from `first` on fit in `height`.
pub open spec fn in_view(first: usize, count: nat, height: u16) -> nat {
    if first >= count {
        0
    } else if count - first < height {
        (count - first) as nat
    } else {
        height as nat
    }
}

pub(crate) fn rows_fitting(first: usize, count: usize, height: u16) -> (n: usize)
    ensures
        n == in_view(first, count as nat, height),
{
    if first >= count {
        0
    } else if count - first < height as usize {
        count - first
    } else {
        height as usize
    }
}

/// The parts of the browse screen.
#[derive(Clone, Copy, Debug, PartialEq, Eq, Structural)]
pub struct Columns {
    pub area: Rect,
    pub prompt: Rect,
    pub info: Rect,
    pub header: Rect,
    /// All of the columns.
    pub body: Rect,
    pub parent: Rect,
    pub left: Rect,
    pub current: Rect,
    pub right: Rect,
    pub preview: Rect,
}

/// How the columns share their width. The middle one is the subject, so it gets
/// the most room.
pub open spec fn column_widths() -> Seq<Portion> {
    seq![
        Portion::Percentage(20),
        Portion::Length(1),
        Portion::Percentage(45),
        Portion::Length(1),
        Portion::Min(0),
    ]
}

pub fn column_portions() -> (portions: Vec<Portion>)
    ensures
        portions@ == column_widths(),
{
    let mut portions: Vec<Portion> = Vec::new();
    portions.push(Portion::Percentage(20));
    portions.push(Portion::Length(1));
    portions.push(Portion::Percentage(45));
    portions.push(Portion::Length(1));
    portions.push(Portion::Min(0));
    assert(portions@ =~= column_widths());
    portions
}

/// Whether `columns` are the parts of the browse screen in `area`.
pub open spec fn in_columns(columns: Columns, area: Rect) -> bool {
    &&& columns.area == area
    &&& screen::cut_into(
        area.within(),
        render::stack(),
        Cut::Down,
        seq![columns.prompt, columns.info, columns.header, columns.body],
    )
    &&& screen::cut_into(
        columns.body,
        column_widths(),
        Cut::Across,
        seq![columns.parent, columns.left, columns.current, columns.right, columns.preview],
    )
}

/// The parts of the browse screen in `area`.
pub fn lay_columns(area: Rect) -> (columns: Columns)
    ensures
        in_columns(columns, area),
{
    let parts = split(area.inside(), &stacked(), Cut::Down);
    assert(parts@ =~= seq![parts@[0], parts@[1], parts@[2], parts@[3]]);
    let across = split(parts[3], &column_portions(), Cut::Across);
    assert(across@ =~= seq![across@[0], across@[1], across@[2], across@[3], across@[4]]);
    Columns {
        area,
        prompt: parts[0],
        info: parts[1],
        header: parts[2],
        body: parts[3],
        parent: across[0],
        left: across[1],
        current: across[2],
        right: across[3],
        preview: across[4],
    }
}

/// In columns with room for them the one before takes two tenths of the width
/// and the one in the middle four and a half, with a line on either side of it;
/// the preview has the rest.
pub proof fn the_columns_share_the_width(columns: Columns, area: Rect)
    requires
        in_columns(columns, area),
        columns.body.x + columns.body.width <= u16::MAX,
        columns.body.width >= 6,
    ensures
        ({
            let body = columns.body;
            let w = body.width as int;
            let one = (20 * w + 50) / 100;
            let two = (65 * w + 50) / 100 + 1;
            &&& columns.parent == (Rect { width: one as u16, ..body })
            &&& columns.left == (Rect { x: (body.x + one) as u16, width: 1, ..body })
            &&& columns.current == (Rect {
                x: (body.x + one + 1) as u16,
                width: (two - one - 1) as u16,
                ..body
            })
            &&& columns.right == (Rect { x: (body.x + two) as u16, width: 1, ..body })
            &&& columns.preview == (Rect {
                x: (body.x + two + 1) as u16,
                width: (w - two - 1) as u16,
                ..body
            })
        }),
{
    let w = columns.body.width as int;
    let parts = seq![
        columns.parent,
        columns.left,
        columns.current,
        columns.right,
        columns.preview,
    ];
    reveal_with_fuel(screen::reach, 6);
    render::percent_of(column_widths()[0]->Percentage_0 as int, 20, w);
    render::percent_of(column_widths()[2]->Percentage_0 as int, 45, w);
    assert(screen::reach(column_widths(), 4, w) == 65 * w + 200);
    assert(screen::fits(column_widths(), w));
    assert(parts[0] == screen::share(columns.body, column_widths(), Cut::Across, 0));
    assert(parts[1] == screen::share(columns.body, column_widths(), Cut::Across, 1));
    assert(parts[2] == screen::share(columns.body, column_widths(), Cut::Across, 2));
    assert(parts[3] == screen::share(columns.body, column_widths(), Cut::Across, 3));
    assert(parts[4] == screen::share(columns.body, column_widths(), Cut::Across, 4));
}

/// The key hints of the columns. Tab goes back to whichever search was used
/// last, so the hint names it rather than leaving the reader to remember.
pub open spec fn browse_hints(search: Mode) -> Seq<Seq<char>> {
    seq![
        "Tab: "@ + search.name(),
        "S-Tab: tree"@,
        "^Space: keys"@,
        "Enter: cd"@,
        "Left: up"@,
        "Right: enter"@,
        "Ctrl/Alt-Left/Right: history"@,
        "^P: actions"@,
        "^B: pin"@,
    ]
}

fn hints_of_browse(search: Mode) -> (hints: Vec<String>)
    ensures
        text::views(hints@) == browse_hints(search),
{
    let mut hints: Vec<String> = Vec::new();
    hints.push(joined("Tab: ", search.label()));
    hints.push("S-Tab: tree".to_owned());
    hints.push("^Space: keys".to_owned());
    hints.push("Enter: cd".to_owned());
    hints.push("Left: up".to_owned());
    hints.push("Right: enter".to_owned());
    hints.push("Ctrl/Alt-Left/Right: history".to_owned());
    hints.push("^P: actions".to_owned());
    hints.push("^B: pin".to_owned());
    assert(text::views(hints@) =~= browse_hints(search));
    hints
}

/// The cursor after what is typed, kept inside the line.
pub open spec fn cursor_in(area: Rect, typed: Seq<char>) -> DrawnView {
    let most = if area.width == 0 {
        0
    } else {
        area.width - 1
    };
    let x = 2 + width::text_width(typed);
    DrawnView::Cursor {
        x: screen::capped(
            area.x + (if x < most {
                x
            } else {
                most
            }),
        ) as u16,
        y: area.y,
    }
}

pub(crate) fn cursor_at(area: Rect, typed: &str) -> (cursor: Drawn)
    ensures
        cursor@ == cursor_in(area, typed@),
{
    let most: u128 = if area.width == 0 {
        0
    } else {
        area.width as u128 - 1
    };
    let x: u128 = 2 + width_of(typed) as u128;
    Drawn::Cursor {
        x: cap(
            area.x as u128 + if x < most {
                x
            } else {
                most
            },
        ),
        y: area.y,
    }
}

impl PickerView {
    /// A row of the parent column. The one standing for the directory the
    /// middle column is listing is the only folder on screen truly open.
    pub open spec fn parent_row(
        self,
        item: ItemView,
        here: bool,
        above: Option<PathView>,
        width: u16,
    ) -> ListRowView {
        draw::column_row(
            item.label(self.on),
            item.is_dir,
            here,
            true,
            Seq::empty(),
            width as usize,
            RowMarks {
                icons: self.config.icons,
                favorite: item.is_dir && above is Some && self.pinned.holds(
                    above->Some_0.join(item.name, self.on),
                ),
                inside: here,
            },
        )
    }

    /// The rows of the parent column from `first` on.
    pub open spec fn parent_rows(
        self,
        items: Seq<ItemView>,
        here: Option<usize>,
        above: Option<PathView>,
        area: Rect,
        first: usize,
    ) -> Seq<ListRowView> {
        Seq::new(
            in_view(first, items.len(), area.height),
            |k: int|
                self.parent_row(
                    items[first + k],
                    here == Some((first + k) as usize),
                    above,
                    area.width,
                ),
        )
    }

    /// A row of the middle column.
    pub open spec fn current_row(self, b: BrowserView, row: int, width: u16) -> ListRowView {
        let item = b.items[b.rows[row].index as int];
        draw::column_row(
            item.label(self.on),
            item.is_dir,
            row == b.selected,
            false,
            b.rows[row].hits,
            width as usize,
            RowMarks {
                icons: self.config.icons,
                favorite: item.is_dir && self.pinned.holds(b.cwd.join(item.name, self.on)),
                inside: false,
            },
        )
    }

    /// The rows of the middle column.
    pub open spec fn current_rows(self, b: BrowserView, area: Rect) -> Seq<ListRowView> {
        Seq::new(
            in_view(b.first, b.rows.len(), area.height),
            |k: int| self.current_row(b, b.first + k, area.width),
        )
    }

    /// A row of the preview column.
    pub open spec fn side_row(self, dir: PathView, name: Seq<char>, width: u16) -> ListRowView {
        let is_dir = text::ends_in(name, self.on.sep());
        draw::column_row(
            name,
            is_dir,
            false,
            true,
            Seq::empty(),
            width as usize,
            RowMarks {
                icons: self.config.icons,
                favorite: is_dir && self.pinned.holds(dir.join(name, self.on)),
                inside: false,
            },
        )
    }

    /// The first row of the parent column in view.
    pub open spec fn parent_first(items: Seq<ItemView>, here: Option<usize>, height: u16) -> usize {
        draw::centred_start(
            match here {
                Some(row) => row as int,
                None => 0,
            },
            items.len() as int,
            height as int,
        ) as usize
    }

    /// The parent column: the directory we are in is marked. Above the top of a
    /// drive it lists the drives.
    pub open spec fn parent_column(self, b: BrowserView, area: Rect) -> Seq<DrawnView> {
        match b.parent {
            Some((items, here)) => seq![
                DrawnView::Rows {
                    area,
                    rows: self.parent_rows(
                        items,
                        here,
                        browse::folder_above(b.cwd, b.on),
                        area,
                        Self::parent_first(items, here, area.height),
                    ),
                },
            ],
            None => Seq::empty(),
        }
    }

    /// Where the parent column takes clicks.
    pub open spec fn parent_targets(self, b: BrowserView, area: Rect) -> Seq<TargetView> {
        match (b.parent, browse::folder_above(b.cwd, b.on)) {
            (Some((items, here)), Some(above)) => {
                let first = Self::parent_first(items, here, area.height);
                render::name_targets(
                    Seq::new(
                        in_view(first, items.len(), area.height),
                        |k: int| items[first + k].name,
                    ),
                    above,
                    area,
                    self.on,
                )
            },
            _ => Seq::empty(),
        }
    }

    /// The preview column: what the selected directory holds, once it has been
    /// read.
    pub open spec fn preview_column(self, dir: Option<PathView>, area: Rect) -> Seq<DrawnView> {
        match dir {
            Some(dir) => if self.preview is Some && self.preview->Some_0.dir == dir {
                seq![
                    DrawnView::Rows {
                        area,
                        rows: render::preview_shown(self, dir, area.height).map_values(
                            |n: Seq<char>| self.side_row(dir, n, area.width),
                        ),
                    },
                ]
            } else {
                Seq::empty()
            },
            None => Seq::empty(),
        }
    }

    /// Where the preview column takes clicks.
    pub open spec fn side_targets(self, dir: Option<PathView>, area: Rect) -> Seq<TargetView> {
        match dir {
            Some(dir) => render::name_targets(
                render::preview_shown(self, dir, area.height),
                dir,
                area,
                self.on,
            ),
            None => Seq::empty(),
        }
    }

    /// The scrollbar of the middle column: the separator to its right is the
    /// track.
    pub open spec fn column_thumb(self, b: BrowserView, columns: Columns) -> Seq<DrawnView> {
        if columns.right.width > 0 {
            render::thumb_drawn(
                columns.right.x,
                columns.current.y,
                b.first,
                b.rows.len() as usize,
                columns.current.height,
            )
        } else {
            Seq::empty()
        }
    }

    /// The browse screen above its columns.
    pub open spec fn browse_top(self, b: BrowserView, columns: Columns) -> Seq<DrawnView> {
        let counts = "  "@ + render::of_total(b.rows.len(), b.items.len());
        seq![
            render::framed(
                columns.area,
                (Mode::Browse, false),
                self.places,
                self.notice,
                browse_hints(self.search_mode),
            ),
            render::prompt_line(columns.prompt, b.filter),
        ] + (if columns.prompt.width > 0 && columns.prompt.height > 0 {
            seq![cursor_in(columns.prompt, b.filter)]
        } else {
            Seq::empty()
        }) + seq![
            render::ruled(columns.info, counts, counts.len() as int),
            DrawnView::Line {
                area: columns.header,
                pieces: location(b, self.pinned.holds(b.cwd)),
            },
            DrawnView::Bar(columns.left),
            DrawnView::Bar(columns.right),
        ]
    }

    /// The columns of the browse screen.
    pub open spec fn browse_columns(
        self,
        b: BrowserView,
        columns: Columns,
        dir: Option<PathView>,
    ) -> Seq<DrawnView> {
        self.parent_column(b, columns.parent) + seq![
            DrawnView::Rows {
                area: columns.current,
                rows: self.current_rows(b, columns.current),
            },
        ] + self.column_thumb(b, columns) + self.preview_column(dir, columns.preview)
    }

    /// The browse screen drawn in those areas.
    pub open spec fn browse_drawn(self, columns: Columns, dir: Option<PathView>) -> Seq<DrawnView> {
        let b = self.browser->Some_0;
        self.browse_top(b, columns) + self.browse_columns(b, columns, dir)
    }

    /// What takes clicks on the browse screen.
    pub open spec fn browse_clickable(self, columns: Columns, dir: Option<PathView>) -> ClickableView {
        let b = self.browser->Some_0;
        ClickableView {
            places: self.mouse.places,
            rows: RowsAt { area: columns.current, first: b.first, count: b.rows.len() as usize },
            header: Rect::one_row(columns.area.x, columns.area.y, columns.area.width),
            nav: header::nav_targets(columns.header, browse_ways(b)),
            crumbs: location_crumbs(b, self.pinned.holds(b.cwd), columns.header),
            modes_x: screen::capped(columns.area.x + 2) as u16,
            paths: self.parent_targets(b, columns.parent) + self.side_targets(
                dir,
                columns.preview,
            ),
        }
    }

    /// This as browse is drawn: opened, and scrolled so that the selection is
    /// in view.
    pub open spec fn browse_ready(self, world: WorldView, height: u16) -> PickerView {
        let p = self.with_browser(world.disk);
        let b = p.browser->Some_0;
        p.browsing(
            BrowserView {
                first: draw::window_start(
                    b.first as int,
                    b.selected as int,
                    b.rows.len() as int,
                    height as int,
                ) as usize,
                ..b
            },
        )
    }

    /// The folder the preview column shows.
    pub open spec fn browse_dir(self, world: WorldView) -> Option<PathView> {
        match self.browser->Some_0.selected_path() {
            Some(path) => if world.disk.is_dir(path) {
                Some(path)
            } else {
                None
            },
            None => None,
        }
    }

    /// Whether drawing browse in those areas gives that.
    pub open spec fn browse_rendered_in(
        self,
        columns: Columns,
        world: WorldView,
        after: PickerView,
        drawn: Seq<DrawnView>,
    ) -> bool {
        let p = self.browse_ready(world, columns.current.height);
        let dir = p.browse_dir(world);
        &&& drawn == p.browse_drawn(columns, dir)
        &&& after == (PickerView { mouse: p.browse_clickable(columns, dir), ..p })
    }

    /// Whether drawing browse in `area` may give that.
    pub open spec fn browse_rendered(
        self,
        area: Rect,
        world: WorldView,
        after: PickerView,
        drawn: Seq<DrawnView>,
    ) -> bool {
        exists|columns: Columns|
            in_columns(columns, area) && #[trigger] self.browse_rendered_in(
                columns,
                world,
                after,
                drawn,
            )
    }
}

impl Picker {
    fn parent_row(
        &self,
        item: &Item,
        here: bool,
        above: &Option<FsPath>,
        width: u16,
    ) -> (row: ListRow)
        ensures
            row@ == self@.parent_row(item@, here, picker::maybe(*above), width),
    {
        let favorite = match above {
            Some(above) => item.is_dir && self.pinned.contains(&above.join(&item.name, self.on)),
            None => false,
        };
        let none: Vec<u32> = Vec::new();
        assert(none@ =~= Seq::<u32>::empty());
        browse_row(
            &item.label(self.on),
            item.is_dir,
            here,
            true,
            &none,
            width as usize,
            RowMarks { icons: self.config.icons, favorite, inside: here },
        )
    }

    fn parent_rows(
        &self,
        items: &Vec<Item>,
        here: Option<usize>,
        above: &Option<FsPath>,
        area: Rect,
        first: usize,
    ) -> (rows: Vec<ListRow>)
        ensures
            draw::rows_view(rows@) == self@.parent_rows(
                browse::items_view(items@),
                here,
                picker::maybe(*above),
                area,
                first,
            ),
    {
        let ghost all = browse::items_view(items@);
        let ghost shown = self@.parent_rows(all, here, picker::maybe(*above), area, first);
        let n: usize = rows_fitting(first, items.len(), area.height);
        let mut rows: Vec<ListRow> = Vec::new();
        let mut k: usize = 0;
        while k < n
            invariant
                k <= n,
                all == browse::items_view(items@),
                shown == self@.parent_rows(all, here, picker::maybe(*above), area, first),
                items@.len() <= usize::MAX,
                n == in_view(first, items@.len(), area.height),
                shown.len() == n,
                draw::rows_view(rows@).len() == k,
                forall|i: int| 0 <= i < k ==> draw::rows_view(rows@)[i] == shown[i],
            decreases n - k,
        {
            let i: usize = first + k;
            assert(all[i as int] == items@[i as int]@);
            let is_here = match here {
                Some(row) => row == i,
                None => false,
            };
            let row = self.parent_row(&items[i], is_here, above, area.width);
            put_row(&mut rows, row);
            k += 1;
        }
        assert(draw::rows_view(rows@) =~= shown);
        rows
    }

    fn current_row(&self, browser: &Browser, row: usize, width: u16) -> (drawn: ListRow)
        requires
            browser.wf(),
            row < browser@.rows.len(),
        ensures
            drawn@ == self@.current_row(browser@, row as int, width),
    {
        let item = browser.item_on(row);
        let shown = browser.rows();
        assert(browser@.rows[row as int] == shown@[row as int]@);
        browse_row(
            &item.label(self.on),
            item.is_dir,
            row == browser.selected_row(),
            false,
            &shown[row].hits,
            width as usize,
            RowMarks {
                icons: self.config.icons,
                favorite: item.is_dir && self.pinned.contains(
                    &browser.dir().join(&item.name, self.on),
                ),
                inside: false,
            },
        )
    }

    fn current_rows(&self, browser: &Browser, area: Rect) -> (rows: Vec<ListRow>)
        requires
            browser.wf(),
        ensures
            draw::rows_view(rows@) == self@.current_rows(browser@, area),
    {
        let ghost shown = self@.current_rows(browser@, area);
        let first: usize = browser.first_row();
        let n: usize = rows_fitting(first, browser.rows().len(), area.height);
        let mut rows: Vec<ListRow> = Vec::new();
        let mut k: usize = 0;
        while k < n
            invariant
                k <= n,
                browser.wf(),
                shown == self@.current_rows(browser@, area),
                first == browser@.first,
                n == in_view(first, browser@.rows.len(), area.height),
                shown.len() == n,
                browser@.rows.len() <= usize::MAX,
                draw::rows_view(rows@).len() == k,
                forall|i: int| 0 <= i < k ==> draw::rows_view(rows@)[i] == shown[i],
            decreases n - k,
        {
            let row = self.current_row(browser, first + k, area.width);
            put_row(&mut rows, row);
            k += 1;
        }
        assert(draw::rows_view(rows@) =~= shown);
        rows
    }

    fn side_row(&self, dir: &FsPath, name: &str, width: u16) -> (row: ListRow)
        ensures
            row@ == self@.side_row(dir@, name@, width),
    {
        let is_dir = ends_with_char(name, self.on.separator());
        let none: Vec<u32> = Vec::new();
        assert(none@ =~= Seq::<u32>::empty());
        browse_row(
            name,
            is_dir,
            false,
            true,
            &none,
            width as usize,
            RowMarks {
                icons: self.config.icons,
                favorite: is_dir && self.pinned.contains(&dir.join(name, self.on)),
                inside: false,
            },
        )
    }

    fn side_rows(&self, dir: &FsPath, area: Rect) -> (rows: Vec<ListRow>)
        ensures
            draw::rows_view(rows@) == render::preview_shown(self@, dir@, area.height).map_values(
                |n: Seq<char>| self@.side_row(dir@, n, area.width),
            ),
    {
        let ghost names = render::preview_shown(self@, dir@, area.height);
        let count: usize = self.preview_count(dir, area.height);
        let mut rows: Vec<ListRow> = Vec::new();
        let mut k: usize = 0;
        match &self.preview {
            Some(preview) => {
                while k < count
                    invariant
                        k <= count,
                        names == render::preview_shown(self@, dir@, area.height),
                        count == names.len(),
                        count > 0 ==> count <= preview.names@.len() && names == text::views(
                            preview.names@,
                        ).take(count as int),
                        draw::rows_view(rows@).len() == k,
                        forall|i: int|
                            0 <= i < k ==> draw::rows_view(rows@)[i] == self@.side_row(
                                dir@,
                                names[i],
                                area.width,
                            ),
                    decreases count - k,
                {
                    assert(names[k as int] == preview.names@[k as int]@);
                    let row = self.side_row(dir, &preview.names[k], area.width);
                    put_row(&mut rows, row);
                    k += 1;
                }
            },
            None => {},
        }
        assert(draw::rows_view(rows@) =~= names.map_values(
            |n: Seq<char>| self@.side_row(dir@, n, area.width),
        ));
        rows
    }

    fn draw_parent_column(&self, drawn: &mut Vec<Drawn>, browser: &Browser, area: Rect)
        ensures
            drawn::all_view(final(drawn)@) == drawn::all_view(old(drawn)@) + self@.parent_column(
                browser@,
                area,
            ),
    {
        let ghost was = drawn::all_view(drawn@);
        match browser.parent_listing() {
            Some((items, here)) => {
                let focus: usize = match here {
                    Some(row) => row,
                    None => 0,
                };
                let first: usize = centred_scroll(focus, items.len(), area.height as usize);
                let above = browser.parent_dir();
                let rows = self.parent_rows(items, here, &above, area, first);
                put(drawn, Drawn::Rows { area, rows });
            },
            None => {},
        }
        assert(drawn::all_view(drawn@) =~= was + self@.parent_column(browser@, area));
    }

    fn draw_preview_column(&self, drawn: &mut Vec<Drawn>, dir: &Option<FsPath>, area: Rect)
        ensures
            drawn::all_view(final(drawn)@) == drawn::all_view(old(drawn)@) + self@.preview_column(
                picker::maybe(*dir),
                area,
            ),
    {
        let ghost was = drawn::all_view(drawn@);
        match dir {
            Some(dir) => {
                let loaded = match &self.preview {
                    Some(preview) => preview.dir.is(dir),
                    None => false,
                };
                if loaded {
                    let rows = self.side_rows(dir, area);
                    put(drawn, Drawn::Rows { area, rows });
                }
            },
            None => {},
        }
        assert(drawn::all_view(drawn@) =~= was + self@.preview_column(picker::maybe(*dir), area));
    }

    fn draw_browse_top(&self, drawn: &mut Vec<Drawn>, browser: &Browser, columns: Columns)
        ensures
            drawn::all_view(final(drawn)@) == drawn::all_view(old(drawn)@) + self@.browse_top(
                browser@,
                columns,
            ),
    {
        let ghost was = drawn::all_view(drawn@);
        let hints = hints_of_browse(self.search_mode);
        put(
            drawn,
            draw_frame(columns.area, (Mode::Browse, false), self.places, &self.notice, &hints),
        );
        // What the filter applies to is the folder named on the path row just
        // below, so repeating it here only crowded the line being typed on.
        put(drawn, draw_prompt(columns.prompt, browser.typed()));
        if columns.prompt.width > 0 && columns.prompt.height > 0 {
            put(drawn, cursor_at(columns.prompt, browser.typed()));
        }
        let counts = joined(
            "  ",
            &count_of(browser.rows().len() as u64, browser.items().len() as u64),
        );
        put(drawn, draw_rule(columns.info, &counts, counts.unicode_len()));
        let starred = self.pinned.contains(browser.dir());
        put(
            drawn,
            Drawn::Line {
                area: columns.header,
                pieces: browse_location(browser, starred, columns.header),
            },
        );
        put(drawn, Drawn::Bar(columns.left));
        put(drawn, Drawn::Bar(columns.right));
        assert(drawn::all_view(drawn@) =~= was + self@.browse_top(browser@, columns));
    }

    fn draw_columns(
        &self,
        drawn: &mut Vec<Drawn>,
        browser: &Browser,
        columns: Columns,
        dir: &Option<FsPath>,
    )
        requires
            browser.wf(),
        ensures
            drawn::all_view(final(drawn)@) == drawn::all_view(old(drawn)@) + self@.browse_columns(
                browser@,
                columns,
                picker::maybe(*dir),
            ),
    {
        let ghost was = drawn::all_view(drawn@);
        self.draw_parent_column(drawn, browser, columns.parent);
        let rows = self.current_rows(browser, columns.current);
        put(drawn, Drawn::Rows { area: columns.current, rows });
        if columns.right.width > 0 {
            draw_thumb(
                drawn,
                columns.right.x,
                columns.current.y,
                browser.first_row(),
                browser.rows().len(),
                columns.current.height,
            );
        }
        self.draw_preview_column(drawn, dir, columns.preview);
        assert(drawn::all_view(drawn@) =~= was + self@.browse_columns(
            browser@,
            columns,
            picker::maybe(*dir),
        ));
    }

    /// The browse screen drawn in those areas.
    pub fn draw_browse(&self, columns: Columns, dir: &Option<FsPath>) -> (drawn: Vec<Drawn>)
        requires
            self.wf(),
            self@.browser is Some,
        ensures
            drawn::all_view(drawn@) == self@.browse_drawn(columns, picker::maybe(*dir)),
    {
        let mut drawn: Vec<Drawn> = Vec::new();
        assert(drawn::all_view(drawn@) =~= Seq::<DrawnView>::empty());
        match &self.browser {
            Some(browser) => {
                self.draw_browse_top(&mut drawn, browser, columns);
                assert(drawn::all_view(drawn@) =~= self@.browse_top(browser@, columns));
                self.draw_columns(&mut drawn, browser, columns, dir);
            },
            None => {},
        }
        drawn
    }

    fn parent_areas(&self, browser: &Browser, area: Rect) -> (targets: Vec<Target>)
        ensures
            header::targets_view(targets@) == self@.parent_targets(browser@, area),
    {
        let ghost shown = self@.parent_targets(browser@, area);
        let mut targets: Vec<Target> = Vec::new();
        assert(header::targets_view(targets@) =~= Seq::<TargetView>::empty());
        let above = match browser.parent_dir() {
            Some(above) => above,
            None => {
                return targets;
            },
        };
        match browser.parent_listing() {
            Some((items, here)) => {
                let focus: usize = match here {
                    Some(row) => row,
                    None => 0,
                };
                let first: usize = centred_scroll(focus, items.len(), area.height as usize);
                let n: usize = rows_fitting(first, items.len(), area.height);
                let ghost all = browse::items_view(items@);
                let ghost names = Seq::new(n as nat, |k: int| all[first + k].name);
                let mut k: usize = 0;
                while k < n
                    invariant
                        k <= n,
                        all == browse::items_view(items@),
                        names == Seq::new(n as nat, |k: int| all[first + k].name),
                        items@.len() <= usize::MAX,
                n == in_view(first, items@.len(), area.height),
                        shown == render::name_targets(names, above@, area, self@.on),
                        shown.len() == n,
                        header::targets_view(targets@).len() == k,
                        forall|i: int| 0 <= i < k ==> header::targets_view(targets@)[i] == shown[i],
                    decreases n - k,
                {
                    let i: usize = first + k;
                    assert(all[i as int] == items@[i as int]@);
                    push_target(
                        &mut targets,
                        Target {
                            area: Rect::row(
                                area.x,
                                cap(area.y as u128 + k as u128),
                                area.width,
                            ),
                            path: above.join(&items[i].name, self.on),
                        },
                    );
                    k += 1;
                }
                assert(header::targets_view(targets@) =~= shown);
            },
            None => {},
        }
        targets
    }

    fn column_clicks(&self, browser: &Browser, columns: Columns, dir: &Option<FsPath>) -> (paths: Vec<
        Target,
    >)
        ensures
            header::targets_view(paths@) == self@.parent_targets(browser@, columns.parent)
                + self@.side_targets(picker::maybe(*dir), columns.preview),
    {
        let mut paths = self.parent_areas(browser, columns.parent);
        let ghost left = header::targets_view(paths@);
        match dir {
            Some(dir) => {
                let mut more = self.preview_areas(dir, columns.preview);
                let ghost right = header::targets_view(more@);
                paths.append(&mut more);
                assert(header::targets_view(paths@) =~= left + right);
            },
            None => {
                assert(left =~= left + Seq::<TargetView>::empty());
            },
        }
        paths
    }

    /// What takes clicks on the browse screen drawn in those areas.
    pub fn browse_clickable(&self, columns: Columns, dir: &Option<FsPath>) -> (mouse: Clickable)
        requires
            self.wf(),
            self@.browser is Some,
        ensures
            mouse@ == self@.browse_clickable(columns, picker::maybe(*dir)),
    {
        match &self.browser {
            Some(browser) => {
                let (_, nav) = nav_buttons(columns.header, ways_of(browser));
                let starred = self.pinned.contains(browser.dir());
                Clickable {
                    places: self.mouse.places,
                    rows: RowsAt {
                        area: columns.current,
                        first: browser.first_row(),
                        count: browser.rows().len(),
                    },
                    header: Rect::row(columns.area.x, columns.area.y, columns.area.width),
                    nav,
                    crumbs: path_areas(browser, starred, columns.header),
                    modes_x: cap(columns.area.x as u128 + 2),
                    paths: self.column_clicks(browser, columns, dir),
                }
            },
            None => Clickable::none(),
        }
    }

    fn browse_dir(&self, world: &World) -> (dir: Option<FsPath>)
        requires
            self.wf(),
            world.wf(),
            self@.browser is Some,
        ensures
            picker::maybe(dir) == self@.browse_dir(world@),
    {
        match &self.browser {
            Some(browser) => match browser.selected_path() {
                Some(path) => if world.disk.is_dir(&path) {
                    Some(path)
                } else {
                    None
                },
                None => None,
            },
            None => None,
        }
    }

    fn scroll_browse(&mut self, height: u16, world: &World)
        requires
            old(self).wf(),
            world.wf(),
        ensures
            final(self).wf(),
            final(self)@ == old(self)@.browse_ready(world@, height),
            final(self)@.browser is Some,
    {
        self.ensure_browser(&world.disk);
        match &mut self.browser {
            Some(browser) => {
                let first: usize = scroll_window(
                    browser.first_row(),
                    browser.selected_row(),
                    browser.rows().len(),
                    height as usize,
                );
                browser.scroll_to(first);
            },
            None => {},
        }
    }

    /// Miller columns: parent, current directory, selected entry's contents.
    /// The arrangement predates every terminal file manager. The areas they are
    /// drawn in take the clicks from then on.
    pub fn render_browse(&mut self, area: Rect, world: &World) -> (drawn: Vec<Drawn>)
        requires
            old(self).wf(),
            world.wf(),
        ensures
            final(self).wf(),
            old(self)@.browse_rendered(area, world@, final(self)@, drawn::all_view(drawn@)),
    {
        let ghost was = self@;
        let columns = lay_columns(area);
        self.scroll_browse(columns.current.height, world);
        let dir = self.browse_dir(world);
        let drawn = self.draw_browse(columns, &dir);
        let mouse = self.browse_clickable(columns, &dir);
        self.mouse = mouse;
        assert(was.browse_rendered_in(columns, world@, self@, drawn::all_view(drawn@)));
        drawn
    }
}

} // verus!
