//! The screens of the picker, worked out as things to draw.

use vstd::prelude::*;

use crate::draw::{
    self, fit_hints, footer_line, scroll_thumb, scroll_window, ListRow, ListRowView, RowMarks,
};
use crate::drawn::{self, one_piece, put, put_row, Drawn, DrawnView};
use crate::fs_path::{FsPath, PathView, Platform};
use crate::fuzzy::{self, path_hits};
use crate::header::{self, mode_tabs, push_target, Tab, Target, TargetView};
use crate::icons;
use crate::mode::Mode;
use crate::picker::{self, Picker, PickerView};
use crate::scan::{Entry, EntryView};
use crate::screen::{self, add_piece, cap, split, Cut, Paint, Piece, PieceView, Portion, Rect};
use crate::source::SourceView;
use crate::text::{self, ends_with_char, joined, number, repeated};
use crate::world::{World, WorldView};

verus! {

/// The preview pane is dropped below this terminal width.
pub const MIN_WIDTH_FOR_PREVIEW: u16 = 80;

/// How many of a list's items match, and how many there are.
#[derive(Clone, Copy, Debug, PartialEq, Eq, Structural)]
pub struct Tally {
    pub count: u32,
    pub total: u32,
}

/// A row of a list as it is drawn: what is on it, and the positions matched.
#[derive(Debug)]
pub struct ShownRow {
    pub row: u32,
    pub entry: Entry,
    pub hits: Vec<u32>,
}

#[verifier::ext_equal]
pub struct ShownRowView {
    pub row: u32,
    pub entry: EntryView,
    pub hits: Seq<u32>,
}

impl View for ShownRow {
    type V = ShownRowView;

    open spec fn view(&self) -> ShownRowView {
        ShownRowView { row: self.row, entry: self.entry@, hits: self.hits@ }
    }
}

pub open spec fn shown_view(rows: Seq<ShownRow>) -> Seq<ShownRowView> {
    rows.map_values(|r: ShownRow| r@)
}

/// The rows of a list from `from` to before `to` that are known, with what is
/// on them.
pub open spec fn known_rows(world: WorldView, source: u64, from: u32, to: int) -> Seq<
    (u32, EntryView),
>
    decreases to - from,
{
    if to <= from {
        Seq::empty()
    } else {
        let before = known_rows(world, source, from, to - 1);
        match world.entry_at(source, (to - 1) as u32) {
            Some(entry) => before.push(((to - 1) as u32, entry)),
            None => before,
        }
    }
}

/// Whether `rows` are those rows, with the positions to mark on each for what is
/// typed.
pub open spec fn rows_marked(
    rows: Seq<ShownRowView>,
    known: Seq<(u32, EntryView)>,
    query: Seq<char>,
) -> bool {
    &&& rows.len() == known.len()
    &&& forall|i: int|
        0 <= i < rows.len() ==> {
            &&& (#[trigger] rows[i]).row == known[i].0
            &&& rows[i].entry == known[i].1
            &&& fuzzy::marks(rows[i].hits, query, rows[i].entry.display)
        }
}

/// The rows of a list from `from` to before `to` that are known, with the
/// positions to mark for what is typed.
pub fn marked_rows(world: &World, source: u64, from: u32, to: u32, query: &str) -> (rows: Vec<
    ShownRow,
>)
    requires
        world.wf(),
        query@.len() <= fuzzy::PATTERN_LIMIT,
    ensures
        rows_marked(shown_view(rows@), known_rows(world@, source, from, to as int), query@),
{
    let mut rows: Vec<ShownRow> = Vec::new();
    let mut i: u32 = from;
    while i < to
        invariant
            from <= i,
            i <= to || i == from,
            world.wf(),
            query@.len() <= fuzzy::PATTERN_LIMIT,
            rows_marked(shown_view(rows@), known_rows(world@, source, from, i as int), query@),
        decreases to - i,
    {
        match world.entry_at(source, i) {
            Some(entry) => {
                let ghost was = shown_view(rows@);
                let hits = path_hits(query, entry.shown());
                let row = ShownRow { row: i, entry, hits };
                let ghost added = row@;
                rows.push(row);
                assert(shown_view(rows@) =~= was.push(added));
            },
            None => {},
        }
        i += 1;
    }
    proof {
        if to <= from {
            assert(known_rows(world@, source, from, to as int) =~= Seq::<
                (u32, EntryView),
            >::empty());
        }
    }
    rows
}

/// The spinner shown next to the counts while a scan is still feeding the list.
pub open spec fn spin(frame: u32) -> char {
    let k = (frame / 4) % 4;
    if k == 0 {
        '|'
    } else if k == 1 {
        '/'
    } else if k == 2 {
        '-'
    } else {
        '\\'
    }
}

pub fn spinner(frame: u32) -> (c: char)
    ensures
        c == spin(frame),
{
    let k: u32 = (frame / 4) % 4;
    if k == 0 {
        '|'
    } else if k == 1 {
        '/'
    } else if k == 2 {
        '-'
    } else {
        '\\'
    }
}

pub open spec fn frame_after(frame: u32) -> u32 {
    if frame == u32::MAX {
        0
    } else {
        (frame + 1) as u32
    }
}

pub(crate) fn next_frame(frame: u32) -> (next: u32)
    ensures
        next == frame_after(frame),
{
    if frame == u32::MAX {
        0
    } else {
        frame + 1
    }
}

/// A screen's box: the tabs on its top border, and a notice or the key hints on
/// its bottom border.
pub open spec fn framed(
    area: Rect,
    tab: Tab,
    places: Option<Mode>,
    notice: Option<Seq<char>>,
    hints: Seq<Seq<char>>,
) -> DrawnView {
    DrawnView::Frame {
        area,
        title: header::tabs_line(tab, places, area.width),
        footer: seq![
            draw::footer(
                notice,
                draw::fitting_hints(hints, inside_width(area)),
            ),
        ],
        panel: false,
    }
}

/// The columns inside a box.
pub open spec fn inside_width(area: Rect) -> usize {
    if area.width < 2 {
        0
    } else {
        (area.width - 2) as usize
    }
}

pub(crate) fn draw_frame(
    area: Rect,
    tab: Tab,
    places: Option<Mode>,
    notice: &Option<String>,
    hints: &Vec<String>,
) -> (frame: Drawn)
    ensures
        frame@ == framed(area, tab, places, text::opt_view(*notice), text::views(hints@)),
{
    let room: usize = if area.width < 2 {
        0
    } else {
        (area.width - 2) as usize
    };
    let hint_text = fit_hints(hints, room);
    let mut footer: Vec<Piece> = Vec::new();
    footer.push(footer_line(notice, &hint_text));
    assert(screen::pieces_view(footer@) =~= seq![
        draw::footer(
            text::opt_view(*notice),
            draw::fitting_hints(text::views(hints@), inside_width(area)),
        ),
    ]);
    Drawn::Frame { area, title: mode_tabs(tab, places, area.width), footer, panel: false }
}

/// The line typed on.
pub open spec fn prompt_line(area: Rect, typed: Seq<char>) -> DrawnView {
    DrawnView::Line {
        area,
        pieces: seq![screen::piece("> "@, Paint::Prompt), screen::piece(typed, Paint::Plain)],
    }
}

pub(crate) fn draw_prompt(area: Rect, typed: &str) -> (line: Drawn)
    ensures
        line@ == prompt_line(area, typed@),
{
    let mut pieces: Vec<Piece> = Vec::new();
    add_piece(&mut pieces, "> ", Paint::Prompt);
    add_piece(&mut pieces, typed, Paint::Plain);
    assert(screen::pieces_view(pieces@) =~= seq![
        screen::piece("> "@, Paint::Prompt),
        screen::piece(typed@, Paint::Plain),
    ]);
    Drawn::Line { area, pieces }
}

/// A label with a rule to the end of the line.
pub open spec fn ruled(area: Rect, label: Seq<char>, taken: int) -> DrawnView {
    DrawnView::Line {
        area,
        pieces: seq![
            screen::piece(label, Paint::Info),
            screen::piece(
                text::run_of(
                    '─',
                    if taken < area.width {
                        (area.width - taken) as nat
                    } else {
                        0
                    },
                ),
                Paint::Border,
            ),
        ],
    }
}

pub(crate) fn draw_rule(area: Rect, label: &str, taken: usize) -> (line: Drawn)
    ensures
        line@ == ruled(area, label@, taken as int),
{
    let width: usize = area.width as usize;
    let rule = repeated(
        '─',
        if taken < width {
            width - taken
        } else {
            0
        },
    );
    let mut pieces: Vec<Piece> = Vec::new();
    add_piece(&mut pieces, label, Paint::Info);
    add_piece(&mut pieces, &rule, Paint::Border);
    let line = Drawn::Line { area, pieces };
    assert(screen::pieces_view(pieces@) =~= ruled(area, label@, taken as int)->Line_pieces);
    line
}

/// `a/b`, with a space after it.
pub open spec fn of_total(a: nat, b: nat) -> Seq<char> {
    text::decimal(a) + "/"@ + text::decimal(b) + " "@
}

pub(crate) fn count_of(a: u64, b: u64) -> (said: String)
    ensures
        said@ == of_total(a as nat, b as nat),
{
    joined(&joined(&joined(&number(a), "/"), &number(b)), " ")
}

/// A scrollbar's thumb beside rows, where there are more than fit.
pub open spec fn thumb_drawn(
    x: u16,
    y: u16,
    first: usize,
    count: usize,
    height: u16,
) -> Seq<DrawnView> {
    match draw::thumb(first as int, count as int, height as int) {
        Some((start, len)) => seq![
            DrawnView::Thumb { x, y, start: start as usize, len: len as usize },
        ],
        None => Seq::empty(),
    }
}

pub(crate) fn draw_thumb(
    drawn: &mut Vec<Drawn>,
    x: u16,
    y: u16,
    first: usize,
    count: usize,
    height: u16,
)
    ensures
        drawn::all_view(final(drawn)@) == drawn::all_view(old(drawn)@) + thumb_drawn(
            x,
            y,
            first,
            count,
            height,
        ),
{
    let ghost was = drawn::all_view(drawn@);
    match scroll_thumb(first, count, height as usize) {
        Some((start, len)) => {
            put(drawn, Drawn::Thumb { x, y, start, len });
        },
        None => {},
    }
    assert(drawn::all_view(drawn@) =~= was + thumb_drawn(x, y, first, count, height));
}

/// How a preview is titled: the folder as it lies under the root.
pub open spec fn preview_title(dir: PathView, root: PathView, on: Platform) -> Seq<char> {
    let shown = if dir.under(root) {
        (PathView { top: Seq::empty(), names: dir.names.skip(root.names.len() as int) }).text(on)
    } else {
        dir.text(on)
    };
    " "@ + (if shown.len() == 0 {
        "."@
    } else {
        shown
    }) + " "@
}

fn title_of(dir: &FsPath, root: &FsPath, on: Platform) -> (title: String)
    ensures
        title@ == preview_title(dir@, root@, on),
{
    let shown = match dir.below(root) {
        Some(rest) => rest.text(on),
        None => dir.text(on),
    };
    if shown.is_empty() {
        joined(&joined(" ", "."), " ")
    } else {
        joined(&joined(" ", &shown), " ")
    }
}

/// A row of the preview.
pub open spec fn preview_row(
    p: PickerView,
    dir: PathView,
    name: Seq<char>,
) -> ListRowView {
    let is_dir = text::ends_in(name, p.on.sep());
    let marks = RowMarks {
        icons: p.config.icons,
        favorite: is_dir && p.pinned.holds(dir.join(name, p.on)),
        inside: false,
    };
    let icon = marks.icon(name, is_dir);
    ListRowView {
        pieces: seq![
            screen::piece(icon, Paint::Icon(icons::meant(icon))),
            screen::piece(name, Paint::Plain),
        ],
        paint: if is_dir {
            Paint::PreviewDir
        } else {
            Paint::Plain
        },
    }
}

/// The names of the preview that fit in `height` rows, where it is of `dir`.
pub open spec fn preview_shown(p: PickerView, dir: PathView, height: u16) -> Seq<Seq<char>> {
    match p.preview {
        Some(preview) => if preview.dir != dir {
            Seq::empty()
        } else if preview.names.len() > height {
            preview.names.take(height as int)
        } else {
            preview.names
        },
        None => Seq::empty(),
    }
}

/// Where the rows of a listing of `dir` take clicks.
pub open spec fn name_targets(
    names: Seq<Seq<char>>,
    dir: PathView,
    area: Rect,
    on: Platform,
) -> Seq<TargetView> {
    Seq::new(
        names.len(),
        |k: int| TargetView {
            area: Rect::one_row(area.x, screen::capped(area.y + k) as u16, area.width),
            path: dir.join(names[k], on),
        },
    )
}

/// The preview pane: what the selection would cd into holds.
pub open spec fn preview_drawn(p: PickerView, area: Rect, dir: Option<PathView>) -> Seq<DrawnView> {
    match dir {
        None => seq![
            DrawnView::Frame {
                area,
                title: seq![screen::piece(Seq::empty(), Paint::Header)],
                footer: Seq::empty(),
                panel: false,
            },
        ],
        Some(dir) => {
            let frame = DrawnView::Frame {
                area,
                title: seq![screen::piece(preview_title(dir, p.root, p.on), Paint::Header)],
                footer: Seq::empty(),
                panel: false,
            };
            if p.preview is Some && p.preview->Some_0.dir == dir {
                seq![
                    frame,
                    DrawnView::Rows {
                        area: area.within(),
                        rows: preview_shown(p, dir, area.within().height).map_values(
                            |n: Seq<char>| preview_row(p, dir, n),
                        ),
                    },
                ]
            } else {
                seq![frame]
            }
        },
    }
}

/// Where the preview pane takes clicks.
pub open spec fn preview_targets(p: PickerView, area: Rect, dir: Option<PathView>) -> Seq<
    TargetView,
> {
    match dir {
        Some(dir) => name_targets(
            preview_shown(p, dir, area.within().height),
            dir,
            area.within(),
            p.on,
        ),
        None => Seq::empty(),
    }
}

impl Picker {
    fn preview_row(&self, dir: &FsPath, name: &str) -> (row: ListRow)
        ensures
            row@ == preview_row(self@, dir@, name@),
    {
        let is_dir = ends_with_char(name, self.on.separator());
        let path = dir.join(name, self.on);
        let marks = RowMarks {
            icons: self.config.icons,
            favorite: is_dir && self.pinned.contains(&path),
            inside: false,
        };
        let mut pieces: Vec<Piece> = Vec::new();
        let icon = marks.prefix(name, is_dir);
        add_piece(&mut pieces, icon, Paint::Icon(icons::meaning(icon)));
        add_piece(&mut pieces, name, Paint::Plain);
        let row = ListRow {
            pieces,
            paint: if is_dir {
                Paint::PreviewDir
            } else {
                Paint::Plain
            },
        };
        assert(row@.pieces =~= preview_row(self@, dir@, name@).pieces);
        row
    }

    /// How many names of the preview fit, where it is of `dir`.
    pub(crate) fn preview_count(&self, dir: &FsPath, height: u16) -> (count: usize)
        ensures
            count == preview_shown(self@, dir@, height).len(),
            count > 0 ==> self@.preview is Some && self@.preview->Some_0.dir == dir@ && count
                <= self@.preview->Some_0.names.len() && preview_shown(self@, dir@, height)
                == self@.preview->Some_0.names.take(count as int),
    {
        match &self.preview {
            Some(preview) => {
                if !preview.dir.is(dir) {
                    return 0;
                }
                let count: usize = if preview.names.len() > height as usize {
                    height as usize
                } else {
                    preview.names.len()
                };
                assert(self@.preview->Some_0.names.take(count as int) =~= preview_shown(
                    self@,
                    dir@,
                    height,
                ));
                count
            },
            None => 0,
        }
    }

    /// Where the rows of the preview take clicks, drawn in `area`.
    pub(crate) fn preview_areas(&self, dir: &FsPath, area: Rect) -> (targets: Vec<Target>)
        ensures
            header::targets_view(targets@) == name_targets(
                preview_shown(self@, dir@, area.height),
                dir@,
                area,
                self@.on,
            ),
    {
        let ghost names = preview_shown(self@, dir@, area.height);
        let count: usize = self.preview_count(dir, area.height);
        let mut targets: Vec<Target> = Vec::new();
        let mut k: usize = 0;
        match &self.preview {
            Some(preview) => {
                while k < count
                    invariant
                        k <= count,
                        names == preview_shown(self@, dir@, area.height),
                        count == names.len(),
                        count > 0 ==> count <= preview.names@.len() && names == text::views(
                            preview.names@,
                        ).take(count as int),
                        header::targets_view(targets@).len() == k,
                        forall|i: int|
                            0 <= i < k ==> header::targets_view(targets@)[i] == name_targets(
                                names,
                                dir@,
                                area,
                                self@.on,
                            )[i],
                    decreases count - k,
                {
                    assert(names[k as int] == preview.names@[k as int]@);
                    let y: u16 = cap(area.y as u128 + k as u128);
                    let ghost was = header::targets_view(targets@);
                    push_target(
                        &mut targets,
                        Target {
                            area: Rect::row(area.x, y, area.width),
                            path: dir.join(&preview.names[k], self.on),
                        },
                    );
                    k += 1;
                }
            },
            None => {},
        }
        assert(header::targets_view(targets@) =~= name_targets(names, dir@, area, self@.on));
        targets
    }

    /// Lists the directory the current selection would cd into.
    pub(crate) fn draw_preview(&self, drawn: &mut Vec<Drawn>, area: Rect, dir: &Option<FsPath>)
        ensures
            drawn::all_view(final(drawn)@) == drawn::all_view(old(drawn)@) + preview_drawn(
                self@,
                area,
                picker::maybe(*dir),
            ),
    {
        let ghost was = drawn::all_view(drawn@);
        let title = match dir {
            Some(dir) => title_of(dir, &self.root, self.on),
            None => String::new(),
        };
        assert(dir is None ==> title@ =~= Seq::<char>::empty());
        let footer: Vec<Piece> = Vec::new();
        assert(screen::pieces_view(footer@) =~= Seq::<PieceView>::empty());
        put(
            drawn,
            Drawn::Frame { area, title: one_piece(&title, Paint::Header), footer, panel: false },
        );
        match dir {
            Some(dir) => {
                let loaded = match &self.preview {
                    Some(preview) => preview.dir.is(dir),
                    None => false,
                };
                if loaded {
                    let inner = area.inside();
                    let rows = self.preview_rows(dir, inner.height);
                    put(drawn, Drawn::Rows { area: inner, rows });
                }
            },
            None => {},
        }
        assert(drawn::all_view(drawn@) =~= was + preview_drawn(self@, area, picker::maybe(*dir)));
    }

    fn preview_rows(&self, dir: &FsPath, height: u16) -> (rows: Vec<ListRow>)
        ensures
            draw::rows_view(rows@) == preview_shown(self@, dir@, height).map_values(
                |n: Seq<char>| preview_row(self@, dir@, n),
            ),
    {
        let ghost names = preview_shown(self@, dir@, height);
        let count: usize = self.preview_count(dir, height);
        let mut rows: Vec<ListRow> = Vec::new();
        let mut k: usize = 0;
        match &self.preview {
            Some(preview) => {
                while k < count
                    invariant
                        k <= count,
                        names == preview_shown(self@, dir@, height),
                        count == names.len(),
                        count > 0 ==> count <= preview.names@.len() && names == text::views(
                            preview.names@,
                        ).take(count as int),
                        draw::rows_view(rows@).len() == k,
                        forall|i: int|
                            0 <= i < k ==> draw::rows_view(rows@)[i] == preview_row(
                                self@,
                                dir@,
                                names[i],
                            ),
                    decreases count - k,
                {
                    assert(names[k as int] == preview.names@[k as int]@);
                    let row = self.preview_row(dir, &preview.names[k]);
                    put_row(&mut rows, row);
                    k += 1;
                }
            },
            None => {},
        }
        assert(draw::rows_view(rows@) =~= names.map_values(
            |n: Seq<char>| preview_row(self@, dir@, n),
        ));
        rows
    }
}

/// The parts of a search screen, or of the tree.
#[derive(Clone, Copy, Debug, PartialEq, Eq, Structural)]
pub struct Areas {
    pub list: Rect,
    /// The preview, where there is room for one.
    pub preview: Option<Rect>,
    pub prompt: Rect,
    pub info: Rect,
    pub header: Rect,
    pub rows: Rect,
}

/// How the width of a screen is shared with its preview.
pub open spec fn halves() -> Seq<Portion> {
    seq![Portion::Percentage(60), Portion::Percentage(40)]
}

pub fn beside() -> (portions: Vec<Portion>)
    ensures
        portions@ == halves(),
{
    let mut portions: Vec<Portion> = Vec::new();
    portions.push(Portion::Percentage(60));
    portions.push(Portion::Percentage(40));
    assert(portions@ =~= halves());
    portions
}

/// How the inside of a screen is cut: prompt, info, header, list.
pub open spec fn stack() -> Seq<Portion> {
    seq![Portion::Length(1), Portion::Length(1), Portion::Length(1), Portion::Min(0)]
}

pub fn stacked() -> (portions: Vec<Portion>)
    ensures
        portions@ == stack(),
{
    let mut portions: Vec<Portion> = Vec::new();
    portions.push(Portion::Length(1));
    portions.push(Portion::Length(1));
    portions.push(Portion::Length(1));
    portions.push(Portion::Min(0));
    assert(portions@ =~= stack());
    portions
}

/// Whether `areas` are the parts of a screen in `area`, the preview dropped on
/// a narrow one.
pub open spec fn laid_out(areas: Areas, area: Rect) -> bool {
    &&& match areas.preview {
        Some(preview) => area.width >= MIN_WIDTH_FOR_PREVIEW && screen::cut_into(
            area,
            halves(),
            Cut::Across,
            seq![areas.list, preview],
        ),
        None => area.width < MIN_WIDTH_FOR_PREVIEW && areas.list == area,
    }
    &&& screen::cut_into(
        areas.list.within(),
        stack(),
        Cut::Down,
        seq![areas.prompt, areas.info, areas.header, areas.rows],
    )
}

/// The parts of a screen in `area`.
pub fn lay_out(area: Rect) -> (areas: Areas)
    ensures
        laid_out(areas, area),
{
    let (list, preview) = if area.width >= MIN_WIDTH_FOR_PREVIEW {
        let halves = split(area, &beside(), Cut::Across);
        assert(halves@ =~= seq![halves@[0], halves@[1]]);
        (halves[0], Some(halves[1]))
    } else {
        (area, None)
    };
    let parts = split(list.inside(), &stacked(), Cut::Down);
    assert(parts@ =~= seq![parts@[0], parts@[1], parts@[2], parts@[3]]);
    Areas {
        list,
        preview,
        prompt: parts[0],
        info: parts[1],
        header: parts[2],
        rows: parts[3],
    }
}

/// A screen with room for them has the prompt, the info line and the header on
/// its first three lines and the rows below, and where there is a preview six
/// tenths of the width.
pub proof fn a_screen_has_its_parts_in_order(areas: Areas, area: Rect)
    requires
        laid_out(areas, area),
        area.x + area.width <= u16::MAX,
        area.y + area.height <= u16::MAX,
        area.height >= 5,
        area.width >= 2,
    ensures
        areas.list == (Rect {
            width: if area.width >= MIN_WIDTH_FOR_PREVIEW {
                ((60 * area.width + 50) / 100) as u16
            } else {
                area.width
            },
            ..area
        }),
        areas.preview == (if area.width >= MIN_WIDTH_FOR_PREVIEW {
            Some(
                Rect {
                    x: (area.x + areas.list.width) as u16,
                    width: (area.width - areas.list.width) as u16,
                    ..area
                },
            )
        } else {
            None
        }),
        areas.prompt == line_in(areas.list, 1),
        areas.info == line_in(areas.list, 2),
        areas.header == line_in(areas.list, 3),
        areas.rows == (Rect {
            y: (area.y + 4) as u16,
            height: (area.height - 5) as u16,
            ..line_in(areas.list, 4)
        }),
{
    let w = area.width as int;
    reveal_with_fuel(screen::reach, 5);
    if area.width >= MIN_WIDTH_FOR_PREVIEW {
        let parts = seq![areas.list, areas.preview->Some_0];
        percent_of(halves()[0]->Percentage_0 as int, 60, w);
        percent_of(halves()[1]->Percentage_0 as int, 40, w);
        assert(screen::reach(halves(), 2, w) == 100 * w);
        assert(screen::fits(halves(), w));
        assert(parts[0] == screen::share(area, halves(), Cut::Across, 0));
        assert(parts[1] == screen::share(area, halves(), Cut::Across, 1));
    }
    let inner = areas.list.within();
    let h = inner.height as int;
    let parts = seq![areas.prompt, areas.info, areas.header, areas.rows];
    assert(screen::reach(stack(), 3, h) == 300);
    assert(screen::fits(stack(), h));
    assert(parts[0] == screen::share(inner, stack(), Cut::Down, 0));
    assert(parts[1] == screen::share(inner, stack(), Cut::Down, 1));
    assert(parts[2] == screen::share(inner, stack(), Cut::Down, 2));
    assert(parts[3] == screen::share(inner, stack(), Cut::Down, 3));
}

/// A line inside the border of a box, so many lines down.
pub open spec fn line_in(list: Rect, down: int) -> Rect {
    Rect {
        x: (list.x + 1) as u16,
        y: (list.y + down) as u16,
        width: (list.width - 2) as u16,
        height: 1,
    }
}

/// Equal percentages are equal shares.
pub(crate) proof fn percent_of(p: int, q: int, size: int)
    by (nonlinear_arith)
    requires
        p == q,
    ensures
        p * size == q * size,
{
}

impl PickerView {
    /// The preview beside a screen, where there is room for one.
    pub open spec fn preview_beside(self, areas: Areas, dir: Option<PathView>) -> Seq<DrawnView> {
        match areas.preview {
            Some(area) => preview_drawn(self, area, dir),
            None => Seq::empty(),
        }
    }

    /// Where the preview beside a screen takes clicks.
    pub open spec fn preview_clicks(self, areas: Areas, dir: Option<PathView>) -> Seq<TargetView> {
        match areas.preview {
            Some(area) => preview_targets(self, area, dir),
            None => Seq::empty(),
        }
    }

    /// This a frame on, where a scan is still going.
    pub open spec fn spun(self, scanning: bool) -> PickerView {
        if scanning {
            PickerView { frame_count: frame_after(self.frame_count), ..self }
        } else {
            self
        }
    }

    /// Whether a list has rows to draw.
    pub open spec fn has_rows(source: SourceView, tally: Tally, height: u16) -> bool {
        source.scan_error is None && height > 0 && tally.count > 0
    }

    /// This with a mode's list scrolled so that the selection is in view.
    pub open spec fn list_scrolled(self, mode: Mode, tally: Tally, height: u16) -> PickerView {
        let source = self.source(mode)->Some_0;
        if Self::has_rows(source, tally, height) {
            self.with_source(
                mode,
                Some(
                    SourceView {
                        first: draw::window_start(
                            source.first as int,
                            source.selected as int,
                            tally.count as int,
                            height as int,
                        ) as usize,
                        ..source
                    },
                ),
            )
        } else {
            self
        }
    }
}

impl Picker {
    pub(crate) fn draw_beside(&self, drawn: &mut Vec<Drawn>, areas: Areas, dir: &Option<FsPath>)
        ensures
            drawn::all_view(final(drawn)@) == drawn::all_view(old(drawn)@)
                + self@.preview_beside(areas, picker::maybe(*dir)),
    {
        let ghost was = drawn::all_view(drawn@);
        match areas.preview {
            Some(area) => {
                self.draw_preview(drawn, area, dir);
            },
            None => {},
        }
        assert(drawn::all_view(drawn@) =~= was + self@.preview_beside(areas, picker::maybe(*dir)));
    }

    pub(crate) fn clicks_beside(&self, areas: Areas, dir: &Option<FsPath>) -> (targets: Vec<Target>)
        ensures
            header::targets_view(targets@) == self@.preview_clicks(areas, picker::maybe(*dir)),
    {
        let none: Vec<Target> = Vec::new();
        assert(header::targets_view(none@) =~= Seq::<TargetView>::empty());
        match areas.preview {
            Some(area) => match dir {
                Some(dir) => self.preview_areas(dir, area.inside()),
                None => none,
            },
            None => none,
        }
    }

    pub(crate) fn spin_on(&mut self, scanning: bool)
        ensures
            final(self)@ == old(self)@.spun(scanning),
    {
        if scanning {
            self.frame_count = next_frame(self.frame_count);
        }
    }

    /// Scrolls a mode's list so that the selection is in view.
    pub(crate) fn scroll_list(&mut self, mode: Mode, tally: Tally, height: u16)
        requires
            old(self).wf(),
            old(self)@.source(mode) is Some,
        ensures
            final(self).wf(),
            final(self)@ == old(self)@.list_scrolled(mode, tally, height),
            final(self)@.source(mode) is Some,
    {
        let ghost was = self@;
        let i: usize = picker::mode_index(mode);
        assert(self@.sources[i as int] == picker::maybe(self.sources@[i as int]));
        match &mut self.sources[i] {
            Some(source) => {
                if source.scan_error.is_none() && height > 0 && tally.count > 0 {
                    source.first = scroll_window(
                        source.first,
                        source.selected as usize,
                        tally.count as usize,
                        height as usize,
                    );
                }
            },
            None => {},
        }
        assert(self@.sources =~= was.list_scrolled(mode, tally, height).sources);
    }

    /// Whether a mode's scan still feeds its list.
    pub(crate) fn is_scanning(&self, mode: Mode) -> (res: bool)
        requires
            self.wf(),
            self@.source(mode) is Some,
        ensures
            res == !self@.source(mode)->Some_0.scan_done,
    {
        let i: usize = picker::mode_index(mode);
        assert(self@.sources[i as int] == picker::maybe(self.sources@[i as int]));
        match &self.sources[i] {
            Some(source) => !source.scan_done,
            None => false,
        }
    }
}

} // verus!
