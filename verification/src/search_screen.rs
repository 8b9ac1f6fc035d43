//! The screen of a search.

use vstd::prelude::*;

use crate::draw::{self, highlight_line, ListRow, ListRowView, RowMarks};
use crate::drawn::{self, put, put_row, Drawn, DrawnView};
use crate::fs_path::{FsPath, PathView};
use crate::fuzzy;
use crate::header::{self, after_buttons, nav_buttons, search_location, TargetView, Ways};
use crate::mode::Mode;
use crate::picker::{self, next_search, Clickable, ClickableView, Picker, PickerView, RowsAt};
use crate::render::{
    self, count_of, draw_frame, draw_prompt, draw_thumb, lay_out, marked_rows, spinner, Areas,
    ShownRow, ShownRowView, Tally,
};
use crate::screen::{self, add_piece, cap, Paint, Piece, Rect};
use crate::source::{Source, SourceView};
use crate::text::{self, joined, repeated};
use crate::world::{World, WorldView};

verus! {

/// The key hints of a search. Shift-Tab is named by where it leads, as Tab is
/// in browse.
pub open spec fn search_hints(mode: Mode) -> Seq<Seq<char>> {
    seq![
        "Tab: browse"@,
        "^Space: keys"@,
        "S-Tab: "@ + picker::other_search(mode).name(),
        "Enter: cd"@,
        "Right: browse it"@,
        "^S: favorites"@,
        "Esc: clear/exit"@,
        "^P: actions"@,
        "^B: pin"@,
        "F5: refresh"@,
    ]
}

fn hints_of_search(mode: Mode) -> (hints: Vec<String>)
    ensures
        text::views(hints@) == search_hints(mode),
{
    let mut hints: Vec<String> = Vec::new();
    hints.push("Tab: browse".to_owned());
    hints.push("^Space: keys".to_owned());
    hints.push(joined("S-Tab: ", next_search(mode).label()));
    hints.push("Enter: cd".to_owned());
    hints.push("Right: browse it".to_owned());
    hints.push("^S: favorites".to_owned());
    hints.push("Esc: clear/exit".to_owned());
    hints.push("^P: actions".to_owned());
    hints.push("^B: pin".to_owned());
    hints.push("F5: refresh".to_owned());
    assert(text::views(hints@) =~= search_hints(mode));
    hints
}

/// What is said of a list that stopped early. It looks complete otherwise, and
/// the reader would take a missing folder for one that is not there.
pub open spec fn stopped(truncated: bool) -> Seq<char> {
    if truncated {
        "stopped at scan_limit, ^A: collect the rest "@
    } else {
        ""@
    }
}

/// The counts of a search.
pub open spec fn search_counts(source: SourceView, tally: Tally, frame: u32) -> Seq<char> {
    seq![
        if source.scan_done {
            ' '
        } else {
            render::spin(frame)
        },
    ] + " "@ + render::of_total(tally.count as nat, tally.total as nat)
}

pub open spec fn search_info(area: Rect, source: SourceView, tally: Tally, frame: u32) -> DrawnView {
    let counts = search_counts(source, tally, frame);
    let said = stopped(source.truncated);
    let taken = counts.len() + said.len();
    DrawnView::Line {
        area,
        pieces: seq![
            screen::piece(counts, Paint::Info),
            screen::piece(said, Paint::NoticeBad),
            screen::piece(
                text::run_of(
                    '─',
                    if taken < area.width {
                        (area.width - taken) as nat
                    } else {
                        0
                    },
                ),
                Paint::Border,
            ),
        ],
    }
}

fn draw_search_info(area: Rect, source: &Source, tally: Tally, frame: u32) -> (line: Drawn)
    ensures
        line@ == search_info(area, source@, tally, frame),
{
    let mut counts = String::new();
    counts.push(
        if source.scan_done {
            ' '
        } else {
            spinner(frame)
        },
    );
    counts.push_str(" ");
    counts.push_str(&count_of(tally.count as u64, tally.total as u64));
    assert(counts@ =~= search_counts(source@, tally, frame));
    let said = if source.truncated {
        "stopped at scan_limit, ^A: collect the rest "
    } else {
        ""
    };
    let width: usize = area.width as usize;
    let a: usize = counts.unicode_len();
    let b: usize = said.unicode_len();
    let rule = repeated(
        '─',
        if a < width && b < width - a {
            width - a - b
        } else {
            0
        },
    );
    let mut pieces: Vec<Piece> = Vec::new();
    add_piece(&mut pieces, &counts, Paint::Info);
    add_piece(&mut pieces, said, Paint::NoticeBad);
    add_piece(&mut pieces, &rule, Paint::Border);
    assert(screen::pieces_view(pieces@) =~= search_info(
        area,
        source@,
        tally,
        frame,
    )->Line_pieces);
    Drawn::Line { area, pieces }
}

impl PickerView {
    /// Which ways the search's buttons lead.
    pub open spec fn search_ways(self) -> Ways {
        Ways {
            back: self.has_roots(false),
            forward: self.has_roots(true),
            up: self.root.parent() is Some,
        }
    }

    /// The buttons and the path the search covers.
    pub open spec fn search_header(self, area: Rect) -> DrawnView {
        DrawnView::Line {
            area,
            pieces: header::nav_pieces(self.search_ways()) + header::crumb_pieces(
                header::path_crumbs(self.root, self.on),
            ),
        }
    }

    /// Where the path the search covers takes clicks.
    pub open spec fn search_crumbs(self, area: Rect) -> Seq<TargetView> {
        let rest = header::after_nav(area);
        let crumbs = header::path_crumbs(self.root, self.on);
        header::clickable(crumbs, crumbs.len() as int, rest.x as int, rest.y, rest.end_x())
    }

    /// A row of a search.
    pub open spec fn search_row(self, row: ShownRowView, selected: u32) -> ListRowView {
        let marks = RowMarks {
            icons: self.config.icons,
            favorite: self.pinned.holds(row.entry.output_path(self.mode, self.on)),
            inside: false,
        };
        let current = row.row == selected;
        ListRowView {
            pieces: draw::row_pieces(
                current,
                marks.icon(row.entry.display, self.mode != Mode::Files),
                row.entry.display,
                row.hits,
            ),
            paint: if current {
                Paint::Current
            } else {
                Paint::Plain
            },
        }
    }

    /// What a search says when its scan failed.
    pub open spec fn search_failure(self, error: Seq<char>) -> Seq<char> {
        "Cannot load "@ + self.mode.name() + ": "@ + error
            + "\nTab: browse  F5: retry  Esc: cancel"@
    }

    /// The rows of a search, or why there are none.
    pub open spec fn search_list(self, areas: Areas, tally: Tally, rows: Seq<ShownRowView>) -> Seq<
        DrawnView,
    > {
        let source = self.source(self.mode)->Some_0;
        match source.scan_error {
            Some(error) => seq![
                DrawnView::Text {
                    area: areas.rows,
                    text: self.search_failure(error),
                    paint: Paint::Failed,
                },
            ],
            None => if areas.rows.height == 0 || tally.count == 0 {
                Seq::empty()
            } else {
                seq![
                    DrawnView::Rows {
                        area: areas.rows,
                        rows: rows.map_values(
                            |r: ShownRowView| self.search_row(r, source.selected),
                        ),
                    },
                ] + render::thumb_drawn(
                    if areas.list.end_x() > 0 {
                        (areas.list.end_x() - 1) as u16
                    } else {
                        0
                    },
                    areas.rows.y,
                    source.first,
                    tally.count as usize,
                    areas.rows.height,
                )
            },
        }
    }

    /// The search screen drawn in those areas.
    #[verifier::opaque]
    pub open spec fn search_drawn(
        self,
        areas: Areas,
        tally: Tally,
        rows: Seq<ShownRowView>,
        dir: Option<PathView>,
    ) -> Seq<DrawnView> {
        self.preview_beside(areas, dir) + self.search_top(areas, tally) + self.search_list(
            areas,
            tally,
            rows,
        )
    }

    /// The search screen above its list.
    pub open spec fn search_top(self, areas: Areas, tally: Tally) -> Seq<DrawnView> {
        let source = self.source(self.mode)->Some_0;
        seq![
            render::framed(
                areas.list,
                (self.mode, false),
                self.places,
                self.notice,
                search_hints(self.mode),
            ),
            render::prompt_line(areas.prompt, self.query),
            DrawnView::Cursor {
                x: screen::capped(areas.prompt.x + 2 + self.query.len()) as u16,
                y: areas.prompt.y,
            },
            search_info(areas.info, source, tally, self.frame_count),
            self.search_header(areas.header),
        ]
    }

    /// Where the rows of a search are clicked.
    pub open spec fn search_rows_at(self, areas: Areas, tally: Tally) -> RowsAt {
        let source = self.source(self.mode)->Some_0;
        if Self::has_rows(source, tally, areas.rows.height) {
            RowsAt { area: areas.rows, first: source.first, count: tally.count as usize }
        } else {
            RowsAt::nowhere()
        }
    }

    /// Whether `rows` are the rows of a mode's list that fit in `height`, with
    /// the positions to mark on each.
    pub open spec fn rows_in_view(
        self,
        mode: Mode,
        tally: Tally,
        height: u16,
        query: Seq<char>,
        world: WorldView,
        rows: Seq<ShownRowView>,
    ) -> bool {
        let source = self.source(mode)->Some_0;
        let first: u32 = if source.first > u32::MAX {
            u32::MAX
        } else {
            source.first as u32
        };
        let to = if first + height < tally.count {
            first + height
        } else {
            tally.count as int
        };
        render::rows_marked(rows, render::known_rows(world, source.id, first, to), query)
    }

    /// This as a search is drawn: its list started, a frame on, scrolled.
    pub open spec fn search_ready(self, tally: Tally, height: u16) -> PickerView {
        let p = self.started(self.mode);
        p.spun(!p.source(p.mode)->Some_0.scan_done).list_scrolled(self.mode, tally, height)
    }

    /// Whether drawing the search in those areas, with those rows, gives that.
    pub open spec fn search_rendered_in(
        self,
        areas: Areas,
        tally: Tally,
        world: WorldView,
        rows: Seq<ShownRowView>,
        after: PickerView,
        drawn: Seq<DrawnView>,
    ) -> bool {
        let p = self.search_ready(tally, areas.rows.height);
        let dir = p.search_dir(world);
        &&& p.rows_in_view(p.mode, tally, areas.rows.height, p.query, world, rows)
        &&& drawn == p.search_drawn(areas, tally, rows, dir)
        &&& after == (PickerView { mouse: p.search_clickable(areas, tally, dir), ..p })
    }

    /// Whether drawing the search in `area` may give that.
    pub open spec fn search_rendered(
        self,
        area: Rect,
        tally: Tally,
        world: WorldView,
        after: PickerView,
        drawn: Seq<DrawnView>,
    ) -> bool {
        exists|areas: Areas, rows: Seq<ShownRowView>|
            render::laid_out(areas, area) && #[trigger] self.search_rendered_in(
                areas,
                tally,
                world,
                rows,
                after,
                drawn,
            )
    }

    /// What takes clicks on the search screen.
    #[verifier::opaque]
    pub open spec fn search_clickable(
        self,
        areas: Areas,
        tally: Tally,
        dir: Option<PathView>,
    ) -> ClickableView {
        ClickableView {
            places: self.mouse.places,
            rows: self.search_rows_at(areas, tally),
            header: Rect::one_row(areas.list.x, areas.list.y, areas.list.width),
            nav: header::nav_targets(areas.header, self.search_ways()),
            crumbs: self.search_crumbs(areas.header),
            modes_x: screen::capped(areas.list.x + 2) as u16,
            paths: self.preview_clicks(areas, dir),
        }
    }

    /// The folder a search's preview shows.
    pub open spec fn search_dir(self, world: WorldView) -> Option<PathView> {
        match self.entry_of(self.mode, world) {
            Some(entry) => {
                let path = entry.output_path(self.mode, self.on);
                if world.disk.is_dir(path) {
                    Some(path)
                } else {
                    None
                }
            },
            None => None,
        }
    }
}

impl Picker {
    fn search_row(&self, row: &ShownRow, selected: u32) -> (res: ListRow)
        ensures
            res@ == self@.search_row(row@, selected),
    {
        let path = row.entry.output_path(self.mode, self.on);
        let marks = RowMarks {
            icons: self.config.icons,
            favorite: self.pinned.contains(&path),
            inside: false,
        };
        let current = row.row == selected;
        let pieces = highlight_line(
            current,
            marks.prefix(row.entry.shown(), self.mode != Mode::Files),
            row.entry.shown(),
            &row.hits,
        );
        ListRow {
            pieces,
            paint: if current {
                Paint::Current
            } else {
                Paint::Plain
            },
        }
    }

    fn search_rows(&self, rows: &Vec<ShownRow>, selected: u32) -> (res: Vec<ListRow>)
        ensures
            draw::rows_view(res@) == render::shown_view(rows@).map_values(
                |r: ShownRowView| self@.search_row(r, selected),
            ),
    {
        let mut res: Vec<ListRow> = Vec::new();
        let mut i: usize = 0;
        while i < rows.len()
            invariant
                i <= rows@.len(),
                draw::rows_view(res@).len() == i,
                forall|k: int|
                    0 <= k < i ==> draw::rows_view(res@)[k] == self@.search_row(
                        rows@[k]@,
                        selected,
                    ),
            decreases rows@.len() - i,
        {
            let row = self.search_row(&rows[i], selected);
            put_row(&mut res, row);
            i += 1;
        }
        assert(draw::rows_view(res@) =~= render::shown_view(rows@).map_values(
            |r: ShownRowView| self@.search_row(r, selected),
        ));
        res
    }

    pub(crate) fn search_ways(&self) -> (ways: Ways)
        ensures
            ways == self@.search_ways(),
    {
        Ways {
            back: self.has_root_history(false),
            forward: self.has_root_history(true),
            up: self.root.parent().is_some(),
        }
    }

    fn draw_search_list(
        &self,
        drawn: &mut Vec<Drawn>,
        areas: Areas,
        tally: Tally,
        rows: &Vec<ShownRow>,
    )
        requires
            self.wf(),
            self@.source(self@.mode) is Some,
        ensures
            drawn::all_view(final(drawn)@) == drawn::all_view(old(drawn)@) + self@.search_list(
                areas,
                tally,
                render::shown_view(rows@),
            ),
    {
        let ghost was = drawn::all_view(drawn@);
        let i: usize = picker::mode_index(self.mode);
        assert(self@.sources[i as int] == picker::maybe(self.sources@[i as int]));
        match &self.sources[i] {
            Some(source) => {
                match &source.scan_error {
                    Some(error) => {
                        let said = joined(
                            &joined(
                                &joined(&joined("Cannot load ", self.mode.label()), ": "),
                                error,
                            ),
                            "\nTab: browse  F5: retry  Esc: cancel",
                        );
                        put(
                            drawn,
                            Drawn::Text { area: areas.rows, text: said, paint: Paint::Failed },
                        );
                    },
                    None => {
                        if areas.rows.height > 0 && tally.count > 0 {
                            let listed = self.search_rows(rows, source.selected);
                            put(drawn, Drawn::Rows { area: areas.rows, rows: listed });
                            // The right border is the track, so a list that
                            // ends at the bottom edge of the screen cannot
                            // pass for the whole result.
                            let end: u16 = areas.list.right();
                            draw_thumb(
                                drawn,
                                if end > 0 {
                                    end - 1
                                } else {
                                    0
                                },
                                areas.rows.y,
                                source.first,
                                tally.count as usize,
                                areas.rows.height,
                            );
                        }
                    },
                }
            },
            None => {},
        }
        assert(drawn::all_view(drawn@) =~= was + self@.search_list(
            areas,
            tally,
            render::shown_view(rows@),
        ));
    }

    fn draw_search_header(&self, area: Rect) -> (line: Drawn)
        ensures
            line@ == self@.search_header(area),
    {
        // The buttons walk the places the search has started from, so they
        // belong on every mode that has a scan root, not only on browse.
        let (mut line, _) = nav_buttons(area, self.search_ways());
        let (mut location, _) = search_location(&self.root, after_buttons(area), self.on);
        let ghost buttons = screen::pieces_view(line@);
        let ghost path = screen::pieces_view(location@);
        line.append(&mut location);
        assert(screen::pieces_view(line@) =~= buttons + path);
        Drawn::Line { area, pieces: line }
    }

    fn draw_search_top(&self, drawn: &mut Vec<Drawn>, areas: Areas, tally: Tally)
        requires
            self.wf(),
            self@.source(self@.mode) is Some,
        ensures
            drawn::all_view(final(drawn)@) == drawn::all_view(old(drawn)@) + self@.search_top(
                areas,
                tally,
            ),
    {
        let ghost was = drawn::all_view(drawn@);
        let hints = hints_of_search(self.mode);
        put(
            drawn,
            draw_frame(areas.list, (self.mode, false), self.places, &self.notice, &hints),
        );
        put(drawn, draw_prompt(areas.prompt, &self.query));
        let typed: usize = self.query.unicode_len();
        put(
            drawn,
            Drawn::Cursor {
                x: cap(areas.prompt.x as u128 + 2 + typed as u128),
                y: areas.prompt.y,
            },
        );
        let i: usize = picker::mode_index(self.mode);
        assert(self@.sources[i as int] == picker::maybe(self.sources@[i as int]));
        match &self.sources[i] {
            Some(source) => {
                put(drawn, draw_search_info(areas.info, source, tally, self.frame_count));
            },
            None => {},
        }
        put(drawn, self.draw_search_header(areas.header));
        assert(drawn::all_view(drawn@) =~= was + self@.search_top(areas, tally));
    }

    /// The search screen drawn in those areas, with those rows of its list.
    pub fn draw_search(
        &self,
        areas: Areas,
        tally: Tally,
        rows: &Vec<ShownRow>,
        dir: &Option<FsPath>,
    ) -> (drawn: Vec<Drawn>)
        requires
            self.wf(),
            self@.source(self@.mode) is Some,
        ensures
            drawn::all_view(drawn@) == self@.search_drawn(
                areas,
                tally,
                render::shown_view(rows@),
                picker::maybe(*dir),
            ),
    {
        reveal(PickerView::search_drawn);
        let mut drawn: Vec<Drawn> = Vec::new();
        assert(drawn::all_view(drawn@) =~= Seq::<DrawnView>::empty());
        self.draw_beside(&mut drawn, areas, dir);
        assert(drawn::all_view(drawn@) =~= self@.preview_beside(areas, picker::maybe(*dir)));
        self.draw_search_top(&mut drawn, areas, tally);
        self.draw_search_list(&mut drawn, areas, tally, rows);
        drawn
    }

    fn search_rows_at(&self, areas: Areas, tally: Tally) -> (rows: RowsAt)
        requires
            self.wf(),
            self@.source(self@.mode) is Some,
        ensures
            rows == self@.search_rows_at(areas, tally),
    {
        let i: usize = picker::mode_index(self.mode);
        assert(self@.sources[i as int] == picker::maybe(self.sources@[i as int]));
        match &self.sources[i] {
            Some(source) => if source.scan_error.is_none() && areas.rows.height > 0 && tally.count
                > 0 {
                RowsAt { area: areas.rows, first: source.first, count: tally.count as usize }
            } else {
                RowsAt::none()
            },
            None => RowsAt::none(),
        }
    }

    /// What takes clicks on the search screen drawn in those areas.
    pub fn search_clickable(
        &self,
        areas: Areas,
        tally: Tally,
        dir: &Option<FsPath>,
    ) -> (mouse: Clickable)
        requires
            self.wf(),
            self@.source(self@.mode) is Some,
        ensures
            mouse@ == self@.search_clickable(areas, tally, picker::maybe(*dir)),
    {
        reveal(PickerView::search_clickable);
        let (_, nav) = nav_buttons(areas.header, self.search_ways());
        let (_, crumbs) = search_location(&self.root, after_buttons(areas.header), self.on);
        Clickable {
            places: self.mouse.places,
            rows: self.search_rows_at(areas, tally),
            header: Rect::row(areas.list.x, areas.list.y, areas.list.width),
            nav,
            crumbs,
            modes_x: cap(areas.list.x as u128 + 2),
            paths: self.clicks_beside(areas, dir),
        }
    }

    fn search_dir(&self, world: &World) -> (dir: Option<FsPath>)
        requires
            self.wf(),
            world.wf(),
        ensures
            picker::maybe(dir) == self@.search_dir(world@),
    {
        match self.entry_of(self.mode, world) {
            Some(entry) => {
                let path = entry.output_path(self.mode, self.on);
                if world.disk.is_dir(&path) {
                    Some(path)
                } else {
                    None
                }
            },
            None => None,
        }
    }

    /// The rows of a mode's list that fit in `height`.
    pub(crate) fn rows_in_view(
        &self,
        mode: Mode,
        tally: Tally,
        height: u16,
        query: &str,
        world: &World,
    ) -> (rows: Vec<ShownRow>)
        requires
            self.wf(),
            world.wf(),
            self@.source(mode) is Some,
            query@.len() <= fuzzy::PATTERN_LIMIT,
        ensures
            self@.rows_in_view(mode, tally, height, query@, world@, render::shown_view(rows@)),
    {
        let i: usize = picker::mode_index(mode);
        assert(self@.sources[i as int] == picker::maybe(self.sources@[i as int]));
        match &self.sources[i] {
            Some(source) => {
                let first: u32 = if source.first > u32::MAX as usize {
                    u32::MAX
                } else {
                    source.first as u32
                };
                let to: u32 = if tally.count < first || tally.count - first < height as u32 {
                    tally.count
                } else {
                    first + height as u32
                };
                marked_rows(world, source.id, first, to, query)
            },
            None => Vec::new(),
        }
    }

    fn ready_search(&mut self, tally: Tally, height: u16)
        requires
            old(self).wf(),
        ensures
            final(self).wf(),
            final(self)@ == old(self)@.search_ready(tally, height),
            final(self)@.source(final(self)@.mode) is Some,
            final(self)@.mode == old(self)@.mode,
            final(self)@.query == old(self)@.query,
    {
        self.start(self.mode);
        let scanning = self.is_scanning(self.mode);
        self.spin_on(scanning);
        self.scroll_list(self.mode, tally, height);
    }

    /// The search screen, drawn in `area`. The areas it is drawn in take the
    /// clicks from then on.
    pub fn render_search(&mut self, area: Rect, tally: Tally, world: &World) -> (drawn: Vec<Drawn>)
        requires
            old(self).wf(),
            world.wf(),
            old(self)@.query.len() <= fuzzy::PATTERN_LIMIT,
        ensures
            final(self).wf(),
            old(self)@.search_rendered(
                area,
                tally,
                world@,
                final(self)@,
                drawn::all_view(drawn@),
            ),
    {
        let ghost was = self@;
        let areas = lay_out(area);
        self.ready_search(tally, areas.rows.height);
        let ghost p = self@;
        let rows = self.rows_in_view(self.mode, tally, areas.rows.height, &self.query, world);
        let dir = self.search_dir(world);
        let drawn = self.draw_search(areas, tally, &rows, &dir);
        let mouse = self.search_clickable(areas, tally, &dir);
        self.mouse = mouse;
        assert(self@ == (PickerView {
            mouse: p.search_clickable(areas, tally, picker::maybe(dir)),
            ..p
        }));
        assert(was.search_rendered_in(
            areas,
            tally,
            world@,
            render::shown_view(rows@),
            self@,
            drawn::all_view(drawn@),
        ));
        drawn
    }
}

} // verus!
