//! The list of places that floats over a screen, and the whole screen put
//! together.

use vstd::prelude::*;

use crate::draw::{self, highlight_line, keep_the_end, ListRow, ListRowView, RowMarks};
use crate::drawn::{self, open_panel, put, put_row, Drawn, DrawnView};
use crate::fuzzy;
use crate::mode::Mode;
use crate::picker::{self, ClickableView, Picker, PickerView, RowsAt};
use crate::render::{self, count_of, draw_prompt, draw_rule, ShownRow, ShownRowView, Tally};
use crate::screen::{self, cap, float, split, Cut, Paint, Portion, Rect};
use crate::source::SourceView;
use crate::text::joined;
use crate::width::{self, width_of};
use crate::world::{World, WorldView};

verus! {

/// The narrowest screen a list of places floats over.
pub const MIN_WIDTH_FOR_PLACES: u16 = 44;

/// How wide the list of places is. Nearly the whole width: the rows are paths,
/// and the end of a path is what tells places apart. The screen under it still
/// shows its prompt and where it is, which is all the list needs of it.
pub open spec fn places_width(width: u16) -> u16 {
    let share = width * 9 / 10;
    if share < 40 {
        40
    } else if share > width - 4 {
        (width - 4) as u16
    } else {
        share as u16
    }
}

pub fn width_of_places(width: u16) -> (res: u16)
    requires
        width >= MIN_WIDTH_FOR_PLACES,
    ensures
        res == places_width(width),
{
    let share: u32 = width as u32 * 9 / 10;
    if share < 40 {
        40
    } else if share > width as u32 - 4 {
        width - 4
    } else {
        share as u16
    }
}

/// How tall the list of places is. Tall enough for what there is, up to two
/// fifths of the screen, and never so short that an empty list has no room for
/// its message.
pub open spec fn places_height(height: u16, count: u32) -> u16 {
    let there = (if count == 0 {
        1
    } else {
        count as int
    }) % 65536;
    let most = height * 2 / 5;
    let rows = if there < most {
        there
    } else {
        most
    };
    if rows < 3 {
        7
    } else {
        (rows + 4) as u16
    }
}

pub fn height_of_places(height: u16, count: u32) -> (res: u16)
    ensures
        res == places_height(height, count),
{
    let there: u32 = (if count == 0 {
        1
    } else {
        count
    }) % 65536;
    let most: u32 = height as u32 * 2 / 5;
    let rows: u32 = if there < most {
        there
    } else {
        most
    };
    if rows < 3 {
        7
    } else {
        (rows + 4) as u16
    }
}

pub open spec fn places_title(mode: Mode) -> Seq<char> {
    if mode == Mode::Favorites {
        " Favorites "@
    } else {
        " Recent "@
    }
}

pub open spec fn places_footer(mode: Mode) -> Seq<char> {
    if mode == Mode::Favorites {
        " Enter: cd  Right: go  ^B: unpin  ^N: name  Esc "@
    } else {
        " Enter: cd  Right: go  ^B: pin  Esc "@
    }
}

/// What an empty list says.
pub open spec fn no_places(mode: Mode) -> Seq<char> {
    if mode == Mode::Favorites {
        "No favorites yet. Close this and press Ctrl-B on a folder to pin it."@
    } else {
        "No history yet."@
    }
}

/// The parts of a list of places.
#[derive(Clone, Copy, Debug, PartialEq, Eq, Structural)]
pub struct PlacesAreas {
    pub panel: Rect,
    pub prompt: Rect,
    pub info: Rect,
    pub rows: Rect,
}

/// The panel a list of places floats in.
pub open spec fn places_panel(area: Rect, count: u32) -> Rect {
    screen::floating(area, places_width(area.width), places_height(area.height, count))
}

/// How the inside of the list is cut: prompt, info, rows.
pub open spec fn places_stack() -> Seq<Portion> {
    seq![Portion::Length(1), Portion::Length(1), Portion::Min(0)]
}

/// Whether `parts` are the parts of a list of places over `area`.
pub open spec fn floats_in(parts: PlacesAreas, area: Rect, count: u32) -> bool {
    &&& parts.panel == places_panel(area, count)
    &&& screen::cut_into(
        parts.panel.within(),
        places_stack(),
        Cut::Down,
        seq![parts.prompt, parts.info, parts.rows],
    )
}

pub fn places_portions() -> (portions: Vec<Portion>)
    ensures
        portions@ == places_stack(),
{
    let mut portions: Vec<Portion> = Vec::new();
    portions.push(Portion::Length(1));
    portions.push(Portion::Length(1));
    portions.push(Portion::Min(0));
    assert(portions@ =~= places_stack());
    portions
}

/// The parts of a list of places over `area`.
pub fn lay_places(area: Rect, count: u32) -> (parts: PlacesAreas)
    requires
        area.width >= MIN_WIDTH_FOR_PLACES,
    ensures
        floats_in(parts, area, count),
{
    let panel = float(area, width_of_places(area.width), height_of_places(area.height, count));
    let cut = split(panel.inside(), &places_portions(), Cut::Down);
    assert(cut@ =~= seq![cut@[0], cut@[1], cut@[2]]);
    PlacesAreas { panel, prompt: cut[0], info: cut[1], rows: cut[2] }
}

impl PickerView {
    /// A row of a list of places.
    pub open spec fn place_row(self, row: ShownRowView, selected: u32, width: u16) -> ListRowView {
        let marks = RowMarks {
            icons: self.config.icons,
            favorite: self.pinned.holds(row.entry.path(self.on)),
            inside: false,
        };
        let icon = marks.icon(row.entry.display, true);
        let current = row.row == selected;
        let (shown, hits) = draw::with_end_kept(
            row.entry.display,
            row.hits,
            draw::room_after(width as usize, icon),
        );
        ListRowView {
            pieces: draw::row_pieces(current, icon, shown, hits),
            paint: if current {
                Paint::Current
            } else {
                Paint::Plain
            },
        }
    }

    /// Whether a list of places has something to say instead of rows.
    pub open spec fn nothing_to_list(source: SourceView, tally: Tally) -> bool {
        source.scan_done && tally.total == 0
    }

    /// Whether a list of places has rows to draw.
    pub open spec fn has_places(source: SourceView, tally: Tally, height: u16) -> bool {
        !Self::nothing_to_list(source, tally) && Self::has_rows(source, tally, height)
    }

    /// The rows of a list of places, or why there are none.
    pub open spec fn places_list(
        self,
        mode: Mode,
        area: Rect,
        tally: Tally,
        rows: Seq<ShownRowView>,
    ) -> Seq<DrawnView> {
        let source = self.source(mode)->Some_0;
        match source.scan_error {
            Some(error) => seq![
                DrawnView::Text { area, text: error + "\nF5: retry"@, paint: Paint::Failed },
            ],
            None => if Self::nothing_to_list(source, tally) {
                seq![DrawnView::Text { area, text: no_places(mode), paint: Paint::Plain }]
            } else if area.height == 0 || tally.count == 0 {
                Seq::empty()
            } else {
                seq![
                    DrawnView::Rows {
                        area,
                        rows: rows.map_values(
                            |r: ShownRowView| self.place_row(r, source.selected, area.width),
                        ),
                    },
                ]
            },
        }
    }

    /// A list of places drawn in those areas.
    pub open spec fn places_drawn(
        self,
        mode: Mode,
        parts: PlacesAreas,
        tally: Tally,
        rows: Seq<ShownRowView>,
    ) -> Seq<DrawnView> {
        let counts = " "@ + render::of_total(tally.count as nat, tally.total as nat);
        drawn::panel_opened(parts.panel, places_title(mode), places_footer(mode)) + seq![
            render::prompt_line(parts.prompt, self.places_query),
            DrawnView::Cursor {
                x: screen::capped(parts.prompt.x + 2 + self.places_query.len()) as u16,
                y: parts.prompt.y,
            },
            render::ruled(parts.info, counts, width::text_width(counts) as int),
        ] + self.places_list(mode, parts.rows, tally, rows)
    }

    /// Where the rows of a list of places are clicked.
    pub open spec fn places_rows_at(self, mode: Mode, area: Rect, tally: Tally) -> RowsAt {
        let source = self.source(mode)->Some_0;
        if Self::has_places(source, tally, area.height) {
            RowsAt { area, first: source.first, count: tally.count as usize }
        } else {
            RowsAt { area, first: 0, count: 0 }
        }
    }

    /// This as a list of places is drawn: started, and scrolled so that the
    /// selection is in view.
    pub open spec fn places_ready(self, mode: Mode, tally: Tally, height: u16) -> PickerView {
        let p = self.started(mode);
        if Self::nothing_to_list(p.source(mode)->Some_0, tally) {
            p
        } else {
            p.list_scrolled(mode, tally, height)
        }
    }

    /// Whether drawing a list of places in those areas, with those rows, gives
    /// that.
    pub open spec fn places_rendered_in(
        self,
        mode: Mode,
        parts: PlacesAreas,
        tally: Tally,
        world: WorldView,
        rows: Seq<ShownRowView>,
        after: PickerView,
        drawn: Seq<DrawnView>,
    ) -> bool {
        let p = self.places_ready(mode, tally, parts.rows.height);
        &&& p.rows_in_view(mode, tally, parts.rows.height, p.places_query, world, rows)
        &&& drawn == p.places_drawn(mode, parts, tally, rows)
        &&& after == (PickerView {
            mouse: ClickableView {
                places: p.places_rows_at(mode, parts.rows, tally),
                ..p.mouse
            },
            ..p
        })
    }

    /// Whether drawing a list of places over `area` may give that.
    pub open spec fn places_rendered(
        self,
        mode: Mode,
        area: Rect,
        tally: Tally,
        world: WorldView,
        after: PickerView,
        drawn: Seq<DrawnView>,
    ) -> bool {
        exists|parts: PlacesAreas, rows: Seq<ShownRowView>|
            floats_in(parts, area, tally.count) && #[trigger] self.places_rendered_in(
                mode,
                parts,
                tally,
                world,
                rows,
                after,
                drawn,
            )
    }
}

impl Picker {
    fn place_row(&self, row: &ShownRow, selected: u32, width: u16) -> (res: ListRow)
        ensures
            res@ == self@.place_row(row@, selected, width),
    {
        let marks = RowMarks {
            icons: self.config.icons,
            favorite: self.pinned.contains(&row.entry.path(self.on)),
            inside: false,
        };
        let icon = marks.prefix(row.entry.shown(), true);
        let taken: u128 = 2 + width_of(icon) as u128;
        let room: usize = if taken < width as u128 {
            (width as u128 - taken) as usize
        } else {
            0
        };
        assert(room == draw::room_after(width as usize, icon@));
        let (shown, hits) = keep_the_end(row.entry.shown(), &row.hits, room);
        let current = row.row == selected;
        ListRow {
            pieces: highlight_line(current, icon, &shown, &hits),
            paint: if current {
                Paint::Current
            } else {
                Paint::Plain
            },
        }
    }

    fn place_rows(&self, rows: &Vec<ShownRow>, selected: u32, width: u16) -> (res: Vec<ListRow>)
        ensures
            draw::rows_view(res@) == render::shown_view(rows@).map_values(
                |r: ShownRowView| self@.place_row(r, selected, width),
            ),
    {
        let mut res: Vec<ListRow> = Vec::new();
        let mut i: usize = 0;
        while i < rows.len()
            invariant
                i <= rows@.len(),
                draw::rows_view(res@).len() == i,
                forall|k: int|
                    0 <= k < i ==> draw::rows_view(res@)[k] == self@.place_row(
                        rows@[k]@,
                        selected,
                        width,
                    ),
            decreases rows@.len() - i,
        {
            let row = self.place_row(&rows[i], selected, width);
            put_row(&mut res, row);
            i += 1;
        }
        assert(draw::rows_view(res@) =~= render::shown_view(rows@).map_values(
            |r: ShownRowView| self@.place_row(r, selected, width),
        ));
        res
    }

    fn draw_places_list(
        &self,
        drawn: &mut Vec<Drawn>,
        mode: Mode,
        area: Rect,
        tally: Tally,
        rows: &Vec<ShownRow>,
    )
        requires
            self.wf(),
            self@.source(mode) is Some,
        ensures
            drawn::all_view(final(drawn)@) == drawn::all_view(old(drawn)@) + self@.places_list(
                mode,
                area,
                tally,
                render::shown_view(rows@),
            ),
    {
        let ghost was = drawn::all_view(drawn@);
        let i: usize = picker::mode_index(mode);
        assert(self@.sources[i as int] == picker::maybe(self.sources@[i as int]));
        match &self.sources[i] {
            Some(source) => {
                match &source.scan_error {
                    Some(error) => {
                        put(
                            drawn,
                            Drawn::Text {
                                area,
                                text: joined(error, "\nF5: retry"),
                                paint: Paint::Failed,
                            },
                        );
                    },
                    None => {
                        if source.scan_done && tally.total == 0 {
                            let said = if mode == Mode::Favorites {
                                "No favorites yet. Close this and press Ctrl-B on a folder to pin it."
                            } else {
                                "No history yet."
                            };
                            put(
                                drawn,
                                Drawn::Text { area, text: said.to_owned(), paint: Paint::Plain },
                            );
                        } else if area.height > 0 && tally.count > 0 {
                            let listed = self.place_rows(rows, source.selected, area.width);
                            put(drawn, Drawn::Rows { area, rows: listed });
                        }
                    },
                }
            },
            None => {},
        }
        assert(drawn::all_view(drawn@) =~= was + self@.places_list(
            mode,
            area,
            tally,
            render::shown_view(rows@),
        ));
    }

    /// A list of places drawn in those areas, with those rows.
    pub fn draw_places(
        &self,
        mode: Mode,
        parts: PlacesAreas,
        tally: Tally,
        rows: &Vec<ShownRow>,
    ) -> (drawn: Vec<Drawn>)
        requires
            self.wf(),
            self@.source(mode) is Some,
        ensures
            drawn::all_view(drawn@) == self@.places_drawn(
                mode,
                parts,
                tally,
                render::shown_view(rows@),
            ),
    {
        let (title, footer) = if mode == Mode::Favorites {
            (" Favorites ", " Enter: cd  Right: go  ^B: unpin  ^N: name  Esc ")
        } else {
            (" Recent ", " Enter: cd  Right: go  ^B: pin  Esc ")
        };
        let mut drawn = open_panel(parts.panel, title, footer);
        let ghost opened = drawn::all_view(drawn@);
        put(&mut drawn, draw_prompt(parts.prompt, &self.places_query));
        let typed: usize = self.places_query.unicode_len();
        put(
            &mut drawn,
            Drawn::Cursor {
                x: cap(parts.prompt.x as u128 + 2 + typed as u128),
                y: parts.prompt.y,
            },
        );
        let counts = joined(" ", &count_of(tally.count as u64, tally.total as u64));
        put(&mut drawn, draw_rule(parts.info, &counts, width_of(&counts)));
        assert(drawn::all_view(drawn@) =~= opened + seq![
            render::prompt_line(parts.prompt, self@.places_query),
            DrawnView::Cursor {
                x: screen::capped(parts.prompt.x + 2 + self@.places_query.len()) as u16,
                y: parts.prompt.y,
            },
            render::ruled(parts.info, counts@, width::text_width(counts@) as int),
        ]);
        self.draw_places_list(&mut drawn, mode, parts.rows, tally, rows);
        drawn
    }

    fn places_rows_at(&self, mode: Mode, area: Rect, tally: Tally) -> (rows: RowsAt)
        requires
            self.wf(),
            self@.source(mode) is Some,
        ensures
            rows == self@.places_rows_at(mode, area, tally),
    {
        let i: usize = picker::mode_index(mode);
        assert(self@.sources[i as int] == picker::maybe(self.sources@[i as int]));
        match &self.sources[i] {
            Some(source) => if !(source.scan_done && tally.total == 0)
                && source.scan_error.is_none() && area.height > 0 && tally.count > 0 {
                RowsAt { area, first: source.first, count: tally.count as usize }
            } else {
                RowsAt { area, first: 0, count: 0 }
            },
            None => RowsAt { area, first: 0, count: 0 },
        }
    }

    fn ready_places(&mut self, mode: Mode, tally: Tally, height: u16)
        requires
            old(self).wf(),
        ensures
            final(self).wf(),
            final(self)@ == old(self)@.places_ready(mode, tally, height),
            final(self)@.source(mode) is Some,
    {
        self.start(mode);
        let done = !self.is_scanning(mode);
        if !(done && tally.total == 0) {
            self.scroll_list(mode, tally, height);
        }
    }

    /// The list of recent places or favorites, floating at the bottom right as
    /// the other panels do, with a prompt of its own. Its rows take the clicks
    /// from then on.
    pub fn render_places(&mut self, mode: Mode, area: Rect, tally: Tally, world: &World) -> (drawn:
        Vec<Drawn>)
        requires
            old(self).wf(),
            world.wf(),
            area.width >= MIN_WIDTH_FOR_PLACES,
            old(self)@.places_query.len() <= fuzzy::PATTERN_LIMIT,
        ensures
            final(self).wf(),
            old(self)@.places_rendered(
                mode,
                area,
                tally,
                world@,
                final(self)@,
                drawn::all_view(drawn@),
            ),
    {
        let ghost was = self@;
        let parts = lay_places(area, tally.count);
        self.ready_places(mode, tally, parts.rows.height);
        let rows = self.rows_in_view(mode, tally, parts.rows.height, &self.places_query, world);
        let drawn = self.draw_places(mode, parts, tally, &rows);
        let listed = self.places_rows_at(mode, parts.rows, tally);
        self.mouse.places = listed;
        assert(was.places_rendered_in(
            mode,
            parts,
            tally,
            world@,
            render::shown_view(rows@),
            self@,
            drawn::all_view(drawn@),
        ));
        drawn
    }
}

} // verus!
