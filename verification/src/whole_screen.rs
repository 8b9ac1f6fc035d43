//! The whole screen: what is browsed or searched, and what floats over it.

use vstd::prelude::*;

use crate::browse_screen::{self, Columns};
use crate::draw::{self, fit};
use crate::drawn::{self, put, Drawn, DrawnView};
use crate::fs_path::Platform;
use crate::fuzzy;
use crate::key_menu::KeyMenuView;
use crate::mode::Mode;
use crate::picker::{Naming, NamingView, Picker, PickerView};
use crate::places_screen::MIN_WIDTH_FOR_PLACES;
use crate::render::{self, Areas, ShownRowView, Tally};
use crate::screen::{self, add_piece, cap, Paint, Piece, Rect};
use crate::text::joined;
use crate::width::{self, width_of};
use crate::world::{World, WorldView};

verus! {

/// How much there is in each of the lists a screen may show.
#[derive(Clone, Copy, Debug, PartialEq, Eq, Structural)]
pub struct Tallies {
    /// In the list of the mode shown.
    pub list: Tally,
    /// In the list of places.
    pub places: Tally,
    /// In the search of the tree.
    pub tree: Tally,
}

/// A part of the screen drawn: the picker after it, and what was drawn.
pub struct Stage {
    pub after: PickerView,
    pub drawn: Seq<DrawnView>,
}

/// The row a name is typed on: over the bottom border, where the key hints
/// were, so the list and the folder being named stay in view.
pub open spec fn naming_row(area: Rect) -> Rect {
    Rect::one_row(
        area.x,
        screen::capped(
            area.y + (if area.height == 0 {
                0
            } else {
                area.height - 1
            }),
        ) as u16,
        area.width,
    )
}

/// What is asked: the folder's own name, since the end of a path is what tells
/// folders apart and the row has no room for all of it.
pub open spec fn naming_lead(area: Rect, naming: NamingView, on: Platform) -> Seq<char> {
    let shown = match naming.path.file_name() {
        Some(name) => name,
        None => naming.path.text(on),
    };
    " Name "@ + draw::fitted(shown, (area.width / 3) as usize) + " as :"@
}

/// The line a name is typed on.
pub open spec fn naming_drawn(area: Rect, naming: NamingView, on: Platform) -> Seq<DrawnView> {
    let row = naming_row(area);
    let lead = naming_lead(area, naming, on);
    let x = (width::text_width(lead) + width::text_width(naming.name)) % 65536;
    seq![
        DrawnView::Clear(row),
        DrawnView::Line {
            area: row,
            pieces: seq![
                screen::piece(lead, Paint::Header),
                screen::piece(naming.name, Paint::Prompt),
                screen::piece("  Enter: save  Esc: cancel "@, Paint::Info),
            ],
        },
    ] + (if x < area.width {
        seq![DrawnView::Cursor { x: screen::capped(row.x + x) as u16, y: row.y }]
    } else {
        Seq::empty()
    })
}

fn lead_of(area: Rect, naming: &Naming, on: Platform) -> (lead: String)
    ensures
        lead@ == naming_lead(area, naming@, on),
{
    let shown = match naming.path.file_name() {
        Some(name) => name,
        None => naming.path.text(on),
    };
    joined(&joined(" Name ", &fit(&shown, (area.width / 3) as usize)), " as :")
}

/// The line a name is typed on.
pub fn draw_naming(area: Rect, naming: &Naming, on: Platform) -> (drawn: Vec<Drawn>)
    ensures
        drawn::all_view(drawn@) == naming_drawn(area, naming@, on),
{
    let row = Rect::row(
        area.x,
        cap(
            area.y as u128 + if area.height == 0 {
                0
            } else {
                area.height as u128 - 1
            },
        ),
        area.width,
    );
    let lead = lead_of(area, naming, on);
    let mut pieces: Vec<Piece> = Vec::new();
    add_piece(&mut pieces, &lead, Paint::Header);
    add_piece(&mut pieces, &naming.name, Paint::Prompt);
    add_piece(&mut pieces, "  Enter: save  Esc: cancel ", Paint::Info);
    assert(screen::pieces_view(pieces@) =~= seq![
        screen::piece(lead@, Paint::Header),
        screen::piece(naming.name@, Paint::Prompt),
        screen::piece("  Enter: save  Esc: cancel "@, Paint::Info),
    ]);
    let x: u128 = (width_of(&lead) as u128 + width_of(&naming.name) as u128) % 65536;
    let mut drawn: Vec<Drawn> = Vec::new();
    put(&mut drawn, Drawn::Clear(row));
    put(&mut drawn, Drawn::Line { area: row, pieces });
    if x < area.width as u128 {
        put(&mut drawn, Drawn::Cursor { x: cap(row.x as u128 + x), y: row.y });
    }
    assert(drawn::all_view(drawn@) =~= naming_drawn(area, naming@, on));
    drawn
}

/// Adds what was drawn to what was drawn before it.
fn add_all(drawn: &mut Vec<Drawn>, more: Vec<Drawn>)
    ensures
        drawn::all_view(final(drawn)@) == drawn::all_view(old(drawn)@) + drawn::all_view(more@),
{
    let ghost was = drawn::all_view(drawn@);
    let mut more = more;
    let ghost added = drawn::all_view(more@);
    drawn.append(&mut more);
    assert(drawn::all_view(drawn@) =~= was + added);
}

impl PickerView {
    /// Whether what is typed fits what the matcher takes.
    pub open spec fn drawable(self, area: Rect) -> bool {
        &&& self.query.len() <= fuzzy::PATTERN_LIMIT
        &&& self.places_query.len() <= fuzzy::PATTERN_LIMIT
        &&& self.places is Some ==> area.width >= MIN_WIDTH_FOR_PLACES
    }

    /// Whether drawing the screen under the panels may give that.
    pub open spec fn screen_rendered(
        self,
        area: Rect,
        tallies: Tallies,
        world: WorldView,
        s: Stage,
    ) -> bool {
        if self.in_tree() {
            self.tree_rendered(area, tallies.tree, world, s.after, s.drawn)
        } else if self.mode == Mode::Browse {
            self.browse_rendered(area, world, s.after, s.drawn)
        } else {
            self.search_rendered(area, tallies.list, world, s.after, s.drawn)
        }
    }

    /// Whether drawing the list of places, if one is open, may give that.
    pub open spec fn list_rendered(
        self,
        area: Rect,
        tallies: Tallies,
        world: WorldView,
        s: Stage,
    ) -> bool {
        match self.places {
            Some(mode) => self.places_rendered(
                mode,
                area,
                tallies.places,
                world,
                s.after,
                s.drawn,
            ),
            None => s.after == self && s.drawn.len() == 0,
        }
    }

    /// Whether drawing the actions, if they are open, may give that.
    pub open spec fn menu_rendered(self, area: Rect, s: Stage) -> bool {
        match self.menu {
            Some(menu) => {
                &&& s.after.menu is Some
                &&& s.after == (PickerView { menu: s.after.menu, ..self })
                &&& menu.drawn_somehow(area, self.on, s.after.menu->Some_0, s.drawn)
            },
            None => s.after == self && s.drawn.len() == 0,
        }
    }

    /// Whether drawing the keys, if they are open, may give that.
    pub open spec fn keys_rendered(self, area: Rect, s: Stage) -> bool {
        match self.keys {
            Some(keys) => {
                let panel = keys.panel(area);
                let shown = KeyMenuView {
                    mouse_panel: panel,
                    mouse_rows: s.after.keys->Some_0.mouse_rows,
                    ..keys
                };
                &&& exists|rest: Rect| #[trigger] keys.rows_lie(area, shown.mouse_rows, rest)
                &&& s.after == (PickerView { keys: Some(shown), ..self })
                &&& s.drawn == shown.drawn(panel, shown.mouse_rows)
            },
            None => s.after == self && s.drawn.len() == 0,
        }
    }

    /// The line a name is typed on, while one is.
    pub open spec fn naming_shown(self, area: Rect) -> Seq<DrawnView> {
        match self.naming {
            Some(naming) => naming_drawn(area, naming, self.on),
            None => Seq::empty(),
        }
    }

    /// Whether drawing everything, by way of those parts, gives that.
    pub open spec fn rendered_by(
        self,
        area: Rect,
        tallies: Tallies,
        world: WorldView,
        under: Stage,
        list: Stage,
        menu: Stage,
        keys: Stage,
        drawn: Seq<DrawnView>,
    ) -> bool {
        &&& self.screen_rendered(area, tallies, world, under)
        &&& under.after.list_rendered(area, tallies, world, list)
        &&& list.after.menu_rendered(area, menu)
        &&& menu.after.keys_rendered(area, keys)
        &&& drawn == under.drawn + list.drawn + menu.drawn + keys.drawn + keys.after.naming_shown(
            area,
        )
    }

    /// Whether drawing everything in `area` may give that.
    pub open spec fn rendered(
        self,
        area: Rect,
        tallies: Tallies,
        world: WorldView,
        after: PickerView,
        drawn: Seq<DrawnView>,
    ) -> bool {
        exists|under: Stage, list: Stage, menu: Stage, keys: Stage|
            #[trigger] self.rendered_by(area, tallies, world, under, list, menu, keys, drawn)
                && keys.after == after
    }
}

impl Picker {
    /// What is browsed or searched, drawn in `area`.
    pub fn render_screen(&mut self, area: Rect, tallies: Tallies, world: &World) -> (drawn: Vec<
        Drawn,
    >)
        requires
            old(self).wf(),
            world.wf(),
            old(self)@.query.len() <= fuzzy::PATTERN_LIMIT,
        ensures
            final(self).wf(),
            old(self)@.screen_rendered(
                area,
                tallies,
                world@,
                (Stage { after: final(self)@, drawn: drawn::all_view(drawn@) }),
            ),
    {
        if self.in_tree() {
            self.render_tree(area, tallies.tree, world)
        } else if self.mode == Mode::Browse {
            self.render_browse(area, world)
        } else {
            self.render_search(area, tallies.list, world)
        }
    }

    fn render_list(&mut self, area: Rect, tallies: Tallies, world: &World) -> (drawn: Vec<Drawn>)
        requires
            old(self).wf(),
            world.wf(),
            old(self)@.drawable(area),
        ensures
            final(self).wf(),
            old(self)@.list_rendered(
                area,
                tallies,
                world@,
                (Stage { after: final(self)@, drawn: drawn::all_view(drawn@) }),
            ),
    {
        match self.places {
            Some(mode) => self.render_places(mode, area, tallies.places, world),
            None => Vec::new(),
        }
    }

    fn render_menu(&mut self, area: Rect) -> (drawn: Vec<Drawn>)
        requires
            old(self).wf(),
        ensures
            final(self).wf(),
            old(self)@.menu_rendered(
                area,
                (Stage { after: final(self)@, drawn: drawn::all_view(drawn@) }),
            ),
    {
        let on = self.on;
        match &mut self.menu {
            Some(menu) => menu.render(area, on),
            None => Vec::new(),
        }
    }

    fn render_keys(&mut self, area: Rect) -> (drawn: Vec<Drawn>)
        requires
            old(self).wf(),
        ensures
            final(self).wf(),
            old(self)@.keys_rendered(
                area,
                (Stage { after: final(self)@, drawn: drawn::all_view(drawn@) }),
            ),
    {
        match &mut self.keys {
            Some(keys) => keys.render(area),
            None => Vec::new(),
        }
    }

    /// Everything on the screen, drawn in `area`.
    pub fn render(&mut self, area: Rect, tallies: Tallies, world: &World) -> (drawn: Vec<Drawn>)
        requires
            old(self).wf(),
            world.wf(),
            old(self)@.drawable(area),
        ensures
            final(self).wf(),
            old(self)@.rendered(area, tallies, world@, final(self)@, drawn::all_view(drawn@)),
    {
        let ghost was = self@;
        let mut drawn = self.render_screen(area, tallies, world);
        let ghost under = Stage { after: self@, drawn: drawn::all_view(drawn@) };
        proof {
            was.drawing_disturbs_nothing(area, tallies, world@, under);
        }
        let more = self.render_list(area, tallies, world);
        let ghost list = Stage { after: self@, drawn: drawn::all_view(more@) };
        add_all(&mut drawn, more);
        let more = self.render_menu(area);
        let ghost menu = Stage { after: self@, drawn: drawn::all_view(more@) };
        add_all(&mut drawn, more);
        let more = self.render_keys(area);
        let ghost keys = Stage { after: self@, drawn: drawn::all_view(more@) };
        add_all(&mut drawn, more);
        let ghost shown = drawn::all_view(drawn@);
        match &self.naming {
            Some(naming) => {
                add_all(&mut drawn, draw_naming(area, naming, self.on));
            },
            None => {},
        }
        assert(drawn::all_view(drawn@) =~= shown + self@.naming_shown(area));
        assert(was.rendered_by(
            area,
            tallies,
            world@,
            under,
            list,
            menu,
            keys,
            drawn::all_view(drawn@),
        ));
        drawn
    }
}

impl PickerView {
    /// Whether nothing has changed of what is typed, what is open over the
    /// screen, or where the picker is.
    pub open spec fn undisturbed(self, after: PickerView) -> bool {
        &&& after.query == self.query
        &&& after.places_query == self.places_query
        &&& after.places == self.places
        &&& after.mode == self.mode
        &&& after.search_mode == self.search_mode
        &&& after.root == self.root
        &&& after.menu == self.menu
        &&& after.keys == self.keys
        &&& after.naming == self.naming
        &&& after.notice == self.notice
    }

    proof fn search_disturbs_nothing(
        self,
        area: Rect,
        tally: Tally,
        world: WorldView,
        after: PickerView,
        drawn: Seq<DrawnView>,
    )
        requires
            self.search_rendered(area, tally, world, after, drawn),
        ensures
            self.undisturbed(after),
    {
        let (areas, rows) = choose|areas: Areas, rows: Seq<ShownRowView>|
            render::laid_out(areas, area) && #[trigger] self.search_rendered_in(
                areas,
                tally,
                world,
                rows,
                after,
                drawn,
            );
        let p = self.search_ready(tally, areas.rows.height);
        assert(self.undisturbed(self.started(self.mode)));
        assert(self.undisturbed(p));
    }

    proof fn browse_disturbs_nothing(
        self,
        area: Rect,
        world: WorldView,
        after: PickerView,
        drawn: Seq<DrawnView>,
    )
        requires
            self.browse_rendered(area, world, after, drawn),
        ensures
            self.undisturbed(after),
    {
        let columns = choose|columns: Columns|
            browse_screen::in_columns(columns, area) && #[trigger] self.browse_rendered_in(
                columns,
                world,
                after,
                drawn,
            );
        assert(self.undisturbed(self.browse_ready(world, columns.current.height)));
    }

    proof fn tree_disturbs_nothing(
        self,
        area: Rect,
        tally: Tally,
        world: WorldView,
        after: PickerView,
        drawn: Seq<DrawnView>,
    )
        requires
            self.tree_rendered(area, tally, world, after, drawn),
        ensures
            self.undisturbed(after),
    {
        let areas = choose|areas: Areas|
            render::laid_out(areas, area) && #[trigger] self.tree_rendered_in(
                areas,
                tally,
                world,
                after,
                drawn,
            );
        let p = self.tree_begun(world, areas.preview is Some);
        assert(self.undisturbed(p));
        let q = p.with_tree(world.disk);
        assert(self.undisturbed(q));
        assert(self.undisturbed(p.tree_ready(world, areas.rows.height)));
    }

    /// Drawing a screen changes nothing of what is typed, what is open over it
    /// or where the picker is: only what is scrolled, what takes clicks, and
    /// what was not there yet.
    pub proof fn drawing_disturbs_nothing(
        self,
        area: Rect,
        tallies: Tallies,
        world: WorldView,
        s: Stage,
    )
        requires
            self.screen_rendered(area, tallies, world, s),
        ensures
            self.undisturbed(s.after),
    {
        if self.in_tree() {
            self.tree_disturbs_nothing(area, tallies.tree, world, s.after, s.drawn);
        } else if self.mode == Mode::Browse {
            self.browse_disturbs_nothing(area, world, s.after, s.drawn);
        } else {
            self.search_disturbs_nothing(area, tallies.list, world, s.after, s.drawn);
        }
    }
}

} // verus!
