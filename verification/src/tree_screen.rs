//! Browse as a tree.

use vstd::prelude::*;

use crate::browse_screen::{self, browse_location, cursor_at, path_areas, rows_fitting, ways_of};
use crate::draw::{
    self, fit, match_spans, pointer_piece, scroll_window, ListRow, ListRowView, RowMarks,
};
use crate::drawn::{self, put, put_row, Drawn, DrawnView};
use crate::fs_path::{FsPath, PathView};
use crate::header::{self, nav_buttons};
use crate::icons;
use crate::marks;
use crate::mode::Mode;
use crate::picker::{self, Clickable, ClickableView, Picker, PickerView, RowsAt};
use crate::render::{self, draw_frame, draw_prompt, draw_rule, lay_out, spinner, Areas, Tally};
use crate::screen::{self, add_piece, cap, Paint, Piece, Rect};
use crate::text::{self, joined, number};
use crate::tree::{self, Node, NodeView, Tree, TreeView};
use crate::width::{self, width_of};
use crate::world::{World, WorldView};

verus! {

/// The key hints of the tree.
pub open spec fn tree_hints(search: Mode) -> Seq<Seq<char>> {
    seq![
        "Tab: "@ + search.name(),
        "S-Tab: browse"@,
        "^Space: keys"@,
        "Enter: cd"@,
        "Right: open"@,
        "Left: close"@,
        "Ctrl/Alt-Left/Right: history"@,
        "^P: actions"@,
        "^B: pin"@,
    ]
}

fn hints_of_tree(search: Mode) -> (hints: Vec<String>)
    ensures
        text::views(hints@) == tree_hints(search),
{
    let mut hints: Vec<String> = Vec::new();
    hints.push(joined("Tab: ", search.label()));
    hints.push("S-Tab: browse".to_owned());
    hints.push("^Space: keys".to_owned());
    hints.push("Enter: cd".to_owned());
    hints.push("Right: open".to_owned());
    hints.push("Left: close".to_owned());
    hints.push("Ctrl/Alt-Left/Right: history".to_owned());
    hints.push("^P: actions".to_owned());
    hints.push("^B: pin".to_owned());
    assert(text::views(hints@) =~= tree_hints(search));
    hints
}

/// How many rows are shown for themselves, and not only because a match sits in
/// them.
pub open spec fn bright(nodes: Seq<NodeView>) -> nat
    decreases nodes.len(),
{
    if nodes.len() == 0 {
        0
    } else {
        bright(nodes.drop_last()) + (if nodes.last().dim {
            0nat
        } else {
            1nat
        })
    }
}

/// How many matches a tree of them shows: the bright rows below its root.
pub open spec fn matches_in(nodes: Seq<NodeView>) -> nat {
    if bright(nodes) == 0 {
        0
    } else {
        (bright(nodes) - 1) as nat
    }
}

fn count_matches(nodes: &Vec<Node>) -> (count: usize)
    ensures
        count == matches_in(tree::nodes_view(nodes@)),
{
    let ghost all = tree::nodes_view(nodes@);
    let mut count: usize = 0;
    let mut i: usize = 0;
    assert(all.take(0) =~= Seq::<NodeView>::empty());
    while i < nodes.len()
        invariant
            i <= nodes@.len(),
            all == tree::nodes_view(nodes@),
            count <= i,
            count == bright(all.take(i as int)),
        decreases nodes@.len() - i,
    {
        assert(all.take(i + 1).drop_last() =~= all.take(i as int));
        assert(all[i as int] == nodes@[i as int]@);
        if !nodes[i].dim {
            count += 1;
        }
        i += 1;
    }
    assert(all.take(i as int) =~= all);
    if count == 0 {
        0
    } else {
        count - 1
    }
}

/// How many matched, and how many of them are shown.
pub open spec fn matched_label(
    tally: Tally,
    shown: nat,
    done: bool,
    truncated: bool,
    frame: u32,
) -> Seq<char> {
    seq![
        if done {
            ' '
        } else {
            render::spin(frame)
        },
    ] + " "@ + text::decimal(tally.count as nat) + "/"@ + text::decimal(tally.total as nat)
        + " matched"@ + (if tally.count > shown {
        ", best "@ + text::decimal(shown) + " shown"@
    } else {
        ""@
    }) + (if truncated {
        ", stopped at scan_limit"@
    } else {
        ""@
    }) + " "@
}

fn label_matched(tally: Tally, shown: usize, done: bool, truncated: bool, frame: u32) -> (label:
    String)
    ensures
        label@ == matched_label(tally, shown as nat, done, truncated, frame),
{
    let mut label = String::new();
    label.push(
        if done {
            ' '
        } else {
            spinner(frame)
        },
    );
    assert(label@ =~= seq![
        if done {
            ' '
        } else {
            render::spin(frame)
        },
    ]);
    label.push_str(" ");
    label.push_str(&number(tally.count as u64));
    label.push_str("/");
    label.push_str(&number(tally.total as u64));
    label.push_str(" matched");
    let best = if tally.count as u64 > shown as u64 {
        joined(&joined(", best ", &number(shown as u64)), " shown")
    } else {
        "".to_owned()
    };
    label.push_str(&best);
    label.push_str(
        if truncated {
            ", stopped at scan_limit"
        } else {
            ""
        },
    );
    label.push_str(" ");
    label
}

/// How a row of the tree looks. Folders shown only because a match sits in them
/// are dimmed, so the matches themselves stand out.
pub open spec fn node_paint(node: NodeView, current: bool) -> Paint {
    if current {
        Paint::Current
    } else if node.depth == 0 {
        Paint::HerePath
    } else if node.dim {
        Paint::SideDir
    } else if node.is_dir {
        Paint::Dir
    } else {
        Paint::Plain
    }
}

fn paint_of(node: &Node, current: bool) -> (paint: Paint)
    ensures
        paint == node_paint(node@, current),
{
    if current {
        Paint::Current
    } else if node.depth == 0 {
        Paint::HerePath
    } else if node.dim {
        Paint::SideDir
    } else if node.is_dir {
        Paint::Dir
    } else {
        Paint::Plain
    }
}

/// How many columns are left for a label after the pointer, the guide and the
/// icon.
pub open spec fn label_room(width: u16, guide: Seq<char>, icon: Seq<char>) -> usize {
    let taken = 2 + width::text_width(guide) + width::text_width(icon);
    if taken < width {
        (width - taken) as usize
    } else {
        0
    }
}

fn room_for_label(width: u16, guide: &str, icon: &str) -> (room: usize)
    ensures
        room == label_room(width, guide@, icon@),
{
    let taken: u128 = 2 + width_of(guide) as u128 + width_of(icon) as u128;
    if taken < width as u128 {
        (width as u128 - taken) as usize
    } else {
        0
    }
}

impl PickerView {
    /// What the tree says above its rows: how its search goes, if it has one.
    /// Where the scan was refused, as on a network drive, the folders can still
    /// be opened one at a time.
    pub open spec fn tree_label(self, tally: Tally) -> Seq<char> {
        match self.tree_search {
            Some(source) => match source.scan_error {
                Some(error) => " Not searched: "@ + error
                    + " Right opens folders one at a time. "@,
                None => match self.found {
                    Some(found) => matched_label(
                        tally,
                        matches_in(found.nodes),
                        source.scan_done,
                        source.truncated,
                        self.frame_count,
                    ),
                    None => " tree "@,
                },
            },
            None => " tree "@,
        }
    }

    /// Whether the tree's search is still being fed.
    pub open spec fn tree_scanning(self) -> bool {
        match self.tree_search {
            Some(source) => self.found is Some && source.scan_error is None && !source.scan_done,
            None => false,
        }
    }

    /// A row of the tree.
    pub open spec fn tree_row(self, node: NodeView, current: bool, width: u16) -> ListRowView {
        let marks = RowMarks {
            icons: self.config.icons,
            favorite: node.is_dir && self.pinned.holds(node.path),
            inside: node.open,
        };
        let icon = marks.icon(node.label, node.is_dir);
        let label = draw::fitted(node.label, label_room(width, node.guide, icon));
        ListRowView {
            pieces: seq![
                draw::pointer(current),
                screen::piece(node.guide, Paint::Border),
                screen::piece(icon, Paint::Icon(icons::meant(icon))),
            ] + draw::runs(label, marks::marks_of(self.found_marks, node.path), label.len()),
            paint: node_paint(node, current),
        }
    }

    /// The rows of the tree.
    pub open spec fn tree_rows_shown(self, t: TreeView, area: Rect) -> Seq<ListRowView> {
        Seq::new(
            browse_screen::in_view(t.first, t.nodes.len(), area.height),
            |k: int| self.tree_row(t.nodes[t.first + k], t.first + k == t.selected, area.width),
        )
    }

    /// The tree's screen above its rows.
    pub open spec fn tree_top(self, areas: Areas, tally: Tally, dir: Option<PathView>) -> Seq<
        DrawnView,
    > {
        let b = self.browser->Some_0;
        let label = self.tree_label(tally);
        self.preview_beside(areas, dir) + seq![
            render::framed(
                areas.list,
                (Mode::Browse, true),
                self.places,
                self.notice,
                tree_hints(self.search_mode),
            ),
            DrawnView::Line {
                area: areas.header,
                pieces: browse_screen::location(b, self.pinned.holds(b.cwd)),
            },
            render::prompt_line(areas.prompt, self.tree_query),
        ] + (if areas.prompt.width > 2 {
            seq![browse_screen::cursor_in(areas.prompt, self.tree_query)]
        } else {
            Seq::empty()
        }) + seq![render::ruled(areas.info, label, width::text_width(label) as int)]
    }

    /// What takes clicks on the tree's screen.
    pub open spec fn tree_clickable(self, areas: Areas, paths: Seq<header::TargetView>) -> ClickableView {
        let b = self.browser->Some_0;
        let t = self.shown_tree();
        ClickableView {
            places: self.mouse.places,
            rows: RowsAt { area: areas.rows, first: t.first, count: t.nodes.len() as usize },
            header: Rect::one_row(areas.list.x, areas.list.y, areas.list.width),
            nav: header::nav_targets(areas.header, browse_screen::browse_ways(b)),
            crumbs: browse_screen::location_crumbs(b, self.pinned.holds(b.cwd), areas.header),
            modes_x: screen::capped(areas.list.x + 2) as u16,
            paths,
        }
    }

    /// This as the part above the tree is drawn. A preview needs the tree, to
    /// know what it shows; without one the tree is only built for its rows.
    pub open spec fn tree_begun(self, world: WorldView, preview: bool) -> PickerView {
        let p = (if preview {
            self.with_shown(world.disk)
        } else {
            self
        }).with_browser(world.disk);
        p.spun(p.tree_scanning())
    }

    /// The folder the preview shows.
    pub open spec fn tree_dir(self, world: WorldView, preview: bool) -> Option<PathView> {
        if preview {
            match self.shown_tree().selected_path() {
                Some(path) => if world.disk.is_dir(path) {
                    Some(path)
                } else {
                    None
                },
                None => None,
            }
        } else {
            None
        }
    }

    /// This with the tree scrolled so that the selection is in view.
    pub open spec fn tree_scrolled(self, height: u16) -> PickerView {
        let t = self.shown_tree();
        self.showing_tree(
            TreeView {
                first: draw::window_start(
                    t.first as int,
                    t.selected as int,
                    t.nodes.len() as int,
                    height as int,
                ) as usize,
                ..t
            },
        )
    }

    /// This as the rows of the tree are drawn.
    pub open spec fn tree_ready(self, world: WorldView, height: u16) -> PickerView {
        let p = self.with_tree(world.disk);
        (PickerView { tree_rows: height as usize, ..p }).tree_scrolled(height)
    }

    /// Whether drawing the tree in those areas gives that.
    pub open spec fn tree_rendered_in(
        self,
        areas: Areas,
        tally: Tally,
        world: WorldView,
        after: PickerView,
        drawn: Seq<DrawnView>,
    ) -> bool {
        let p = self.tree_begun(world, areas.preview is Some);
        let dir = p.tree_dir(world, areas.preview is Some);
        let q = p.tree_ready(world, areas.rows.height);
        &&& drawn == p.tree_top(areas, tally, dir).push(
            DrawnView::Rows {
                area: areas.rows,
                rows: q.tree_rows_shown(q.shown_tree(), areas.rows),
            },
        )
        &&& after == (PickerView {
            mouse: q.tree_clickable(areas, p.preview_clicks(areas, dir)),
            ..q
        })
    }

    /// Whether drawing the tree in `area` may give that.
    pub open spec fn tree_rendered(
        self,
        area: Rect,
        tally: Tally,
        world: WorldView,
        after: PickerView,
        drawn: Seq<DrawnView>,
    ) -> bool {
        exists|areas: Areas|
            render::laid_out(areas, area) && #[trigger] self.tree_rendered_in(
                areas,
                tally,
                world,
                after,
                drawn,
            )
    }
}

impl Picker {
    fn label_of_tree(&self, tally: Tally) -> (label: String)
        ensures
            label@ == self@.tree_label(tally),
    {
        match &self.tree_search {
            Some(source) => match &source.scan_error {
                Some(error) => joined(
                    &joined(" Not searched: ", error),
                    " Right opens folders one at a time. ",
                ),
                None => match &self.found {
                    Some(found) => label_matched(
                        tally,
                        count_matches(found.nodes()),
                        source.scan_done,
                        source.truncated,
                        self.frame_count,
                    ),
                    None => " tree ".to_owned(),
                },
            },
            None => " tree ".to_owned(),
        }
    }

    fn is_tree_scanning(&self) -> (res: bool)
        ensures
            res == self@.tree_scanning(),
    {
        match &self.tree_search {
            Some(source) => self.found.is_some() && source.scan_error.is_none()
                && !source.scan_done,
            None => false,
        }
    }

    fn tree_row(&self, node: &Node, current: bool, width: u16) -> (row: ListRow)
        ensures
            row@ == self@.tree_row(node@, current, width),
    {
        let marks = RowMarks {
            icons: self.config.icons,
            favorite: node.is_dir && self.pinned.contains(&node.path),
            inside: node.open,
        };
        let icon = marks.prefix(&node.label, node.is_dir);
        let room: usize = room_for_label(width, &node.guide, icon);
        let label = fit(&node.label, room);
        let hits = self.found_marks.get(&node.path);
        let mut pieces: Vec<Piece> = Vec::new();
        pieces.push(pointer_piece(current));
        assert(screen::pieces_view(pieces@) =~= seq![draw::pointer(current)]);
        add_piece(&mut pieces, &node.guide, Paint::Border);
        add_piece(&mut pieces, icon, Paint::Icon(icons::meaning(icon)));
        let mut spans = match_spans(&label, &hits);
        let ghost before = screen::pieces_view(pieces@);
        let ghost after = screen::pieces_view(spans@);
        pieces.append(&mut spans);
        assert(screen::pieces_view(pieces@) =~= before + after);
        let row = ListRow { pieces, paint: paint_of(node, current) };
        assert(row@.pieces =~= self@.tree_row(node@, current, width).pieces);
        row
    }

    fn tree_rows_shown(&self, tree: &Tree, area: Rect) -> (rows: Vec<ListRow>)
        ensures
            draw::rows_view(rows@) == self@.tree_rows_shown(tree@, area),
    {
        let ghost shown = self@.tree_rows_shown(tree@, area);
        let nodes = tree.nodes();
        let first: usize = tree.first_row();
        let selected: usize = tree.selected_row();
        let n: usize = rows_fitting(first, nodes.len(), area.height);
        let mut rows: Vec<ListRow> = Vec::new();
        let mut k: usize = 0;
        while k < n
            invariant
                k <= n,
                shown == self@.tree_rows_shown(tree@, area),
                tree::nodes_view(nodes@) == tree@.nodes,
                first == tree@.first,
                selected == tree@.selected,
                nodes@.len() <= usize::MAX,
                n == browse_screen::in_view(first, nodes@.len(), area.height),
                shown.len() == n,
                draw::rows_view(rows@).len() == k,
                forall|i: int| 0 <= i < k ==> draw::rows_view(rows@)[i] == shown[i],
            decreases n - k,
        {
            let i: usize = first + k;
            assert(tree@.nodes[i as int] == nodes@[i as int]@);
            let row = self.tree_row(&nodes[i], i == selected, area.width);
            put_row(&mut rows, row);
            k += 1;
        }
        assert(draw::rows_view(rows@) =~= shown);
        rows
    }

    /// The tree's screen above its rows, drawn in those areas.
    pub fn draw_tree_top(&self, areas: Areas, tally: Tally, dir: &Option<FsPath>) -> (drawn: Vec<
        Drawn,
    >)
        requires
            self.wf(),
            self@.browser is Some,
        ensures
            drawn::all_view(drawn@) == self@.tree_top(areas, tally, picker::maybe(*dir)),
    {
        let mut drawn: Vec<Drawn> = Vec::new();
        assert(drawn::all_view(drawn@) =~= Seq::<DrawnView>::empty());
        self.draw_beside(&mut drawn, areas, dir);
        let ghost beside = self@.preview_beside(areas, picker::maybe(*dir));
        assert(drawn::all_view(drawn@) =~= beside);
        let hints = hints_of_tree(self.search_mode);
        put(
            &mut drawn,
            draw_frame(areas.list, (Mode::Browse, true), self.places, &self.notice, &hints),
        );
        match &self.browser {
            Some(browser) => {
                let starred = self.pinned.contains(browser.dir());
                put(
                    &mut drawn,
                    Drawn::Line {
                        area: areas.header,
                        pieces: browse_location(browser, starred, areas.header),
                    },
                );
            },
            None => {},
        }
        put(&mut drawn, draw_prompt(areas.prompt, &self.tree_query));
        if areas.prompt.width > 2 {
            put(&mut drawn, cursor_at(areas.prompt, &self.tree_query));
        }
        let label = self.label_of_tree(tally);
        put(&mut drawn, draw_rule(areas.info, &label, width_of(&label)));
        assert(drawn::all_view(drawn@) =~= self@.tree_top(areas, tally, picker::maybe(*dir)));
        drawn
    }

    fn begin_tree(&mut self, world: &World, preview: bool)
        requires
            old(self).wf(),
            world.wf(),
        ensures
            final(self).wf(),
            final(self)@ == old(self)@.tree_begun(world@, preview),
            final(self)@.browser is Some,
            preview ==> final(self)@.found is Some || final(self)@.tree is Some,
    {
        if preview {
            self.ensure_shown(&world.disk);
        }
        self.ensure_browser(&world.disk);
        let scanning = self.is_tree_scanning();
        self.spin_on(scanning);
    }

    fn tree_dir(&self, world: &World, preview: bool) -> (dir: Option<FsPath>)
        requires
            self.wf(),
            world.wf(),
            preview ==> self@.found is Some || self@.tree is Some,
        ensures
            picker::maybe(dir) == self@.tree_dir(world@, preview),
    {
        if preview {
            match self.shown_path() {
                Some(path) => if world.disk.is_dir(&path) {
                    Some(path)
                } else {
                    None
                },
                None => None,
            }
        } else {
            None
        }
    }

    fn scroll_tree(&mut self, height: u16)
        requires
            old(self).wf(),
            old(self)@.found is Some || old(self)@.tree is Some,
        ensures
            final(self).wf(),
            final(self)@ == old(self)@.tree_scrolled(height),
    {
        match &mut self.found {
            Some(tree) => {
                let first: usize = scroll_window(
                    tree.first_row(),
                    tree.selected_row(),
                    tree.nodes().len(),
                    height as usize,
                );
                tree.scroll_to(first);
            },
            None => {
                match &mut self.tree {
                    Some(tree) => {
                        let first: usize = scroll_window(
                            tree.first_row(),
                            tree.selected_row(),
                            tree.nodes().len(),
                            height as usize,
                        );
                        tree.scroll_to(first);
                    },
                    None => {},
                }
            },
        }
    }

    fn ready_tree(&mut self, world: &World, height: u16)
        requires
            old(self).wf(),
            world.wf(),
        ensures
            final(self).wf(),
            final(self)@ == old(self)@.tree_ready(world@, height),
            final(self)@.browser is Some,
            final(self)@.found is Some || final(self)@.tree is Some,
    {
        self.ensure_tree(&world.disk);
        self.tree_rows = height as usize;
        self.scroll_tree(height);
    }

    /// The rows of the tree on screen.
    pub fn draw_tree_rows(&self, area: Rect) -> (rows: Vec<ListRow>)
        requires
            self@.found is Some || self@.tree is Some,
        ensures
            draw::rows_view(rows@) == self@.tree_rows_shown(self@.shown_tree(), area),
    {
        match &self.found {
            Some(tree) => self.tree_rows_shown(tree, area),
            None => match &self.tree {
                Some(tree) => self.tree_rows_shown(tree, area),
                None => Vec::new(),
            },
        }
    }

    fn tree_rows_at(&self, area: Rect) -> (rows: RowsAt)
        requires
            self@.found is Some || self@.tree is Some,
        ensures
            rows.area == area,
            rows.first == self@.shown_tree().first,
            rows.count == self@.shown_tree().nodes.len(),
    {
        match &self.found {
            Some(tree) => RowsAt { area, first: tree.first_row(), count: tree.nodes().len() },
            None => match &self.tree {
                Some(tree) => RowsAt { area, first: tree.first_row(), count: tree.nodes().len() },
                None => RowsAt::none(),
            },
        }
    }

    /// What takes clicks on the tree's screen drawn in those areas.
    pub fn tree_clickable(&self, areas: Areas, paths: Vec<header::Target>) -> (mouse: Clickable)
        requires
            self.wf(),
            self@.browser is Some,
            self@.found is Some || self@.tree is Some,
        ensures
            mouse@ == self@.tree_clickable(areas, header::targets_view(paths@)),
    {
        match &self.browser {
            Some(browser) => {
                let (_, nav) = nav_buttons(areas.header, ways_of(browser));
                let starred = self.pinned.contains(browser.dir());
                Clickable {
                    places: self.mouse.places,
                    rows: self.tree_rows_at(areas.rows),
                    header: Rect::row(areas.list.x, areas.list.y, areas.list.width),
                    nav,
                    crumbs: path_areas(browser, starred, areas.header),
                    modes_x: cap(areas.list.x as u128 + 2),
                    paths,
                }
            },
            None => Clickable::none(),
        }
    }

    /// Browse as a tree: the tree on the left, where the columns were, and the
    /// selected folder's contents on the right, as in a search. The areas they
    /// are drawn in take the clicks from then on.
    pub fn render_tree(&mut self, area: Rect, tally: Tally, world: &World) -> (drawn: Vec<Drawn>)
        requires
            old(self).wf(),
            world.wf(),
        ensures
            final(self).wf(),
            old(self)@.tree_rendered(area, tally, world@, final(self)@, drawn::all_view(drawn@)),
    {
        let ghost was = self@;
        let areas = lay_out(area);
        let preview = areas.preview.is_some();
        self.begin_tree(world, preview);
        let dir = self.tree_dir(world, preview);
        let mut drawn = self.draw_tree_top(areas, tally, &dir);
        let paths = self.clicks_beside(areas, &dir);
        self.ready_tree(world, areas.rows.height);
        let rows = self.draw_tree_rows(areas.rows);
        put(&mut drawn, Drawn::Rows { area: areas.rows, rows });
        let mouse = self.tree_clickable(areas, paths);
        self.mouse = mouse;
        assert(was.tree_rendered_in(areas, tally, world@, self@, drawn::all_view(drawn@)));
        drawn
    }
}

} // verus!
