//! Browse drawn as a tree: the folder browse is in at the top, and folders
//! below it opened and closed in place, as in a file tree side panel. A
//! folder's contents are asked for when it is opened, not before.

use vstd::prelude::*;

use crate::browse::{self, step, Item, ItemView};
use crate::disk::{self, Disk, DiskView};
use crate::fs_path::{self, FsPath, PathView, Platform};
use crate::text::ends_with_char;

verus! {

#[derive(Debug)]
pub struct Node {
    pub path: FsPath,
    /// As shown: a folder's name ends in a separator, as in browse.
    pub label: String,
    pub is_dir: bool,
    /// 0 for the root, 1 for what it holds, and so on.
    pub depth: usize,
    pub open: bool,
    /// The lines drawn before the label, such as `│  ├─ `.
    pub guide: String,
    /// Shown only because a match sits in it.
    pub dim: bool,
}

#[verifier::ext_equal]
pub struct NodeView {
    pub path: PathView,
    pub label: Seq<char>,
    pub is_dir: bool,
    pub depth: usize,
    pub open: bool,
    pub guide: Seq<char>,
    pub dim: bool,
}

impl View for Node {
    type V = NodeView;

    open spec fn view(&self) -> NodeView {
        NodeView {
            path: self.path@,
            label: self.label@,
            is_dir: self.is_dir,
            depth: self.depth,
            open: self.open,
            guide: self.guide@,
            dim: self.dim,
        }
    }
}

pub open spec fn nodes_view(nodes: Seq<Node>) -> Seq<NodeView> {
    nodes.map_values(|n: Node| n@)
}

#[derive(Debug)]
pub struct Tree {
    /// The folder at the top. Empty for the list of drives.
    pub root: FsPath,
    nodes: Vec<Node>,
    pub selected: usize,
    /// Which row is at the top of the window, as in browse.
    pub first: usize,
    on: Platform,
}

#[verifier::ext_equal]
pub struct TreeView {
    pub root: PathView,
    pub nodes: Seq<NodeView>,
    pub selected: usize,
    pub first: usize,
    pub on: Platform,
}

impl View for Tree {
    type V = TreeView;

    closed spec fn view(&self) -> TreeView {
        TreeView {
            root: self.root@,
            nodes: nodes_view(self.nodes@),
            selected: self.selected,
            first: self.first,
            on: self.on,
        }
    }
}

/// How deep each row is.
pub open spec fn depths(nodes: Seq<NodeView>) -> Seq<usize> {
    nodes.map_values(|n: NodeView| n.depth)
}

/// Whether no row at depth `d` follows, from row `j` on, before a shallower one.
pub open spec fn none_left(depths: Seq<usize>, d: usize, j: int) -> bool
    decreases depths.len() - j,
{
    if j >= depths.len() || depths[j] < d {
        true
    } else if depths[j] == d {
        false
    } else {
        none_left(depths, d, j + 1)
    }
}

/// Whether a row is the last of its folder.
pub open spec fn is_last(depths: Seq<usize>, i: int) -> bool {
    none_left(depths, depths[i], i + 1)
}

/// The row at depth `d` that row `i` is, or sits under.
pub open spec fn line_of(depths: Seq<usize>, i: int, d: usize) -> int
    decreases i,
{
    if i <= 0 || depths[i] == d {
        i
    } else {
        line_of(depths, i - 1, d)
    }
}

/// The lines of the folders a row sits in, from the first level down to before
/// level `d`: one goes on past the row unless its folder was the last.
pub open spec fn trail(depths: Seq<usize>, i: int, d: nat) -> Seq<char>
    decreases d,
{
    if d <= 1 {
        Seq::empty()
    } else {
        trail(depths, i, (d - 1) as nat) + (if is_last(
            depths,
            line_of(depths, i, (d - 1) as usize),
        ) {
            seq![' ', ' ', ' ']
        } else {
            seq!['│', ' ', ' ']
        })
    }
}

/// The lines in front of a row's label.
pub open spec fn guide_of(depths: Seq<usize>, i: int) -> Seq<char> {
    if depths[i] == 0 {
        Seq::empty()
    } else {
        trail(depths, i, depths[i] as nat) + (if is_last(depths, i) {
            seq!['└', '─', ' ']
        } else {
            seq!['├', '─', ' ']
        })
    }
}

/// The rows with their lines drawn.
pub open spec fn laid(nodes: Seq<NodeView>) -> Seq<NodeView> {
    Seq::new(
        nodes.len(),
        |i: int| NodeView { guide: guide_of(depths(nodes), i), ..nodes[i] },
    )
}

/// Whether row `i` may follow the row before it: at most one level deeper, and
/// deeper only inside a folder that is open.
pub open spec fn follows(nodes: Seq<NodeView>, i: int) -> bool {
    &&& 1 <= nodes[i].depth <= nodes[i - 1].depth + 1
    &&& nodes[i].depth == nodes[i - 1].depth + 1 ==> nodes[i - 1].open
}

/// Whether the rows make a tree: the root line, and below it what is in the
/// open folders.
pub open spec fn shape(nodes: Seq<NodeView>) -> bool {
    &&& nodes.len() > 0
    &&& nodes[0].depth == 0
    &&& forall|i: int| 0 < i < nodes.len() ==> #[trigger] follows(nodes, i)
}

/// The row after the last one below a row at depth `d`, from row `j` on.
pub open spec fn end_of(depths: Seq<usize>, d: usize, j: int) -> int
    decreases depths.len() - j,
{
    if j >= depths.len() {
        depths.len() as int
    } else if depths[j] <= d {
        j
    } else {
        end_of(depths, d, j + 1)
    }
}

/// The nearest row before `i` that is shallower than `d`.
pub open spec fn row_above(depths: Seq<usize>, d: usize, i: int) -> int
    decreases i,
{
    if i <= 0 {
        0
    } else if depths[i - 1] < d {
        i - 1
    } else {
        row_above(depths, d, i - 1)
    }
}

/// The first row showing `path`.
pub open spec fn row_of(nodes: Seq<NodeView>, path: PathView) -> Option<usize>
    decreases nodes.len(),
{
    if nodes.len() == 0 {
        None
    } else {
        match row_of(nodes.drop_last(), path) {
            Some(i) => Some(i),
            None => if nodes.last().path == path {
                Some((nodes.len() - 1) as usize)
            } else {
                None
            },
        }
    }
}

/// The root's line.
pub open spec fn root_line(root: PathView, on: Platform) -> NodeView {
    let shown = root.text(on);
    NodeView {
        path: root,
        label: if root.is_empty() {
            seq!['D', 'r', 'i', 'v', 'e', 's']
        } else if crate::text::ends_in(shown, on.sep()) {
            shown
        } else {
            shown.push(on.sep())
        },
        is_dir: true,
        depth: 0,
        open: true,
        guide: Seq::empty(),
        dim: false,
    }
}

/// The row of something in `dir`.
pub open spec fn child(dir: PathView, item: ItemView, depth: usize, on: Platform) -> NodeView {
    NodeView {
        path: dir.join(item.name, on),
        label: item.label(on),
        is_dir: item.is_dir,
        depth,
        open: false,
        guide: Seq::empty(),
        dim: false,
    }
}

/// The rows of what a folder holds.
pub open spec fn rows_in(dir: PathView, depth: usize, disk: DiskView, on: Platform) -> Seq<
    NodeView,
> {
    disk.listing(dir).map_values(|item: ItemView| child(dir, item, depth, on))
}

/// A tree of `root` with what it holds listed.
pub open spec fn planted(root: PathView, disk: DiskView, on: Platform) -> Seq<NodeView> {
    laid(seq![root_line(root, on)] + rows_in(root, 1, disk, on))
}

/// The rows with the folder at `index` open, what it holds below it. Files and
/// open folders are left as they are.
pub open spec fn opened(
    nodes: Seq<NodeView>,
    index: int,
    disk: DiskView,
    on: Platform,
) -> Seq<NodeView> {
    let node = nodes[index];
    if !node.is_dir || node.open {
        nodes
    } else {
        laid(
            nodes.take(index).push(NodeView { open: true, ..node }) + rows_in(
                node.path,
                (node.depth + 1) as usize,
                disk,
                on,
            ) + nodes.skip(index + 1),
        )
    }
}

/// Where the rows below the one at `index` end.
pub open spec fn below_end(nodes: Seq<NodeView>, index: int) -> int {
    end_of(depths(nodes), nodes[index].depth, index + 1)
}

/// The rows with the one at `index` closed and what was below it gone.
pub open spec fn shut(nodes: Seq<NodeView>, index: int) -> Seq<NodeView> {
    laid(
        nodes.take(index).push(NodeView { open: false, ..nodes[index] }) + nodes.skip(
            below_end(nodes, index),
        ),
    )
}

/// The selected row once the one at `index` is closed: the same row, or the
/// closed one when it was inside.
pub open spec fn kept_selection(nodes: Seq<NodeView>, index: int, selected: usize) -> usize {
    let end = below_end(nodes, index);
    if selected >= end {
        (selected - (end - index - 1)) as usize
    } else if selected > index {
        index as usize
    } else {
        selected
    }
}

/// The rows one level further down.
pub open spec fn deeper(nodes: Seq<NodeView>) -> Seq<NodeView> {
    nodes.map_values(|n: NodeView| NodeView { depth: (n.depth + 1) as usize, ..n })
}

/// The rows of what a new root holds, with the old root open among them and
/// the old rows hung under it.
pub open spec fn hung(kids: Seq<NodeView>, old_root: PathView, below: Seq<NodeView>) -> Seq<
    NodeView,
>
    decreases kids.len(),
{
    if kids.len() == 0 {
        Seq::empty()
    } else {
        let before = hung(kids.drop_last(), old_root, below);
        let kid = kids.last();
        if kid.path != old_root {
            before.push(kid)
        } else if row_of(kids.drop_last(), old_root) is None {
            before.push(NodeView { open: true, ..kid }) + below
        } else {
            before.push(NodeView { open: true, ..kid })
        }
    }
}

/// Which of the rows `hung` makes is the old root's.
pub open spec fn hung_row(kids: Seq<NodeView>, old_root: PathView, below: Seq<NodeView>) -> Option<
    int,
>
    decreases kids.len(),
{
    if kids.len() == 0 {
        None
    } else if kids.last().path == old_root {
        Some(hung(kids.drop_last(), old_root, below).len() as int)
    } else {
        hung_row(kids.drop_last(), old_root, below)
    }
}

/// The tree with `parent` as its root, the old root open under it as it was,
/// branches and all, and selected.
pub open spec fn risen(was: TreeView, parent: PathView, disk: DiskView) -> TreeView {
    let kids = rows_in(parent, 1, disk, was.on);
    let below = deeper(was.nodes.skip(1));
    TreeView {
        root: parent,
        nodes: laid(seq![root_line(parent, was.on)] + hung(kids, was.root, below)),
        selected: match hung_row(kids, was.root, below) {
            Some(row) => (row + 1) as usize,
            None => 0,
        },
        ..was
    }
}

/// The folders open below the root line.
pub open spec fn open_paths(nodes: Seq<NodeView>) -> Seq<PathView>
    decreases nodes.len(),
{
    if nodes.len() <= 1 {
        Seq::empty()
    } else if nodes.last().open {
        open_paths(nodes.drop_last()).push(nodes.last().path)
    } else {
        open_paths(nodes.drop_last())
    }
}

/// The paths other than one.
pub open spec fn without(paths: Seq<PathView>, path: PathView) -> Seq<PathView>
    decreases paths.len(),
{
    if paths.len() == 0 {
        paths
    } else if paths.last() == path {
        without(paths.drop_last(), path)
    } else {
        without(paths.drop_last(), path).push(paths.last())
    }
}

pub proof fn without_is_shorter(paths: Seq<PathView>, path: PathView)
    ensures
        without(paths, path).len() <= paths.len(),
        paths.contains(path) ==> without(paths, path).len() < paths.len(),
    decreases paths.len(),
{
    if paths.len() > 0 {
        without_is_shorter(paths.drop_last(), path);
        if paths.contains(path) && paths.last() != path {
            let i = choose|i: int| 0 <= i < paths.len() && paths[i] == path;
            assert(paths.drop_last()[i] == path);
            assert(paths.drop_last().contains(path));
        }
    }
}

/// The rows of what is in `dir`, the folders among `open` open with what they
/// hold below them. A folder is not looked for again inside itself.
pub open spec fn grown(
    items: Seq<ItemView>,
    dir: PathView,
    depth: usize,
    open: Seq<PathView>,
    disk: DiskView,
    on: Platform,
) -> Seq<NodeView>
    decreases open.len(), items.len(),
{
    if items.len() == 0 {
        Seq::empty()
    } else {
        let before = grown(items.drop_last(), dir, depth, open, disk, on);
        let node = child(dir, items.last(), depth, on);
        if node.is_dir && open.contains(node.path) {
            proof {
                without_is_shorter(open, node.path);
            }
            before.push(NodeView { open: true, ..node }) + grown(
                disk.listing(node.path),
                node.path,
                (depth + 1) as usize,
                without(open, node.path),
                disk,
                on,
            )
        } else {
            before.push(node)
        }
    }
}

/// The tree read again: which folders are open and which row is selected are
/// kept where they still exist.
pub open spec fn refreshed(was: TreeView, disk: DiskView) -> TreeView {
    let nodes = laid(
        seq![root_line(was.root, was.on)] + grown(
            disk.listing(was.root),
            was.root,
            1,
            open_paths(was.nodes),
            disk,
            was.on,
        ),
    );
    TreeView {
        nodes,
        selected: match row_of(nodes, was.selected_node().path) {
            Some(row) => row,
            None => 0,
        },
        ..was
    }
}

/// The row of a path with at least one name.
pub open spec fn row_for(path: PathView, is_dir: bool, folder: bool, on: Platform) -> NodeView {
    NodeView {
        path,
        label: (ItemView { name: path.names.last(), is_dir }).label(on),
        is_dir,
        depth: 0,
        open: folder,
        guide: Seq::empty(),
        dim: folder,
    }
}

/// The rows with one more, the last under the row at `parent`.
pub open spec fn hung_under(nodes: Seq<NodeView>, parent: int, node: NodeView) -> Seq<NodeView> {
    let end = below_end(nodes, parent);
    nodes.update(parent, NodeView { open: true, ..nodes[parent] }).insert(
        end,
        NodeView { depth: (nodes[parent].depth + 1) as usize, ..node },
    )
}

/// The row of `path`, or the root line.
pub open spec fn row_or_root(nodes: Seq<NodeView>, path: PathView) -> int {
    match row_of(nodes, path) {
        Some(row) => row as int,
        None => 0,
    }
}

/// The rows with `path` among them, dimmed and under its folders where it was
/// not there.
pub open spec fn with_folder(nodes: Seq<NodeView>, path: PathView, on: Platform) -> Seq<NodeView>
    decreases path.names.len(),
{
    if row_of(nodes, path) is Some || path.names.len() == 0 {
        nodes
    } else {
        let parent = PathView { top: path.top, names: path.names.drop_last() };
        let above = with_folder(nodes, parent, on);
        hung_under(above, row_or_root(above, parent), row_for(path, true, true, on))
    }
}

/// The rows with a match among them, under its folders.
pub open spec fn with_match(
    nodes: Seq<NodeView>,
    path: PathView,
    is_dir: bool,
    on: Platform,
) -> Seq<NodeView> {
    match row_of(nodes, path) {
        Some(row) => nodes.update(row as int, NodeView { dim: false, ..nodes[row as int] }),
        None => if path.names.len() == 0 {
            nodes
        } else {
            let parent = PathView { top: path.top, names: path.names.drop_last() };
            let above = with_folder(nodes, parent, on);
            hung_under(above, row_or_root(above, parent), row_for(path, is_dir, false, on))
        },
    }
}

/// A match of a search: its path, and whether it is a folder.
pub type Found = (FsPath, bool);

pub open spec fn founds_view(matches: Seq<Found>) -> Seq<(PathView, bool)> {
    matches.map_values(|m: Found| (m.0@, m.1))
}

/// The rows of a search's matches, lines not drawn yet.
pub open spec fn with_matches(
    root: PathView,
    matches: Seq<(PathView, bool)>,
    on: Platform,
) -> Seq<NodeView>
    decreases matches.len(),
{
    if matches.len() == 0 {
        seq![root_line(root, on)]
    } else {
        with_match(
            with_matches(root, matches.drop_last(), on),
            matches.last().0,
            matches.last().1,
            on,
        )
    }
}

/// The rows with every folder above `path` open that is among them.
pub open spec fn opened_to(
    nodes: Seq<NodeView>,
    path: PathView,
    disk: DiskView,
    on: Platform,
) -> Seq<NodeView>
    decreases path.names.len(),
{
    if path.names.len() == 0 {
        nodes
    } else {
        let parent = PathView { top: path.top, names: path.names.drop_last() };
        let above = opened_to(nodes, parent, disk, on);
        match row_of(above, parent) {
            Some(row) => opened(above, row as int, disk, on),
            None => above,
        }
    }
}

impl TreeView {
    pub closed spec fn wf(self) -> bool {
        &&& shape(self.nodes)
        &&& self.nodes == laid(self.nodes)
        &&& self.selected < self.nodes.len()
        &&& self.nodes[0].path == self.root
        &&& self.nodes[0].is_dir
    }

    /// What is always so of a tree: the top line is its root's, the rows make a
    /// tree with the lines drawn as they stand, and one of them is selected.
    pub proof fn what_always_holds(self)
        requires
            self.wf(),
        ensures
            shape(self.nodes),
            self.nodes == laid(self.nodes),
            self.selected < self.nodes.len(),
            self.nodes[0].path == self.root,
            self.nodes[0].is_dir,
    {
    }

    /// A tree of `root` that has just been opened, with `select` selected
    /// where it is listed.
    pub open spec fn fresh(
        root: PathView,
        select: Option<PathView>,
        on: Platform,
        disk: DiskView,
    ) -> TreeView {
        let nodes = planted(root, disk, on);
        TreeView {
            root,
            nodes,
            selected: match select {
                Some(path) => row_or_root(nodes, path) as usize,
                None => 0,
            },
            first: 0,
            on,
        }
    }

    /// The tree of a search's matches, the best of them selected.
    pub open spec fn of_matches(
        root: PathView,
        matches: Seq<(PathView, bool)>,
        on: Platform,
    ) -> TreeView {
        let nodes = laid(with_matches(root, matches, on));
        TreeView {
            root,
            nodes,
            selected: if matches.len() == 0 {
                0
            } else {
                row_or_root(nodes, matches[0].0) as usize
            },
            first: 0,
            on,
        }
    }

    /// This with the selection moved that many rows.
    pub open spec fn moved(self, delta: int) -> TreeView {
        TreeView { selected: browse::stepped(self.selected, delta, self.nodes.len()), ..self }
    }

    /// This with the selected folder open, or its first row selected if it was.
    pub open spec fn went_right(self, disk: DiskView) -> TreeView {
        let node = self.selected_node();
        let next = self.selected + 1;
        if node.is_dir && !node.open {
            TreeView { nodes: opened(self.nodes, self.selected as int, disk, self.on), ..self }
        } else if node.is_dir && next < self.nodes.len() && self.nodes[next].depth == node.depth
            + 1 {
            TreeView { selected: next as usize, ..self }
        } else {
            self
        }
    }

    /// This with the selected folder closed, or the row it sits under selected.
    pub open spec fn went_left(self) -> TreeView {
        let node = self.selected_node();
        if self.selected == 0 {
            self
        } else if node.open {
            TreeView { nodes: shut(self.nodes, self.selected as int), ..self }
        } else {
            TreeView {
                selected: row_above(depths(self.nodes), node.depth, self.selected as int) as usize,
                ..self
            }
        }
    }

    /// This with the selected folder opened or closed.
    pub open spec fn toggled(self, disk: DiskView) -> TreeView {
        if self.selected_node().open && self.selected > 0 {
            TreeView { nodes: shut(self.nodes, self.selected as int), ..self }
        } else {
            TreeView { nodes: opened(self.nodes, self.selected as int, disk, self.on), ..self }
        }
    }

    /// This opened down to `path`, with its row selected.
    pub open spec fn showing(self, path: PathView, disk: DiskView) -> TreeView {
        let nodes = opened_to(self.nodes, path, disk, self.on);
        TreeView {
            nodes,
            selected: match row_of(nodes, path) {
                Some(row) => row,
                None => self.selected,
            },
            ..self
        }
    }

    pub open spec fn selected_node(self) -> NodeView {
        self.nodes[self.selected as int]
    }

    /// The selected row's path, or none for the list of drives itself.
    pub open spec fn selected_path(self) -> Option<PathView> {
        let path = self.selected_node().path;
        if path.is_empty() {
            None
        } else {
            Some(path)
        }
    }

    /// Where Enter goes: the selected folder, or the folder holding the
    /// selected file.
    pub open spec fn target(self) -> PathView {
        let node = self.selected_node();
        if node.is_dir {
            node.path
        } else {
            match node.path.parent() {
                Some(parent) => parent,
                None => node.path,
            }
        }
    }
}

/// A row is never deeper than there are rows before it.
proof fn depth_is_bounded(nodes: Seq<NodeView>, i: int)
    requires
        shape(nodes),
        0 <= i < nodes.len(),
    ensures
        nodes[i].depth <= i,
    decreases i,
{
    if i > 0 {
        depth_is_bounded(nodes, i - 1);
        assert(follows(nodes, i));
    }
}

/// Drawing lines changes nothing but the lines.
proof fn laid_keeps(nodes: Seq<NodeView>)
    ensures
        depths(laid(nodes)) == depths(nodes),
        shape(nodes) ==> shape(laid(nodes)),
        laid(laid(nodes)) == laid(nodes),
        laid(nodes).len() == nodes.len(),
        forall|i: int|
            0 <= i < nodes.len() ==> (#[trigger] laid(nodes)[i]) == (NodeView {
                guide: laid(nodes)[i].guide,
                ..nodes[i]
            }),
{
    assert(depths(laid(nodes)) =~= depths(nodes));
    assert(laid(laid(nodes)) =~= laid(nodes));
    if shape(nodes) {
        assert forall|i: int| 0 < i < nodes.len() implies #[trigger] follows(laid(nodes), i) by {
            assert(follows(nodes, i));
        }
    }
}

proof fn end_of_is_after(depths: Seq<usize>, d: usize, j: int)
    requires
        j <= depths.len(),
    ensures
        j <= end_of(depths, d, j) <= depths.len(),
        end_of(depths, d, j) < depths.len() ==> depths[end_of(depths, d, j)] <= d,
        forall|k: int| j <= k < end_of(depths, d, j) ==> depths[k] > d,
    decreases depths.len() - j,
{
    if j < depths.len() && depths[j] > d {
        end_of_is_after(depths, d, j + 1);
    }
}

fn root_node(root: &FsPath, on: Platform) -> (node: Node)
    ensures
        node@ == root_line(root@, on),
{
    let label = if root.is_empty() {
        proof {
            reveal_strlit("Drives");
        }
        let drives = "Drives".to_owned();
        assert(drives@ =~= seq!['D', 'r', 'i', 'v', 'e', 's']);
        drives
    } else {
        let mut shown = root.text(on);
        if !ends_with_char(&shown, on.separator()) {
            shown.push(on.separator());
        }
        shown
    };
    let node = Node {
        path: root.clone(),
        label,
        is_dir: true,
        depth: 0,
        open: true,
        guide: String::new(),
        dim: false,
    };
    assert(node@ =~= root_line(root@, on));
    node
}

fn child_node(dir: &FsPath, item: &Item, depth: usize, on: Platform) -> (node: Node)
    ensures
        node@ == child(dir@, item@, depth, on),
{
    let node = Node {
        path: dir.join(&item.name, on),
        label: item.label(on),
        is_dir: item.is_dir,
        depth,
        open: false,
        guide: String::new(),
        dim: false,
    };
    assert(node@ =~= child(dir@, item@, depth, on));
    node
}

fn children(dir: &FsPath, depth: usize, disk: &Disk, on: Platform) -> (nodes: Vec<Node>)
    ensures
        nodes_view(nodes@) == rows_in(dir@, depth, disk@, on),
{
    let items = disk.listing(dir);
    let mut nodes: Vec<Node> = Vec::new();
    let mut i: usize = 0;
    while i < items.len()
        invariant
            i <= items@.len(),
            nodes@.len() == i,
            forall|k: int|
                0 <= k < i ==> #[trigger] nodes@[k]@ == child(dir@, items@[k]@, depth, on),
        decreases items@.len() - i,
    {
        nodes.push(child_node(dir, &items[i], depth, on));
        i += 1;
    }
    assert(nodes_view(nodes@) =~= rows_in(dir@, depth, disk@, on)) by {
        assert(browse::items_view(items@) == disk@.listing(dir@));
        assert forall|k: int| 0 <= k < nodes@.len() implies #[trigger] nodes_view(nodes@)[k]
            == rows_in(dir@, depth, disk@, on)[k] by {
            assert(nodes@[k]@ == child(dir@, items@[k]@, depth, on));
            assert(browse::items_view(items@)[k] == items@[k]@);
        }
    }
    nodes
}

/// Which rows are the last of their folder.
fn last_rows(nodes: &Vec<Node>) -> (last: Vec<bool>)
    requires
        shape(nodes_view(nodes@)),
    ensures
        last@.len() == nodes@.len(),
        forall|i: int|
            0 <= i < nodes@.len() ==> #[trigger] last@[i] == is_last(
                depths(nodes_view(nodes@)),
                i,
            ),
{
    let ghost rows = nodes_view(nodes@);
    let ghost deep = depths(rows);
    let count: usize = nodes.len();
    let mut last: Vec<bool> = vec![false; count];
    let mut seen: Vec<bool> = Vec::new();
    let mut i: usize = count;
    while i > 0
        invariant
            i <= count,
            count == nodes@.len(),
            last@.len() == count,
            rows == nodes_view(nodes@),
            shape(rows),
            deep == depths(rows),
            forall|d: int|
                0 <= d < seen@.len() ==> #[trigger] seen@[d] == !none_left(
                    deep,
                    d as usize,
                    i as int,
                ),
            forall|d: usize| d >= seen@.len() ==> #[trigger] none_left(deep, d, i as int),
            forall|k: int| i <= k < count ==> #[trigger] last@[k] == is_last(deep, k),
        decreases i,
    {
        i -= 1;
        let depth: usize = nodes[i].depth;
        assert(deep[i as int] == depth);
        proof {
            depth_is_bounded(rows, i as int);
        }
        let ghost was = seen@;
        seen.resize(depth + 1, false);
        assert(seen@[depth as int] == !none_left(deep, depth, i + 1)) by {
            if depth >= was.len() {
                assert(none_left(deep, depth, i + 1));
            } else {
                assert(seen@[depth as int] == was[depth as int]);
            }
        }
        last.set(i, !seen[depth]);
        seen.set(depth, true);
        assert forall|d: int| 0 <= d < seen@.len() implies #[trigger] seen@[d] == !none_left(
            deep,
            d as usize,
            i as int,
        ) by {
            if d < depth {
                if d < was.len() {
                    assert(seen@[d] == was[d]);
                } else {
                    assert(none_left(deep, d as usize, i + 1));
                }
            }
        }
        assert forall|d: usize| d >= seen@.len() implies #[trigger] none_left(
            deep,
            d,
            i as int,
        ) by {}
    }
    last
}

impl Tree {
    pub open spec fn wf(&self) -> bool {
        self@.wf()
    }

    /// A tree of `root` with what it holds listed, and `select` selected when
    /// it is one of those; the root line otherwise.
    pub fn new(root: FsPath, select: Option<&FsPath>, on: Platform, disk: &Disk) -> (tree: Tree)
        ensures
            tree.wf(),
            tree@ == TreeView::fresh(
                root@,
                match select {
                    Some(path) => Some(path@),
                    None => None,
                },
                on,
                disk@,
            ),
    {
        let nodes = planted_rows(&root, disk, on);
        let mut tree = Tree { root, nodes, selected: 0, first: 0, on };
        tree.relayout();
        match select {
            Some(path) => {
                match tree.position(path) {
                    Some(row) => {
                        tree.selected = row;
                    },
                    None => {},
                }
            },
            None => {},
        }
        tree
    }

    pub fn nodes(&self) -> (nodes: &Vec<Node>)
        ensures
            nodes_view(nodes@) == self@.nodes,
    {
        &self.nodes
    }

    pub fn platform(&self) -> (on: Platform)
        ensures
            on == self@.on,
    {
        self.on
    }

    /// The folder at the top.
    pub fn top(&self) -> (root: &FsPath)
        ensures
            root@ == self@.root,
    {
        &self.root
    }

    pub fn selected_row(&self) -> (row: usize)
        ensures
            row == self@.selected,
    {
        self.selected
    }

    pub fn first_row(&self) -> (row: usize)
        ensures
            row == self@.first,
    {
        self.first
    }

    /// Moves the window to start at a row.
    pub fn scroll_to(&mut self, first: usize)
        requires
            old(self).wf(),
        ensures
            final(self).wf(),
            final(self)@ == (TreeView { first, ..old(self)@ }),
    {
        self.first = first;
    }

    /// The first row showing `path`.
    pub fn position(&self, path: &FsPath) -> (row: Option<usize>)
        ensures
            row == row_of(self@.nodes, path@),
            row matches Some(r) ==> r < self@.nodes.len() && self@.nodes[r as int].path == path@,
    {
        let ghost rows = self@.nodes;
        let mut i: usize = 0;
        assert(rows.take(0) =~= Seq::<NodeView>::empty());
        while i < self.nodes.len()
            invariant
                i <= self.nodes@.len(),
                rows == self@.nodes,
                row_of(rows.take(i as int), path@) is None,
            decreases self.nodes@.len() - i,
        {
            assert(rows.take(i + 1).drop_last() =~= rows.take(i as int));
            assert(rows[i as int] == self.nodes@[i as int]@);
            if self.nodes[i].path.is(path) {
                proof {
                    row_of_extends(rows, (i + 1) as int, path@);
                }
                return Some(i);
            }
            i += 1;
        }
        assert(rows.take(i as int) =~= rows);
        None
    }

    pub fn selected_node(&self) -> (node: &Node)
        requires
            self.wf(),
        ensures
            node@ == self@.selected_node(),
    {
        &self.nodes[self.selected]
    }

    /// The selected row's path, or none for the list of drives itself.
    pub fn selected_path(&self) -> (path: Option<FsPath>)
        requires
            self.wf(),
        ensures
            path is Some == self@.selected_path() is Some,
            path matches Some(p) ==> self@.selected_path() == Some(p@),
    {
        let path: &FsPath = &self.selected_node().path;
        if path.is_empty() {
            None
        } else {
            Some(path.clone())
        }
    }

    /// Where Enter goes: the selected folder, or the folder holding the
    /// selected file. Empty on the list of drives itself.
    pub fn target(&self) -> (path: FsPath)
        requires
            self.wf(),
        ensures
            path@ == self@.target(),
    {
        let node: &Node = self.selected_node();
        if node.is_dir {
            node.path.clone()
        } else {
            match node.path.parent() {
                Some(parent) => parent,
                None => node.path.clone(),
            }
        }
    }

    pub fn move_selection(&mut self, delta: isize)
        requires
            old(self).wf(),
        ensures
            final(self).wf(),
            final(self)@ == old(self)@.moved(delta as int),
    {
        self.selected = step(self.selected, delta, self.nodes.len());
    }

    pub fn move_up(&mut self, rows: u32)
        requires
            old(self).wf(),
        ensures
            final(self).wf(),
            final(self)@ == old(self)@.moved(-(rows as int)),
    {
        if rows as u64 >= self.selected as u64 {
            self.selected = 0;
        } else {
            self.selected = self.selected - rows as usize;
        }
    }

    pub fn move_down(&mut self, rows: u32)
        requires
            old(self).wf(),
        ensures
            final(self).wf(),
            final(self)@ == old(self)@.moved(rows as int),
    {
        let count: usize = self.nodes.len();
        if rows as u64 >= (count - self.selected) as u64 {
            self.selected = count - 1;
        } else {
            self.selected = self.selected + rows as usize;
        }
    }

    /// Selects a row.
    pub fn select(&mut self, row: usize)
        requires
            old(self).wf(),
            row < old(self)@.nodes.len(),
        ensures
            final(self).wf(),
            final(self)@ == (TreeView { selected: row, ..old(self)@ }),
    {
        self.selected = row;
    }

    /// Selects the root line.
    pub fn select_root(&mut self)
        requires
            old(self).wf(),
        ensures
            final(self).wf(),
            final(self)@ == (TreeView { selected: 0, ..old(self)@ }),
    {
        self.selected = 0;
    }

    /// Right: opens the selected folder, or steps into it if it is open.
    pub fn right(&mut self, disk: &Disk)
        requires
            old(self).wf(),
        ensures
            final(self).wf(),
            final(self)@ == old(self)@.went_right(disk@),
    {
        let index: usize = self.selected;
        proof {
            depth_is_bounded(self@.nodes, index as int);
        }
        if !self.nodes[index].is_dir {
            return;
        }
        if !self.nodes[index].open {
            self.open(index, disk);
        } else if index < self.nodes.len() - 1 && self.nodes[index + 1].depth
            == self.nodes[index].depth + 1 {
            assert(self@.nodes[index + 1].depth == self.nodes@[index + 1].depth);
            self.selected = index + 1;
        }
    }

    /// Left: closes the selected folder, or goes to the row it sits under.
    /// Says whether the root line was already selected, in which case the
    /// caller moves the root up with `rise`.
    pub fn left(&mut self) -> (at_root: bool)
        requires
            old(self).wf(),
        ensures
            final(self).wf(),
            at_root == (old(self)@.selected == 0),
            final(self)@ == old(self)@.went_left(),
    {
        if self.selected == 0 {
            return true;
        }
        let index: usize = self.selected;
        proof {
            end_of_is_after(depths(self@.nodes), self@.nodes[index as int].depth, index + 1);
        }
        if self.nodes[index].open {
            self.close(index);
            return false;
        }
        let depth: usize = self.nodes[index].depth;
        let ghost deep = depths(self@.nodes);
        let mut i: usize = index;
        while i > 0
            invariant_except_break
                row_above(deep, depth, index as int) == row_above(deep, depth, i as int),
            invariant
                i <= index < self.nodes@.len(),
                deep == depths(self@.nodes),
                self@ == old(self)@,
                self@.wf(),
                depth == self@.nodes[index as int].depth,
                index == self@.selected,
            ensures
                i < self.nodes@.len(),
                row_above(deep, depth, index as int) == i,
                self@ == old(self)@,
            decreases i,
        {
            i -= 1;
            assert(deep[i as int] == self.nodes@[i as int].depth);
            if self.nodes[i].depth < depth {
                break;
            }
        }
        self.selected = i;
        false
    }

    /// Opens or closes the selected folder, for a double click.
    pub fn toggle(&mut self, disk: &Disk)
        requires
            old(self).wf(),
        ensures
            final(self).wf(),
            final(self)@ == old(self)@.toggled(disk@),
    {
        let index: usize = self.selected;
        proof {
            end_of_is_after(depths(self@.nodes), self@.nodes[index as int].depth, index + 1);
        }
        if self.nodes[index].open && index > 0 {
            self.close(index);
        } else {
            self.open(index, disk);
        }
    }

    /// Opens the folder at `index` in place.
    pub fn open(&mut self, index: usize, disk: &Disk)
        requires
            old(self).wf(),
            index < old(self)@.nodes.len(),
        ensures
            final(self).wf(),
            final(self)@ == (TreeView {
                nodes: opened(old(self)@.nodes, index as int, disk@, old(self)@.on),
                ..old(self)@
            }),
    {
        let ghost was = self@.nodes;
        if !self.nodes[index].is_dir || self.nodes[index].open {
            assert(self@ =~= (TreeView {
                nodes: opened(was, index as int, disk@, self@.on),
                ..self@
            }));
            return;
        }
        let count: usize = self.nodes.len();
        proof {
            depth_is_bounded(was, index as int);
            assert(was[index as int] == self.nodes@[index as int]@);
        }
        let mut below = children(
            &self.nodes[index].path,
            self.nodes[index].depth + 1,
            disk,
            self.on,
        );
        let ghost kids = nodes_view(below@);
        let mut after = self.nodes.split_off(index + 1);
        self.nodes.append(&mut below);
        self.nodes.append(&mut after);
        self.nodes[index].open = true;
        proof {
            let node = was[index as int];
            let spliced = was.take(index as int).push(NodeView { open: true, ..node }) + kids
                + was.skip(index + 1);
            assert(nodes_view(self.nodes@) =~= spliced);
            opening_keeps_shape(was, index as int, kids);
        }
        self.relayout();
    }

    /// Closes the folder at `index`; what was selected in it gives way to it.
    pub fn close(&mut self, index: usize)
        requires
            old(self).wf(),
            index < old(self)@.nodes.len(),
        ensures
            final(self).wf(),
            final(self)@ == (TreeView {
                nodes: shut(old(self)@.nodes, index as int),
                selected: kept_selection(old(self)@.nodes, index as int, old(self)@.selected),
                ..old(self)@
            }),
    {
        let ghost was = self@.nodes;
        let ghost deep = depths(was);
        let count: usize = self.nodes.len();
        let depth: usize = self.nodes[index].depth;
        let mut end: usize = index + 1;
        while end < self.nodes.len() && self.nodes[end].depth > depth
            invariant
                index < end <= self.nodes@.len(),
                was == self@.nodes,
                deep == depths(was),
                end_of(deep, depth, index + 1) == end_of(deep, depth, end as int),
                self@ == old(self)@,
                forall|k: int| index < k < end ==> was[k].depth > depth,
            ensures
                index < end <= self.nodes@.len(),
                end_of(deep, depth, index + 1) == end,
                end < was.len() ==> was[end as int].depth <= depth,
                self@ == old(self)@,
                forall|k: int| index < k < end ==> was[k].depth > depth,
            decreases self.nodes@.len() - end,
        {
            assert(deep[end as int] == self.nodes@[end as int].depth);
            end += 1;
        }
        assert(end == below_end(was, index as int));
        let mut after = self.nodes.split_off(end);
        self.nodes.truncate(index + 1);
        self.nodes.append(&mut after);
        self.nodes[index].open = false;
        if self.selected >= end {
            self.selected = self.selected - (end - index - 1);
        } else if self.selected > index {
            self.selected = index;
        }
        proof {
            let spliced = was.take(index as int).push(
                NodeView { open: false, ..was[index as int] },
            ) + was.skip(end as int);
            assert(nodes_view(self.nodes@) =~= spliced);
            closing_keeps_shape(was, index as int, end as int);
        }
        self.relayout();
    }

    /// Makes `parent` the root, with the old root open under it as it was,
    /// branches and all, and selected.
    pub fn rise(&mut self, parent: FsPath, disk: &Disk)
        requires
            old(self).wf(),
        ensures
            final(self).wf(),
            final(self)@ == risen(old(self)@, parent@, disk@),
    {
        let ghost was = self@;
        let ghost below = deeper(was.nodes.skip(1));
        let kids = children(&parent, 1, disk, self.on);
        let ghost all = nodes_view(kids@);
        let count: usize = self.nodes.len();
        let mut old = self.nodes.split_off(1);
        assert(nodes_view(old@) =~= was.nodes.skip(1));
        let mut i: usize = 0;
        while i < old.len()
            invariant
                i <= old@.len(),
                was.wf(),
                was.nodes.len() == count,
                old@.len() == was.nodes.skip(1).len(),
                forall|k: int|
                    0 <= k < i ==> #[trigger] old@[k]@ == (NodeView {
                        depth: (was.nodes[k + 1].depth + 1) as usize,
                        ..was.nodes[k + 1]
                    }),
                forall|k: int| i <= k < old@.len() ==> #[trigger] old@[k]@ == was.nodes[k + 1],
            decreases old@.len() - i,
        {
            proof {
                depth_is_bounded(was.nodes, i + 1);
                assert(old@[i as int]@ == was.nodes[i + 1]);
            }
            old[i].depth = old[i].depth + 1;
            i += 1;
        }
        assert(nodes_view(old@) =~= below);
        let mut nodes: Vec<Node> = Vec::new();
        nodes.push(root_node(&parent, self.on));
        let ghost top = root_line(parent@, self@.on);
        let mut selected: usize = 0;
        let mut hung_yet = false;
        let mut kids = kids;
        let ghost mut k: int = 0;
        assert(all.take(0) =~= Seq::<NodeView>::empty());
        assert(nodes_view(nodes@) =~= seq![top] + hung(all.take(0), was.root, below));
        while kids.len() > 0
            invariant
                0 <= k && k + kids@.len() == all.len(),
                nodes_view(kids@) == all.skip(k),
                nodes_view(nodes@) == seq![top] + hung(all.take(k), was.root, below),
                hung_yet == (row_of(all.take(k), was.root) is Some),
                !hung_yet ==> nodes_view(old@) == below,
                selected == (match hung_row(all.take(k), was.root, below) {
                    Some(row) => row + 1,
                    None => 0,
                }),
                self.root@ == was.root,
                self.on == was.on,
                self.first == was.first,
            decreases kids@.len(),
        {
            let ghost before = nodes_view(nodes@);
            let ghost left = nodes_view(kids@);
            let mut node = kids.remove(0);
            proof {
                assert(node@ == left[0]);
                assert(all[k] == node@);
                assert(nodes_view(kids@) =~= left.drop_first());
                assert(left.drop_first() =~= all.skip(k + 1));
                assert(all.take(k + 1).drop_last() =~= all.take(k));
                assert(all.take(k + 1).last() == node@);
            }
            if node.path.is(&self.root) {
                selected = nodes.len();
                node.open = true;
                let ghost line = node@;
                nodes.push(node);
                assert(nodes_view(nodes@) =~= before.push(line));
                if !hung_yet {
                    nodes.append(&mut old);
                    hung_yet = true;
                    assert(nodes_view(nodes@) =~= before.push(line) + below);
                }
            } else {
                let ghost line = node@;
                nodes.push(node);
                assert(nodes_view(nodes@) =~= before.push(line));
            }
            proof {
                k = k + 1;
            }
            assert(nodes_view(nodes@) =~= seq![top] + hung(all.take(k), was.root, below));
        }
        assert(all.take(k) =~= all);
        proof {
            let rows = hung(all, was.root, below);
            deeper_is_a_block(was.nodes);
            hung_is_a_block(all, was.root, below);
            hung_row_is_inside(all, was.root, below);
            block_under_root(top, rows);
        }
        self.root = parent;
        self.nodes = nodes;
        self.selected = selected;
        self.relayout();
    }

    /// Reads the open folders again, keeping which are open and which row is
    /// selected where they still exist.
    pub fn refresh(&mut self, disk: &Disk)
        requires
            old(self).wf(),
        ensures
            final(self).wf(),
            final(self)@ == refreshed(old(self)@, disk@),
    {
        let open = self.open_folders();
        let count: usize = self.nodes.len();
        let selected = self.nodes[self.selected].path.clone();
        let mut nodes: Vec<Node> = Vec::new();
        nodes.push(root_node(&self.root, self.on));
        let mut below = grow(&self.root, 1, &open, disk, self.on);
        let ghost rows = nodes_view(below@);
        let ghost top = root_line(self@.root, self@.on);
        nodes.append(&mut below);
        proof {
            assert(nodes_view(nodes@) =~= seq![top] + rows);
            grown_is_a_block(
                disk@.listing(self@.root),
                self@.root,
                1,
                paths_view(open@),
                disk@,
                self@.on,
            );
            block_under_root(top, rows);
        }
        self.nodes = nodes;
        self.selected = 0;
        self.relayout();
        match self.position(&selected) {
            Some(row) => {
                self.selected = row;
            },
            None => {},
        }
    }

    /// The folders open below the root line.
    pub fn open_folders(&self) -> (open: Vec<FsPath>)
        requires
            self.wf(),
        ensures
            paths_view(open@) == open_paths(self@.nodes),
            open@.len() < self@.nodes.len(),
    {
        let ghost rows = self@.nodes;
        let mut open: Vec<FsPath> = Vec::new();
        let mut i: usize = 1;
        assert(paths_view(open@) =~= open_paths(rows.take(1)));
        while i < self.nodes.len()
            invariant
                1 <= i <= self.nodes@.len(),
                rows == self@.nodes,
                paths_view(open@) == open_paths(rows.take(i as int)),
                open@.len() < i,
            decreases self.nodes@.len() - i,
        {
            assert(rows.take(i + 1).drop_last() =~= rows.take(i as int));
            assert(rows[i as int] == self.nodes@[i as int]@);
            if self.nodes[i].open {
                let ghost was = paths_view(open@);
                open.push(self.nodes[i].path.clone());
                assert(paths_view(open@) =~= was.push(rows[i as int].path));
            }
            i += 1;
        }
        assert(rows.take(i as int) =~= rows);
        open
    }

    /// The tree of a search's matches, best first: each under the folders it
    /// sits in, which are dimmed unless they match too, and the best selected.
    pub fn from_matches(root: FsPath, matches: &Vec<Found>, on: Platform) -> (tree: Tree)
        ensures
            tree.wf(),
            tree@ == TreeView::of_matches(root@, founds_view(matches@), on),
    {
        let ghost all = founds_view(matches@);
        let mut nodes: Vec<Node> = Vec::new();
        nodes.push(root_node(&root, on));
        let ghost top = root_line(root@, on);
        let mut tree = Tree { root, nodes, selected: 0, first: 0, on };
        let mut i: usize = 0;
        assert(all.take(0) =~= Seq::<(PathView, bool)>::empty());
        assert(tree@.nodes =~= seq![top]);
        while i < matches.len()
            invariant
                i <= matches@.len(),
                shape(tree@.nodes),
                top == root_line(root@, on),
                all == founds_view(matches@),
                tree@.nodes == with_matches(root@, all.take(i as int), on),
                tree@ == (TreeView {
                    root: root@,
                    nodes: tree@.nodes,
                    selected: 0,
                    first: 0,
                    on,
                }),
                tree@.nodes[0].path == root@,
                tree@.nodes[0].is_dir,
            decreases matches@.len() - i,
        {
            assert(all.take(i + 1).drop_last() =~= all.take(i as int));
            tree.hang_match(&matches[i].0, matches[i].1);
            i += 1;
        }
        assert(all.take(i as int) =~= all);
        proof {
            laid_keeps(tree@.nodes);
        }
        tree.relayout();
        if matches.len() > 0 {
            match tree.position(&matches[0].0) {
                Some(row) => {
                    tree.selected = row;
                },
                None => {},
            }
        }
        tree
    }

    /// Adds a row under the one at `parent`, after what is there.
    fn hang(&mut self, parent: usize, node: Node)
        requires
            shape(old(self)@.nodes),
            parent < old(self)@.nodes.len(),
            old(self)@.nodes[0].is_dir,
        ensures
            shape(final(self)@.nodes),
            final(self)@ == (TreeView {
                nodes: hung_under(old(self)@.nodes, parent as int, node@),
                ..old(self)@
            }),
            final(self)@.nodes[0].path == old(self)@.nodes[0].path,
            final(self)@.nodes[0].is_dir,
    {
        let ghost was = self@.nodes;
        let ghost deep = depths(was);
        let depth: usize = self.nodes[parent].depth;
        let count: usize = self.nodes.len();
        let mut end: usize = parent + 1;
        while end < self.nodes.len() && self.nodes[end].depth > depth
            invariant
                parent < end <= self.nodes@.len(),
                was == self@.nodes,
                deep == depths(was),
                end_of(deep, depth, parent + 1) == end_of(deep, depth, end as int),
                self@ == old(self)@,
            ensures
                parent < end <= self.nodes@.len(),
                end_of(deep, depth, parent + 1) == end,
                self@ == old(self)@,
            decreases self.nodes@.len() - end,
        {
            assert(deep[end as int] == self.nodes@[end as int].depth);
            end += 1;
        }
        proof {
            depth_is_bounded(was, parent as int);
            assert(was[parent as int] == self.nodes@[parent as int]@);
            hanging_keeps_shape(was, parent as int, node@);
        }
        let mut node = node;
        node.depth = depth + 1;
        self.nodes[parent].open = true;
        self.nodes.insert(end, node);
        assert(self@.nodes =~= hung_under(was, parent as int, node@)) by {
            end_of_is_after(deep, depth, parent + 1);
        }
    }

    fn hang_folder(&mut self, path: &FsPath)
        requires
            shape(old(self)@.nodes),
            old(self)@.nodes[0].is_dir,
        ensures
            shape(final(self)@.nodes),
            final(self)@ == (TreeView {
                nodes: with_folder(old(self)@.nodes, path@, old(self)@.on),
                ..old(self)@
            }),
            final(self)@.nodes[0].path == old(self)@.nodes[0].path,
            final(self)@.nodes[0].is_dir,
        decreases path@.names.len(),
    {
        if self.position(path).is_some() {
            return;
        }
        match path.parent() {
            None => {},
            Some(parent) => {
                self.hang_folder(&parent);
                let row: usize = self.row_or_root(&parent);
                let node = node_for(path, true, true, self.on);
                self.hang(row, node);
            },
        }
    }

    fn hang_match(&mut self, path: &FsPath, is_dir: bool)
        requires
            shape(old(self)@.nodes),
            old(self)@.nodes[0].is_dir,
        ensures
            shape(final(self)@.nodes),
            final(self)@ == (TreeView {
                nodes: with_match(old(self)@.nodes, path@, is_dir, old(self)@.on),
                ..old(self)@
            }),
            final(self)@.nodes[0].path == old(self)@.nodes[0].path,
            final(self)@.nodes[0].is_dir,
    {
        match self.position(path) {
            Some(row) => {
                let ghost was = self@.nodes;
                self.nodes[row].dim = false;
                proof {
                    let out = was.update(row as int, NodeView { dim: false, ..was[row as int] });
                    assert(self@.nodes =~= out);
                    assert forall|i: int| 0 < i < out.len() implies #[trigger] follows(
                        out,
                        i,
                    ) by {
                        assert(follows(was, i));
                    }
                }
            },
            None => match path.parent() {
                None => {},
                Some(parent) => {
                    self.hang_folder(&parent);
                    let row: usize = self.row_or_root(&parent);
                    let node = node_for(path, is_dir, false, self.on);
                    self.hang(row, node);
                },
            },
        }
    }

    fn row_or_root(&self, path: &FsPath) -> (row: usize)
        requires
            shape(self@.nodes),
        ensures
            row == row_or_root(self@.nodes, path@),
            row < self@.nodes.len(),
    {
        match self.position(path) {
            Some(row) => row,
            None => 0,
        }
    }

    /// Opens the folders above `path` and selects it, where it is in the tree.
    pub fn show_in_place(&mut self, path: &FsPath, disk: &Disk)
        requires
            old(self).wf(),
        ensures
            final(self).wf(),
            final(self)@ == old(self)@.showing(path@, disk@),
    {
        self.open_to(path, disk);
        match self.position(path) {
            Some(row) => {
                self.selected = row;
            },
            None => {},
        }
    }

    fn open_to(&mut self, path: &FsPath, disk: &Disk)
        requires
            old(self).wf(),
        ensures
            final(self).wf(),
            final(self)@ == (TreeView {
                nodes: opened_to(old(self)@.nodes, path@, disk@, old(self)@.on),
                ..old(self)@
            }),
        decreases path@.names.len(),
    {
        match path.parent() {
            None => {},
            Some(parent) => {
                self.open_to(&parent, disk);
                match self.position(&parent) {
                    Some(row) => {
                        self.open(row, disk);
                    },
                    None => {},
                }
            },
        }
    }

    /// Draws the lines in front of each label. A row is the last of its
    /// folder when no row at its depth follows before a shallower one.
    fn relayout(&mut self)
        requires
            shape(old(self)@.nodes),
        ensures
            shape(final(self)@.nodes),
            final(self)@.nodes == laid(final(self)@.nodes),
            final(self)@ == (TreeView { nodes: laid(old(self)@.nodes), ..old(self)@ }),
    {
        let ghost rows = self@.nodes;
        let ghost deep = depths(rows);
        let last = last_rows(&self.nodes);
        let mut ancestors: Vec<bool> = Vec::new();
        let mut i: usize = 0;
        while i < self.nodes.len()
            invariant
                i <= self.nodes@.len(),
                self.nodes@.len() == rows.len(),
                shape(rows),
                deep == depths(rows),
                last@.len() == rows.len(),
                forall|k: int| 0 <= k < rows.len() ==> #[trigger] last@[k] == is_last(deep, k),
                i == 0 ==> ancestors@.len() == 0,
                i > 0 ==> ancestors@.len() == deep[i - 1] + 1,
                i > 0 ==> forall|d: int|
                    0 <= d < ancestors@.len() ==> #[trigger] ancestors@[d] == is_last(
                        deep,
                        line_of(deep, i - 1, d as usize),
                    ),
                forall|k: int|
                    0 <= k < i ==> #[trigger] self.nodes@[k]@ == (NodeView {
                        guide: guide_of(deep, k),
                        ..rows[k]
                    }),
                forall|k: int| i <= k < rows.len() ==> #[trigger] self.nodes@[k]@ == rows[k],
                self@.root == old(self)@.root,
                self@.selected == old(self)@.selected,
                self@.first == old(self)@.first,
                self@.on == old(self)@.on,
            decreases self.nodes@.len() - i,
        {
            assert(self.nodes@[i as int]@ == rows[i as int]);
            let depth: usize = self.nodes[i].depth;
            assert(deep[i as int] == depth);
            proof {
                if i > 0 {
                    assert(follows(rows, i as int));
                }
                depth_is_bounded(rows, i as int);
            }
            let ghost was = ancestors@;
            ancestors.truncate(depth);
            let mut guide = String::new();
            let mut d: usize = 1;
            while d < depth
                invariant
                    depth > 0 ==> 1 <= d <= depth,
                    depth == 0 ==> d == 1,
                    i < rows.len(),
                    deep[i as int] == depth,
                    ancestors@.len() == depth,
                    depth > 0 ==> i > 0,
                    i > 0 ==> forall|k: int|
                        0 <= k < depth ==> #[trigger] ancestors@[k] == is_last(
                            deep,
                            line_of(deep, i as int, k as usize),
                        ),
                    guide@ == trail(deep, i as int, d as nat),
                decreases depth - d,
            {
                proof {
                    reveal_strlit("   ");
                    reveal_strlit("│  ");
                }
                assert("   "@ =~= seq![' ', ' ', ' ']);
                assert("│  "@ =~= seq!['│', ' ', ' ']);
                assert(ancestors@[d as int] == is_last(deep, line_of(deep, i as int, d)));
                guide.push_str(
                    if ancestors[d] {
                        "   "
                    } else {
                        "│  "
                    },
                );
                d += 1;
            }
            if depth > 0 {
                proof {
                    reveal_strlit("└─ ");
                    reveal_strlit("├─ ");
                }
                assert("└─ "@ =~= seq!['└', '─', ' ']);
                assert("├─ "@ =~= seq!['├', '─', ' ']);
                guide.push_str(
                    if last[i] {
                        "└─ "
                    } else {
                        "├─ "
                    },
                );
            }
            assert(guide@ =~= guide_of(deep, i as int));
            self.nodes[i].guide = guide;
            assert(self.nodes@[i as int]@ == (NodeView {
                guide: guide_of(deep, i as int),
                ..rows[i as int]
            }));
            ancestors.push(last[i]);
            assert forall|d: int| 0 <= d < ancestors@.len() implies #[trigger] ancestors@[d]
                == is_last(deep, line_of(deep, i as int, d as usize)) by {
                if d < depth {
                    assert(ancestors@[d] == was[d]);
                }
            }
            i += 1;
        }
        proof {
            assert(self@.nodes =~= laid(rows));
            laid_keeps(rows);
        }
    }
}

pub open spec fn paths_view(paths: Seq<FsPath>) -> Seq<PathView> {
    paths.map_values(|p: FsPath| p@)
}

fn node_for(path: &FsPath, is_dir: bool, folder: bool, on: Platform) -> (node: Node)
    requires
        path@.names.len() > 0,
    ensures
        node@ == row_for(path@, is_dir, folder, on),
{
    let name: String = path.names[path.names.len() - 1].clone();
    assert(name@ == path@.names.last());
    let item = Item { name, is_dir };
    let node = Node {
        path: path.clone(),
        label: item.label(on),
        is_dir,
        depth: 0,
        open: folder,
        guide: String::new(),
        dim: folder,
    };
    assert(node@ =~= row_for(path@, is_dir, folder, on));
    node
}

fn listed_in(paths: &Vec<FsPath>, path: &FsPath) -> (res: bool)
    ensures
        res == paths_view(paths@).contains(path@),
{
    let mut i: usize = 0;
    while i < paths.len()
        invariant
            i <= paths@.len(),
            forall|k: int| 0 <= k < i ==> #[trigger] paths@[k]@ != path@,
        decreases paths@.len() - i,
    {
        if paths[i].is(path) {
            assert(paths_view(paths@)[i as int] == path@);
            return true;
        }
        i += 1;
    }
    assert forall|k: int| 0 <= k < paths@.len() implies paths_view(paths@)[k] != path@ by {
        assert(paths@[k]@ != path@);
    }
    false
}

fn others(paths: &Vec<FsPath>, path: &FsPath) -> (rest: Vec<FsPath>)
    ensures
        paths_view(rest@) == without(paths_view(paths@), path@),
{
    let ghost all = paths_view(paths@);
    let mut rest: Vec<FsPath> = Vec::new();
    let mut i: usize = 0;
    assert(paths_view(rest@) =~= without(all.take(0), path@));
    while i < paths.len()
        invariant
            i <= paths@.len(),
            all == paths_view(paths@),
            paths_view(rest@) == without(all.take(i as int), path@),
        decreases paths@.len() - i,
    {
        assert(all.take(i + 1).drop_last() =~= all.take(i as int));
        assert(all[i as int] == paths@[i as int]@);
        if !paths[i].is(path) {
            let ghost was = paths_view(rest@);
            rest.push(paths[i].clone());
            assert(paths_view(rest@) =~= was.push(all[i as int]));
        }
        i += 1;
    }
    assert(all.take(i as int) =~= all);
    rest
}

/// The rows of what is in `dir`, the folders among `open` open.
fn grow(
    dir: &FsPath,
    depth: usize,
    open: &Vec<FsPath>,
    disk: &Disk,
    on: Platform,
) -> (nodes: Vec<Node>)
    requires
        depth + open@.len() <= usize::MAX,
    ensures
        nodes_view(nodes@) == grown(
            disk@.listing(dir@),
            dir@,
            depth,
            paths_view(open@),
            disk@,
            on,
        ),
    decreases open@.len(),
{
    let items = disk.listing(dir);
    let ghost all = browse::items_view(items@);
    let ghost wanted = paths_view(open@);
    let mut nodes: Vec<Node> = Vec::new();
    let mut i: usize = 0;
    assert(all.take(0) =~= Seq::<ItemView>::empty());
    assert(nodes_view(nodes@) =~= grown(all.take(0), dir@, depth, wanted, disk@, on));
    while i < items.len()
        invariant
            i <= items@.len(),
            all == browse::items_view(items@),
            wanted == paths_view(open@),
            depth + open@.len() <= usize::MAX,
            nodes_view(nodes@) == grown(all.take(i as int), dir@, depth, wanted, disk@, on),
        decreases items@.len() - i,
    {
        assert(all.take(i + 1).drop_last() =~= all.take(i as int));
        assert(all[i as int] == items@[i as int]@);
        let mut node = child_node(dir, &items[i], depth, on);
        let ghost line = node@;
        let ghost was = nodes_view(nodes@);
        if node.is_dir && listed_in(open, &node.path) {
            proof {
                without_is_shorter(wanted, line.path);
            }
            let rest = others(open, &node.path);
            assert(rest@.len() == paths_view(rest@).len());
            let mut below = grow(&node.path, depth + 1, &rest, disk, on);
            let ghost rows = nodes_view(below@);
            node.open = true;
            nodes.push(node);
            nodes.append(&mut below);
            assert(nodes_view(nodes@) =~= was.push(NodeView { open: true, ..line }) + rows);
        } else {
            nodes.push(node);
            assert(nodes_view(nodes@) =~= was.push(line));
        }
        i += 1;
    }
    assert(all.take(i as int) =~= all);
    nodes
}

/// Whether rows can stand in a folder, at depth `d`.
pub open spec fn block(s: Seq<NodeView>, d: usize) -> bool {
    &&& s.len() > 0 ==> s[0].depth == d
    &&& forall|i: int| 0 <= i < s.len() ==> (#[trigger] s[i]).depth >= d
    &&& forall|i: int| 0 < i < s.len() ==> #[trigger] follows(s, i)
}

proof fn blocks_join(a: Seq<NodeView>, b: Seq<NodeView>, d: usize)
    requires
        block(a, d),
        block(b, d),
        d >= 1,
    ensures
        block(a + b, d),
{
    let s = a + b;
    assert forall|i: int| 0 < i < s.len() implies #[trigger] follows(s, i) by {
        if i < a.len() {
            assert(follows(a, i));
        } else if i == a.len() {
            assert(s[i] == b[0]);
            assert(s[i - 1] == a[i - 1]);
        } else {
            assert(follows(b, i - a.len()));
        }
    }
}

/// A row, open, and what is below it.
proof fn block_of_branch(node: NodeView, below: Seq<NodeView>, d: usize)
    requires
        node.depth == d,
        node.open,
        1 <= d < usize::MAX,
        block(below, (d + 1) as usize),
    ensures
        block(seq![node] + below, d),
{
    let s = seq![node] + below;
    assert forall|i: int| 0 < i < s.len() implies #[trigger] follows(s, i) by {
        if i == 1 {
            assert(s[1] == below[0] && s[0] == node);
        } else {
            assert(follows(below, i - 1));
        }
    }
    assert forall|i: int| 0 <= i < s.len() implies (#[trigger] s[i]).depth >= d by {
        if i > 0 {
            assert(s[i] == below[i - 1]);
        }
    }
}

proof fn block_of_row(node: NodeView, d: usize)
    requires
        node.depth == d,
    ensures
        block(seq![node], d),
{
}

proof fn block_under_root(top: NodeView, rows: Seq<NodeView>)
    requires
        top.depth == 0,
        top.open,
        block(rows, 1),
    ensures
        shape(seq![top] + rows),
{
    let s = seq![top] + rows;
    assert forall|i: int| 0 < i < s.len() implies #[trigger] follows(s, i) by {
        if i == 1 {
            assert(s[1] == rows[0] && s[0] == top);
        } else {
            assert(follows(rows, i - 1));
        }
    }
}

proof fn hung_is_a_block(kids: Seq<NodeView>, old_root: PathView, below: Seq<NodeView>)
    requires
        forall|k: int| 0 <= k < kids.len() ==> (#[trigger] kids[k]).depth == 1,
        block(below, 2),
    ensures
        block(hung(kids, old_root, below), 1),
    decreases kids.len(),
{
    if kids.len() > 0 {
        let before = hung(kids.drop_last(), old_root, below);
        let kid = kids.last();
        hung_is_a_block(kids.drop_last(), old_root, below);
        let line = NodeView { open: true, ..kid };
        if kid.path != old_root {
            block_of_row(kid, 1);
            blocks_join(before, seq![kid], 1);
            assert(before + seq![kid] =~= before.push(kid));
        } else if row_of(kids.drop_last(), old_root) is None {
            block_of_branch(line, below, 1);
            blocks_join(before, seq![line] + below, 1);
            assert(before + (seq![line] + below) =~= before.push(line) + below);
        } else {
            block_of_row(line, 1);
            blocks_join(before, seq![line], 1);
            assert(before + seq![line] =~= before.push(line));
        }
    }
}

proof fn hung_row_is_inside(kids: Seq<NodeView>, old_root: PathView, below: Seq<NodeView>)
    ensures
        hung_row(kids, old_root, below) matches Some(row) ==> 0 <= row < hung(
            kids,
            old_root,
            below,
        ).len() && hung(kids, old_root, below)[row].path == old_root && hung(
            kids,
            old_root,
            below,
        )[row].open,
    decreases kids.len(),
{
    if kids.len() > 0 {
        hung_row_is_inside(kids.drop_last(), old_root, below);
    }
}

proof fn deeper_is_a_block(nodes: Seq<NodeView>)
    requires
        shape(nodes),
        nodes.len() <= usize::MAX,
    ensures
        block(deeper(nodes.skip(1)), 2),
{
    let s = deeper(nodes.skip(1));
    assert forall|i: int| 0 <= i < s.len() implies (#[trigger] s[i]).depth == nodes[i + 1].depth + 1
        && s[i].open == nodes[i + 1].open && s[i].depth >= 2 by {
        depth_is_bounded(nodes, i + 1);
        assert(follows(nodes, i + 1));
    }
    assert forall|i: int| 0 < i < s.len() implies #[trigger] follows(s, i) by {
        assert(follows(nodes, i + 1));
        assert(s[i].depth == nodes[i + 1].depth + 1);
        assert(s[i - 1].depth == nodes[i].depth + 1);
    }
    if s.len() > 0 {
        assert(follows(nodes, 1));
    }
}

proof fn grown_is_a_block(
    items: Seq<ItemView>,
    dir: PathView,
    depth: usize,
    open: Seq<PathView>,
    disk: DiskView,
    on: Platform,
)
    requires
        1 <= depth,
        depth + open.len() <= usize::MAX,
    ensures
        block(grown(items, dir, depth, open, disk, on), depth),
    decreases open.len(), items.len(),
{
    if items.len() > 0 {
        let before = grown(items.drop_last(), dir, depth, open, disk, on);
        let node = child(dir, items.last(), depth, on);
        grown_is_a_block(items.drop_last(), dir, depth, open, disk, on);
        if node.is_dir && open.contains(node.path) {
            without_is_shorter(open, node.path);
            let line = NodeView { open: true, ..node };
            let below = grown(
                disk.listing(node.path),
                node.path,
                (depth + 1) as usize,
                without(open, node.path),
                disk,
                on,
            );
            grown_is_a_block(
                disk.listing(node.path),
                node.path,
                (depth + 1) as usize,
                without(open, node.path),
                disk,
                on,
            );
            block_of_branch(line, below, depth);
            blocks_join(before, seq![line] + below, depth);
            assert(before + (seq![line] + below) =~= before.push(line) + below);
        } else {
            block_of_row(node, depth);
            blocks_join(before, seq![node], depth);
            assert(before + seq![node] =~= before.push(node));
        }
    }
}

proof fn hanging_keeps_shape(nodes: Seq<NodeView>, parent: int, node: NodeView)
    requires
        shape(nodes),
        0 <= parent < nodes.len(),
        nodes[parent].depth < usize::MAX,
    ensures
        shape(hung_under(nodes, parent, node)),
        hung_under(nodes, parent, node)[0].path == nodes[0].path,
        hung_under(nodes, parent, node)[0].is_dir == nodes[0].is_dir,
{
    let d = nodes[parent].depth;
    let end = below_end(nodes, parent);
    end_of_is_after(depths(nodes), d, parent + 1);
    assert forall|k: int| parent < k < end implies nodes[k].depth > d by {
        assert(depths(nodes)[k] > d);
    }
    assert(end < nodes.len() ==> depths(nodes)[end] <= d);
    let out = hung_under(nodes, parent, node);
    assert forall|i: int| 0 < i < out.len() implies #[trigger] follows(out, i) by {
        if i < end {
            assert(follows(nodes, i));
        } else if i > end {
            assert(follows(nodes, i - 1));
            assert(out[i].depth == nodes[i - 1].depth);
            if i == end + 1 {
                assert(out[end].depth == d + 1);
            }
        }
    }
}

/// What is found early is what is found.
proof fn row_of_extends(nodes: Seq<NodeView>, n: int, path: PathView)
    requires
        0 <= n <= nodes.len(),
        row_of(nodes.take(n), path) is Some,
    ensures
        row_of(nodes, path) == row_of(nodes.take(n), path),
    decreases nodes.len() - n,
{
    if n < nodes.len() {
        assert(nodes.take(n + 1).drop_last() =~= nodes.take(n));
        row_of_extends(nodes, n + 1, path);
    } else {
        assert(nodes.take(n) =~= nodes);
    }
}

/// The rows of a tree just planted, lines not drawn yet.
fn planted_rows(root: &FsPath, disk: &Disk, on: Platform) -> (nodes: Vec<Node>)
    ensures
        nodes_view(nodes@) == seq![root_line(root@, on)] + rows_in(root@, 1, disk@, on),
        shape(nodes_view(nodes@)),
{
    let mut nodes: Vec<Node> = Vec::new();
    nodes.push(root_node(root, on));
    let mut below = children(root, 1, disk, on);
    let ghost kids = nodes_view(below@);
    nodes.append(&mut below);
    proof {
        let rows = nodes_view(nodes@);
        assert(rows =~= seq![root_line(root@, on)] + kids);
        assert forall|i: int| 0 < i < rows.len() implies #[trigger] follows(rows, i) by {
            assert(rows[i] == kids[i - 1]);
            if i > 1 {
                assert(rows[i - 1] == kids[i - 2]);
            }
        }
    }
    nodes
}

proof fn opening_keeps_shape(nodes: Seq<NodeView>, index: int, kids: Seq<NodeView>)
    requires
        shape(nodes),
        0 <= index < nodes.len(),
        !nodes[index].open,
        forall|k: int|
            0 <= k < kids.len() ==> (#[trigger] kids[k]).depth == nodes[index].depth + 1
                && !kids[k].open,
    ensures
        shape(
            nodes.take(index).push(NodeView { open: true, ..nodes[index] }) + kids + nodes.skip(
                index + 1,
            ),
        ),
{
    let out = nodes.take(index).push(NodeView { open: true, ..nodes[index] }) + kids + nodes.skip(
        index + 1,
    );
    let mid = index + 1 + kids.len();
    assert forall|i: int| 0 < i < out.len() implies #[trigger] follows(out, i) by {
        if i <= index {
            assert(follows(nodes, i));
        } else if i < mid {
            assert(out[i] == kids[i - index - 1]);
            if i > index + 1 {
                assert(out[i - 1] == kids[i - index - 2]);
            }
        } else {
            assert(out[i] == nodes[i - kids.len()]);
            assert(follows(nodes, i - kids.len()));
            if i > mid {
                assert(out[i - 1] == nodes[i - 1 - kids.len()]);
            } else if kids.len() > 0 {
                assert(out[i - 1] == kids[kids.len() - 1]);
            }
        }
    }
}

proof fn closing_keeps_shape(nodes: Seq<NodeView>, index: int, end: int)
    requires
        shape(nodes),
        0 <= index < end <= nodes.len(),
        end < nodes.len() ==> nodes[end].depth <= nodes[index].depth,
    ensures
        shape(
            nodes.take(index).push(NodeView { open: false, ..nodes[index] }) + nodes.skip(end),
        ),
{
    let out = nodes.take(index).push(NodeView { open: false, ..nodes[index] }) + nodes.skip(end);
    assert forall|i: int| 0 < i < out.len() implies #[trigger] follows(out, i) by {
        if i <= index {
            assert(follows(nodes, i));
        } else {
            let k = i - index - 1 + end;
            assert(out[i] == nodes[k]);
            assert(follows(nodes, k));
            if i > index + 1 {
                assert(out[i - 1] == nodes[k - 1]);
            }
        }
    }
}

/// A row without the lines before its name.
spec fn unlined(node: NodeView) -> NodeView {
    NodeView { guide: Seq::empty(), ..node }
}

/// The lines before the names are those of the rows, whatever they were before.
proof fn alike_are_laid_alike(a: Seq<NodeView>, b: Seq<NodeView>)
    requires
        a.len() == b.len(),
        forall|k: int| 0 <= k < b.len() ==> #[trigger] unlined(a[k]) == unlined(b[k]),
    ensures
        laid(a) == laid(b),
{
    assert(depths(a) =~= depths(b)) by {
        assert forall|k: int| 0 <= k < b.len() implies depths(a)[k] == depths(b)[k] by {
            assert(unlined(a[k]) == unlined(b[k]));
        }
    }
    assert(laid(a) =~= laid(b)) by {
        assert forall|k: int| 0 <= k < b.len() implies laid(a)[k] == laid(b)[k] by {
            assert(unlined(a[k]) == unlined(b[k]));
        }
    }
}

/// The rows of a folder just opened end where what it holds does.
proof fn opened_rows_end(nodes: Seq<NodeView>, index: int, kids: Seq<NodeView>)
    requires
        shape(nodes),
        0 <= index < nodes.len(),
        !nodes[index].open,
        forall|k: int| 0 <= k < kids.len() ==> (#[trigger] kids[k]).depth > nodes[index].depth,
    ensures
        ({
            let open = nodes.take(index).push(NodeView { open: true, ..nodes[index] }) + kids
                + nodes.skip(index + 1);
            end_of(depths(laid(open)), nodes[index].depth, index + 1) == index + 1 + kids.len()
        }),
{
    let d = nodes[index].depth;
    let open = nodes.take(index).push(NodeView { open: true, ..nodes[index] }) + kids
        + nodes.skip(index + 1);
    laid_keeps(open);
    let ds = depths(laid(open));
    let end = index + 1 + kids.len();
    end_of_is_after(ds, d, index + 1);
    let e = end_of(ds, d, index + 1);
    assert forall|k: int| index < k < end implies ds[k] > d by {
        assert(open[k] == kids[k - index - 1]);
    }
    if e < end {
        assert(ds[e] > d);
    }
    if e > end {
        assert(open[end] == nodes[index + 1]);
        assert(follows(nodes, index + 1));
        assert(ds[end] > d);
    }
}

/// Closing a folder that has just been opened brings back the rows there were.
pub proof fn closing_undoes_opening(t: TreeView, index: int, disk: DiskView)
    requires
        t.wf(),
        0 <= index < t.nodes.len(),
        t.nodes.len() <= usize::MAX,
        t.nodes[index].is_dir,
        !t.nodes[index].open,
    ensures
        shut(opened(t.nodes, index, disk, t.on), index) == t.nodes,
{
    let nodes = t.nodes;
    let node = nodes[index];
    let d = node.depth;
    depth_is_bounded(nodes, index);
    let kids = rows_in(node.path, (d + 1) as usize, disk, t.on);
    let open = nodes.take(index).push(NodeView { open: true, ..node }) + kids + nodes.skip(
        index + 1,
    );
    let out = laid(open);
    assert(opened(nodes, index, disk, t.on) == out);
    laid_keeps(open);
    opened_rows_end(nodes, index, kids);
    let end = index + 1 + kids.len();
    assert(out[index].depth == d);
    let closed = out.take(index).push(NodeView { open: false, ..out[index] }) + out.skip(end);
    assert(shut(out, index) == laid(closed));
    assert forall|k: int| 0 <= k < nodes.len() implies #[trigger] unlined(closed[k]) == unlined(
        nodes[k],
    ) by {
        if k < index {
            assert(closed[k] == out[k]);
            assert(open[k] == nodes[k]);
        } else if k == index {
            assert(open[k] == NodeView { open: true, ..node });
        } else {
            assert(closed[k] == out[k + kids.len()]);
            assert(open[k + kids.len()] == nodes[k]);
        }
    }
    alike_are_laid_alike(closed, nodes);
}

/// Right opens a folder and Left closes it again.
pub proof fn left_undoes_right(t: TreeView, disk: DiskView)
    requires
        t.wf(),
        t.nodes.len() <= usize::MAX,
        t.selected > 0,
        t.selected_node().is_dir,
        !t.selected_node().open,
    ensures
        t.went_right(disk).went_left() == t,
{
    let index = t.selected as int;
    closing_undoes_opening(t, index, disk);
    let node = t.nodes[index];
    depth_is_bounded(t.nodes, index);
    let open = t.nodes.take(index).push(NodeView { open: true, ..node }) + rows_in(
        node.path,
        (node.depth + 1) as usize,
        disk,
        t.on,
    ) + t.nodes.skip(index + 1);
    laid_keeps(open);
    assert(t.went_right(disk).selected_node().open);
}

/// Closing a folder keeps the selection on the row it was on, or on the folder
/// itself when it was inside.
pub proof fn closing_keeps_the_selection(t: TreeView, index: int)
    requires
        t.wf(),
        t.nodes.len() <= usize::MAX,
        0 <= index < t.nodes.len(),
    ensures
        ({
            let kept = kept_selection(t.nodes, index, t.selected);
            let inside = index < t.selected < below_end(t.nodes, index);
            &&& kept < shut(t.nodes, index).len()
            &&& shut(t.nodes, index)[kept as int].path == (if inside {
                t.nodes[index].path
            } else {
                t.selected_node().path
            })
        }),
{
    let nodes = t.nodes;
    let end = below_end(nodes, index);
    end_of_is_after(depths(nodes), nodes[index].depth, index + 1);
    let closed = nodes.take(index).push(NodeView { open: false, ..nodes[index] }) + nodes.skip(end);
    laid_keeps(closed);
    let kept = kept_selection(nodes, index, t.selected) as int;
    if t.selected >= end {
        assert(closed[kept] == nodes[t.selected as int]);
    } else if t.selected >= index {
        assert(closed[kept] == NodeView { open: false, ..nodes[index] });
    } else {
        assert(closed[kept] == nodes[kept]);
    }
}

proof fn trail_is_as_long(depths: Seq<usize>, i: int, d: nat)
    requires
        d >= 1,
    ensures
        trail(depths, i, d).len() == 3 * (d - 1),
    decreases d,
{
    if d > 1 {
        trail_is_as_long(depths, i, (d - 1) as nat);
    }
}

/// The lines in front of a label are three columns for each level.
pub proof fn a_guide_is_three_columns_a_level(t: TreeView, i: int)
    requires
        t.wf(),
        0 <= i < t.nodes.len(),
    ensures
        t.nodes[i].guide.len() == 3 * t.nodes[i].depth,
{
    assert(t.nodes[i] == laid(t.nodes)[i]);
    let ds = depths(t.nodes);
    if ds[i] > 0 {
        trail_is_as_long(ds, i, ds[i] as nat);
    }
}

proof fn row_of_is_first(nodes: Seq<NodeView>, path: PathView)
    requires
        nodes.len() <= usize::MAX,
    ensures
        match row_of(nodes, path) {
            Some(row) => row < nodes.len() && nodes[row as int].path == path,
            None => forall|k: int| 0 <= k < nodes.len() ==> (#[trigger] nodes[k]).path != path,
        },
    decreases nodes.len(),
{
    if nodes.len() > 0 {
        let before = nodes.drop_last();
        row_of_is_first(before, path);
        if row_of(before, path) is None && nodes.last().path != path {
            assert forall|k: int| 0 <= k < nodes.len() implies (#[trigger] nodes[k]).path != path by {
                if k < before.len() {
                    assert(before[k] == nodes[k]);
                }
            }
        }
    }
}

/// The tree lists a folder in the order the columns do, and starts on the item
/// that was selected there.
pub proof fn a_tree_starts_on_what_was_selected(
    root: PathView,
    i: int,
    disk: DiskView,
    on: Platform,
)
    requires
        0 <= i < disk.listing(root).len() < usize::MAX,
    ensures
        ({
            let path = root.join(disk.listing(root)[i].name, on);
            let t = TreeView::fresh(root, Some(path), on, disk);
            &&& t.nodes.len() == disk.listing(root).len() + 1
            &&& t.nodes[i + 1].path == path
            &&& t.nodes[i + 1].label == disk.listing(root)[i].label(on)
            &&& t.selected_node().path == path
        }),
{
    let path = root.join(disk.listing(root)[i].name, on);
    let bare = seq![root_line(root, on)] + rows_in(root, 1, disk, on);
    laid_keeps(bare);
    assert(bare[i + 1] == child(root, disk.listing(root)[i], 1, on));
    let nodes = planted(root, disk, on);
    assert(nodes[i + 1].path == path);
    row_of_is_first(nodes, path);
}

/// Reading the tree again keeps the selection, as long as what was selected is
/// still there, and otherwise selects the top line; and it opens nothing that
/// was not open.
pub proof fn reading_the_tree_again_keeps_the_selection(t: TreeView, disk: DiskView)
    requires
        refreshed(t, disk).nodes.len() <= usize::MAX,
    ensures
        ({
            let q = refreshed(t, disk);
            &&& (exists|k: int|
                0 <= k < q.nodes.len() && (#[trigger] q.nodes[k]).path == t.selected_node().path)
                ==> q.selected_node().path == t.selected_node().path
            &&& !(exists|k: int|
                0 <= k < q.nodes.len() && (#[trigger] q.nodes[k]).path == t.selected_node().path)
                ==> q.selected == 0
            &&& forall|k: int|
                0 < k < q.nodes.len() && (#[trigger] q.nodes[k]).open ==> open_paths(
                    t.nodes,
                ).contains(q.nodes[k].path)
        }),
{
    let open = open_paths(t.nodes);
    let rows = grown(disk.listing(t.root), t.root, 1, open, disk, t.on);
    let bare = seq![root_line(t.root, t.on)] + rows;
    laid_keeps(bare);
    let q = refreshed(t, disk);
    row_of_is_first(q.nodes, t.selected_node().path);
    grown_opens_those_asked_for(disk.listing(t.root), t.root, 1, open, disk, t.on);
    assert forall|k: int| 0 < k < q.nodes.len() && (#[trigger] q.nodes[k]).open implies open.contains(
        q.nodes[k].path,
    ) by {
        assert(bare[k] == rows[k - 1]);
    }
}

/// Left on an open row takes away what is below it and closes it; on a closed one
/// it goes to the nearest row before it that is less deep.
pub proof fn what_left_does(t: TreeView)
    requires
        0 < t.selected < t.nodes.len() <= usize::MAX,
    ensures
        ({
            let at = t.selected as int;
            let q = t.went_left();
            &&& t.nodes[at].open ==> {
                &&& q.selected == t.selected
                &&& q.nodes.len() <= t.nodes.len()
                &&& !q.nodes[at].open
                &&& q.nodes[at].path == t.nodes[at].path
                &&& at + 1 < q.nodes.len() ==> q.nodes[at + 1].depth <= t.nodes[at].depth
            }
            &&& !t.nodes[at].open ==> {
                &&& q.nodes == t.nodes
                &&& q.selected < t.selected
                &&& q.selected > 0 ==> t.nodes[q.selected as int].depth < t.nodes[at].depth
                &&& forall|i: int|
                    q.selected < i < at ==> (#[trigger] t.nodes[i]).depth >= t.nodes[at].depth
            }
        }),
{
    let at = t.selected as int;
    let node = t.nodes[at];
    if node.open {
        let end = below_end(t.nodes, at);
        end_of_is_after(depths(t.nodes), node.depth, at + 1);
        let bare = t.nodes.take(at).push(NodeView { open: false, ..node }) + t.nodes.skip(end);
        laid_keeps(bare);
        assert(bare[at] == (NodeView { open: false, ..node }));
        if at + 1 < bare.len() {
            assert(bare[at + 1] == t.nodes[end]);
            assert(depths(t.nodes)[end] <= node.depth);
        }
    } else {
        row_above_is_nearest(depths(t.nodes), node.depth, at);
        assert forall|i: int| t.went_left().selected < i < at implies (#[trigger] t.nodes[i]).depth
            >= node.depth by {
            assert(depths(t.nodes)[i] >= node.depth);
        }
        if t.went_left().selected > 0 {
            assert(depths(t.nodes)[t.went_left().selected as int] < node.depth);
        }
    }
}

proof fn row_above_is_nearest(depths: Seq<usize>, d: usize, i: int)
    requires
        0 < i <= depths.len(),
    ensures
        0 <= row_above(depths, d, i) < i,
        row_above(depths, d, i) > 0 ==> depths[row_above(depths, d, i)] < d,
        forall|k: int| row_above(depths, d, i) < k < i ==> depths[k] >= d,
    decreases i,
{
    if i == 1 {
        assert(row_above(depths, d, 0) == 0);
    } else if depths[i - 1] >= d {
        row_above_is_nearest(depths, d, i - 1);
    }
}

/// How far down a path is: the empty one above the drives not at all, a top one
/// level, and each name one more.
pub open spec fn level(path: PathView) -> int {
    path.names.len() + if path.top.len() > 0 {
        1int
    } else {
        0
    }
}

/// Whether everything a folder holds is further down than the folder, as it is
/// where no folder lists itself or what is above it.
pub open spec fn goes_down(disk: DiskView, on: Platform) -> bool {
    forall|dir: PathView, i: int|
        0 <= i < disk.listing(dir).len() ==> level(
            dir.join((#[trigger] disk.listing(dir)[i]).name, on),
        ) > level(dir)
}

/// Where folders hold ordinary names and the drives are drives, everything is
/// further down than the folder it is in.
pub proof fn plain_names_go_down(disk: DiskView, on: Platform)
    requires
        disk.plainly_named(on),
    ensures
        goes_down(disk, on),
{
    assert forall|dir: PathView, i: int| 0 <= i < disk.listing(dir).len() implies level(
        dir.join((#[trigger] disk.listing(dir)[i]).name, on),
    ) > level(dir) by {
        let name = disk.listing(dir)[i].name;
        if dir.is_empty() {
            assert(fs_path::split_top(disk.drives[i].name, on).0.len() > 0);
        } else {
            assert(disk::plain_names(disk.folders[dir], on));
            a_name_goes_down(dir, name, on);
        }
    }
}

/// What is in a folder under an ordinary name is a level further down.
pub proof fn a_name_goes_down(dir: PathView, name: Seq<char>, on: Platform)
    requires
        fs_path::plain_name(name, on),
    ensures
        level(dir.join(name, on)) == level(dir) + 1,
{
    fs_path::a_joined_name_is_the_last(dir, name, on);
}

/// The paths of the rows at a depth.
pub open spec fn paths_at(nodes: Seq<NodeView>, depth: usize) -> Seq<PathView>
    decreases nodes.len(),
{
    if nodes.len() == 0 {
        Seq::empty()
    } else if nodes.last().depth == depth {
        paths_at(nodes.drop_last(), depth).push(nodes.last().path)
    } else {
        paths_at(nodes.drop_last(), depth)
    }
}

proof fn paths_at_join(a: Seq<NodeView>, b: Seq<NodeView>, depth: usize)
    ensures
        paths_at(a + b, depth) == paths_at(a, depth) + paths_at(b, depth),
    decreases b.len(),
{
    if b.len() == 0 {
        assert(a + b =~= a);
        assert(paths_at(a, depth) + paths_at(b, depth) =~= paths_at(a, depth));
    } else {
        paths_at_join(a, b.drop_last(), depth);
        assert((a + b).drop_last() =~= a + b.drop_last());
        assert((a + b).last() == b.last());
        assert(paths_at(a + b, depth) =~= paths_at(a, depth) + paths_at(b, depth));
    }
}

proof fn none_at(nodes: Seq<NodeView>, depth: usize)
    requires
        forall|i: int| 0 <= i < nodes.len() ==> (#[trigger] nodes[i]).depth > depth,
    ensures
        paths_at(nodes, depth) == Seq::<PathView>::empty(),
    decreases nodes.len(),
{
    if nodes.len() > 0 {
        assert forall|i: int| 0 <= i < nodes.drop_last().len() implies (
        #[trigger] nodes.drop_last()[i]).depth > depth by {
            assert(nodes.drop_last()[i] == nodes[i]);
        }
        none_at(nodes.drop_last(), depth);
        assert(nodes.last() == nodes[nodes.len() - 1]);
    }
}

/// The rows of a folder at its own depth are what it holds.
proof fn grown_lists_the_folder(
    items: Seq<ItemView>,
    dir: PathView,
    depth: usize,
    open: Seq<PathView>,
    disk: DiskView,
    on: Platform,
)
    requires
        1 <= depth,
        depth + open.len() <= usize::MAX,
    ensures
        paths_at(grown(items, dir, depth, open, disk, on), depth) == items.map_values(
            |item: ItemView| dir.join(item.name, on),
        ),
    decreases items.len(),
{
    let f = |item: ItemView| dir.join(item.name, on);
    if items.len() > 0 {
        let before = grown(items.drop_last(), dir, depth, open, disk, on);
        let node = child(dir, items.last(), depth, on);
        grown_lists_the_folder(items.drop_last(), dir, depth, open, disk, on);
        assert(items.map_values(f) =~= items.drop_last().map_values(f).push(node.path));
        if node.is_dir && open.contains(node.path) {
            without_is_shorter(open, node.path);
            let rest = without(open, node.path);
            let next = (depth + 1) as usize;
            let below = grown(disk.listing(node.path), node.path, next, rest, disk, on);
            grown_is_a_block(disk.listing(node.path), node.path, next, rest, disk, on);
            let line = NodeView { open: true, ..node };
            paths_at_join(before.push(line), below, depth);
            none_at(below, depth);
            assert(before.push(line).drop_last() =~= before);
            assert(paths_at(before.push(line), depth) == paths_at(before, depth).push(node.path));
            assert(paths_at(before, depth).push(node.path) + Seq::<PathView>::empty() =~= paths_at(
                before,
                depth,
            ).push(node.path));
        } else {
            assert(before.push(node).drop_last() =~= before);
        }
    } else {
        assert(items.map_values(f) =~= Seq::<PathView>::empty());
    }
}

/// Two lists of open folders that agree on the rows there are give the same
/// rows.
proof fn grown_looks_at_its_rows(
    items: Seq<ItemView>,
    dir: PathView,
    depth: usize,
    a: Seq<PathView>,
    b: Seq<PathView>,
    disk: DiskView,
    on: Platform,
)
    requires
        forall|k: int|
            0 <= k < grown(items, dir, depth, a, disk, on).len() && (#[trigger] grown(
                items,
                dir,
                depth,
                a,
                disk,
                on,
            )[k]).is_dir ==> a.contains(grown(items, dir, depth, a, disk, on)[k].path)
                == b.contains(grown(items, dir, depth, a, disk, on)[k].path),
    ensures
        grown(items, dir, depth, a, disk, on) == grown(items, dir, depth, b, disk, on),
    decreases a.len(), items.len(),
{
    if items.len() > 0 {
        let out = grown(items, dir, depth, a, disk, on);
        let before = grown(items.drop_last(), dir, depth, a, disk, on);
        let node = child(dir, items.last(), depth, on);
        assert forall|k: int| 0 <= k < before.len() && (#[trigger] before[k]).is_dir implies a.contains(
            before[k].path,
        ) == b.contains(before[k].path) by {
            assert(out[k] == before[k]);
        }
        grown_looks_at_its_rows(items.drop_last(), dir, depth, a, b, disk, on);
        assert(out[before.len() as int].path == node.path);
        assert(out[before.len() as int].is_dir == node.is_dir);
        if node.is_dir && a.contains(node.path) {
            without_is_shorter(a, node.path);
            let (less_a, less_b) = (without(a, node.path), without(b, node.path));
            let next = (depth + 1) as usize;
            let below = grown(disk.listing(node.path), node.path, next, less_a, disk, on);
            assert forall|k: int|
                0 <= k < below.len() && (#[trigger] below[k]).is_dir implies less_a.contains(
                below[k].path,
            ) == less_b.contains(below[k].path) by {
                assert(out[before.len() + 1 + k] == below[k]);
                without_leaves_the_rest(a, node.path, below[k].path);
                without_leaves_the_rest(b, node.path, below[k].path);
            }
            grown_looks_at_its_rows(
                disk.listing(node.path),
                node.path,
                next,
                less_a,
                less_b,
                disk,
                on,
            );
        }
    }
}

/// A folder asked to be open that has a row has one that is open.
proof fn grown_opens_what_is_there(
    items: Seq<ItemView>,
    dir: PathView,
    depth: usize,
    open: Seq<PathView>,
    disk: DiskView,
    on: Platform,
    k: int,
)
    requires
        0 <= k < grown(items, dir, depth, open, disk, on).len(),
        grown(items, dir, depth, open, disk, on)[k].is_dir,
        open.contains(grown(items, dir, depth, open, disk, on)[k].path),
    ensures
        ({
            let out = grown(items, dir, depth, open, disk, on);
            exists|j: int| 0 <= j < out.len() && (#[trigger] out[j]).open && out[j].path == out[k].path
        }),
    decreases open.len(), items.len(),
{
    let out = grown(items, dir, depth, open, disk, on);
    let before = grown(items.drop_last(), dir, depth, open, disk, on);
    let node = child(dir, items.last(), depth, on);
    if k < before.len() {
        assert(out[k] == before[k]);
        grown_opens_what_is_there(items.drop_last(), dir, depth, open, disk, on, k);
        let j = choose|j: int|
            0 <= j < before.len() && (#[trigger] before[j]).open && before[j].path == before[k].path;
        assert(out[j] == before[j]);
    } else if node.is_dir && open.contains(node.path) {
        without_is_shorter(open, node.path);
        let rest = without(open, node.path);
        let next = (depth + 1) as usize;
        let below = grown(disk.listing(node.path), node.path, next, rest, disk, on);
        assert(out[before.len() as int].open && out[before.len() as int].path == node.path);
        if k > before.len() && out[k].path != node.path {
            let i = k - before.len() - 1;
            assert(out[k] == below[i]);
            without_leaves_the_rest(open, node.path, below[i].path);
            grown_opens_what_is_there(
                disk.listing(node.path),
                node.path,
                next,
                rest,
                disk,
                on,
                i,
            );
            let j = choose|j: int|
                0 <= j < below.len() && (#[trigger] below[j]).open && below[j].path == below[i].path;
            assert(out[before.len() + 1 + j] == below[j]);
        }
    }
}

/// Whether the rows one level below the one at `k` are what the folder holds.
pub open spec fn lists_its_folder(
    nodes: Seq<NodeView>,
    k: int,
    disk: DiskView,
    on: Platform,
) -> bool {
    paths_at(nodes.subrange(k + 1, below_end(nodes, k)), (nodes[k].depth + 1) as usize)
        == disk.listing(nodes[k].path).map_values(
        |item: ItemView| nodes[k].path.join(item.name, on),
    )
}

proof fn end_is(depths: Seq<usize>, d: usize, j: int, e: int)
    requires
        0 <= j <= e <= depths.len(),
        forall|k: int| j <= k < e ==> depths[k] > d,
        e < depths.len() ==> depths[e] <= d,
    ensures
        end_of(depths, d, j) == e,
    decreases e - j,
{
    if j < e {
        end_is(depths, d, j + 1, e);
    }
}

/// A branch is the same with rows before it, and with rows after it that are not
/// below it.
proof fn branch_moves(
    pre: Seq<NodeView>,
    mid: Seq<NodeView>,
    post: Seq<NodeView>,
    k: int,
    disk: DiskView,
    on: Platform,
)
    requires
        0 <= k < mid.len(),
        post.len() > 0 ==> post[0].depth <= mid[k].depth,
        lists_its_folder(mid, k, disk, on),
    ensures
        lists_its_folder(pre + mid + post, pre.len() + k, disk, on),
{
    let out = pre + mid + post;
    let (inner, outer) = (depths(mid), depths(out));
    let d = mid[k].depth;
    end_of_is_after(inner, d, k + 1);
    let e = end_of(inner, d, k + 1);
    let n = pre.len() as int;
    assert(out[n + k] == mid[k]);
    assert forall|i: int| n + k + 1 <= i < n + e implies outer[i] > d by {
        assert(out[i] == mid[i - n]);
        assert(inner[i - n] > d);
    }
    if n + e < outer.len() {
        if e < mid.len() {
            assert(out[n + e] == mid[e]);
        } else {
            assert(out[n + e] == post[0]);
        }
    }
    end_is(outer, d, n + k + 1, n + e);
    assert(out.subrange(n + k + 1, n + e) =~= mid.subrange(k + 1, e));
}

/// Whether a row stands somewhere below an open one of the same path, other than
/// the top line: a folder found again inside itself.
pub open spec fn inside_itself(nodes: Seq<NodeView>, k: int) -> bool {
    exists|j: int|
        0 <= j < k && (#[trigger] nodes[j]).open && nodes[j].depth > 0 && nodes[j].path
            == nodes[k].path && k < below_end(nodes, j)
}

/// Whether a row is below another is the same with rows before and after.
proof fn below_moves(pre: Seq<NodeView>, mid: Seq<NodeView>, post: Seq<NodeView>, j: int, k: int)
    requires
        0 <= j < k < mid.len(),
    ensures
        pre.len() + k < below_end(pre + mid + post, pre.len() + j) <==> k < below_end(mid, j),
{
    let out = pre + mid + post;
    let (inner, outer) = (depths(mid), depths(out));
    let (d, n) = (mid[j].depth, pre.len() as int);
    assert(out[n + j] == mid[j]);
    end_of_is_after(inner, d, j + 1);
    end_of_is_after(outer, d, n + j + 1);
    let (e, f) = (end_of(inner, d, j + 1), end_of(outer, d, n + j + 1));
    if k < e && n + k >= f {
        assert(out[f] == mid[f - n]);
        assert(inner[f - n] > d);
    }
    if k >= e && n + k < f {
        assert(out[n + e] == mid[e]);
        assert(outer[n + e] > d);
    }
}

/// A row at or above another's depth ends what is below that.
proof fn nothing_reaches_past(nodes: Seq<NodeView>, j: int, m: int)
    requires
        0 <= j < m < nodes.len(),
        nodes[m].depth <= nodes[j].depth,
    ensures
        below_end(nodes, j) <= m,
{
    end_of_is_after(depths(nodes), nodes[j].depth, j + 1);
    assert(depths(nodes)[m] == nodes[m].depth);
}

/// A folder is found inside itself among rows where it is among all of them,
/// given that no row before reaches that far.
proof fn inside_itself_moves(pre: Seq<NodeView>, mid: Seq<NodeView>, post: Seq<NodeView>, k: int)
    requires
        0 <= k < mid.len(),
        forall|j: int|
            0 <= j < pre.len() && (#[trigger] pre[j]).open && pre[j].depth > 0 && pre[j].path
                == mid[k].path ==> below_end(pre + mid + post, j) <= pre.len() + k,
    ensures
        inside_itself(pre + mid + post, pre.len() + k) == inside_itself(mid, k),
{
    let out = pre + mid + post;
    let n = pre.len() as int;
    assert(out[n + k] == mid[k]);
    if inside_itself(mid, k) {
        let j = choose|j: int|
            0 <= j < k && (#[trigger] mid[j]).open && mid[j].depth > 0 && mid[j].path == mid[k].path
                && k < below_end(mid, j);
        below_moves(pre, mid, post, j, k);
        assert(out[n + j] == mid[j]);
    }
    if inside_itself(out, n + k) {
        let j = choose|j: int|
            0 <= j < n + k && (#[trigger] out[j]).open && out[j].depth > 0 && out[j].path == out[n
                + k].path && n + k < below_end(out, j);
        if j < n {
            assert(pre[j] == out[j]);
        } else {
            assert(out[j] == mid[j - n]);
            below_moves(pre, mid, post, j - n, k);
        }
    }
}

/// A row is open exactly when it is a folder asked to be, is none of those above
/// all of the rows, and is not inside itself.
#[verifier::rlimit(60)]
#[verifier::spinoff_prover]
proof fn grown_opens_what_is_asked(
    items: Seq<ItemView>,
    dir: PathView,
    depth: usize,
    open: Seq<PathView>,
    asked: Seq<PathView>,
    above: Seq<PathView>,
    disk: DiskView,
    on: Platform,
    k: int,
)
    requires
        1 <= depth,
        depth + open.len() <= usize::MAX,
        forall|path: PathView| #[trigger]
            open.contains(path) <==> asked.contains(path) && !above.contains(path),
        0 <= k < grown(items, dir, depth, open, disk, on).len(),
    ensures
        ({
            let out = grown(items, dir, depth, open, disk, on);
            &&& out[k].open == (out[k].is_dir && asked.contains(out[k].path) && !above.contains(
                out[k].path,
            ) && !inside_itself(out, k))
            &&& out[k].open ==> lists_its_folder(out, k, disk, on)
        }),
    decreases open.len(), items.len(),
{
    let out = grown(items, dir, depth, open, disk, on);
    let fewer = items.drop_last();
    let before = grown(fewer, dir, depth, open, disk, on);
    let node = child(dir, items.last(), depth, on);
    let none = Seq::<NodeView>::empty();
    grown_is_a_block(fewer, dir, depth, open, disk, on);
    let at = before.len() as int;
    assert(out[at].depth == depth && out[at].path == node.path);
    assert forall|j: int| 0 <= j < at implies below_end(out, j) <= at by {
        assert(out[j] == before[j]);
        assert(before[j].depth >= depth);
        nothing_reaches_past(out, j, at);
    }
    if node.is_dir && open.contains(node.path) {
        without_is_shorter(open, node.path);
        let rest = without(open, node.path);
        let next = (depth + 1) as usize;
        let held = disk.listing(node.path);
        let below = grown(held, node.path, next, rest, disk, on);
        let line = NodeView { open: true, ..node };
        grown_is_a_block(held, node.path, next, rest, disk, on);
        let branch = seq![line] + below;
        assert(out =~= before + branch);
        assert forall|i: int| 1 <= i < branch.len() implies depths(branch)[i] > depth by {
            assert(branch[i] == below[i - 1]);
        }
        end_is(depths(branch), depth, 1, branch.len() as int);
        if k < at {
            assert(out[k] == before[k]);
            grown_opens_what_is_asked(fewer, dir, depth, open, asked, above, disk, on, k);
            assert(none + before + branch =~= out);
            inside_itself_moves(none, before, branch, k);
            if out[k].open {
                branch_moves(none, before, branch, k, disk, on);
            }
        } else if k == at {
            grown_lists_the_folder(held, node.path, next, rest, disk, on);
            assert(branch.subrange(1, branch.len() as int) =~= below);
            assert(before + branch + none =~= out);
            branch_moves(before, branch, none, 0, disk, on);
            inside_itself_moves(before, branch, none, 0);
        } else {
            let more = above.push(node.path);
            assert forall|path: PathView| #[trigger] rest.contains(path) <==> asked.contains(path)
                && !more.contains(path) by {
                without_leaves_the_rest(open, node.path, path);
                pushed_contains(above, node.path, path);
            }
            let i = k - at - 1;
            assert(out[k] == below[i]);
            grown_opens_what_is_asked(held, node.path, next, rest, asked, more, disk, on, i);
            pushed_contains(above, node.path, below[i].path);
            let first = before.push(line);
            assert(first + below + none =~= out);
            if below[i].path == node.path {
                assert(before + branch + none =~= out);
                below_moves(before, branch, none, 0, k - at);
                assert(out[at] == line);
                assert(inside_itself(out, k));
            } else {
                assert forall|j: int|
                    0 <= j < first.len() && (#[trigger] first[j]).open && first[j].depth > 0
                        && first[j].path == below[i].path implies below_end(first + below + none, j) <= first.len()
                    + i by {
                    if j < at {
                        assert(below_end(out, j) <= at);
                    }
                }
                inside_itself_moves(first, below, none, i);
            }
            if out[k].open {
                branch_moves(first, below, none, i, disk, on);
            }
        }
    } else {
        let last = seq![node];
        if k < at {
            assert(out[k] == before[k]);
            grown_opens_what_is_asked(fewer, dir, depth, open, asked, above, disk, on, k);
            assert(none + before + last =~= out);
            inside_itself_moves(none, before, last, k);
            if out[k].open {
                branch_moves(none, before, last, k, disk, on);
            }
        } else {
            assert(before + last + none =~= out);
            inside_itself_moves(before, last, none, 0);
        }
    }
}

/// Where folders go down, every row is further down than the folder, and none is
/// inside itself.
proof fn grown_goes_down(
    items: Seq<ItemView>,
    dir: PathView,
    depth: usize,
    open: Seq<PathView>,
    disk: DiskView,
    on: Platform,
    k: int,
)
    requires
        goes_down(disk, on),
        1 <= depth,
        depth + open.len() <= usize::MAX,
        forall|i: int|
            0 <= i < items.len() ==> level(dir.join((#[trigger] items[i]).name, on)) > level(dir),
        0 <= k < grown(items, dir, depth, open, disk, on).len(),
    ensures
        ({
            let out = grown(items, dir, depth, open, disk, on);
            &&& level(out[k].path) > level(dir)
            &&& !inside_itself(out, k)
        }),
    decreases open.len(), items.len(),
{
    let out = grown(items, dir, depth, open, disk, on);
    let fewer = items.drop_last();
    let before = grown(fewer, dir, depth, open, disk, on);
    let node = child(dir, items.last(), depth, on);
    let none = Seq::<NodeView>::empty();
    grown_is_a_block(fewer, dir, depth, open, disk, on);
    let at = before.len() as int;
    assert(items.last() == items[items.len() - 1]);
    assert(out[at].depth == depth && out[at].path == node.path);
    assert forall|j: int| 0 <= j < at implies below_end(out, j) <= at by {
        assert(out[j] == before[j]);
        assert(before[j].depth >= depth);
        nothing_reaches_past(out, j, at);
    }
    assert forall|i: int| 0 <= i < fewer.len() implies level(
        dir.join((#[trigger] fewer[i]).name, on),
    ) > level(dir) by {
        assert(fewer[i] == items[i]);
    }
    if k < at {
        assert(out[k] == before[k]);
        grown_goes_down(fewer, dir, depth, open, disk, on, k);
        let rest = out.skip(at);
        assert(none + before + rest =~= out);
        inside_itself_moves(none, before, rest, k);
    } else if k > at {
        without_is_shorter(open, node.path);
        let rest = without(open, node.path);
        let next = (depth + 1) as usize;
        let held = disk.listing(node.path);
        let below = grown(held, node.path, next, rest, disk, on);
        let first = before.push(NodeView { open: true, ..node });
        assert(first + below + none =~= out);
        let i = k - at - 1;
        assert(out[k] == below[i]);
        assert forall|n: int| 0 <= n < held.len() implies level(
            node.path.join((#[trigger] held[n]).name, on),
        ) > level(node.path) by {
            assert(disk.listing(node.path)[n] == held[n]);
        }
        grown_goes_down(held, node.path, next, rest, disk, on, i);
        assert forall|j: int|
            0 <= j < first.len() && (#[trigger] first[j]).open && first[j].depth > 0
                && first[j].path == below[i].path implies below_end(first + below + none, j)
            <= first.len() + i by {
            if j < at {
                assert(below_end(out, j) <= at);
            }
        }
        inside_itself_moves(first, below, none, i);
    }
}

proof fn pushed_contains(paths: Seq<PathView>, more: PathView, path: PathView)
    ensures
        paths.push(more).contains(path) <==> paths.contains(path) || path == more,
{
    let all = paths.push(more);
    if all.contains(path) {
        let i = choose|i: int| 0 <= i < all.len() && all[i] == path;
        if i < paths.len() {
            assert(paths[i] == path);
        }
    }
    if paths.contains(path) {
        let i = choose|i: int| 0 <= i < paths.len() && paths[i] == path;
        assert(all[i] == path);
    }
    if path == more {
        assert(all[paths.len() as int] == path);
    }
}

proof fn laid_lists_alike(nodes: Seq<NodeView>, k: int, disk: DiskView, on: Platform)
    requires
        0 <= k < nodes.len(),
        lists_its_folder(nodes, k, disk, on),
    ensures
        lists_its_folder(laid(nodes), k, disk, on),
{
    laid_keeps(nodes);
    end_of_is_after(depths(nodes), nodes[k].depth, k + 1);
    let e = below_end(nodes, k);
    let (a, b) = (nodes.subrange(k + 1, e), laid(nodes).subrange(k + 1, e));
    assert forall|i: int| 0 <= i < a.len() implies (#[trigger] a[i]).depth == b[i].depth && a[i].path
        == b[i].path by {
        assert(a[i] == nodes[k + 1 + i] && b[i] == laid(nodes)[k + 1 + i]);
    }
    alike_have_the_same_paths(a, b, (nodes[k].depth + 1) as usize);
}

proof fn alike_have_the_same_paths(a: Seq<NodeView>, b: Seq<NodeView>, depth: usize)
    requires
        a.len() == b.len(),
        forall|i: int|
            0 <= i < a.len() ==> (#[trigger] a[i]).depth == b[i].depth && a[i].path == b[i].path,
    ensures
        paths_at(a, depth) == paths_at(b, depth),
    decreases a.len(),
{
    if a.len() > 0 {
        let (c, d) = (a.drop_last(), b.drop_last());
        assert forall|i: int| 0 <= i < c.len() implies (#[trigger] c[i]).depth == d[i].depth && c[i].path
            == d[i].path by {
            assert(c[i] == a[i] && d[i] == b[i]);
        }
        alike_have_the_same_paths(c, d, depth);
        assert(a.last() == a[a.len() - 1] && b.last() == b[b.len() - 1]);
    }
}

proof fn open_paths_are_rows(nodes: Seq<NodeView>)
    requires
        nodes.len() > 0,
    ensures
        open_paths(nodes).len() < nodes.len(),
        forall|path: PathView| #[trigger]
            open_paths(nodes).contains(path) <==> exists|k: int|
                0 < k < nodes.len() && (#[trigger] nodes[k]).open && nodes[k].path == path,
    decreases nodes.len(),
{
    if nodes.len() > 1 {
        let before = nodes.drop_last();
        open_paths_are_rows(before);
        let (all, less) = (open_paths(nodes), open_paths(before));
        assert forall|path: PathView| #[trigger] all.contains(path) implies exists|k: int|
            0 < k < nodes.len() && (#[trigger] nodes[k]).open && nodes[k].path == path by {
            if less.contains(path) {
                let k = choose|k: int|
                    0 < k < before.len() && (#[trigger] before[k]).open && before[k].path == path;
                assert(nodes[k] == before[k]);
            } else {
                let i = choose|i: int| 0 <= i < all.len() && all[i] == path;
                if i < less.len() {
                    assert(less[i] == path);
                }
                assert(nodes[nodes.len() - 1] == nodes.last());
            }
        }
        assert forall|path: PathView|
            (exists|k: int|
                0 < k < nodes.len() && (#[trigger] nodes[k]).open && nodes[k].path == path)
            implies #[trigger] all.contains(path) by {
            let k = choose|k: int|
                0 < k < nodes.len() && (#[trigger] nodes[k]).open && nodes[k].path == path;
            if k < before.len() {
                assert(before[k] == nodes[k]);
                assert(less.contains(path));
                let i = choose|i: int| 0 <= i < less.len() && less[i] == path;
                assert(all[i] == path);
            } else {
                assert(all.last() == path);
            }
        }
    } else {
        assert forall|path: PathView| #[trigger] open_paths(nodes).contains(path) implies exists|
            k: int,
        |
            0 < k < nodes.len() && (#[trigger] nodes[k]).open && nodes[k].path == path by {
            assert(open_paths(nodes) =~= Seq::<PathView>::empty());
        }
    }
}

proof fn laid_stands_alike(nodes: Seq<NodeView>, k: int)
    requires
        0 <= k < nodes.len(),
    ensures
        inside_itself(laid(nodes), k) == inside_itself(nodes, k),
{
    laid_keeps(nodes);
    let rows = laid(nodes);
    if inside_itself(nodes, k) {
        let j = choose|j: int|
            0 <= j < k && (#[trigger] nodes[j]).open && nodes[j].depth > 0 && nodes[j].path
                == nodes[k].path && k < below_end(nodes, j);
        assert(rows[j].open && rows[j].path == rows[k].path);
    }
    if inside_itself(rows, k) {
        let j = choose|j: int|
            0 <= j < k && (#[trigger] rows[j]).open && rows[j].depth > 0 && rows[j].path
                == rows[k].path && k < below_end(rows, j);
        assert(nodes[j].open && nodes[j].path == nodes[k].path);
    }
}

/// Reading the tree again keeps open the folders that were, as long as they are
/// there, and no others: a row is open when it is the top line or a folder that
/// was open, and does not stand inside itself. What stands one level below an
/// open row is what the folder holds now.
pub proof fn reading_the_tree_again_opens_what_was_open(t: TreeView, disk: DiskView, k: int)
    requires
        0 < t.nodes.len() <= usize::MAX,
        0 <= k < refreshed(t, disk).nodes.len(),
    ensures
        ({
            let rows = refreshed(t, disk).nodes;
            &&& rows[k].open == (k == 0 || rows[k].is_dir && open_paths(t.nodes).contains(
                rows[k].path,
            ) && !inside_itself(rows, k))
            &&& rows[k].open ==> lists_its_folder(rows, k, disk, t.on)
        }),
{
    let open = open_paths(t.nodes);
    open_paths_are_rows(t.nodes);
    let items = disk.listing(t.root);
    let below = grown(items, t.root, 1, open, disk, t.on);
    let top = root_line(t.root, t.on);
    let (first, none) = (seq![top], Seq::<NodeView>::empty());
    let bare = first + below;
    laid_keeps(bare);
    grown_is_a_block(items, t.root, 1, open, disk, t.on);
    if k > 0 {
        assert(bare[k] == below[k - 1]);
        grown_opens_what_is_asked(
            items,
            t.root,
            1,
            open,
            open,
            Seq::empty(),
            disk,
            t.on,
            k - 1,
        );
        assert(first + below + none =~= bare);
        inside_itself_moves(first, below, none, k - 1);
        laid_stands_alike(bare, k);
        if below[k - 1].open {
            branch_moves(first, below, none, k - 1, disk, t.on);
            laid_lists_alike(bare, k, disk, t.on);
        }
    } else {
        grown_lists_the_folder(items, t.root, 1, open, disk, t.on);
        assert forall|i: int| 1 <= i < bare.len() implies depths(bare)[i] > 0 by {
            assert(bare[i] == below[i - 1]);
        }
        end_is(depths(bare), 0, 1, bare.len() as int);
        assert(bare.subrange(1, bare.len() as int) =~= below);
        laid_lists_alike(bare, 0, disk, t.on);
    }
}

/// On a disk whose folders hold ordinary names, reading the tree again keeps open
/// the folders that were, as long as they are there, and no others: a row is open
/// when it is the top line or a folder that was open. Each open row is followed
/// by what the folder holds now.
pub proof fn reading_the_tree_again_keeps_what_is_open(t: TreeView, disk: DiskView, k: int)
    requires
        0 < t.nodes.len() <= usize::MAX,
        disk.plainly_named(t.on),
        0 <= k < refreshed(t, disk).nodes.len(),
    ensures
        ({
            let rows = refreshed(t, disk).nodes;
            &&& rows[k].open == (k == 0 || rows[k].is_dir && open_paths(t.nodes).contains(
                rows[k].path,
            ))
            &&& rows[k].open ==> lists_its_folder(rows, k, disk, t.on)
        }),
{
    reading_the_tree_again_opens_what_was_open(t, disk, k);
    if k > 0 {
        no_folder_is_inside_itself(t, disk, k);
    }
}

/// On a disk whose folders hold ordinary names, no folder is found inside itself.
pub proof fn no_folder_is_inside_itself(t: TreeView, disk: DiskView, k: int)
    requires
        0 < t.nodes.len() <= usize::MAX,
        disk.plainly_named(t.on),
        0 <= k < refreshed(t, disk).nodes.len(),
    ensures
        !inside_itself(refreshed(t, disk).nodes, k),
{
    let open = open_paths(t.nodes);
    open_paths_are_rows(t.nodes);
    plain_names_go_down(disk, t.on);
    let items = disk.listing(t.root);
    let below = grown(items, t.root, 1, open, disk, t.on);
    let (first, none) = (seq![root_line(t.root, t.on)], Seq::<NodeView>::empty());
    let bare = first + below;
    laid_stands_alike(bare, k);
    if k > 0 {
        assert forall|i: int| 0 <= i < items.len() implies level(
            t.root.join((#[trigger] items[i]).name, t.on),
        ) > level(t.root) by {
            assert(disk.listing(t.root)[i] == items[i]);
        }
        assert(first + below + none =~= bare);
        grown_goes_down(items, t.root, 1, open, disk, t.on, k - 1);
        inside_itself_moves(first, below, none, k - 1);
    }
}

/// Reading the tree twice is reading it once.
pub proof fn reading_the_tree_twice_is_reading_it_once(t: TreeView, disk: DiskView)
    requires
        0 < t.nodes.len() <= usize::MAX,
        refreshed(t, disk).nodes.len() <= usize::MAX,
    ensures
        refreshed(refreshed(t, disk), disk) == refreshed(t, disk),
{
    let open = open_paths(t.nodes);
    let items = disk.listing(t.root);
    let below = grown(items, t.root, 1, open, disk, t.on);
    let bare = seq![root_line(t.root, t.on)] + below;
    laid_keeps(bare);
    let q = refreshed(t, disk);
    let again = open_paths(q.nodes);
    open_paths_are_rows(q.nodes);
    grown_opens_those_asked_for(items, t.root, 1, open, disk, t.on);
    assert forall|k: int| 0 <= k < below.len() && (#[trigger] below[k]).is_dir implies open.contains(
        below[k].path,
    ) == again.contains(below[k].path) by {
        let path = below[k].path;
        if open.contains(path) {
            grown_opens_what_is_there(items, t.root, 1, open, disk, t.on, k);
            let j = choose|j: int|
                0 <= j < below.len() && (#[trigger] below[j]).open && below[j].path == path;
            assert(bare[j + 1] == below[j]);
            assert(q.nodes[j + 1].open && q.nodes[j + 1].path == path);
        }
        if again.contains(path) {
            let j = choose|j: int|
                0 < j < q.nodes.len() && (#[trigger] q.nodes[j]).open && q.nodes[j].path == path;
            assert(bare[j] == below[j - 1]);
        }
    }
    grown_looks_at_its_rows(items, t.root, 1, open, again, disk, t.on);
    row_of_is_first(q.nodes, t.selected_node().path);
    assert(q.nodes[0].path == t.root);
    let first = q.nodes.take(1);
    assert(first.drop_last() =~= Seq::<NodeView>::empty());
    assert(first.last() == q.nodes[0]);
    assert(row_of(first.drop_last(), t.root) is None);
    assert(row_of(first, t.root) == Some(0usize));
    row_of_extends(q.nodes, 1, t.root);
}

proof fn without_leaves_the_rest(paths: Seq<PathView>, gone: PathView, path: PathView)
    ensures
        without(paths, gone).contains(path) <==> paths.contains(path) && path != gone,
    decreases paths.len(),
{
    if paths.len() > 0 {
        let before = paths.drop_last();
        without_leaves_the_rest(before, gone, path);
        let kept = without(paths, gone);
        let less = without(before, gone);
        assert(paths =~= before.push(paths.last()));
        if paths.contains(path) {
            let i = choose|i: int| 0 <= i < paths.len() && paths[i] == path;
            if i < before.len() {
                assert(before[i] == path);
            }
        }
        if before.contains(path) {
            let i = choose|i: int| 0 <= i < before.len() && before[i] == path;
            assert(paths[i] == path);
        }
        if paths.last() != gone {
            assert(kept == less.push(paths.last()));
            if less.contains(path) {
                let i = choose|i: int| 0 <= i < less.len() && less[i] == path;
                assert(kept[i] == path);
            }
            if kept.contains(path) {
                let i = choose|i: int| 0 <= i < kept.len() && kept[i] == path;
                if i < less.len() {
                    assert(less[i] == path);
                }
            }
            assert(kept.last() == paths.last());
        }
        assert(paths[paths.len() - 1] == paths.last());
    }
}

proof fn grown_opens_those_asked_for(
    items: Seq<ItemView>,
    dir: PathView,
    depth: usize,
    open: Seq<PathView>,
    disk: DiskView,
    on: Platform,
)
    ensures
        forall|k: int|
            0 <= k < grown(items, dir, depth, open, disk, on).len() && (#[trigger] grown(
                items,
                dir,
                depth,
                open,
                disk,
                on,
            )[k]).open ==> open.contains(grown(items, dir, depth, open, disk, on)[k].path),
    decreases open.len(), items.len(),
{
    if items.len() > 0 {
        let before = grown(items.drop_last(), dir, depth, open, disk, on);
        let node = child(dir, items.last(), depth, on);
        let out = grown(items, dir, depth, open, disk, on);
        grown_opens_those_asked_for(items.drop_last(), dir, depth, open, disk, on);
        if node.is_dir && open.contains(node.path) {
            without_is_shorter(open, node.path);
            let rest = without(open, node.path);
            let below = grown(
                disk.listing(node.path),
                node.path,
                (depth + 1) as usize,
                rest,
                disk,
                on,
            );
            grown_opens_those_asked_for(
                disk.listing(node.path),
                node.path,
                (depth + 1) as usize,
                rest,
                disk,
                on,
            );
            assert forall|k: int| 0 <= k < out.len() && (#[trigger] out[k]).open implies open.contains(
                out[k].path,
            ) by {
                if k < before.len() {
                    assert(out[k] == before[k]);
                } else if k > before.len() {
                    let j = k - before.len() - 1;
                    assert(out[k] == below[j]);
                    without_leaves_the_rest(open, node.path, below[j].path);
                }
            }
        } else {
            assert forall|k: int| 0 <= k < out.len() && (#[trigger] out[k]).open implies open.contains(
                out[k].path,
            ) by {
                if k < before.len() {
                    assert(out[k] == before[k]);
                }
            }
        }
    }
}

proof fn hung_at(
    kids: Seq<NodeView>,
    old_root: PathView,
    below: Seq<NodeView>,
    k: int,
)
    requires
        k >= 0,
        k < kids.len() ==> kids[k].path == old_root,
        forall|j: int| 0 <= j < kids.len() && j != k ==> (#[trigger] kids[j]).path != old_root,
    ensures
        k >= kids.len() ==> hung(kids, old_root, below) == kids && row_of(kids, old_root) is None
            && hung_row(kids, old_root, below) is None,
        k < kids.len() ==> {
            &&& hung(kids, old_root, below) == kids.take(k).push(
                NodeView { open: true, ..kids[k] },
            ) + below + kids.skip(k + 1)
            &&& hung_row(kids, old_root, below) == Some(k)
        },
    decreases kids.len(),
{
    if kids.len() > 0 {
        let before = kids.drop_last();
        assert forall|j: int| 0 <= j < before.len() && j != k implies (#[trigger] before[j]).path
            != old_root by {
            assert(before[j] == kids[j]);
        }
        if k < before.len() {
            assert(before[k] == kids[k]);
        }
        hung_at(before, old_root, below, k);
        if k >= kids.len() {
            assert(before.push(kids.last()) =~= kids);
            assert(kids.last() == kids[kids.len() - 1]);
        } else if k == kids.len() - 1 {
            assert(kids.take(k) =~= before);
            assert(kids.skip(k + 1) =~= Seq::<NodeView>::empty());
            assert(hung(kids, old_root, below) =~= kids.take(k).push(
                NodeView { open: true, ..kids[k] },
            ) + below + kids.skip(k + 1));
        } else {
            assert(kids.last() == kids[kids.len() - 1]);
            assert(before.take(k) =~= kids.take(k));
            assert(before.skip(k + 1).push(kids.last()) =~= kids.skip(k + 1));
            assert(hung(kids, old_root, below) =~= kids.take(k).push(
                NodeView { open: true, ..kids[k] },
            ) + below + kids.skip(k + 1));
        }
    } else {
        assert(hung(kids, old_root, below) =~= kids);
    }
}

/// The tree moved up a level keeps the branches that were open: the old root's
/// row is open and selected, and the rows that were below it follow it as they
/// were, a level further down.
pub proof fn rising_keeps_the_branches(was: TreeView, parent: PathView, k: int, disk: DiskView)
    requires
        was.nodes.len() > 0,
        0 <= k < disk.listing(parent).len() < usize::MAX,
        parent.join(disk.listing(parent)[k].name, was.on) == was.root,
        forall|j: int|
            0 <= j < disk.listing(parent).len() && j != k ==> parent.join(
                (#[trigger] disk.listing(parent)[j]).name,
                was.on,
            ) != was.root,
    ensures
        ({
            let q = risen(was, parent, disk);
            &&& q.root == parent
            &&& q.nodes[0].path == parent
            &&& q.selected == k + 1
            &&& q.selected_node().path == was.root
            &&& q.selected_node().open
            &&& q.nodes.len() == disk.listing(parent).len() + was.nodes.len()
            &&& forall|j: int|
                1 <= j < was.nodes.len() ==> (#[trigger] q.nodes[k + 1 + j]) == (NodeView {
                    depth: (was.nodes[j].depth + 1) as usize,
                    guide: q.nodes[k + 1 + j].guide,
                    ..was.nodes[j]
                })
        }),
{
    let kids = rows_in(parent, 1, disk, was.on);
    let below = deeper(was.nodes.skip(1));
    let items = disk.listing(parent);
    assert(kids[k] == child(parent, items[k], 1, was.on));
    assert forall|j: int| 0 <= j < kids.len() && j != k implies (#[trigger] kids[j]).path
        != was.root by {
        assert(kids[j] == child(parent, items[j], 1, was.on));
    }
    hung_at(kids, was.root, below, k);
    let bare = seq![root_line(parent, was.on)] + hung(kids, was.root, below);
    laid_keeps(bare);
    let q = risen(was, parent, disk);
    assert(bare[0] == root_line(parent, was.on));
    assert(bare[k + 1] == NodeView { open: true, ..kids[k] });
    assert forall|j: int| 1 <= j < was.nodes.len() implies (#[trigger] q.nodes[k + 1 + j]) == (
    NodeView {
        depth: (was.nodes[j].depth + 1) as usize,
        guide: q.nodes[k + 1 + j].guide,
        ..was.nodes[j]
    }) by {
        assert(bare[k + 1 + j] == below[j - 1]);
        assert(was.nodes.skip(1)[j - 1] == was.nodes[j]);
    }
}

/// Whether no two rows show one path.
pub open spec fn paths_differ(nodes: Seq<NodeView>) -> bool {
    forall|i: int, j: int|
        0 <= i < j < nodes.len() ==> (#[trigger] nodes[i]).path != (#[trigger] nodes[j]).path
}

/// Whether a path has a row.
pub open spec fn on_a_row(nodes: Seq<NodeView>, path: PathView) -> bool {
    exists|k: int| 0 <= k < nodes.len() && (#[trigger] nodes[k]).path == path
}

/// Whether a path has a row of its own, not only for what sits in it.
pub open spec fn bright_row(nodes: Seq<NodeView>, path: PathView) -> bool {
    exists|k: int| 0 <= k < nodes.len() && (#[trigger] nodes[k]).path == path && !nodes[k].dim
}

proof fn row_of_finds(nodes: Seq<NodeView>, path: PathView)
    ensures
        row_of(nodes, path) is Some <==> on_a_row(nodes, path),
    decreases nodes.len(),
{
    if nodes.len() > 0 {
        let before = nodes.drop_last();
        row_of_finds(before, path);
        if on_a_row(before, path) {
            let k = choose|k: int| 0 <= k < before.len() && (#[trigger] before[k]).path == path;
            assert(nodes[k].path == path);
        }
        if on_a_row(nodes, path) {
            let k = choose|k: int| 0 <= k < nodes.len() && (#[trigger] nodes[k]).path == path;
            if k < before.len() {
                assert(before[k].path == path);
            }
        }
        if nodes.last().path == path {
            assert(nodes[nodes.len() - 1].path == path);
        }
    }
}

/// One more row is hung among the others without a change to them.
proof fn hanging_keeps_the_rows(nodes: Seq<NodeView>, parent: int, node: NodeView)
    requires
        0 <= parent < nodes.len(),
    ensures
        ({
            let out = hung_under(nodes, parent, node);
            &&& out.len() == nodes.len() + 1
            &&& forall|p: PathView| #[trigger]
                on_a_row(out, p) <==> on_a_row(nodes, p) || p == node.path
            &&& forall|p: PathView| #[trigger]
                bright_row(out, p) <==> bright_row(nodes, p) || (p == node.path && !node.dim)
            &&& paths_differ(nodes) && !on_a_row(nodes, node.path) ==> paths_differ(out)
            &&& out[0].path == nodes[0].path
        }),
{
    let out = hung_under(nodes, parent, node);
    let end = below_end(nodes, parent);
    end_of_is_after(depths(nodes), nodes[parent].depth, parent + 1);
    assert forall|k: int| 0 <= k < nodes.len() implies (#[trigger] nodes[k]).path == out[if k < end {
        k
    } else {
        k + 1
    }].path && nodes[k].dim == out[if k < end {
        k
    } else {
        k + 1
    }].dim by {}
    assert(out[end].path == node.path && out[end].dim == node.dim);
    assert forall|k: int| 0 <= k < out.len() && k != end implies (#[trigger] out[k]).path == nodes[if k
        < end {
        k
    } else {
        k - 1
    }].path && out[k].dim == nodes[if k < end {
        k
    } else {
        k - 1
    }].dim by {}
    assert forall|p: PathView| #[trigger] on_a_row(out, p) <==> on_a_row(nodes, p) || p
        == node.path by {
        if on_a_row(out, p) {
            let k = choose|k: int| 0 <= k < out.len() && (#[trigger] out[k]).path == p;
            if k != end {
                let j = if k < end {
                    k
                } else {
                    k - 1
                };
                assert(nodes[j].path == p);
            }
        }
        if on_a_row(nodes, p) {
            let k = choose|k: int| 0 <= k < nodes.len() && (#[trigger] nodes[k]).path == p;
            let j = if k < end {
                k
            } else {
                k + 1
            };
            assert(out[j].path == p);
        }
    }
    assert forall|p: PathView| #[trigger] bright_row(out, p) <==> bright_row(nodes, p) || (p
        == node.path && !node.dim) by {
        if bright_row(out, p) {
            let k = choose|k: int|
                0 <= k < out.len() && (#[trigger] out[k]).path == p && !out[k].dim;
            if k != end {
                let j = if k < end {
                    k
                } else {
                    k - 1
                };
                assert(nodes[j].path == p && !nodes[j].dim);
            }
        }
        if bright_row(nodes, p) {
            let k = choose|k: int|
                0 <= k < nodes.len() && (#[trigger] nodes[k]).path == p && !nodes[k].dim;
            let j = if k < end {
                k
            } else {
                k + 1
            };
            assert(out[j].path == p && !out[j].dim);
        }
    }
    if paths_differ(nodes) && !on_a_row(nodes, node.path) {
        assert forall|i: int, j: int| 0 <= i < j < out.len() implies (#[trigger] out[i]).path != (
        #[trigger] out[j]).path by {
            let a = if i < end {
                i
            } else {
                i - 1
            };
            let b = if j < end {
                j
            } else {
                j - 1
            };
            if i == end {
                assert(nodes[b].path == out[j].path);
            } else if j == end {
                assert(nodes[a].path == out[i].path);
            } else {
                assert(nodes[a].path != nodes[b].path);
            }
        }
    }
}

/// The folders on the way to a path are put among the rows, dimmed where they
/// were not there, without a change to the rows there were.
proof fn folders_on_the_way(nodes: Seq<NodeView>, path: PathView, on: Platform)
    requires
        nodes.len() > 0,
    ensures
        ({
            let out = with_folder(nodes, path, on);
            &&& out.len() >= nodes.len()
            &&& path.names.len() > 0 ==> on_a_row(out, path)
            &&& forall|p: PathView| #[trigger]
                on_a_row(out, p) ==> on_a_row(nodes, p) || p.names.len() <= path.names.len()
            &&& forall|p: PathView| #[trigger] on_a_row(nodes, p) ==> on_a_row(out, p)
            &&& forall|p: PathView| #[trigger] bright_row(out, p) <==> bright_row(nodes, p)
            &&& paths_differ(nodes) ==> paths_differ(out)
            &&& out[0].path == nodes[0].path
        }),
    decreases path.names.len(),
{
    row_of_finds(nodes, path);
    if !(row_of(nodes, path) is Some || path.names.len() == 0) {
        let parent = PathView { top: path.top, names: path.names.drop_last() };
        folders_on_the_way(nodes, parent, on);
        let above = with_folder(nodes, parent, on);
        row_of_finds(above, parent);
        row_of_is_inside(above, parent);
        assert(!on_a_row(above, path));
        hanging_keeps_the_rows(above, row_or_root(above, parent), row_for(path, true, true, on));
    }
}

proof fn row_of_is_inside(nodes: Seq<NodeView>, path: PathView)
    ensures
        row_of(nodes, path) matches Some(row) ==> row < nodes.len(),
    decreases nodes.len(),
{
    if nodes.len() > 0 {
        row_of_is_inside(nodes.drop_last(), path);
    }
}

/// A match is put among the rows, bright, without a change to the rest.
proof fn a_match_gets_its_row(nodes: Seq<NodeView>, path: PathView, is_dir: bool, on: Platform)
    requires
        0 < nodes.len(),
        with_match(nodes, path, is_dir, on).len() <= usize::MAX,
        path.names.len() > 0,
        paths_differ(nodes),
    ensures
        ({
            let out = with_match(nodes, path, is_dir, on);
            &&& out.len() >= nodes.len()
            &&& forall|p: PathView| #[trigger]
                bright_row(out, p) <==> bright_row(nodes, p) || p == path
            &&& paths_differ(out)
            &&& out[0].path == nodes[0].path
        }),
{
    let out = with_match(nodes, path, is_dir, on);
    row_of_finds(nodes, path);
    match row_of(nodes, path) {
        Some(row) => {
            row_of_is_inside(nodes, path);
            assert(out.len() == nodes.len());
            row_of_is_first(nodes, path);
            let r = row as int;
            assert forall|k: int| 0 <= k < out.len() implies (#[trigger] out[k]).path
                == nodes[k].path && (k != r ==> out[k].dim == nodes[k].dim) by {}
            assert forall|p: PathView| #[trigger] bright_row(out, p) <==> bright_row(nodes, p) || p
                == path by {
                if bright_row(out, p) {
                    let k = choose|k: int|
                        0 <= k < out.len() && (#[trigger] out[k]).path == p && !out[k].dim;
                    if k != r {
                        assert(nodes[k].path == p && !nodes[k].dim);
                    }
                }
                if bright_row(nodes, p) {
                    let k = choose|k: int|
                        0 <= k < nodes.len() && (#[trigger] nodes[k]).path == p && !nodes[k].dim;
                    assert(out[k].path == p && !out[k].dim);
                }
                assert(out[r].path == path && !out[r].dim);
            }
            assert forall|i: int, j: int| 0 <= i < j < out.len() implies (#[trigger] out[i]).path
                != (#[trigger] out[j]).path by {
                assert(nodes[i].path != nodes[j].path);
            }
        },
        None => {
            let parent = PathView { top: path.top, names: path.names.drop_last() };
            folders_on_the_way(nodes, parent, on);
            let above = with_folder(nodes, parent, on);
            row_of_is_inside(above, parent);
            assert(!on_a_row(above, path));
            hanging_keeps_the_rows(
                above,
                row_or_root(above, parent),
                row_for(path, is_dir, false, on),
            );
        },
    }
}

proof fn matches_get_their_rows(root: PathView, matches: Seq<(PathView, bool)>, on: Platform)
    requires
        with_matches(root, matches, on).len() <= usize::MAX,
        forall|i: int| 0 <= i < matches.len() ==> (#[trigger] matches[i]).0.names.len() > 0,
    ensures
        ({
            let out = with_matches(root, matches, on);
            &&& out.len() > 0
            &&& out[0].path == root
            &&& paths_differ(out)
            &&& forall|p: PathView| #[trigger]
                bright_row(out, p) <==> p == root || exists|i: int|
                    0 <= i < matches.len() && (#[trigger] matches[i]).0 == p
        }),
    decreases matches.len(),
{
    let out = with_matches(root, matches, on);
    if matches.len() == 0 {
        assert(out[0] == root_line(root, on));
        assert forall|p: PathView| #[trigger] bright_row(out, p) <==> p == root by {
            if p == root {
                assert(out[0].path == p && !out[0].dim);
            }
        }
    } else {
        let before = matches.drop_last();
        let last = matches.last();
        let rows = with_matches(root, before, on);
        assert forall|i: int| 0 <= i < before.len() implies (#[trigger] before[i]).0.names.len()
            > 0 by {
            assert(before[i] == matches[i]);
        }
        assert(last == matches[matches.len() - 1]);
        matches_have_rows(root, before, on);
        with_match_grows(rows, last.0, last.1, on);
        matches_get_their_rows(root, before, on);
        a_match_gets_its_row(rows, last.0, last.1, on);
        assert forall|p: PathView| #[trigger] bright_row(out, p) <==> p == root || exists|i: int|
            0 <= i < matches.len() && (#[trigger] matches[i]).0 == p by {
            if exists|i: int| 0 <= i < before.len() && (#[trigger] before[i]).0 == p {
                let i = choose|i: int| 0 <= i < before.len() && (#[trigger] before[i]).0 == p;
                assert(matches[i].0 == p);
            }
            if exists|i: int| 0 <= i < matches.len() && (#[trigger] matches[i]).0 == p {
                let i = choose|i: int| 0 <= i < matches.len() && (#[trigger] matches[i]).0 == p;
                if i < before.len() {
                    assert(before[i].0 == p);
                }
            }
        }
    }
}

proof fn hung_under_grows(nodes: Seq<NodeView>, parent: int, node: NodeView)
    requires
        0 <= parent < nodes.len(),
    ensures
        hung_under(nodes, parent, node).len() == nodes.len() + 1,
{
    end_of_is_after(depths(nodes), nodes[parent].depth, parent + 1);
}

proof fn with_folder_grows(nodes: Seq<NodeView>, path: PathView, on: Platform)
    requires
        nodes.len() > 0,
    ensures
        with_folder(nodes, path, on).len() >= nodes.len(),
    decreases path.names.len(),
{
    if !(row_of(nodes, path) is Some || path.names.len() == 0) {
        let parent = PathView { top: path.top, names: path.names.drop_last() };
        with_folder_grows(nodes, parent, on);
        let above = with_folder(nodes, parent, on);
        row_of_is_inside(above, parent);
        hung_under_grows(above, row_or_root(above, parent), row_for(path, true, true, on));
    }
}

proof fn with_match_grows(nodes: Seq<NodeView>, path: PathView, is_dir: bool, on: Platform)
    requires
        nodes.len() > 0,
    ensures
        with_match(nodes, path, is_dir, on).len() >= nodes.len(),
{
    row_of_is_inside(nodes, path);
    if row_of(nodes, path) is None && path.names.len() > 0 {
        let parent = PathView { top: path.top, names: path.names.drop_last() };
        with_folder_grows(nodes, parent, on);
        let above = with_folder(nodes, parent, on);
        row_of_is_inside(above, parent);
        hung_under_grows(above, row_or_root(above, parent), row_for(path, is_dir, false, on));
    }
}

proof fn matches_have_rows(root: PathView, matches: Seq<(PathView, bool)>, on: Platform)
    ensures
        with_matches(root, matches, on).len() > 0,
    decreases matches.len(),
{
    if matches.len() > 0 {
        let before = matches.drop_last();
        matches_have_rows(root, before, on);
        with_match_grows(
            with_matches(root, before, on),
            matches.last().0,
            matches.last().1,
            on,
        );
    }
}

/// The tree of a search's matches shows each of them once, under the folders it
/// sits in, and the best one is selected. The folders are dimmed unless they
/// match too: only the root line and the matches are not.
pub proof fn every_match_is_shown_once_and_bright(
    root: PathView,
    matches: Seq<(PathView, bool)>,
    on: Platform,
)
    requires
        with_matches(root, matches, on).len() <= usize::MAX,
        forall|i: int| 0 <= i < matches.len() ==> (#[trigger] matches[i]).0.names.len() > 0,
    ensures
        ({
            let t = TreeView::of_matches(root, matches, on);
            &&& paths_differ(t.nodes)
            &&& forall|p: PathView| #[trigger]
                bright_row(t.nodes, p) <==> p == root || exists|i: int|
                    0 <= i < matches.len() && (#[trigger] matches[i]).0 == p
            &&& matches.len() > 0 ==> t.selected_node().path == matches[0].0
        }),
{
    let bare = with_matches(root, matches, on);
    matches_get_their_rows(root, matches, on);
    laid_keeps(bare);
    let t = TreeView::of_matches(root, matches, on);
    assert forall|k: int| 0 <= k < bare.len() implies (#[trigger] t.nodes[k]).path == bare[k].path
        && t.nodes[k].dim == bare[k].dim by {}
    assert forall|i: int, j: int| 0 <= i < j < t.nodes.len() implies (#[trigger] t.nodes[i]).path
        != (#[trigger] t.nodes[j]).path by {
        assert(bare[i].path != bare[j].path);
    }
    assert forall|p: PathView| #[trigger] bright_row(t.nodes, p) <==> bright_row(bare, p) by {
        if bright_row(bare, p) {
            let k = choose|k: int|
                0 <= k < bare.len() && (#[trigger] bare[k]).path == p && !bare[k].dim;
            assert(t.nodes[k].path == p && !t.nodes[k].dim);
        }
        if bright_row(t.nodes, p) {
            let k = choose|k: int|
                0 <= k < t.nodes.len() && (#[trigger] t.nodes[k]).path == p && !t.nodes[k].dim;
            assert(bare[k].path == p && !bare[k].dim);
        }
    }
    if matches.len() > 0 {
        let best = matches[0].0;
        assert(bright_row(bare, best));
        let k = choose|k: int|
            0 <= k < bare.len() && (#[trigger] bare[k]).path == best && !bare[k].dim;
        assert(t.nodes[k].path == best);
        row_of_is_first(t.nodes, best);
    }
}

proof fn none_left_means(depths: Seq<usize>, d: usize, j: int)
    requires
        0 <= j,
    ensures
        none_left(depths, d, j) ==> forall|k: int|
            j <= k < depths.len() && #[trigger] depths[k] == d ==> exists|m: int|
                j <= m < k && #[trigger] depths[m] < d,
        !none_left(depths, d, j) ==> exists|k: int|
            j <= k < depths.len() && #[trigger] depths[k] == d && forall|m: int|
                j <= m < k ==> #[trigger] depths[m] > d,
    decreases depths.len() - j,
{
    if j < depths.len() {
        if depths[j] > d {
            none_left_means(depths, d, j + 1);
            if none_left(depths, d, j) {
                assert forall|k: int|
                    j <= k < depths.len() && #[trigger] depths[k] == d implies exists|m: int|
                    j <= m < k && #[trigger] depths[m] < d by {
                    let m = choose|m: int| j + 1 <= m < k && #[trigger] depths[m] < d;
                    assert(depths[m] < d);
                }
            } else {
                let k = choose|k: int|
                    j + 1 <= k < depths.len() && #[trigger] depths[k] == d && forall|m: int|
                        j + 1 <= m < k ==> #[trigger] depths[m] > d;
                assert forall|m: int| j <= m < k implies #[trigger] depths[m] > d by {}
                assert(depths[k] == d);
            }
        } else if depths[j] == d {
            assert(depths[j] == d);
        }
    }
}

/// A row that another of its folder follows has a line that goes on past it, and
/// the last of its folder has one that ends there.
pub proof fn the_last_of_a_folder_ends_its_line(t: TreeView, i: int, j: int)
    requires
        t.wf(),
        0 < i < j < t.nodes.len(),
        t.nodes[i].depth > 0,
    ensures
        ({
            let guide = t.nodes[i].guide;
            let own = guide.skip(guide.len() - 3);
            let followed = t.nodes[j].depth == t.nodes[i].depth && forall|k: int|
                i < k < j ==> (#[trigger] t.nodes[k]).depth > t.nodes[i].depth;
            let alone = forall|k: int|
                i < k < t.nodes.len() ==> (#[trigger] t.nodes[k]).depth > t.nodes[i].depth;
            let ended = t.nodes[j].depth < t.nodes[i].depth && forall|k: int|
                i < k < j ==> (#[trigger] t.nodes[k]).depth > t.nodes[i].depth;
            &&& followed ==> own == seq!['├', '─', ' ']
            &&& alone || ended ==> own == seq!['└', '─', ' ']
        }),
{
    assert(t.nodes[i] == laid(t.nodes)[i]);
    let ds = depths(t.nodes);
    let d = ds[i];
    trail_is_as_long(ds, i, d as nat);
    none_left_means(ds, d, i + 1);
    let guide = t.nodes[i].guide;
    let own = guide.skip(guide.len() - 3);
    if is_last(ds, i) {
        assert(own =~= seq!['└', '─', ' ']);
    } else {
        assert(own =~= seq!['├', '─', ' ']);
    }
    if none_left(ds, d, i + 1) {
        if t.nodes[j].depth == d && forall|k: int|
            i < k < j ==> (#[trigger] t.nodes[k]).depth > d {
            assert(ds[j] == d);
            let m = choose|m: int| i + 1 <= m < j && #[trigger] ds[m] < d;
            assert(t.nodes[m].depth > d);
        }
    } else {
        let k = choose|k: int|
            i + 1 <= k < ds.len() && #[trigger] ds[k] == d && forall|m: int|
                i + 1 <= m < k ==> #[trigger] ds[m] > d;
        assert(t.nodes[k].depth == d);
        if t.nodes[j].depth < d && k > j {
            assert(ds[j] > d);
        }
    }
}

/// A tree just opened shows its root and under it what the root holds, in the order
/// it is listed, with nothing opened; what was selected is selected where it is
/// there.
pub proof fn a_tree_opens_on_what_its_root_holds(
    root: PathView,
    select: PathView,
    disk: DiskView,
    on: Platform,
    i: int,
)
    requires
        0 <= i < disk.listing(root).len() < usize::MAX,
    ensures
        ({
            let t = TreeView::fresh(root, Some(select), on, disk);
            let item = disk.listing(root)[i];
            &&& t.root == root
            &&& t.nodes.len() == disk.listing(root).len() + 1
            &&& t.nodes[0].path == root && t.nodes[0].depth == 0 && t.nodes[0].open
            &&& t.nodes[i + 1].path == root.join(item.name, on)
            &&& t.nodes[i + 1].is_dir == item.is_dir
            &&& t.nodes[i + 1].depth == 1 && !t.nodes[i + 1].open && !t.nodes[i + 1].dim
            &&& select == root.join(item.name, on) ==> t.nodes[t.selected as int].path == select
            &&& TreeView::fresh(root, None, on, disk).selected == 0
        }),
{
    let t = TreeView::fresh(root, Some(select), on, disk);
    row_of_is_first(t.nodes, select);
    assert(t.nodes[i + 1].path == root.join(disk.listing(root)[i].name, on));
}

/// The row of a path is the first that shows it.
pub proof fn a_row_is_found_by_its_path(nodes: Seq<NodeView>, path: PathView, k: int)
    requires
        0 <= k < nodes.len() <= usize::MAX,
        nodes[k].path == path,
    ensures
        row_of(nodes, path) is Some,
        row_of(nodes, path)->Some_0 <= k,
        nodes[row_of(nodes, path)->Some_0 as int].path == path,
    decreases nodes.len(),
{
    row_of_is_first(nodes, path);
    if k < nodes.len() - 1 {
        let before = nodes.drop_last();
        assert(before[k] == nodes[k]);
        a_row_is_found_by_its_path(before, path, k);
    }
}

} // verus!
