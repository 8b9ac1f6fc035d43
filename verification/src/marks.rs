//! The matched letters of a search, shared out among the rows of a tree.

use vstd::prelude::*;

use crate::fs_path::{self, pieces_of, FsPath, PathView, Platform};
use crate::fuzzy;
use crate::text::{self, chars_of};

verus! {

#[derive(Debug)]
struct Mark {
    path: FsPath,
    hits: Vec<u32>,
}

/// The matched characters of each row, as char positions in its name.
#[derive(Debug)]
pub struct Marks {
    list: Vec<Mark>,
}

spec fn marks_map(list: Seq<Mark>) -> Map<PathView, Seq<u32>>
    decreases list.len(),
{
    if list.len() == 0 {
        Map::empty()
    } else {
        marks_map(list.drop_last()).insert(list.last().path@, list.last().hits@)
    }
}

impl View for Marks {
    type V = Map<PathView, Seq<u32>>;

    closed spec fn view(&self) -> Map<PathView, Seq<u32>> {
        marks_map(self.list@)
    }
}

/// The marks of a row, none where it has none.
pub open spec fn marks_of(marks: Map<PathView, Seq<u32>>, path: PathView) -> Seq<u32> {
    if marks.contains_key(path) {
        marks[path]
    } else {
        Seq::empty()
    }
}

impl Marks {
    pub fn new() -> (marks: Marks)
        ensures
            marks@ == Map::<PathView, Seq<u32>>::empty(),
    {
        Marks { list: Vec::new() }
    }

    fn find(&self, path: &FsPath) -> (at: Option<usize>)
        ensures
            at is Some == self@.contains_key(path@),
            at matches Some(i) ==> i < self.list@.len() && self@[path@] == self.list@[i as int].hits@,
    {
        let mut i: usize = self.list.len();
        assert(self.list@.take(i as int) =~= self.list@);
        while i > 0
            invariant
                i <= self.list@.len(),
                self@.contains_key(path@) == marks_map(
                    self.list@.take(i as int),
                ).contains_key(path@),
                self@.contains_key(path@) ==> self@[path@] == marks_map(
                    self.list@.take(i as int),
                )[path@],
            decreases i,
        {
            i -= 1;
            assert(self.list@.take(i + 1).drop_last() =~= self.list@.take(i as int));
            assert(self.list@.take(i + 1).last() == self.list@[i as int]);
            if self.list[i].path.is(path) {
                return Some(i);
            }
        }
        None
    }

    pub fn has(&self, path: &FsPath) -> (res: bool)
        ensures
            res == self@.contains_key(path@),
    {
        self.find(path).is_some()
    }

    /// The marks of a row, none where it has none.
    pub fn get(&self, path: &FsPath) -> (hits: Vec<u32>)
        ensures
            hits@ == marks_of(self@, path@),
    {
        match self.find(path) {
            Some(i) => {
                let hits = self.list[i].hits.clone();
                assert(hits@ =~= self.list@[i as int].hits@);
                hits
            },
            None => {
                let hits: Vec<u32> = Vec::new();
                assert(hits@ =~= Seq::<u32>::empty());
                hits
            },
        }
    }

    pub fn insert(&mut self, path: FsPath, hits: Vec<u32>)
        ensures
            final(self)@ == old(self)@.insert(path@, hits@),
    {
        let ghost was = self.list@;
        self.list.push(Mark { path, hits });
        assert(self.list@.drop_last() =~= was);
    }
}

/// The positions from `start` to before `end`, counted from `start`.
pub open spec fn within(indices: Seq<u32>, start: int, end: int) -> Seq<u32>
    decreases indices.len(),
{
    if indices.len() == 0 {
        indices
    } else {
        let before = within(indices.drop_last(), start, end);
        if start <= indices.last() < end {
            before.push((indices.last() - start) as u32)
        } else {
            before
        }
    }
}

fn those_within(indices: &Vec<u32>, start: u32, end: u32) -> (own: Vec<u32>)
    ensures
        own@ == within(indices@, start as int, end as int),
{
    let mut own: Vec<u32> = Vec::new();
    let mut i: usize = 0;
    assert(own@ =~= within(indices@.take(0), start as int, end as int));
    while i < indices.len()
        invariant
            i <= indices@.len(),
            own@ == within(indices@.take(i as int), start as int, end as int),
        decreases indices@.len() - i,
    {
        assert(indices@.take(i + 1).drop_last() =~= indices@.take(i as int));
        if start <= indices[i] && indices[i] < end {
            own.push(indices[i] - start);
        }
        i += 1;
    }
    assert(indices@.take(i as int) =~= indices@);
    own
}

/// The marks with those of one path shared out, from its name at `k` back to
/// the first. The row of the last name is the match itself; the rows above it
/// are only passed through.
pub open spec fn spread(
    marks: Map<PathView, Seq<u32>>,
    row: PathView,
    names: Seq<Seq<char>>,
    k: int,
    end: int,
    indices: Seq<u32>,
) -> Map<PathView, Seq<u32>>
    decreases k,
{
    let start = end - names[k].len();
    let own = within(indices, start, end);
    let here = if k == names.len() - 1 {
        marks.insert(row, own)
    } else if own.len() > 0 && !marks.contains_key(row) {
        marks.insert(row, own)
    } else {
        marks
    };
    match row.parent() {
        Some(parent) => if k > 0 {
            spread(
                here,
                parent,
                names,
                k - 1,
                if start > 0 {
                    start - 1
                } else {
                    0
                },
                indices,
            )
        } else {
            here
        },
        None => here,
    }
}

/// The marks with those of a match at `path`, shown as `display`.
pub open spec fn marked(
    marks: Map<PathView, Seq<u32>>,
    path: PathView,
    display: Seq<char>,
    indices: Seq<u32>,
    on: Platform,
) -> Map<PathView, Seq<u32>> {
    let names = fs_path::pieces(display, on);
    spread(marks, path, names, names.len() - 1, display.len() as int, indices)
}

/// How many characters the first names take, with a separator before each but
/// the first.
spec fn reach(names: Seq<Seq<char>>, k: int) -> int
    decreases k,
{
    if k <= 0 {
        names[0].len() as int
    } else {
        reach(names, k - 1) + 1 + names[k].len()
    }
}

proof fn reach_of_longer(names: Seq<Seq<char>>, more: Seq<Seq<char>>, k: int)
    requires
        0 <= k < names.len(),
        k < more.len(),
        forall|i: int| 0 <= i <= k ==> names[i] == more[i],
    ensures
        reach(names, k) == reach(more, k),
    decreases k,
{
    if k > 0 {
        reach_of_longer(names, more, k - 1);
    }
}

proof fn pieces_reach_the_end(text: Seq<char>, on: Platform)
    ensures
        fs_path::pieces(text, on).len() > 0,
        reach(fs_path::pieces(text, on), fs_path::pieces(text, on).len() - 1) == text.len(),
    decreases text.len(),
{
    let all = fs_path::pieces(text, on);
    if text.len() > 0 {
        let before = fs_path::pieces(text.drop_last(), on);
        pieces_reach_the_end(text.drop_last(), on);
        let n = before.len() - 1;
        if on.separates(text.last()) {
            reach_of_longer(before, all, n);
        } else if n > 0 {
            reach_of_longer(before, all, n - 1);
        }
    }
}

/// Shares out the matched characters of `display`, a path relative to the
/// tree's root, among the rows that show it: each folder on the way and the
/// match itself, as positions in that row's name. A row keeps its own match
/// over one passing through it, and otherwise the best match that reaches it.
pub fn spread_marks(
    path: &FsPath,
    display: &str,
    indices: &Vec<u32>,
    marks: &mut Marks,
    on: Platform,
)
    requires
        display@.len() <= fuzzy::TEXT_LIMIT,
    ensures
        final(marks)@ == marked(old(marks)@, path@, display@, indices@, on),
{
    let chars = chars_of(display);
    let names = pieces_of(&chars, 0, on);
    let ghost all = text::views(names@);
    proof {
        assert(chars@.skip(0) =~= display@);
        pieces_reach_the_end(display@, on);
    }
    let mut row = path.clone();
    let mut end: u32 = chars.len() as u32;
    let mut k: usize = names.len() - 1;
    loop
        invariant
            k < names@.len(),
            all == text::views(names@),
            end == reach(all, k as int),
            marked(old(marks)@, path@, display@, indices@, on) == spread(
                marks@,
                row@,
                all,
                k as int,
                end as int,
                indices@,
            ),
        decreases k,
    {
        let name = chars_of(&names[k]);
        assert(name@ == all[k as int]);
        proof {
            reach_is_enough(all, k as int);
        }
        let start: u32 = end - name.len() as u32;
        let own = those_within(indices, start, end);
        if k == names.len() - 1 {
            marks.insert(row.clone(), own);
        } else if own.len() > 0 && !marks.has(&row) {
            marks.insert(row.clone(), own);
        }
        match row.parent() {
            Some(parent) => {
                if k == 0 {
                    return;
                }
                row = parent;
                end = if start > 0 {
                    start - 1
                } else {
                    0
                };
                k -= 1;
            },
            None => {
                return;
            },
        }
    }
}

proof fn reach_is_enough(names: Seq<Seq<char>>, k: int)
    requires
        0 <= k < names.len(),
    ensures
        reach(names, k) >= names[k].len(),
        k > 0 ==> reach(names, k) - names[k].len() == reach(names, k - 1) + 1,
        k > 0 ==> reach(names, k - 1) >= 0,
        reach(names, k) >= 0,
    decreases k,
{
    if k > 0 {
        reach_is_enough(names, k - 1);
    }
}

/// A match's own row has exactly the letters matched in its name.
pub proof fn a_match_keeps_its_own_marks(
    marks: Map<PathView, Seq<u32>>,
    path: PathView,
    display: Seq<char>,
    indices: Seq<u32>,
    on: Platform,
)
    ensures
        marked(marks, path, display, indices, on).contains_key(path),
        marked(marks, path, display, indices, on)[path] == within(
            indices,
            display.len() - fs_path::pieces(display, on).last().len(),
            display.len() as int,
        ),
{
    let names = fs_path::pieces(display, on);
    pieces_reach_the_end(display, on);
    let k = names.len() - 1;
    let end = display.len() as int;
    let start = end - names[k].len();
    let here = marks.insert(path, within(indices, start, end));
    if k > 0 && path.parent() is Some {
        spread_leaves_deeper_rows(
            here,
            path.parent()->Some_0,
            names,
            k - 1,
            if start > 0 {
                start - 1
            } else {
                0
            },
            indices,
            path,
        );
    }
}

proof fn spread_leaves_deeper_rows(
    marks: Map<PathView, Seq<u32>>,
    row: PathView,
    names: Seq<Seq<char>>,
    k: int,
    end: int,
    indices: Seq<u32>,
    path: PathView,
)
    requires
        0 <= k < names.len() - 1,
        row.names.len() < path.names.len(),
        marks.contains_key(path),
    ensures
        spread(marks, row, names, k, end, indices).contains_key(path),
        spread(marks, row, names, k, end, indices)[path] == marks[path],
    decreases k,
{
    let start = end - names[k].len();
    let own = within(indices, start, end);
    let here = if own.len() > 0 && !marks.contains_key(row) {
        marks.insert(row, own)
    } else {
        marks
    };
    match row.parent() {
        Some(parent) => {
            if k > 0 {
                spread_leaves_deeper_rows(
                    here,
                    parent,
                    names,
                    k - 1,
                    if start > 0 {
                        start - 1
                    } else {
                        0
                    },
                    indices,
                    path,
                );
            }
        },
        None => {},
    }
}

/// A letter matched in the name of the folder a match is in is marked on the
/// folder's row, unless that row has marks of its own.
pub proof fn the_folder_of_a_match_is_marked_too(
    marks: Map<PathView, Seq<u32>>,
    path: PathView,
    display: Seq<char>,
    indices: Seq<u32>,
    on: Platform,
)
    requires
        path.names.len() > 0,
        fs_path::pieces(display, on).len() >= 2,
    ensures
        ({
            let names = fs_path::pieces(display, on);
            let folder = PathView { top: path.top, names: path.names.drop_last() };
            let end = display.len() - names.last().len() - 1;
            let own = within(indices, end - names[names.len() - 2].len(), end);
            let now = marked(marks, path, display, indices, on);
            &&& !marks.contains_key(folder) && own.len() > 0 ==> now.contains_key(folder)
                && now[folder] == own
            &&& marks.contains_key(folder) ==> now.contains_key(folder) && now[folder]
                == marks[folder]
        }),
{
    let names = fs_path::pieces(display, on);
    pieces_reach_the_end(display, on);
    let k = names.len() - 1;
    let end = display.len() as int;
    let start = end - names[k].len();
    reach_is_enough(names, k);
    assert(reach(names, k) == reach(names, k - 1) + 1 + names[k].len());
    assert(start > 0);
    let here = marks.insert(path, within(indices, start, end));
    let folder = path.parent()->Some_0;
    assert(folder != path) by {
        assert(folder.names.len() < path.names.len());
    }
    let below = start - 1;
    let own = within(indices, below - names[k - 1].len(), below);
    let there = if own.len() > 0 && !here.contains_key(folder) {
        here.insert(folder, own)
    } else {
        here
    };
    assert(marked(marks, path, display, indices, on) == spread(
        here,
        folder,
        names,
        k - 1,
        below,
        indices,
    ));
    if k - 1 > 0 && folder.parent() is Some && there.contains_key(folder) {
        let from = below - names[k - 1].len();
        spread_leaves_deeper_rows(
            there,
            folder.parent()->Some_0,
            names,
            k - 2,
            if from > 0 {
                from - 1
            } else {
                0
            },
            indices,
            folder,
        );
    }
}

} // verus!
