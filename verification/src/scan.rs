//! The candidates of a search: what a walk keeps, how its list is ordered, and
//! where a walk is not made at all.

use vstd::prelude::*;

use crate::favorites::{self, Favorite, FavoriteView};
use crate::fs_path::{FsPath, PathView, Platform};
use crate::mode::Mode;
use crate::order::{self, stable_order, SortKey};
use crate::text::{self, chars_of, joined, lowercase_of, not_after, same, split_on, trim};

verus! {

/// One candidate. `display` is what is matched against and shown: the path
/// relative to the scan root, or the whole path for the modes that read a
/// saved list.
///
/// The full path is rebuilt from `display` rather than stored beside it.
#[derive(Debug)]
pub struct Entry {
    pub display: String,
    root: FsPath,
    /// Held only for a name that `display` cannot be turned back into. A path
    /// that is not valid UTF-8 loses bytes on the way to a String, and cd-ing
    /// to a lossy rendering of it would silently land somewhere else.
    exact: Option<String>,
}

#[verifier::ext_equal]
pub struct EntryView {
    pub display: Seq<char>,
    pub root: PathView,
    pub exact: Option<Seq<char>>,
}

impl View for Entry {
    type V = EntryView;

    closed spec fn view(&self) -> EntryView {
        EntryView {
            display: self.display@,
            root: self.root@,
            exact: text::opt_view(self.exact),
        }
    }
}

impl EntryView {
    pub open spec fn path(self, on: Platform) -> PathView {
        match self.exact {
            Some(path) => crate::fs_path::parsed(path, on),
            None => {
                let shown = crate::fs_path::parsed(self.display, on);
                if shown.is_absolute(on) {
                    shown
                } else {
                    self.root.join(self.display, on)
                }
            },
        }
    }

    /// The entry as it is written to stdout: files hand back the folder that
    /// holds them, since the point is to cd there.
    pub open spec fn output_path(self, mode: Mode, on: Platform) -> PathView {
        let path = self.path(on);
        if mode is Files && path.parent() is Some {
            path.parent()->Some_0
        } else {
            path
        }
    }

    /// The path as it is written. A whole one is written as the list has it.
    pub open spec fn written(self, on: Platform) -> Seq<char> {
        match self.exact {
            Some(path) => path,
            None => if crate::fs_path::parsed(self.display, on).is_absolute(on) {
                self.display
            } else {
                self.root.join(self.display, on).text(on)
            },
        }
    }

    /// What the entry puts on stdout.
    pub open spec fn output_text(self, mode: Mode, on: Platform) -> Seq<char> {
        if mode is Files && self.path(on).parent() is Some {
            self.output_path(mode, on).text(on)
        } else {
            self.written(on)
        }
    }
}

impl Clone for Entry {
    fn clone(&self) -> (res: Self)
        ensures
            res@ == self@,
    {
        Entry {
            display: self.display.clone(),
            root: self.root.clone(),
            exact: match &self.exact {
                Some(path) => Some(path.clone()),
                None => None,
            },
        }
    }
}

impl Entry {
    /// An entry of a scan of `root` shown as `shown`. `lossy` says that the
    /// path cannot be had back from what is shown.
    pub fn new(root: &FsPath, path: &str, shown: &str, lossy: bool) -> (entry: Entry)
        ensures
            entry@ == (EntryView {
                display: shown@,
                root: root@,
                exact: if lossy {
                    Some(path@)
                } else {
                    None
                },
            }),
    {
        Entry {
            display: shown.to_owned(),
            root: root.clone(),
            exact: if lossy {
                Some(path.to_owned())
            } else {
                None
            },
        }
    }

    /// What it is shown as.
    pub fn shown(&self) -> (display: &String)
        ensures
            display@ == self@.display,
    {
        &self.display
    }

    pub fn path(&self, on: Platform) -> (path: FsPath)
        ensures
            path@ == self@.path(on),
    {
        match &self.exact {
            Some(exact) => FsPath::parse(exact, on),
            None => {
                let shown = FsPath::parse(&self.display, on);
                if shown.is_absolute(on) {
                    shown
                } else {
                    self.root.join(&self.display, on)
                }
            },
        }
    }

    /// Whether this entry had to keep the real path because `display` is a
    /// lossy rendering of it.
    pub fn exact_path_kept(&self) -> (res: bool)
        ensures
            res == (self@.exact is Some),
    {
        self.exact.is_some()
    }

    /// The entry as it is written to stdout: files hand back the folder that
    /// holds them, since the point is to cd there.
    pub fn output_path(&self, mode: Mode, on: Platform) -> (path: FsPath)
        ensures
            path@ == self@.output_path(mode, on),
    {
        let path = self.path(on);
        if mode == Mode::Files {
            match path.parent() {
                Some(parent) => {
                    return parent;
                },
                None => {},
            }
        }
        path
    }

    /// What the entry puts on stdout.
    pub fn output_text(&self, mode: Mode, on: Platform) -> (text: String)
        ensures
            text@ == self@.output_text(mode, on),
    {
        if mode == Mode::Files {
            match self.path(on).parent() {
                Some(parent) => {
                    return parent.text(on);
                },
                None => {},
            }
        }
        match &self.exact {
            Some(exact) => exact.clone(),
            None => if FsPath::parse(&self.display, on).is_absolute(on) {
                self.display.clone()
            } else {
                self.root.join(&self.display, on).text(on)
            },
        }
    }

    /// An entry of a list that is not relative to anything, so the whole path is
    /// shown, as it is written there.
    pub fn place(path: &str) -> (entry: Entry)
        ensures
            entry@ == (EntryView { display: path@, root: PathView::empty(), exact: None }),
    {
        Self::new(&FsPath::empty(), path, path, false)
    }

    /// An entry for a path no scan produced, such as the folder browse is
    /// sitting in when Enter is pressed.
    pub fn absolute(path: &FsPath, on: Platform) -> (entry: Entry)
        ensures
            entry@ == (EntryView {
                display: path@.text(on),
                root: PathView::empty(),
                exact: None,
            }),
    {
        Self::place(&path.text(on))
    }
}

/// What a walk and the picker that started it tell each other.
#[derive(Clone, Copy, Debug, PartialEq, Eq, Structural)]
pub struct Signals {
    /// The walk is finished, whether it went through everything or not.
    pub done: bool,
    /// The picker no longer needs the walk.
    pub cancel: bool,
    /// The walk stopped at the configured ceiling.
    pub truncated: bool,
}

impl Signals {
    /// Of a walk just started.
    pub fn new() -> (signals: Signals)
        ensures
            signals == (Signals { done: false, cancel: false, truncated: false }),
    {
        Signals { done: false, cancel: false, truncated: false }
    }
}

/// How many entries a walk may keep. Zero means no ceiling.
pub fn ceiling(limit: usize) -> (most: usize)
    ensures
        most == (if limit == 0 {
            usize::MAX
        } else {
            limit
        }),
{
    if limit == 0 {
        usize::MAX
    } else {
        limit
    }
}

/// What a walk does with an entry it came upon.
#[derive(Debug)]
pub enum Visit {
    /// The picker has gone, or the list is full: the walk is over.
    Quit,
    /// Not something the list is of.
    Pass,
    /// One for the list.
    Keep(Entry),
}

#[verifier::ext_equal]
pub enum VisitView {
    Quit,
    Pass,
    Keep(EntryView),
}

impl View for Visit {
    type V = VisitView;

    open spec fn view(&self) -> VisitView {
        match *self {
            Visit::Quit => VisitView::Quit,
            Visit::Pass => VisitView::Pass,
            Visit::Keep(entry) => VisitView::Keep(entry@),
        }
    }
}

/// What a walk knows of an entry: its path, how far below the root it is, and
/// whether it is a directory, where that could be told.
#[derive(Debug)]
pub struct Walked {
    pub path: FsPath,
    pub depth: usize,
    pub is_dir: Option<bool>,
    /// The path cannot be had back from how it is shown.
    pub lossy: bool,
}

/// Whether a list in `mode` holds directories, files, or both.
pub open spec fn wanted(mode: Mode, is_dir: bool) -> bool {
    match mode {
        Mode::Dirs => is_dir,
        Mode::Files => !is_dir,
        Mode::Browse => true,
        Mode::Recent | Mode::Favorites => false,
    }
}

pub open spec fn entry_of(root: PathView, walked: Walked, mode: Mode, on: Platform) -> Option<
    EntryView,
> {
    match walked.is_dir {
        Some(is_dir) => if walked.depth > 0 && wanted(mode, is_dir) && walked.path@.under(root) {
            Some(
                EntryView {
                    display: (PathView {
                        top: Seq::empty(),
                        names: walked.path@.names.skip(root.names.len() as int),
                    }).text(on),
                    root,
                    exact: if walked.lossy {
                        Some(walked.path@.text(on))
                    } else {
                        None
                    },
                },
            )
        } else {
            None
        },
        None => None,
    }
}

/// The candidate a walk of `root` makes of an entry, if it is one.
pub fn to_entry(root: &FsPath, walked: &Walked, mode: Mode, on: Platform) -> (entry: Option<Entry>)
    ensures
        entry is Some == entry_of(root@, *walked, mode, on) is Some,
        entry matches Some(e) ==> entry_of(root@, *walked, mode, on) == Some(e@),
{
    if walked.depth == 0 {
        return None;
    }
    let is_dir = match walked.is_dir {
        Some(is_dir) => is_dir,
        None => {
            return None;
        },
    };
    let fits = match mode {
        Mode::Dirs => is_dir,
        Mode::Files => !is_dir,
        Mode::Browse => true,
        Mode::Recent | Mode::Favorites => false,
    };
    if !fits {
        return None;
    }
    match walked.path.below(root) {
        Some(relative) => Some(
            Entry::new(root, &walked.path.text(on), &relative.text(on), walked.lossy),
        ),
        None => None,
    }
}

/// What a walk does next, come upon something that makes the candidate `entry`,
/// if any, with `found` kept before and a ceiling of `most`; and what it then
/// tells the picker.
pub open spec fn visited(
    entry: Option<EntryView>,
    signals: Signals,
    found: nat,
    most: usize,
) -> (VisitView, Signals) {
    match entry {
        _ if signals.cancel => (VisitView::Quit, signals),
        None => (VisitView::Pass, signals),
        Some(entry) => if found >= most {
            (VisitView::Quit, Signals { truncated: true, ..signals })
        } else {
            (VisitView::Keep(entry), signals)
        },
    }
}

/// One step of a walk. `found` is how many entries were kept before, and
/// `most` the ceiling. The second result says that the ceiling was met.
pub fn visit(
    root: &FsPath,
    walked: &Walked,
    mode: Mode,
    on: Platform,
    signals: Signals,
    found: usize,
    most: usize,
) -> (res: (Visit, Signals))
    ensures
        (res.0@, res.1) == visited(
            entry_of(root@, *walked, mode, on),
            signals,
            found as nat,
            most,
        ),
{
    if signals.cancel {
        return (Visit::Quit, signals);
    }
    match to_entry(root, walked, mode, on) {
        None => (Visit::Pass, signals),
        Some(entry) => {
            if found >= most {
                let mut signals = signals;
                signals.truncated = true;
                (Visit::Quit, signals)
            } else {
                (Visit::Keep(entry), signals)
            }
        },
    }
}

/// Where a walk has got to.
#[verifier::ext_equal]
pub struct WalkView {
    /// What it kept for the list, in the order it came upon it.
    pub kept: Seq<EntryView>,
    pub signals: Signals,
    /// It has quit.
    pub over: bool,
}

/// A walk that nobody cancels, come upon these one after another.
pub open spec fn walk_after(
    root: PathView,
    met: Seq<Walked>,
    mode: Mode,
    on: Platform,
    most: usize,
) -> WalkView
    decreases met.len(),
{
    if met.len() == 0 {
        WalkView {
            kept: Seq::empty(),
            signals: Signals { done: false, cancel: false, truncated: false },
            over: false,
        }
    } else {
        let before = walk_after(root, met.drop_last(), mode, on, most);
        if before.over {
            before
        } else {
            let entry = entry_of(root, met.last(), mode, on);
            let (visit, signals) = visited(entry, before.signals, before.kept.len(), most);
            match visit {
                VisitView::Quit => WalkView { signals, over: true, ..before },
                VisitView::Pass => WalkView { signals, ..before },
                VisitView::Keep(entry) => WalkView {
                    kept: before.kept.push(entry),
                    signals,
                    over: false,
                },
            }
        }
    }
}

/// The candidates there are among what a walk comes upon.
pub open spec fn candidates(
    root: PathView,
    met: Seq<Walked>,
    mode: Mode,
    on: Platform,
) -> Seq<EntryView>
    decreases met.len(),
{
    if met.len() == 0 {
        Seq::empty()
    } else {
        let before = candidates(root, met.drop_last(), mode, on);
        match entry_of(root, met.last(), mode, on) {
            Some(entry) => before.push(entry),
            None => before,
        }
    }
}

/// A whole walk keeps at most the ceiling, the first candidates it comes upon,
/// and says that it stopped there exactly when there was one more.
pub proof fn a_walk_stops_at_its_ceiling(
    root: PathView,
    met: Seq<Walked>,
    mode: Mode,
    on: Platform,
    most: usize,
)
    ensures
        ({
            let walk = walk_after(root, met, mode, on, most);
            let all = candidates(root, met, mode, on);
            &&& walk.kept.len() <= most
            &&& walk.kept == (if all.len() <= most {
                all
            } else {
                all.take(most as int)
            })
            &&& walk.signals.truncated == (all.len() > most)
            &&& walk.over == walk.signals.truncated
            &&& !walk.signals.cancel
        }),
    decreases met.len(),
{
    if met.len() > 0 {
        a_walk_stops_at_its_ceiling(root, met.drop_last(), mode, on, most);
        let before = candidates(root, met.drop_last(), mode, on);
        let all = candidates(root, met, mode, on);
        if all.len() > most {
            if before.len() <= most {
                assert(all.take(most as int) =~= before);
            } else {
                assert(all.take(most as int) =~= before.take(most as int));
            }
        }
    }
}

/// Whether a walk goes into a directory: not into one on the list of those to
/// leave out, nor through a link to another place.
pub fn walks_into(name: &str, is_dir: bool, link: bool, exclude: &Vec<String>) -> (res: bool)
    ensures
        res == !(is_dir && (link || text::views(exclude@).contains(name@))),
{
    if !is_dir {
        return true;
    }
    if link {
        return false;
    }
    let mut i: usize = 0;
    while i < exclude.len()
        invariant
            i <= exclude@.len(),
            is_dir,
            !link,
            forall|k: int| 0 <= k < i ==> #[trigger] exclude@[k]@ != name@,
        decreases exclude@.len() - i,
    {
        if same(&exclude[i], name) {
            assert(text::views(exclude@)[i as int] == name@);
            return false;
        }
        i += 1;
    }
    assert forall|k: int| 0 <= k < exclude@.len() implies text::views(exclude@)[k] != name@ by {
        assert(exclude@[k]@ != name@);
    }
    true
}

/// What the list of a finished scan goes by: shallow paths first, then by name
/// without regard to case, then by the order they were found in.
#[derive(Debug)]
pub struct ScanKey {
    pub depth: usize,
    pub lower: String,
    pub index: u32,
}

#[verifier::ext_equal]
pub struct ScanKeyView {
    pub depth: usize,
    pub lower: Seq<char>,
    pub index: u32,
}

impl View for ScanKey {
    type V = ScanKeyView;

    open spec fn view(&self) -> ScanKeyView {
        ScanKeyView { depth: self.depth, lower: self.lower@, index: self.index }
    }
}

pub open spec fn scan_keys_view(keys: Seq<ScanKey>) -> Seq<ScanKeyView> {
    keys.map_values(|k: ScanKey| k@)
}

pub open spec fn scan_le(a: ScanKeyView, b: ScanKeyView) -> bool {
    if a.depth != b.depth {
        a.depth < b.depth
    } else if a.lower != b.lower {
        text::text_le(a.lower, b.lower)
    } else {
        a.index <= b.index
    }
}

impl SortKey for ScanKey {
    open spec fn le(self, other: Self) -> bool {
        scan_le(self@, other@)
    }

    proof fn le_total(a: Self, b: Self) {
        text::text_le_total(a.lower@, b.lower@);
    }

    proof fn le_transitive(a: Self, b: Self, c: Self) {
        if a.depth == b.depth && b.depth == c.depth {
            if a.lower@ == b.lower@ || b.lower@ == c.lower@ {
            } else {
                text::text_le_transitive(a.lower@, b.lower@, c.lower@);
                if a.lower@ == c.lower@ {
                    text::text_le_antisymmetric(a.lower@, b.lower@);
                }
            }
        }
    }

    fn not_after(&self, other: &Self) -> (res: bool) {
        if self.depth != other.depth {
            self.depth < other.depth
        } else if !same(&self.lower, &other.lower) {
            not_after(&self.lower, &other.lower)
        } else {
            self.index <= other.index
        }
    }
}

/// How many times `c` stands in a text.
pub open spec fn times(text: Seq<char>, c: char) -> nat
    decreases text.len(),
{
    if text.len() == 0 {
        0
    } else {
        times(text.drop_last(), c) + if text.last() == c {
            1nat
        } else {
            0
        }
    }
}

/// What an entry shown as `display` and found as number `index` goes by.
pub fn scan_key(display: &str, index: u32, on: Platform) -> (key: ScanKey)
    ensures
        key@ == (ScanKeyView {
            depth: times(display@, on.sep()) as usize,
            lower: text::lowercase(display@),
            index,
        }),
        key.depth == times(display@, on.sep()),
{
    let chars = chars_of(display);
    let sep: char = on.separator();
    let mut depth: usize = 0;
    let mut i: usize = 0;
    assert(display@.take(0) =~= Seq::<char>::empty());
    while i < chars.len()
        invariant
            i <= chars@.len(),
            chars@ == display@,
            sep == on.sep(),
            depth <= i,
            depth == times(display@.take(i as int), sep),
        decreases chars@.len() - i,
    {
        assert(display@.take(i + 1).drop_last() =~= display@.take(i as int));
        if chars[i] == sep {
            depth += 1;
        }
        i += 1;
    }
    assert(display@.take(i as int) =~= display@);
    ScanKey { depth, lower: lowercase_of(display), index }
}

pub open spec fn scanned_before(keys: Seq<ScanKeyView>, i: usize, j: usize) -> bool {
    scan_le(keys[i as int], keys[j as int]) && (scan_le(keys[j as int], keys[i as int]) ==> i < j)
}

pub open spec fn scanned_as(keys: Seq<ScanKeyView>, order: Seq<usize>, out: Seq<u32>) -> bool {
    &&& order.to_multiset() == order::places(0, keys.len() as usize).to_multiset()
    &&& forall|p: int, q: int|
        0 <= p < q < order.len() ==> scanned_before(keys, #[trigger] order[p], #[trigger] order[q])
    &&& out == Seq::new(order.len(), |p: int| keys[order[p] as int].index)
}

/// Whether `out` is the numbers of what was found, in the order they are shown.
pub open spec fn in_scan_order(keys: Seq<ScanKeyView>, out: Seq<u32>) -> bool {
    exists|order: Seq<usize>| #[trigger] scanned_as(keys, order, out)
}

/// The numbers of what a scan found, in the order they are shown with nothing
/// typed.
pub fn scan_order(keys: &Vec<ScanKey>) -> (out: Vec<u32>)
    ensures
        in_scan_order(scan_keys_view(keys@), out@),
        out@.len() == keys@.len(),
{
    let order = stable_order(keys);
    let mut out: Vec<u32> = Vec::new();
    let mut k: usize = 0;
    while k < order.len()
        invariant
            k <= order@.len(),
            order@.len() == keys@.len(),
            forall|p: int| 0 <= p < order@.len() ==> #[trigger] order@[p] < keys@.len(),
            out@.len() == k,
            forall|p: int| 0 <= p < k ==> #[trigger] out@[p] == keys@[order@[p] as int].index,
        decreases order@.len() - k,
    {
        out.push(keys[order[k]].index);
        k += 1;
    }
    proof {
        let all = scan_keys_view(keys@);
        assert(out@ =~= Seq::new(order@.len(), |p: int| all[order@[p] as int].index));
        assert forall|p: int, q: int| 0 <= p < q < order@.len() implies scanned_before(
            all,
            #[trigger] order@[p],
            #[trigger] order@[q],
        ) by {
            assert(order::before(keys@, order@[p], order@[q]));
        }
        assert(scanned_as(all, order@, out@));
    }
    out
}

/// A scan's list comes in one order only.
pub proof fn scan_order_is_unique(keys: Seq<ScanKeyView>, a: Seq<u32>, b: Seq<u32>)
    requires
        in_scan_order(keys, a),
        in_scan_order(keys, b),
    ensures
        a == b,
{
    let x = choose|order: Seq<usize>| #[trigger] scanned_as(keys, order, a);
    let y = choose|order: Seq<usize>| #[trigger] scanned_as(keys, order, b);
    let rel = |i: usize, j: usize| scanned_before(keys, i, j);
    assert(order::sorted_by(rel, x)) by {
        assert forall|p: int, q: int| 0 <= p < q < x.len() implies rel(
            #[trigger] x[p],
            #[trigger] x[q],
        ) by {
            assert(scanned_before(keys, x[p], x[q]));
        }
    }
    assert(order::sorted_by(rel, y)) by {
        assert forall|p: int, q: int| 0 <= p < q < y.len() implies rel(
            #[trigger] y[p],
            #[trigger] y[q],
        ) by {
            assert(scanned_before(keys, y[p], y[q]));
        }
    }
    order::order_is_unique(rel, x, y);
}

/// Whether the keys are those of items shown that way: each names an item, and
/// goes by how deep it is shown and by its letters without regard to case.
pub open spec fn keys_of(keys: Seq<ScanKeyView>, shown: Seq<Seq<char>>, sep: char) -> bool {
    forall|i: int|
        0 <= i < keys.len() ==> {
            &&& (#[trigger] keys[i]).index < shown.len()
            &&& keys[i].depth == times(shown[keys[i].index as int], sep)
            &&& keys[i].lower == text::lowercase(shown[keys[i].index as int])
        }
}

/// A finished scan lists shallow paths first: of two places in its order, the
/// first has no more separators than the second. Among paths as deep as one
/// another the letters decide, capital or not: at the first one they differ in,
/// the first path has the lower one, and no path comes after a longer one that
/// starts with it. Paths with the same letters stay in the order they were found.
pub proof fn a_scan_lists_shallow_paths_first(
    shown: Seq<Seq<char>>,
    sep: char,
    keys: Seq<ScanKeyView>,
    out: Seq<u32>,
    p: int,
    q: int,
)
    requires
        keys.len() <= usize::MAX,
        keys_of(keys, shown, sep),
        in_scan_order(keys, out),
        0 <= p < q < out.len(),
    ensures
        out[p] < shown.len(),
        out[q] < shown.len(),
        ({
            let (first, second) = (shown[out[p] as int], shown[out[q] as int]);
            let (a, b) = (text::lowercase(first), text::lowercase(second));
            &&& times(first, sep) <= times(second, sep)
            &&& times(first, sep) == times(second, sep) ==> {
                &&& forall|k: int|
                    0 <= k < a.len() && k < b.len() && #[trigger] a.take(k) == b.take(k) ==> a[k]
                        <= b[k]
                &&& b.len() < a.len() ==> a.take(b.len() as int) != b
                &&& a == b ==> out[p] <= out[q]
            }
        }),
{
    let order = choose|order: Seq<usize>| #[trigger] scanned_as(keys, order, out);
    order::order_stays_inside(order, 0, keys.len() as usize);
    let (x, y) = (keys[order[p] as int], keys[order[q] as int]);
    assert(x.index == out[p] && y.index == out[q]);
    assert(scanned_before(keys, order[p], order[q]));
    let (a, b) = (x.lower, y.lower);
    if x.depth == y.depth {
        assert forall|k: int|
            0 <= k < a.len() && k < b.len() && #[trigger] a.take(k) == b.take(k) implies a[k]
            <= b[k] by {
            text::texts_go_by_their_first_difference(b, a, k);
        }
        if b.len() < a.len() && a.take(b.len() as int) == b {
            assert(b.take(b.len() as int) =~= b);
            text::texts_go_by_their_first_difference(b, a, b.len() as int);
        }
    }
}

/// A finished scan lists everything that was found: as many rows as there were
/// finds, each of them one, and none left out.
pub proof fn a_scan_lists_everything_found(keys: Seq<ScanKeyView>, out: Seq<u32>, i: int)
    requires
        keys.len() <= usize::MAX,
        in_scan_order(keys, out),
        0 <= i < keys.len(),
    ensures
        out.len() == keys.len(),
        out.contains(keys[i].index),
        exists|k: int| 0 <= k < keys.len() && (#[trigger] keys[k]).index == out[i],
{
    let order = choose|order: Seq<usize>| #[trigger] scanned_as(keys, order, out);
    order::order_stays_inside(order, 0, keys.len() as usize);
    order::order_reaches(order, 0, keys.len() as usize, i as usize);
    let p = choose|p: int| 0 <= p < order.len() && order[p] == i as usize;
    assert(out[p] == keys[i].index);
    assert(keys[order[i] as int].index == out[i]);
}

/// Why a place is not searched.
#[derive(Debug, PartialEq, Eq)]
pub enum Refusal {
    /// A share, or a kind of path that is not a drive.
    Network,
    /// A drive that is on the network, or that cannot be told.
    Drive,
    /// No drive to tell anything of.
    NoDrive,
    /// Where the place really is could not be found out.
    Unresolved(String),
}

impl Refusal {
    pub open spec fn says(self) -> Seq<char> {
        match self {
            Refusal::Network =>
                "Recursive scan blocked on network or unsupported paths. Use browse (Tab) instead."@,
            Refusal::Drive =>
                "Recursive scan blocked on network or unverified drives. Use browse (Tab) instead."@,
            Refusal::NoDrive => "Cannot verify scan drive. Use browse (Tab) instead."@,
            Refusal::Unresolved(error) => "Cannot verify scan location: "@ + error@
                + ". Use browse instead."@,
        }
    }

    pub fn message(&self) -> (text: String)
        ensures
            text@ == self.says(),
    {
        match self {
            Refusal::Network =>
                "Recursive scan blocked on network or unsupported paths. Use browse (Tab) instead.".to_owned(),
            Refusal::Drive =>
                "Recursive scan blocked on network or unverified drives. Use browse (Tab) instead.".to_owned(),
            Refusal::NoDrive => "Cannot verify scan drive. Use browse (Tab) instead.".to_owned(),
            Refusal::Unresolved(error) => joined(
                &joined("Cannot verify scan location: ", error),
                ". Use browse instead.",
            ),
        }
    }
}

/// A place on Windows: its whole path, and the kind Windows gives its drive.
#[derive(Debug)]
pub struct Volume {
    pub path: FsPath,
    pub drive_type: u32,
}

/// Whether Windows' number for a drive says removable, fixed, optical or
/// memory.
pub open spec fn local(drive_type: u32) -> bool {
    drive_type == 2 || drive_type == 3 || drive_type == 5 || drive_type == 6
}

pub open spec fn volume_refusal(path: PathView, drive_type: u32) -> Option<Refusal> {
    if path.drive() is Some {
        if local(drive_type) {
            None
        } else {
            Some(Refusal::Drive)
        }
    } else if path.top.len() > 1 {
        Some(Refusal::Network)
    } else {
        Some(Refusal::NoDrive)
    }
}

pub fn check_windows_volume(volume: &Volume) -> (res: Result<(), Refusal>)
    ensures
        match volume_refusal(volume.path@, volume.drive_type) {
            None => res is Ok,
            Some(refusal) => res == Err::<(), Refusal>(refusal),
        },
{
    if volume.path.drive().is_some() {
        match volume.drive_type {
            2 | 3 | 5 | 6 => Ok(()),
            _ => Err(Refusal::Drive),
        }
    } else if volume.path.top.unicode_len() > 1 {
        Err(Refusal::Network)
    } else {
        Err(Refusal::NoDrive)
    }
}

/// Where a place turned out to be.
#[derive(Debug)]
pub enum Resolved {
    At(Volume),
    Missing,
    Failed(String),
}

/// Whether a place may be searched: anywhere but on Windows, and there where
/// both the path and what it leads to are on a local drive. A place that is
/// not there is let through, and found empty.
pub open spec fn scan_refusal(root: Volume, resolved: Resolved, on: Platform) -> Option<Refusal> {
    match on {
        Platform::Unix => None,
        Platform::Windows => match volume_refusal(root.path@, root.drive_type) {
            Some(refusal) => Some(refusal),
            None => match resolved {
                Resolved::At(volume) => volume_refusal(volume.path@, volume.drive_type),
                Resolved::Missing => None,
                Resolved::Failed(error) => Some(Refusal::Unresolved(error)),
            },
        },
    }
}

pub fn check_scan_root(root: &Volume, resolved: Resolved, on: Platform) -> (res: Result<
    (),
    Refusal,
>)
    ensures
        match scan_refusal(*root, resolved, on) {
            None => res is Ok,
            Some(refusal) => res == Err::<(), Refusal>(refusal),
        },
{
    if on == Platform::Unix {
        return Ok(());
    }
    match check_windows_volume(root) {
        Ok(()) => {},
        Err(refusal) => {
            return Err(refusal);
        },
    }
    match resolved {
        Resolved::At(volume) => check_windows_volume(&volume),
        Resolved::Missing => Ok(()),
        Resolved::Failed(error) => Err(Refusal::Unresolved(error)),
    }
}

/// What came of asking zoxide for its list.
#[derive(Debug)]
pub enum Asked {
    NotInstalled,
    CannotRun(String),
    /// It ran and failed, saying this.
    Failed(String),
    Listed(String),
}

/// The lines of a text: without the line feed that ends one, nor a carriage
/// return before it.
pub open spec fn lines(text: Seq<char>) -> Seq<Seq<char>> {
    let parts = text::parts(text, '\n');
    Seq::new(
        parts.len(),
        |i: int|
            if i < parts.len() - 1 && text::ends_in(parts[i], '\r') {
                parts[i].drop_last()
            } else {
                parts[i]
            },
    )
}

/// The lines that hold something.
pub open spec fn filled(lines: Seq<Seq<char>>) -> Seq<Seq<char>> {
    lines.filter(|line: Seq<char>| line.len() > 0)
}

fn filled_lines(output: &str) -> (paths: Vec<String>)
    ensures
        text::views(paths@) == filled(lines(output@)),
{
    let parts = split_on(output, '\n');
    let ghost all = lines(output@);
    let mut paths: Vec<String> = Vec::new();
    let mut i: usize = 0;
    proof {
        reveal(Seq::filter);
        assert(text::views(paths@) =~= filled(all.take(0)));
    }
    while i < parts.len()
        invariant
            i <= parts@.len(),
            text::views(parts@) == text::parts(output@, '\n'),
            all == lines(output@),
            text::views(paths@) == filled(all.take(i as int)),
        decreases parts@.len() - i,
    {
        assert(text::views(parts@)[i as int] == parts@[i as int]@);
        let mut line: String = parts[i].clone();
        if i < parts.len() - 1 && text::ends_with_char(&line, '\r') {
            line.pop();
        }
        assert(line@ == all[i as int]);
        let ghost was = text::views(paths@);
        let ghost shown = line@;
        proof {
            reveal(Seq::filter);
            assert(all.take(i + 1).drop_last() =~= all.take(i as int));
            assert(all.take(i + 1).last() == shown);
        }
        if !line.is_empty() {
            paths.push(line);
            assert(text::views(paths@) =~= was.push(shown));
        }
        assert(text::views(paths@) == filled(all.take(i + 1)));
        i += 1;
    }
    assert(all.take(i as int) =~= all);
    paths
}

/// Recent directories in zoxide's order (highest score first). zoxide owns the
/// history; reading its database directly would tie this to its file format.
pub fn recent(asked: Asked) -> (res: Result<Vec<String>, String>)
    ensures
        match asked {
            Asked::Listed(output) => res matches Ok(paths) && text::views(paths@) == filled(
                lines(output@),
            ),
            Asked::Failed(error) => res matches Err(e) && e@ == "zoxide query failed: "@
                + text::trimmed(error@),
            Asked::CannotRun(error) => res matches Err(e) && e@ == "cannot run zoxide: "@ + error@,
            Asked::NotInstalled => res matches Err(e) && e@
                == "recent mode lists the directories zoxide remembers, and zoxide is not installed. Install it (winget install ajeetdsouza.zoxide), or use favorites for the places you care about: Ctrl-B pins the selected folder. dirs, files and browse need nothing."@,
        },
{
    match asked {
        Asked::Listed(output) => Ok(filled_lines(&output)),
        Asked::Failed(error) => Err(joined("zoxide query failed: ", &trim(&error))),
        Asked::CannotRun(error) => Err(joined("cannot run zoxide: ", &error)),
        // Saying only that a program is missing leaves the reader to work
        // out which parts still work and what to do about it.
        Asked::NotInstalled => Err(
            "recent mode lists the directories zoxide remembers, and zoxide is not installed. Install it (winget install ajeetdsouza.zoxide), or use favorites for the places you care about: Ctrl-B pins the selected folder. dirs, files and browse need nothing.".to_owned(),
        ),
    }
}

/// The entry of a favorite. Its name is shown before the path, so typing the
/// name finds it.
pub open spec fn saved_entry(favorite: FavoriteView) -> EntryView {
    let shown = favorite.path;
    match favorite.name {
        Some(name) => EntryView {
            display: ":"@ + name + "  "@ + shown,
            root: PathView::empty(),
            exact: Some(favorite.path),
        },
        None => EntryView { display: shown, root: PathView::empty(), exact: None },
    }
}

pub open spec fn entries_view(entries: Seq<Entry>) -> Seq<EntryView> {
    entries.map_values(|e: Entry| e@)
}

/// The list of favorites, in the order they were pinned.
pub fn saved(list: &Vec<Favorite>) -> (entries: Vec<Entry>)
    ensures
        entries_view(entries@) == favorites::list_view(list@).map_values(
            |f: FavoriteView| saved_entry(f),
        ),
{
    let mut entries: Vec<Entry> = Vec::new();
    let mut i: usize = 0;
    while i < list.len()
        invariant
            i <= list@.len(),
            entries@.len() == i,
            forall|k: int| 0 <= k < i ==> #[trigger] entries@[k]@ == saved_entry(list@[k]@),
        decreases list@.len() - i,
    {
        let favorite: &Favorite = &list[i];
        let entry = match &favorite.name {
            Some(name) => {
                let marked = joined(&joined(":", name), "  ");
                Entry::new(&FsPath::empty(), &favorite.path, &joined(&marked, &favorite.path), true)
            },
            None => Entry::place(&favorite.path),
        };
        assert(entry@ =~= saved_entry(list@[i as int]@));
        entries.push(entry);
        i += 1;
    }
    assert(entries_view(entries@) =~= favorites::list_view(list@).map_values(
        |f: FavoriteView| saved_entry(f),
    ));
    entries
}

} // verus!
