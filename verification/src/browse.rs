//! Browse mode: walk the tree one level at a time in Miller columns, with
//! parent on the left, the current directory in the middle and the selected
//! entry's contents on the right. Typing filters the current level only.

use vstd::prelude::*;

use crate::disk::{Disk, DiskView};
use crate::fs_path::{self, FsPath, PathView, Platform};
use crate::fuzzy::{self, arrange, find};
use crate::order::{self, stable_order, SortKey};
use crate::text::{self, ends_with_char, lowercase_of, not_after, same};

verus! {

/// Upper bound on entries read per directory. Keeps a pathological folder from
/// freezing the picker; nobody scrolls past this many rows anyway.
pub const DIR_LIMIT: usize = 20_000;

#[derive(Debug)]
pub struct Item {
    pub name: String,
    pub is_dir: bool,
}

#[verifier::ext_equal]
pub struct ItemView {
    pub name: Seq<char>,
    pub is_dir: bool,
}

impl View for Item {
    type V = ItemView;

    open spec fn view(&self) -> ItemView {
        ItemView { name: self.name@, is_dir: self.is_dir }
    }
}

impl Clone for Item {
    fn clone(&self) -> (res: Self)
        ensures
            res@ == self@,
    {
        Item { name: self.name.clone(), is_dir: self.is_dir }
    }
}

pub open spec fn items_view(items: Seq<Item>) -> Seq<ItemView> {
    items.map_values(|i: Item| i@)
}

/// Whether every name is short enough to be matched.
pub open spec fn fit_to_match(items: Seq<ItemView>) -> bool {
    forall|i: int| 0 <= i < items.len() ==> #[trigger] items[i].name.len() <= fuzzy::TEXT_LIMIT
}

impl ItemView {
    /// Name as shown: directories carry a trailing separator. A drive's name
    /// already ends in one.
    pub open spec fn label(self, on: Platform) -> Seq<char> {
        if self.is_dir && !text::ends_in(self.name, on.sep()) {
            self.name.push(on.sep())
        } else {
            self.name
        }
    }
}

impl Item {
    /// Name as shown: directories carry a trailing separator. A drive's name
    /// already ends in one.
    pub fn label(&self, on: Platform) -> (label: String)
        ensures
            label@ == self@.label(on),
    {
        let mut label = self.name.clone();
        if self.is_dir && !ends_with_char(&self.name, on.separator()) {
            label.push(on.separator());
        }
        label
    }
}

/// The same items again.
pub fn copied(items: &Vec<Item>) -> (res: Vec<Item>)
    ensures
        items_view(res@) == items_view(items@),
{
    let mut res: Vec<Item> = Vec::new();
    let mut i: usize = 0;
    while i < items.len()
        invariant
            i <= items@.len(),
            res@.len() == i,
            forall|k: int| 0 <= k < i ==> #[trigger] res@[k]@ == items@[k]@,
        decreases items@.len() - i,
    {
        res.push(items[i].clone());
        i += 1;
    }
    assert(items_view(res@) =~= items_view(items@));
    res
}

/// The name of the drive a letter stands for.
pub open spec fn drive_label(letter: char) -> Seq<char> {
    seq![letter, ':', '\\']
}

/// Whether bit `i` of the mask is set.
pub open spec fn bit(mask: u32, i: u32) -> bool {
    (mask >> i) & 1 == 1
}

/// The drives whose bit is set, among the first `n` letters.
pub open spec fn drives_in(mask: u32, n: nat) -> Seq<ItemView>
    decreases n,
{
    if n == 0 {
        Seq::empty()
    } else {
        let before = drives_in(mask, (n - 1) as nat);
        if bit(mask, (n - 1) as u32) {
            before.push(ItemView { name: drive_label((64 + n as int) as char), is_dir: true })
        } else {
            before
        }
    }
}

/// The drives, listed where a drive's parent would be. Windows has no folder
/// above a drive, so going up from the top of one comes here. `mask` is the
/// drive letters Windows has assigned, A at the lowest bit; it is zero
/// elsewhere, where there are none.
pub fn drives(mask: u32) -> (items: Vec<Item>)
    ensures
        items_view(items@) == drives_in(mask, 26),
        fit_to_match(items_view(items@)),
{
    let mut items: Vec<Item> = Vec::new();
    let mut letter: u8 = 65;
    let mut i: u32 = 0;
    assert(items_view(items@) =~= drives_in(mask, 0));
    while i < 26
        invariant
            i <= 26,
            letter == 65 + i,
            items_view(items@) == drives_in(mask, i as nat),
            forall|k: int| 0 <= k < items@.len() ==> #[trigger] items@[k].name@.len() == 3,
        decreases 26 - i,
    {
        if (mask >> i) & 1 == 1 {
            let mut name = String::new();
            name.push(letter as char);
            name.push(':');
            name.push('\\');
            assert(name@ =~= drive_label((65 + i) as char));
            let ghost was = items@;
            items.push(Item { name, is_dir: true });
            assert(items_view(items@) =~= items_view(was).push(items@.last()@));
        }
        letter += 1;
        i += 1;
    }
    items
}

/// The name `path` has in the list of drives, when it is the top of a drive.
pub open spec fn drive_named(path: PathView, on: Platform) -> Option<Seq<char>> {
    if on is Unix || path.names.len() > 0 {
        None
    } else {
        match path.drive() {
            Some(letter) => Some(drive_label(text::ascii_upper(letter))),
            None => None,
        }
    }
}

/// The name `path` has in the list of drives, when it is the top of a drive.
pub fn drive_name(path: &FsPath, on: Platform) -> (name: Option<String>)
    ensures
        name is Some == drive_named(path@, on) is Some,
        name matches Some(n) ==> drive_named(path@, on) == Some(n@),
{
    if on == Platform::Unix || !path.names.is_empty() {
        return None;
    }
    match path.drive() {
        Some(letter) => {
            let mut name = String::new();
            name.push(letter.to_ascii_uppercase());
            name.push(':');
            name.push('\\');
            assert(name@ =~= drive_label(text::ascii_upper(letter)));
            Some(name)
        },
        None => None,
    }
}

/// The name `path` is listed under in the folder above it.
pub open spec fn named_in_parent(path: PathView, on: Platform) -> Option<Seq<char>> {
    match drive_named(path, on) {
        Some(name) => Some(name),
        None => path.file_name(),
    }
}

/// The name `path` is listed under in the folder above it.
pub fn name_in_parent(path: &FsPath, on: Platform) -> (name: Option<String>)
    ensures
        name is Some == named_in_parent(path@, on) is Some,
        name matches Some(n) ==> named_in_parent(path@, on) == Some(n@),
{
    match drive_name(path, on) {
        Some(name) => Some(name),
        None => path.file_name(),
    }
}

/// Directories come before files, and within each the names go by their
/// letters, capital or not.
pub open spec fn item_le(a: ItemView, b: ItemView) -> bool {
    (a.is_dir && !b.is_dir) || (a.is_dir == b.is_dir && text::text_le(
        text::lowercase(a.name),
        text::lowercase(b.name),
    ))
}

/// Whether the entry at `i` is listed before the one at `j`; entries that rank
/// the same stay in the order they were read.
pub open spec fn goes_before(entries: Seq<ItemView>, i: usize, j: usize) -> bool {
    item_le(entries[i as int], entries[j as int]) && (item_le(entries[j as int], entries[i as int])
        ==> i < j)
}

pub open spec fn first_entries(entries: Seq<ItemView>) -> Seq<ItemView> {
    if entries.len() <= DIR_LIMIT {
        entries
    } else {
        entries.take(DIR_LIMIT as int)
    }
}

pub open spec fn listed_as(
    entries: Seq<ItemView>,
    order: Seq<usize>,
    items: Seq<ItemView>,
) -> bool {
    let kept = first_entries(entries);
    &&& order.to_multiset() == order::places(0, kept.len() as usize).to_multiset()
    &&& forall|p: int, q: int|
        0 <= p < q < order.len() ==> goes_before(kept, #[trigger] order[p], #[trigger] order[q])
    &&& items == Seq::new(order.len(), |p: int| kept[order[p] as int])
}

/// Whether `items` is how a folder read as `entries` is listed: the first ones
/// read, directories first, each group sorted case-insensitively.
pub open spec fn listed(entries: Seq<ItemView>, items: Seq<ItemView>) -> bool {
    exists|order: Seq<usize>| #[trigger] listed_as(entries, order, items)
}

/// A folder is listed in one way only.
pub proof fn listing_is_unique(entries: Seq<ItemView>, a: Seq<ItemView>, b: Seq<ItemView>)
    requires
        listed(entries, a),
        listed(entries, b),
    ensures
        a == b,
{
    let x = choose|order: Seq<usize>| #[trigger] listed_as(entries, order, a);
    let y = choose|order: Seq<usize>| #[trigger] listed_as(entries, order, b);
    let kept = first_entries(entries);
    let rel = |i: usize, j: usize| goes_before(kept, i, j);
    assert forall|i: usize, j: usize| !(#[trigger] rel(i, j) && rel(j, i)) by {}
    assert(order::sorted_by(rel, x)) by {
        assert forall|p: int, q: int| 0 <= p < q < x.len() implies rel(
            #[trigger] x[p],
            #[trigger] x[q],
        ) by {
            assert(goes_before(kept, x[p], x[q]));
        }
    }
    assert(order::sorted_by(rel, y)) by {
        assert forall|p: int, q: int| 0 <= p < q < y.len() implies rel(
            #[trigger] y[p],
            #[trigger] y[q],
        ) by {
            assert(goes_before(kept, y[p], y[q]));
        }
    }
    order::order_is_unique(rel, x, y);
}

/// What can be matched when read can be matched as listed.
pub proof fn listing_still_fits(entries: Seq<ItemView>, items: Seq<ItemView>)
    requires
        listed(entries, items),
        fit_to_match(entries),
    ensures
        fit_to_match(items),
{
    let o = choose|order: Seq<usize>| #[trigger] listed_as(entries, order, items);
    let kept = first_entries(entries);
    order::order_stays_inside(o, 0, kept.len() as usize);
    assert forall|i: int| 0 <= i < items.len() implies #[trigger] items[i].name.len()
        <= fuzzy::TEXT_LIMIT by {
        assert(items[i] == entries[o[i] as int]);
    }
}

/// Whatever is listed of a folder was read in it.
pub proof fn what_is_listed_was_read(entries: Seq<ItemView>, items: Seq<ItemView>)
    requires
        listed(entries, items),
    ensures
        forall|i: int| 0 <= i < items.len() ==> entries.contains(#[trigger] items[i]),
{
    let o = choose|order: Seq<usize>| #[trigger] listed_as(entries, order, items);
    let kept = first_entries(entries);
    order::order_stays_inside(o, 0, kept.len() as usize);
    assert forall|i: int| 0 <= i < items.len() implies entries.contains(#[trigger] items[i]) by {
        assert(items[i] == entries[o[i] as int]);
    }
}

/// What a listing goes by.
struct FolderKey {
    file: bool,
    lower: String,
}

impl SortKey for FolderKey {
    closed spec fn le(self, other: Self) -> bool {
        (!self.file && other.file) || (self.file == other.file && text::text_le(
            self.lower@,
            other.lower@,
        ))
    }

    proof fn le_total(a: Self, b: Self) {
        text::text_le_total(a.lower@, b.lower@);
    }

    proof fn le_transitive(a: Self, b: Self, c: Self) {
        if a.file == b.file && b.file == c.file {
            text::text_le_transitive(a.lower@, b.lower@, c.lower@);
        }
    }

    fn not_after(&self, other: &Self) -> (res: bool) {
        (!self.file && other.file) || (self.file == other.file && not_after(
            &self.lower,
            &other.lower,
        ))
    }
}

/// Directory contents, directories first, each group sorted case-insensitively.
/// `entries` is what was read, in the order it was read.
pub fn read_dir(entries: Vec<Item>) -> (items: Vec<Item>)
    ensures
        listed(items_view(entries@), items_view(items@)),
{
    let ghost read = items_view(entries@);
    let ghost kept = first_entries(read);
    let mut keys: Vec<FolderKey> = Vec::new();
    let mut i: usize = 0;
    while i < entries.len() && i < DIR_LIMIT
        invariant
            i <= entries@.len(),
            i <= DIR_LIMIT,
            keys@.len() == i,
            forall|k: int|
                0 <= k < i ==> (#[trigger] keys@[k]).file == !entries@[k].is_dir && keys@[k].lower@
                    == text::lowercase(entries@[k].name@),
        decreases entries@.len() - i,
    {
        keys.push(
            FolderKey { file: !entries[i].is_dir, lower: lowercase_of(&entries[i].name) },
        );
        i += 1;
    }
    assert(kept.len() == i);
    let order = stable_order(&keys);
    let mut items: Vec<Item> = Vec::new();
    let mut k: usize = 0;
    while k < order.len()
        invariant
            k <= order@.len(),
            keys@.len() <= entries@.len(),
            order@.len() == keys@.len(),
            forall|p: int| 0 <= p < order@.len() ==> #[trigger] order@[p] < keys@.len(),
            items@.len() == k,
            forall|p: int| 0 <= p < k ==> #[trigger] items@[p]@ == entries@[order@[p] as int]@,
        decreases order@.len() - k,
    {
        items.push(entries[order[k]].clone());
        k += 1;
    }
    proof {
        let shown = items_view(items@);
        assert(shown =~= Seq::new(order@.len(), |p: int| kept[order@[p] as int]));
        assert forall|p: int, q: int| 0 <= p < q < order@.len() implies goes_before(
            kept,
            #[trigger] order@[p],
            #[trigger] order@[q],
        ) by {
            assert(order::before(keys@, order@[p], order@[q]));
        }
        assert(listed_as(read, order@, shown));
    }
    items
}

/// One row of the middle column after filtering.
#[derive(Debug)]
pub struct Row {
    pub index: usize,
    /// Char positions matched by the filter, sorted, for highlighting.
    pub hits: Vec<u32>,
}

#[verifier::ext_equal]
pub struct RowView {
    pub index: usize,
    pub hits: Seq<u32>,
}

impl View for Row {
    type V = RowView;

    open spec fn view(&self) -> RowView {
        RowView { index: self.index, hits: self.hits@ }
    }
}

pub open spec fn rows_view(rows: Seq<Row>) -> Seq<RowView> {
    rows.map_values(|r: Row| r@)
}

/// The names of items, in order.
pub open spec fn item_names(items: Seq<ItemView>) -> Seq<Seq<char>> {
    items.map_values(|i: ItemView| i.name)
}

/// The names on the rows, in order.
pub open spec fn row_names(items: Seq<ItemView>, rows: Seq<RowView>) -> Seq<Seq<char>> {
    rows.map_values(|r: RowView| items[r.index as int].name)
}

/// Whether the filter lets the item at `i` through.
pub open spec fn passes(items: Seq<ItemView>, filter: Seq<char>, i: int) -> bool {
    fuzzy::found(filter, items[i].name) is Some
}

pub open spec fn score(items: Seq<ItemView>, filter: Seq<char>, i: int) -> u32 {
    fuzzy::found(filter, items[i].name)->Some_0.0
}

/// The better match comes first, and of equal ones the one listed first.
pub open spec fn outranks(items: Seq<ItemView>, filter: Seq<char>, i: usize, j: usize) -> bool {
    score(items, filter, i as int) > score(items, filter, j as int) || (score(
        items,
        filter,
        i as int,
    ) == score(items, filter, j as int) && i < j)
}

/// Whether `rows` is what is shown of `items`: with a filter, those it lets
/// through ranked by match score; without one all of them, in order.
pub open spec fn rows_are(items: Seq<ItemView>, filter: Seq<char>, rows: Seq<RowView>) -> bool {
    if filter.len() == 0 {
        rows == Seq::new(
            items.len(),
            |i: int| RowView { index: i as usize, hits: Seq::empty() },
        )
    } else {
        &&& forall|r: int|
            0 <= r < rows.len() ==> {
                &&& (#[trigger] rows[r]).index < items.len()
                &&& passes(items, filter, rows[r].index as int)
                &&& rows[r].hits == fuzzy::arranged(
                    fuzzy::found(filter, items[rows[r].index as int].name)->Some_0.1,
                )
            }
        &&& forall|i: int|
            0 <= i < items.len() && #[trigger] passes(items, filter, i) ==> exists|r: int|
                0 <= r < rows.len() && (#[trigger] rows[r]).index == i
        &&& forall|p: int, q: int|
            0 <= p < q < rows.len() ==> outranks(
                items,
                filter,
                (#[trigger] rows[p]).index,
                (#[trigger] rows[q]).index,
            )
    }
}

/// The rows shown of `items` under `filter`.
pub open spec fn shown_rows(items: Seq<ItemView>, filter: Seq<char>) -> Seq<RowView> {
    choose|rows: Seq<RowView>| rows_are(items, filter, rows)
}

/// A filter shows its rows in one way only.
pub proof fn rows_are_unique(
    items: Seq<ItemView>,
    filter: Seq<char>,
    a: Seq<RowView>,
    b: Seq<RowView>,
)
    requires
        rows_are(items, filter, a),
        rows_are(items, filter, b),
    ensures
        a == b,
{
    if filter.len() > 0 {
        let x = a.map_values(|r: RowView| r.index);
        let y = b.map_values(|r: RowView| r.index);
        let rel = |i: usize, j: usize| outranks(items, filter, i, j);
        assert forall|i: usize, j: usize| !(#[trigger] rel(i, j) && rel(j, i)) by {}
        assert forall|p: int, q: int| 0 <= p < q < x.len() implies rel(
            #[trigger] x[p],
            #[trigger] x[q],
        ) by {
            assert(outranks(items, filter, a[p].index, a[q].index));
        }
        assert forall|p: int, q: int| 0 <= p < q < y.len() implies rel(
            #[trigger] y[p],
            #[trigger] y[q],
        ) by {
            assert(outranks(items, filter, b[p].index, b[q].index));
        }
        assert forall|i: usize| #[trigger] x.contains(i) <==> y.contains(i) by {
            if x.contains(i) {
                let p = choose|p: int| 0 <= p < x.len() && x[p] == i;
                assert(a[p].index == i);
                assert(passes(items, filter, i as int));
                let q = choose|q: int| 0 <= q < b.len() && (#[trigger] b[q]).index == i;
                assert(y[q] == i);
            }
            if y.contains(i) {
                let p = choose|p: int| 0 <= p < y.len() && y[p] == i;
                assert(b[p].index == i);
                assert(passes(items, filter, i as int));
                let q = choose|q: int| 0 <= q < a.len() && (#[trigger] a[q]).index == i;
                assert(x[q] == i);
            }
        }
        order::members_in_order_are_unique(rel, x, y);
        assert forall|r: int| 0 <= r < a.len() implies a[r] == b[r] by {
            assert(x[r] == y[r]);
        }
        assert(a =~= b);
    }
}

/// The first row from `from` on that does not outrank the item at `i`, or the
/// end.
spec fn place(
    items: Seq<ItemView>,
    filter: Seq<char>,
    rows: Seq<RowView>,
    i: usize,
    from: int,
) -> int
    decreases rows.len() - from,
{
    if from < rows.len() && outranks(items, filter, rows[from].index, i) {
        place(items, filter, rows, i, from + 1)
    } else {
        from
    }
}

proof fn place_parts(
    items: Seq<ItemView>,
    filter: Seq<char>,
    rows: Seq<RowView>,
    i: usize,
    from: int,
)
    requires
        0 <= from <= rows.len(),
    ensures
        ({
            let at = place(items, filter, rows, i, from);
            &&& from <= at <= rows.len()
            &&& forall|r: int|
                from <= r < at ==> outranks(items, filter, (#[trigger] rows[r]).index, i)
            &&& at < rows.len() ==> !outranks(items, filter, rows[at].index, i)
        }),
    decreases rows.len() - from,
{
    if from < rows.len() && outranks(items, filter, rows[from].index, i) {
        place_parts(items, filter, rows, i, from + 1);
    }
}

/// The row of the item at `i` under a filter.
spec fn row_under(items: Seq<ItemView>, filter: Seq<char>, i: usize) -> RowView {
    RowView {
        index: i,
        hits: fuzzy::arranged(fuzzy::found(filter, items[i as int].name)->Some_0.1),
    }
}

/// Whether `rows` are of those of the first `n` items that a filter lets
/// through.
spec fn are_of(items: Seq<ItemView>, filter: Seq<char>, n: int, rows: Seq<RowView>) -> bool {
    forall|r: int|
        0 <= r < rows.len() ==> {
            &&& (#[trigger] rows[r]).index < n
            &&& passes(items, filter, rows[r].index as int)
            &&& rows[r] == row_under(items, filter, rows[r].index)
        }
}

/// Whether every one of the first `n` items that a filter lets through has a
/// row.
spec fn hold_all(items: Seq<ItemView>, filter: Seq<char>, n: int, rows: Seq<RowView>) -> bool {
    forall|i: int|
        0 <= i < n && #[trigger] passes(items, filter, i) ==> exists|r: int|
            0 <= r < rows.len() && (#[trigger] rows[r]).index == i
}

spec fn stand_ranked(items: Seq<ItemView>, filter: Seq<char>, rows: Seq<RowView>) -> bool {
    forall|p: int, q: int|
        0 <= p < q < rows.len() ==> outranks(
            items,
            filter,
            (#[trigger] rows[p]).index,
            (#[trigger] rows[q]).index,
        )
}

proof fn one_more_is_held(
    items: Seq<ItemView>,
    filter: Seq<char>,
    i: usize,
    before: Seq<RowView>,
    at: int,
)
    requires
        0 <= at <= before.len(),
        are_of(items, filter, i as int, before),
        hold_all(items, filter, i as int, before),
        passes(items, filter, i as int),
    ensures
        are_of(items, filter, i + 1, before.insert(at, row_under(items, filter, i))),
        hold_all(items, filter, i + 1, before.insert(at, row_under(items, filter, i))),
{
    let rows = before.insert(at, row_under(items, filter, i));
    assert forall|r: int| 0 <= r < rows.len() implies {
        &&& (#[trigger] rows[r]).index < i + 1
        &&& passes(items, filter, rows[r].index as int)
        &&& rows[r] == row_under(items, filter, rows[r].index)
    } by {
        if r < at {
            assert(rows[r] == before[r]);
        } else if r > at {
            assert(rows[r] == before[r - 1]);
        }
    }
    assert forall|k: int| 0 <= k < i + 1 && #[trigger] passes(items, filter, k) implies exists|r: int|
        0 <= r < rows.len() && (#[trigger] rows[r]).index == k by {
        if k == i {
            assert(rows[at].index == k);
        } else {
            let r = choose|r: int| 0 <= r < before.len() && (#[trigger] before[r]).index == k;
            if r < at {
                assert(rows[r].index == k);
            } else {
                assert(rows[r + 1].index == k);
            }
        }
    }
}

proof fn one_more_is_ranked(
    items: Seq<ItemView>,
    filter: Seq<char>,
    i: usize,
    before: Seq<RowView>,
)
    requires
        are_of(items, filter, i as int, before),
        stand_ranked(items, filter, before),
    ensures
        stand_ranked(
            items,
            filter,
            before.insert(
                place(items, filter, before, i, 0),
                row_under(items, filter, i),
            ),
        ),
{
    let at = place(items, filter, before, i, 0);
    place_parts(items, filter, before, i, 0);
    let rows = before.insert(at, row_under(items, filter, i));
    assert forall|p: int, q: int| 0 <= p < q < rows.len() implies outranks(
        items,
        filter,
        (#[trigger] rows[p]).index,
        (#[trigger] rows[q]).index,
    ) by {
        if p == at {
            assert(rows[q] == before[q - 1]);
            assert(before[at].index < i);
            assert(outranks(items, filter, i, before[at].index));
            if q - 1 > at {
                assert(outranks(items, filter, before[at].index, before[q - 1].index));
            }
        } else if p < at {
            assert(rows[p] == before[p]);
            if q > at {
                assert(rows[q] == before[q - 1]);
            } else if q < at {
                assert(rows[q] == before[q]);
            }
        } else {
            assert(rows[p] == before[p - 1] && rows[q] == before[q - 1]);
        }
    }
}

proof fn items_can_be_ranked(items: Seq<ItemView>, filter: Seq<char>, n: int) -> (rows: Seq<RowView>)
    requires
        0 <= n <= items.len() <= usize::MAX,
    ensures
        are_of(items, filter, n, rows),
        hold_all(items, filter, n, rows),
        stand_ranked(items, filter, rows),
    decreases n,
{
    if n == 0 {
        Seq::empty()
    } else {
        let before = items_can_be_ranked(items, filter, n - 1);
        let i = (n - 1) as usize;
        if passes(items, filter, n - 1) {
            let at = place(items, filter, before, i, 0);
            place_parts(items, filter, before, i, 0);
            one_more_is_held(items, filter, i, before, at);
            one_more_is_ranked(items, filter, i, before);
            before.insert(at, row_under(items, filter, i))
        } else {
            before
        }
    }
}

/// There are rows to show of any items under any filter.
pub proof fn rows_are_there(items: Seq<ItemView>, filter: Seq<char>)
    requires
        items.len() <= usize::MAX,
    ensures
        rows_are(items, filter, shown_rows(items, filter)),
{
    if filter.len() == 0 {
        let rows = Seq::new(
            items.len(),
            |i: int| RowView { index: i as usize, hits: Seq::empty() },
        );
        assert(rows_are(items, filter, rows));
    } else {
        let rows = items_can_be_ranked(items, filter, items.len() as int);
        assert(rows_are(items, filter, rows));
    }
}

/// With something typed, the rows are the names that the matcher lets through, the
/// best match first: of two rows the upper one scores at least as high, and of
/// rows that score the same the one listed first is the upper one.
pub proof fn the_best_match_is_the_first_row(
    items: Seq<ItemView>,
    filter: Seq<char>,
    rows: Seq<RowView>,
    p: int,
    q: int,
)
    requires
        rows_are(items, filter, rows),
        filter.len() > 0,
        0 <= p < q < rows.len(),
    ensures
        ({
            let (i, j) = (rows[p].index as int, rows[q].index as int);
            let (upper, lower) = (
                fuzzy::found(filter, items[i].name),
                fuzzy::found(filter, items[j].name),
            );
            &&& upper is Some && lower is Some
            &&& upper->Some_0.0 >= lower->Some_0.0
            &&& upper->Some_0.0 == lower->Some_0.0 ==> i < j
        }),
{
    assert(outranks(items, filter, rows[p].index, rows[q].index));
}

/// With something typed, every name that the matcher lets through has a row, no
/// other name has one, and the first row scores at least as high as all of them.
pub proof fn every_match_has_a_row(
    items: Seq<ItemView>,
    filter: Seq<char>,
    rows: Seq<RowView>,
    i: int,
)
    requires
        rows_are(items, filter, rows),
        filter.len() > 0,
        0 <= i < items.len(),
    ensures
        fuzzy::found(filter, items[i].name) is Some <==> exists|r: int|
            0 <= r < rows.len() && (#[trigger] rows[r]).index == i,
        fuzzy::found(filter, items[i].name) is Some ==> {
            let best = fuzzy::found(filter, items[rows[0].index as int].name);
            &&& rows.len() > 0
            &&& best is Some
            &&& best->Some_0.0 >= fuzzy::found(filter, items[i].name)->Some_0.0
        },
{
    if fuzzy::found(filter, items[i].name) is Some {
        assert(passes(items, filter, i));
        let r = choose|r: int| 0 <= r < rows.len() && (#[trigger] rows[r]).index == i;
        if r > 0 {
            the_best_match_is_the_first_row(items, filter, rows, 0, r);
        }
    }
    if exists|r: int| 0 <= r < rows.len() && (#[trigger] rows[r]).index == i {
        let r = choose|r: int| 0 <= r < rows.len() && (#[trigger] rows[r]).index == i;
        assert(passes(items, filter, rows[r].index as int));
    }
}

/// With nothing typed, the rows are all that is listed, in the order listed.
pub proof fn without_a_filter_every_name_has_its_row(
    items: Seq<ItemView>,
    rows: Seq<RowView>,
    r: int,
)
    requires
        items.len() <= usize::MAX,
        rows_are(items, Seq::empty(), rows),
        0 <= r < rows.len(),
    ensures
        rows.len() == items.len(),
        rows[r].index == r,
        rows[r].hits.len() == 0,
{
}

/// A folder is listed with the folders before the files. Within each the letters
/// decide, capital or not: at the first one two names differ in, the upper row has
/// the lower one, and no name comes after a longer one that starts with it.
pub proof fn folders_are_listed_first_and_then_by_name(
    entries: Seq<ItemView>,
    items: Seq<ItemView>,
    p: int,
    q: int,
)
    requires
        listed(entries, items),
        0 <= p < q < items.len(),
    ensures
        items[q].is_dir ==> items[p].is_dir,
        items[p].is_dir == items[q].is_dir ==> {
            let (a, b) = (text::lowercase(items[p].name), text::lowercase(items[q].name));
            &&& forall|k: int|
                0 <= k < a.len() && k < b.len() && #[trigger] a.take(k) == b.take(k) ==> a[k]
                    <= b[k]
            &&& b.len() < a.len() ==> a.take(b.len() as int) != b
        },
{
    let o = choose|order: Seq<usize>| #[trigger] listed_as(entries, order, items);
    let kept = first_entries(entries);
    assert(goes_before(kept, o[p], o[q]));
    let (a, b) = (text::lowercase(items[p].name), text::lowercase(items[q].name));
    if items[p].is_dir == items[q].is_dir {
        assert forall|k: int|
            0 <= k < a.len() && k < b.len() && #[trigger] a.take(k) == b.take(k) implies a[k]
            <= b[k] by {
            text::texts_go_by_their_first_difference(b, a, k);
        }
        if b.len() < a.len() && a.take(b.len() as int) == b {
            assert(b.take(b.len() as int) =~= b);
            text::texts_go_by_their_first_difference(b, a, b.len() as int);
        }
    }
}

/// Everything read in a folder is listed, up to twenty thousand names, and as often
/// as it was read.
pub proof fn everything_read_is_listed(entries: Seq<ItemView>, items: Seq<ItemView>, i: int)
    requires
        listed(entries, items),
        entries.len() <= 20_000,
        0 <= i < entries.len(),
    ensures
        items.len() == entries.len(),
        items.contains(entries[i]),
{
    let o = choose|order: Seq<usize>| #[trigger] listed_as(entries, order, items);
    order::order_stays_inside(o, 0, entries.len() as usize);
    order::order_reaches(o, 0, entries.len() as usize, i as usize);
    let p = choose|p: int| 0 <= p < o.len() && o[p] == i as usize;
    assert(items[p] == entries[i]);
}

/// What the filter's ranking goes by: higher scores first.
struct ScoreKey {
    score: u32,
}

impl SortKey for ScoreKey {
    closed spec fn le(self, other: Self) -> bool {
        self.score >= other.score
    }

    proof fn le_total(a: Self, b: Self) {
    }

    proof fn le_transitive(a: Self, b: Self, c: Self) {
    }

    fn not_after(&self, other: &Self) -> (res: bool) {
        self.score >= other.score
    }
}

/// The rows shown of `items` under `filter`.
fn filtered(items: &Vec<Item>, filter: &String) -> (rows: Vec<Row>)
    requires
        fit_to_match(items_view(items@)),
        filter@.len() <= fuzzy::PATTERN_LIMIT,
    ensures
        rows_are(items_view(items@), filter@, rows_view(rows@)),
        rows_view(rows@) == shown_rows(items_view(items@), filter@),
{
    let rows = ranked(items, filter);
    proof {
        rows_are_unique(
            items_view(items@),
            filter@,
            rows_view(rows@),
            shown_rows(items_view(items@), filter@),
        );
    }
    rows
}

fn ranked(items: &Vec<Item>, filter: &String) -> (rows: Vec<Row>)
    requires
        fit_to_match(items_view(items@)),
        filter@.len() <= fuzzy::PATTERN_LIMIT,
    ensures
        rows_are(items_view(items@), filter@, rows_view(rows@)),
{
    let ghost all = items_view(items@);
    let mut rows: Vec<Row> = Vec::new();
    let mut i: usize = 0;
    if filter.is_empty() {
        while i < items.len()
            invariant
                i <= items@.len(),
                rows@.len() == i,
                forall|k: int|
                    0 <= k < i ==> (#[trigger] rows@[k]).index == k && rows@[k].hits@.len() == 0,
            decreases items@.len() - i,
        {
            rows.push(Row { index: i, hits: Vec::new() });
            i += 1;
        }
        assert(rows_view(rows@) =~= Seq::new(
            all.len(),
            |i: int| RowView { index: i as usize, hits: Seq::empty() },
        )) by {
            assert forall|k: int| 0 <= k < rows@.len() implies #[trigger] rows_view(rows@)[k] == (
            RowView { index: k as usize, hits: Seq::empty() }) by {
                assert(rows@[k].hits@ =~= Seq::<u32>::empty());
            }
        }
        return rows;
    }
    let mut keys: Vec<ScoreKey> = Vec::new();
    let mut found: Vec<Row> = Vec::new();
    while i < items.len()
        invariant
            i <= items@.len(),
            all == items_view(items@),
            fit_to_match(all),
            filter@.len() <= fuzzy::PATTERN_LIMIT,
            keys@.len() == found@.len(),
            forall|c: int|
                0 <= c < found@.len() ==> {
                    &&& (#[trigger] found@[c]).index < i
                    &&& passes(all, filter@, found@[c].index as int)
                    &&& found@[c].hits@ == fuzzy::arranged(
                        fuzzy::found(filter@, all[found@[c].index as int].name)->Some_0.1,
                    )
                    &&& keys@[c].score == score(all, filter@, found@[c].index as int)
                },
            forall|a: int, b: int|
                0 <= a < b < found@.len() ==> (#[trigger] found@[a]).index < (
                #[trigger] found@[b]).index,
            forall|k: int|
                0 <= k < i && #[trigger] passes(all, filter@, k) ==> exists|c: int|
                    0 <= c < found@.len() && (#[trigger] found@[c]).index == k,
        decreases items@.len() - i,
    {
        assert(all[i as int].name == items@[i as int].name@);
        let ghost was = found@;
        match find(filter, &items[i].name) {
            Some((score, positions)) => {
                keys.push(ScoreKey { score });
                found.push(Row { index: i, hits: arrange(&positions) });
                assert forall|k: int|
                    0 <= k < i + 1 && #[trigger] passes(all, filter@, k) implies exists|c: int|
                    0 <= c < found@.len() && (#[trigger] found@[c]).index == k by {
                    if k == i {
                        assert(found@[found@.len() - 1].index == k);
                    } else {
                        let c = choose|c: int| 0 <= c < was.len() && (#[trigger] was[c]).index == k;
                        assert(found@[c].index == k);
                    }
                }
            },
            None => {},
        }
        i += 1;
    }
    let order = stable_order(&keys);
    let mut k: usize = 0;
    while k < order.len()
        invariant
            k <= order@.len(),
            order@.len() == found@.len(),
            forall|p: int| 0 <= p < order@.len() ==> #[trigger] order@[p] < found@.len(),
            rows@.len() == k,
            forall|p: int| 0 <= p < k ==> #[trigger] rows@[p]@ == found@[order@[p] as int]@,
        decreases order@.len() - k,
    {
        let row: &Row = &found[order[k]];
        let hits = row.hits.clone();
        assert(hits@ =~= row.hits@);
        rows.push(Row { index: row.index, hits });
        k += 1;
    }
    proof {
        let shown = rows_view(rows@);
        assert forall|p: int| 0 <= p < shown.len() implies shown[p] == found@[order@[p] as int]@
        by {
            assert(rows@[p]@ == found@[order@[p] as int]@);
        }
        assert forall|i: int| 0 <= i < all.len() && #[trigger] passes(
            all,
            filter@,
            i,
        ) implies exists|r: int| 0 <= r < shown.len() && (#[trigger] shown[r]).index == i by {
            let c = choose|c: int| 0 <= c < found@.len() && (#[trigger] found@[c]).index == i;
            order::order_reaches(order@, 0, keys@.len() as usize, c as usize);
            let r = choose|r: int| 0 <= r < order@.len() && order@[r] == c as usize;
            assert(shown[r].index == i);
        }
        assert forall|p: int, q: int| 0 <= p < q < shown.len() implies outranks(
            all,
            filter@,
            (#[trigger] shown[p]).index,
            (#[trigger] shown[q]).index,
        ) by {
            assert(order::before(keys@, order@[p], order@[q]));
        }
    }
    rows
}

/// A place browse has shown, as it is brought back.
#[derive(Debug)]
struct Visit {
    cwd: FsPath,
    filter: String,
    selected: Option<String>,
}

#[verifier::ext_equal]
pub struct VisitView {
    pub cwd: PathView,
    pub filter: Seq<char>,
    pub selected: Option<Seq<char>>,
}

impl View for Visit {
    type V = VisitView;

    closed spec fn view(&self) -> VisitView {
        VisitView {
            cwd: self.cwd@,
            filter: self.filter@,
            selected: text::opt_view(self.selected),
        }
    }
}

/// How many steps each direction of the history keeps.
pub const HISTORY_LIMIT: usize = 100;

/// A stack of visits with one more, the oldest dropped when it is full.
pub open spec fn remembered(stack: Seq<VisitView>, visit: VisitView) -> Seq<VisitView> {
    if stack.len() == HISTORY_LIMIT {
        stack.drop_first().push(visit)
    } else {
        stack.push(visit)
    }
}

#[derive(Debug)]
pub struct Browser {
    /// The folder listed in the middle column. Empty for the list of drives.
    pub cwd: FsPath,
    /// Which row is at the top of the middle column. Remembered so that moving
    /// the selection walks it up and down the window, instead of the window
    /// following every step and leaving the selection pinned to one edge.
    pub first: usize,
    items: Vec<Item>,
    pub filter: String,
    rows: Vec<Row>,
    pub selected: usize,
    /// Loaded on navigation or F5, never during drawing.
    parent: Option<(Vec<Item>, Option<usize>)>,
    back: Vec<Visit>,
    forward: Vec<Visit>,
    on: Platform,
}

#[verifier::ext_equal]
pub struct BrowserView {
    pub cwd: PathView,
    pub first: usize,
    pub items: Seq<ItemView>,
    pub filter: Seq<char>,
    pub rows: Seq<RowView>,
    pub selected: usize,
    pub parent: Option<(Seq<ItemView>, Option<usize>)>,
    pub back: Seq<VisitView>,
    pub forward: Seq<VisitView>,
    pub on: Platform,
}

spec fn visits_view(visits: Seq<Visit>) -> Seq<VisitView> {
    visits.map_values(|v: Visit| v@)
}

impl View for Browser {
    type V = BrowserView;

    closed spec fn view(&self) -> BrowserView {
        BrowserView {
            cwd: self.cwd@,
            first: self.first,
            items: items_view(self.items@),
            filter: self.filter@,
            rows: rows_view(self.rows@),
            selected: self.selected,
            parent: match self.parent {
                Some((items, pos)) => Some((items_view(items@), pos)),
                None => None,
            },
            back: visits_view(self.back@),
            forward: visits_view(self.forward@),
            on: self.on,
        }
    }
}

/// The folder above one: a real parent, or the list of drives (an empty path)
/// above the top of a drive on Windows.
pub open spec fn folder_above(dir: PathView, on: Platform) -> Option<PathView> {
    if dir.is_empty() {
        None
    } else {
        match dir.parent() {
            Some(parent) => Some(parent),
            None => match drive_named(dir, on) {
                Some(_) => Some(PathView::empty()),
                None => None,
            },
        }
    }
}

/// What the left column shows next to `dir`, and where `dir` is in it.
pub open spec fn column_above(dir: PathView, disk: DiskView, on: Platform) -> Option<
    (Seq<ItemView>, Option<usize>),
> {
    match folder_above(dir, on) {
        None => None,
        Some(parent) => Some(
            (
                disk.listing(parent),
                match named_in_parent(dir, on) {
                    None => None,
                    Some(name) => text::index_of(item_names(disk.listing(parent)), name),
                },
            ),
        ),
    }
}

impl BrowserView {
    pub closed spec fn wf(self) -> bool {
        &&& fit_to_match(self.items)
        &&& self.filter.len() <= fuzzy::PATTERN_LIMIT
        &&& rows_are(self.items, self.filter, self.rows)
        &&& self.rows == shown_rows(self.items, self.filter)
        &&& self.back.len() <= HISTORY_LIMIT
        &&& self.forward.len() <= HISTORY_LIMIT
        &&& forall|i: int|
            0 <= i < self.back.len() ==> #[trigger] self.back[i].filter.len()
                <= fuzzy::PATTERN_LIMIT
        &&& forall|i: int|
            0 <= i < self.forward.len() ==> #[trigger] self.forward[i].filter.len()
                <= fuzzy::PATTERN_LIMIT
        &&& self.parent is Some == folder_above(self.cwd, self.on) is Some
    }

    /// What is always so of browse: the rows are those the filter shows, and the
    /// history keeps to its limit.
    pub proof fn what_always_holds(self)
        requires
            self.wf(),
        ensures
            self.filter.len() <= fuzzy::PATTERN_LIMIT,
            rows_are(self.items, self.filter, self.rows),
            self.rows == shown_rows(self.items, self.filter),
            self.back.len() <= HISTORY_LIMIT,
            self.forward.len() <= HISTORY_LIMIT,
            self.parent is Some == folder_above(self.cwd, self.on) is Some,
    {
    }

    pub open spec fn selected_item(self) -> Option<ItemView> {
        if self.selected < self.rows.len() {
            Some(self.items[self.rows[self.selected as int].index as int])
        } else {
            None
        }
    }

    pub open spec fn selected_name(self) -> Option<Seq<char>> {
        match self.selected_item() {
            Some(item) => Some(item.name),
            None => None,
        }
    }

    /// Absolute path of the selected entry.
    pub open spec fn selected_path(self) -> Option<PathView> {
        match self.selected_item() {
            Some(item) => Some(self.cwd.join(item.name, self.on)),
            None => None,
        }
    }

    /// The directory Enter would cd into: the selected directory, or the
    /// current one when a file (or nothing) is selected.
    pub open spec fn target(self) -> PathView {
        match self.selected_item() {
            Some(item) => if item.is_dir {
                self.cwd.join(item.name, self.on)
            } else {
                self.cwd
            },
            None => self.cwd,
        }
    }

    /// The row a name is on, or the first row.
    pub open spec fn row_of(self, name: Option<Seq<char>>) -> usize {
        match name {
            Some(n) => match text::index_of(row_names(self.items, self.rows), n) {
                Some(row) => row,
                None => 0,
            },
            None => 0,
        }
    }

    /// This place, as it is brought back.
    pub open spec fn visit(self) -> VisitView {
        VisitView { cwd: self.cwd, filter: self.filter, selected: self.selected_name() }
    }

    /// A browser that has just been opened.
    pub open spec fn fresh(cwd: PathView, on: Platform, disk: DiskView) -> BrowserView {
        (BrowserView {
            cwd,
            first: 0,
            items: Seq::empty(),
            filter: Seq::empty(),
            rows: Seq::empty(),
            selected: 0,
            parent: None,
            back: Seq::empty(),
            forward: Seq::empty(),
            on,
        }).placed(cwd, Seq::empty(), None, disk)
    }

    /// This at `dir` as the disk has it, with that filter typed and the row of
    /// that name selected.
    pub open spec fn placed(
        self,
        dir: PathView,
        filter: Seq<char>,
        name: Option<Seq<char>>,
        disk: DiskView,
    ) -> BrowserView {
        let there = BrowserView {
            cwd: dir,
            items: disk.listing(dir),
            filter,
            rows: shown_rows(disk.listing(dir), filter),
            selected: 0,
            parent: column_above(dir, disk, self.on),
            ..self
        };
        BrowserView { selected: there.row_of(name), ..there }
    }

    /// This gone to `dir`, with `name` selected: the place left is remembered,
    /// and what was ahead is dropped.
    pub open spec fn gone_to(
        self,
        dir: PathView,
        name: Option<Seq<char>>,
        disk: DiskView,
    ) -> BrowserView {
        let left = if self.cwd.same(dir) {
            self
        } else {
            BrowserView {
                back: remembered(self.back, self.visit()),
                forward: Seq::empty(),
                ..self
            }
        };
        left.placed(dir, Seq::empty(), name, disk)
    }

    /// This gone where `to` says, or left as it is.
    pub open spec fn gone(
        self,
        to: Option<(PathView, Option<Seq<char>>)>,
        disk: DiskView,
    ) -> BrowserView {
        match to {
            Some((dir, name)) => self.gone_to(dir, name, disk),
            None => self,
        }
    }

    /// This gone to `path`.
    pub open spec fn navigated(self, path: PathView, disk: DiskView) -> BrowserView {
        self.gone(Self::destination(path, disk), disk)
    }

    /// This showing `path` in the folder holding it.
    pub open spec fn showing(self, path: PathView, disk: DiskView) -> BrowserView {
        self.gone(Self::revealed(path, disk, self.on), disk)
    }

    /// This inside the selected directory.
    pub open spec fn entered(self, disk: DiskView) -> BrowserView {
        match self.selected_item() {
            Some(item) => if item.is_dir {
                self.gone_to(self.cwd.join(item.name, self.on), None, disk)
            } else {
                self
            },
            None => self,
        }
    }

    /// This a level up, on the directory it was in.
    pub open spec fn above(self, disk: DiskView) -> BrowserView {
        match folder_above(self.cwd, self.on) {
            Some(parent) => self.gone_to(parent, named_in_parent(self.cwd, self.on), disk),
            None => self,
        }
    }

    /// This a step back or forward, to the newest place there that is left.
    /// The places that are gone are forgotten.
    pub open spec fn retraced(self, forward: bool, disk: DiskView) -> BrowserView {
        let from = if forward {
            self.forward
        } else {
            self.back
        };
        let at = newest_present(from, disk);
        if at < 0 {
            if forward {
                BrowserView { forward: Seq::empty(), ..self }
            } else {
                BrowserView { back: Seq::empty(), ..self }
            }
        } else {
            let left = if forward {
                BrowserView {
                    forward: from.take(at),
                    back: remembered(self.back, self.visit()),
                    ..self
                }
            } else {
                BrowserView {
                    back: from.take(at),
                    forward: remembered(self.forward, self.visit()),
                    ..self
                }
            };
            left.placed(from[at].cwd, from[at].filter, from[at].selected, disk)
        }
    }

    /// Whether a step back or forward has somewhere to go.
    pub open spec fn retraces(self, forward: bool, disk: DiskView) -> bool {
        newest_present(
            if forward {
                self.forward
            } else {
                self.back
            },
            disk,
        ) >= 0
    }

    /// This with another filter typed.
    pub open spec fn filtered(self, filter: Seq<char>) -> BrowserView {
        BrowserView { filter, rows: shown_rows(self.items, filter), selected: 0, ..self }
    }

    /// This read again, with the filter and the selection kept.
    pub open spec fn reread(self, disk: DiskView) -> BrowserView {
        self.placed(self.cwd, self.filter, self.selected_name(), disk)
    }

    /// This with the selection moved that many rows.
    pub open spec fn moved(self, delta: int) -> BrowserView {
        BrowserView { selected: stepped(self.selected, delta, self.rows.len()), ..self }
    }

    /// Where `navigate_to` leads: into a directory, or to a file in the folder
    /// holding it.
    pub open spec fn destination(path: PathView, disk: DiskView) -> Option<
        (PathView, Option<Seq<char>>),
    > {
        if disk.is_dir(path) {
            Some((path, None))
        } else if disk.is_file(path) && path.parent() is Some {
            Some((path.parent()->Some_0, path.file_name()))
        } else {
            None
        }
    }

    /// Where `show_in_place` leads: to a path in the folder holding it, when that can
    /// be listed.
    pub open spec fn revealed(path: PathView, disk: DiskView, on: Platform) -> Option<
        (PathView, Option<Seq<char>>),
    > {
        match drive_named(path, on) {
            Some(drive) => Some((PathView::empty(), Some(drive))),
            None => match (path.parent(), path.file_name()) {
                (Some(parent), Some(name)) => if disk.is_dir(parent) {
                    Some((parent, Some(name)))
                } else {
                    Self::destination(path, disk)
                },
                _ => Self::destination(path, disk),
            },
        }
    }
}

/// The newest visit that can still be gone to, or -1 where there is none.
pub open spec fn newest_present(stack: Seq<VisitView>, disk: DiskView) -> int
    decreases stack.len(),
{
    if stack.len() == 0 {
        -1
    } else if stack.last().cwd.is_empty() || disk.is_dir(stack.last().cwd) {
        stack.len() - 1
    } else {
        newest_present(stack.drop_last(), disk)
    }
}

fn position_of(items: &Vec<Item>, name: &str) -> (pos: Option<usize>)
    ensures
        pos == text::index_of(item_names(items_view(items@)), name@),
{
    let ghost names = item_names(items_view(items@));
    let mut i: usize = 0;
    assert(names.take(0) =~= Seq::<Seq<char>>::empty());
    while i < items.len()
        invariant
            i <= items@.len(),
            names == item_names(items_view(items@)),
            text::index_of(names.take(i as int), name@) is None,
        decreases items@.len() - i,
    {
        assert(names.take(i + 1).drop_last() =~= names.take(i as int));
        assert(names[i as int] == items@[i as int].name@);
        if same(&items[i].name, name) {
            proof {
                index_of_extends(names, (i + 1) as int, name@);
            }
            return Some(i);
        }
        i += 1;
    }
    assert(names.take(i as int) =~= names);
    None
}

/// What is found early is what is found.
proof fn index_of_extends(texts: Seq<Seq<char>>, n: int, text: Seq<char>)
    requires
        0 <= n <= texts.len(),
        text::index_of(texts.take(n), text) is Some,
    ensures
        text::index_of(texts, text) == text::index_of(texts.take(n), text),
    decreases texts.len() - n,
{
    if n < texts.len() {
        assert(texts.take(n + 1).drop_last() =~= texts.take(n));
        index_of_extends(texts, n + 1, text);
    } else {
        assert(texts.take(n) =~= texts);
    }
}

impl Browser {
    pub open spec fn wf(&self) -> bool {
        self@.wf()
    }

    pub fn new(cwd: FsPath, on: Platform, disk: &Disk) -> (browser: Browser)
        requires
            disk.wf(),
        ensures
            browser.wf(),
            browser@ == BrowserView::fresh(cwd@, on, disk@),
    {
        let mut browser = Browser {
            cwd: FsPath::empty(),
            first: 0,
            items: Vec::new(),
            filter: String::new(),
            rows: Vec::new(),
            selected: 0,
            parent: None,
            back: Vec::new(),
            forward: Vec::new(),
            on,
        };
        assert(browser@.back =~= Seq::<VisitView>::empty());
        assert(browser@.forward =~= Seq::<VisitView>::empty());
        browser.load_state(cwd, &None, disk);
        browser
    }

    /// Whether the middle column lists the drives rather than a folder.
    pub fn at_drives(&self) -> (res: bool)
        ensures
            res == self@.cwd.is_empty(),
    {
        self.cwd.is_empty()
    }

    /// The folder above the one listed: a real parent, or the list of drives
    /// (an empty path) above the top of a drive on Windows.
    pub fn parent_dir(&self) -> (parent: Option<FsPath>)
        ensures
            parent is Some == folder_above(self@.cwd, self@.on) is Some,
            parent matches Some(p) ==> folder_above(self@.cwd, self@.on) == Some(p@),
    {
        if self.at_drives() {
            return None;
        }
        match self.cwd.parent() {
            Some(parent) => Some(parent),
            None => match drive_name(&self.cwd, self.on) {
                Some(_) => Some(FsPath::empty()),
                None => None,
            },
        }
    }

    pub fn platform(&self) -> (on: Platform)
        ensures
            on == self@.on,
    {
        self.on
    }

    /// The folder listed.
    pub fn dir(&self) -> (dir: &FsPath)
        ensures
            dir@ == self@.cwd,
    {
        &self.cwd
    }

    /// What is typed.
    pub fn typed(&self) -> (filter: &String)
        ensures
            filter@ == self@.filter,
    {
        &self.filter
    }

    pub fn selected_row(&self) -> (row: usize)
        ensures
            row == self@.selected,
    {
        self.selected
    }

    pub fn first_row(&self) -> (row: usize)
        ensures
            row == self@.first,
    {
        self.first
    }

    /// Moves the window to start at a row.
    pub fn scroll_to(&mut self, first: usize)
        requires
            old(self).wf(),
        ensures
            final(self).wf(),
            final(self)@ == (BrowserView { first, ..old(self)@ }),
    {
        self.first = first;
    }

    pub fn items(&self) -> (items: &Vec<Item>)
        ensures
            items_view(items@) == self@.items,
    {
        &self.items
    }

    pub fn rows(&self) -> (rows: &Vec<Row>)
        ensures
            rows_view(rows@) == self@.rows,
    {
        &self.rows
    }

    /// What is on a row.
    pub fn item_on(&self, row: usize) -> (item: &Item)
        requires
            self.wf(),
            row < self@.rows.len(),
        ensures
            item@ == self@.items[self@.rows[row as int].index as int],
    {
        let index: usize = self.rows[row].index;
        assert(self@.rows[row as int].index == index);
        &self.items[index]
    }

    pub fn selected_item(&self) -> (item: Option<&Item>)
        requires
            self.wf(),
        ensures
            item is Some == self@.selected_item() is Some,
            item matches Some(i) ==> self@.selected_item() == Some(i@),
    {
        if self.selected < self.rows.len() {
            let index: usize = self.rows[self.selected].index;
            assert(self@.rows[self.selected as int].index == index);
            Some(&self.items[index])
        } else {
            None
        }
    }

    fn selected_name(&self) -> (name: Option<String>)
        requires
            self.wf(),
        ensures
            text::opt_view(name) == self@.selected_name(),
    {
        match self.selected_item() {
            Some(item) => Some(item.name.clone()),
            None => None,
        }
    }

    /// Absolute path of the selected entry.
    pub fn selected_path(&self) -> (path: Option<FsPath>)
        requires
            self.wf(),
        ensures
            path is Some == self@.selected_path() is Some,
            path matches Some(p) ==> self@.selected_path() == Some(p@),
    {
        match self.selected_item() {
            Some(item) => Some(self.cwd.join(&item.name, self.on)),
            None => None,
        }
    }

    /// The directory Enter would cd into: the selected directory, or the
    /// current one when a file (or nothing) is selected.
    pub fn target(&self) -> (path: FsPath)
        requires
            self.wf(),
        ensures
            path@ == self@.target(),
    {
        match self.selected_item() {
            Some(item) => if item.is_dir {
                self.cwd.join(&item.name, self.on)
            } else {
                self.cwd.clone()
            },
            None => self.cwd.clone(),
        }
    }

    fn visit(&self) -> (visit: Visit)
        requires
            self.wf(),
        ensures
            visit@ == self@.visit(),
    {
        Visit {
            cwd: self.cwd.clone(),
            filter: self.filter.clone(),
            selected: self.selected_name(),
        }
    }

    fn push_visit(stack: &mut Vec<Visit>, visit: Visit)
        requires
            old(stack)@.len() <= HISTORY_LIMIT,
        ensures
            visits_view(final(stack)@) == remembered(visits_view(old(stack)@), visit@),
    {
        if stack.len() == HISTORY_LIMIT {
            stack.remove(0);
            assert(visits_view(stack@) =~= visits_view(old(stack)@).drop_first());
        }
        let ghost was = stack@;
        stack.push(visit);
        assert(visits_view(stack@) =~= visits_view(was).push(visit@));
    }

    fn row_of(&self, name: &Option<String>) -> (row: usize)
        requires
            rows_are(self@.items, self@.filter, self@.rows),
        ensures
            row == self@.row_of(text::opt_view(*name)),
            row < self@.rows.len() || (row == 0 && self@.rows.len() == 0),
    {
        let wanted = match name {
            Some(wanted) => wanted,
            None => {
                return 0;
            },
        };
        let ghost names = row_names(self@.items, self@.rows);
        let mut i: usize = 0;
        assert(names.take(0) =~= Seq::<Seq<char>>::empty());
        while i < self.rows.len()
            invariant
                i <= self.rows@.len(),
                rows_are(self@.items, self@.filter, self@.rows),
                names == row_names(self@.items, self@.rows),
                text::opt_view(*name) == Some(wanted@),
                text::index_of(names.take(i as int), wanted@) is None,
            decreases self.rows@.len() - i,
        {
            assert(names.take(i + 1).drop_last() =~= names.take(i as int));
            let index: usize = self.rows[i].index;
            assert(self@.rows[i as int].index == index);
            assert(names[i as int] == self.items@[index as int].name@);
            if same(&self.items[index].name, wanted) {
                proof {
                    index_of_extends(names, (i + 1) as int, wanted@);
                }
                return i;
            }
            i += 1;
        }
        assert(names.take(i as int) =~= names);
        0
    }

    fn load(&mut self, dir: FsPath, reselect: &Option<String>, disk: &Disk)
        requires
            old(self).wf(),
            disk.wf(),
        ensures
            final(self).wf(),
            final(self)@ == old(self)@.gone_to(dir@, text::opt_view(*reselect), disk@),
    {
        if !self.cwd.same_place(&dir) {
            let visit = self.visit();
            Self::push_visit(&mut self.back, visit);
            self.forward.clear();
            assert(self@.forward =~= Seq::<VisitView>::empty());
        }
        self.load_state(dir, reselect, disk);
    }

    /// Whether a step in that direction has anywhere recorded to go.
    ///
    /// Only the stack is consulted, since this is asked once per frame to
    /// decide how a button is drawn; a step onto a deleted directory reports
    /// itself.
    pub fn has_history(&self, forward: bool) -> (res: bool)
        ensures
            res == (if forward {
                self@.forward.len() > 0
            } else {
                self@.back.len() > 0
            }),
    {
        if forward {
            !self.forward.is_empty()
        } else {
            !self.back.is_empty()
        }
    }

    /// Missing locations are skipped without replacing the current directory.
    pub fn history(&mut self, forward: bool, disk: &Disk) -> (moved: bool)
        requires
            old(self).wf(),
            disk.wf(),
        ensures
            final(self).wf(),
            moved == old(self)@.retraces(forward, disk@),
            final(self)@ == old(self)@.retraced(forward, disk@),
    {
        let ghost was = self@;
        let ghost from = if forward {
            was.forward
        } else {
            was.back
        };
        let ghost at = newest_present(from, disk@);
        let ghost mut n = from.len() as int;
        assert(from.take(n) =~= from);
        loop
            invariant
                old(self)@ == was,
                was.wf(),
                self@.wf(),
                disk.wf(),
                0 <= n <= from.len(),
                from == (if forward {
                    was.forward
                } else {
                    was.back
                }),
                at == newest_present(from, disk@),
                at == newest_present(from.take(n), disk@),
                self@ == (if forward {
                    BrowserView { forward: from.take(n), ..was }
                } else {
                    BrowserView { back: from.take(n), ..was }
                }),
            decreases n,
        {
            let ghost stack = if forward {
                self.forward@
            } else {
                self.back@
            };
            let popped = if forward {
                self.forward.pop()
            } else {
                self.back.pop()
            };
            let visit = match popped {
                Some(visit) => visit,
                None => {
                    assert(from.take(n) =~= Seq::<VisitView>::empty());
                    return false;
                },
            };
            proof {
                assert(visits_view(stack) =~= from.take(n));
                assert(visits_view(stack.drop_last()) =~= from.take(n - 1));
                assert(from.take(n).drop_last() =~= from.take(n - 1));
                assert(visit@ == from.take(n).last());
                n = n - 1;
                assert(self@ =~= (if forward {
                    BrowserView { forward: from.take(n), ..was }
                } else {
                    BrowserView { back: from.take(n), ..was }
                }));
            }
            if visit.cwd.is_empty() || disk.is_dir(&visit.cwd) {
                assert(at == n && visit@ == from[n]);
                assert(from[n].filter.len() <= fuzzy::PATTERN_LIMIT);
                let current = self.visit();
                assert(current@ == was.visit());
                if forward {
                    Self::push_visit(&mut self.back, current);
                } else {
                    Self::push_visit(&mut self.forward, current);
                }
                self.load_state(visit.cwd, &None, disk);
                self.set_filter(&visit.filter);
                let row: usize = self.row_of(&visit.selected);
                self.selected = row;
                return true;
            }
        }
    }

    fn load_state(&mut self, dir: FsPath, reselect: &Option<String>, disk: &Disk)
        requires
            disk.wf(),
            old(self)@.back.len() <= HISTORY_LIMIT,
            old(self)@.forward.len() <= HISTORY_LIMIT,
            forall|i: int|
                0 <= i < old(self)@.back.len() ==> #[trigger] old(self)@.back[i].filter.len()
                    <= fuzzy::PATTERN_LIMIT,
            forall|i: int|
                0 <= i < old(self)@.forward.len() ==> #[trigger] old(self)@.forward[i].filter.len()
                    <= fuzzy::PATTERN_LIMIT,
        ensures
            final(self).wf(),
            final(self)@ == old(self)@.placed(
                dir@,
                Seq::empty(),
                text::opt_view(*reselect),
                disk@,
            ),
    {
        self.items = disk.listing(&dir);
        self.cwd = dir;
        self.parent = match self.parent_dir() {
            Some(parent) => {
                let items = disk.listing(&parent);
                let pos = match name_in_parent(&self.cwd, self.on) {
                    Some(here) => position_of(&items, &here),
                    None => None,
                };
                Some((items, pos))
            },
            None => None,
        };
        self.filter = String::new();
        assert(fit_to_match(self@.items));
        self.rows = filtered(&self.items, &self.filter);
        let row: usize = self.row_of(reselect);
        self.selected = row;
        assert(self@.filter =~= Seq::<char>::empty());
    }

    /// Goes to `path`: a directory is opened, a file is shown selected in the
    /// folder holding it.
    pub fn navigate_to(&mut self, path: &FsPath, disk: &Disk)
        requires
            old(self).wf(),
            disk.wf(),
        ensures
            final(self).wf(),
            final(self)@ == old(self)@.navigated(path@, disk@),
    {
        if disk.is_dir(path) {
            self.load(path.clone(), &None, disk);
        } else if disk.is_file(path) {
            match path.parent() {
                Some(parent) => {
                    let name = path.file_name();
                    self.load(parent, &name, disk);
                },
                None => {},
            }
        }
    }

    /// Opens the folder holding `path`, with `path` selected.
    ///
    /// Unlike `navigate_to`, a directory is shown in its place rather than
    /// stepped into. Browse opens this way, so the folder that was on screen a
    /// moment ago is still the one on screen, with the highlight where it was.
    pub fn show_in_place(&mut self, path: &FsPath, disk: &Disk)
        requires
            old(self).wf(),
            disk.wf(),
        ensures
            final(self).wf(),
            final(self)@ == old(self)@.showing(path@, disk@),
    {
        match drive_name(path, self.on) {
            Some(drive) => {
                self.load(FsPath::empty(), &Some(drive), disk);
                return;
            },
            None => {},
        }
        match path.parent() {
            Some(parent) => match path.file_name() {
                Some(name) => if disk.is_dir(&parent) {
                    self.load(parent, &Some(name), disk);
                    return;
                },
                None => {},
            },
            None => {},
        }
        self.navigate_to(path, disk);
    }

    /// Steps into the selected directory. Files are left alone.
    pub fn enter(&mut self, disk: &Disk)
        requires
            old(self).wf(),
            disk.wf(),
        ensures
            final(self).wf(),
            final(self)@ == old(self)@.entered(disk@),
    {
        let next = match self.selected_item() {
            Some(item) => if item.is_dir {
                self.cwd.join(&item.name, self.on)
            } else {
                return;
            },
            None => {
                return;
            },
        };
        self.load(next, &None, disk);
    }

    /// Goes to the parent directory, reselecting the one just left. From the
    /// top of a drive that is the list of drives.
    pub fn up(&mut self, disk: &Disk)
        requires
            old(self).wf(),
            disk.wf(),
        ensures
            final(self).wf(),
            final(self)@ == old(self)@.above(disk@),
    {
        match self.parent_dir() {
            Some(parent) => {
                let left = name_in_parent(&self.cwd, self.on);
                self.load(parent, &left, disk);
            },
            None => {},
        }
    }

    /// Moves the selection by that many rows, stopping at the ends.
    pub fn move_selection(&mut self, delta: isize)
        requires
            old(self).wf(),
        ensures
            final(self).wf(),
            final(self)@ == old(self)@.moved(delta as int),
    {
        self.selected = step(self.selected, delta, self.rows.len());
    }

    pub fn move_up(&mut self, rows: u32)
        requires
            old(self).wf(),
        ensures
            final(self).wf(),
            final(self)@ == old(self)@.moved(-(rows as int)),
    {
        let count: usize = self.rows.len();
        self.selected = if count == 0 || rows as u64 >= self.selected as u64 {
            0
        } else if self.selected - rows as usize >= count {
            count - 1
        } else {
            self.selected - rows as usize
        };
    }

    pub fn move_down(&mut self, rows: u32)
        requires
            old(self).wf(),
        ensures
            final(self).wf(),
            final(self)@ == old(self)@.moved(rows as int),
    {
        let count: usize = self.rows.len();
        self.selected = if count == 0 {
            0
        } else if self.selected >= count || rows as u64 >= (count - self.selected) as u64 {
            count - 1
        } else {
            self.selected + rows as usize
        };
    }

    /// Selects a row. Where there is none, nothing is selected.
    pub fn select(&mut self, row: usize)
        requires
            old(self).wf(),
        ensures
            final(self).wf(),
            final(self)@ == (BrowserView { selected: row, ..old(self)@ }),
    {
        self.selected = row;
    }

    pub fn set_filter(&mut self, filter: &str)
        requires
            old(self).wf(),
            filter@.len() <= fuzzy::PATTERN_LIMIT,
        ensures
            final(self).wf(),
            final(self)@ == old(self)@.filtered(filter@),
    {
        self.filter = filter.to_owned();
        self.apply_filter();
    }

    /// Recomputes the visible rows. With a filter, rows are ranked by match
    /// score; without one they keep directory order.
    fn apply_filter(&mut self)
        requires
            fit_to_match(old(self)@.items),
            old(self)@.filter.len() <= fuzzy::PATTERN_LIMIT,
        ensures
            rows_are(final(self)@.items, final(self)@.filter, final(self)@.rows),
            final(self)@ == old(self)@.filtered(old(self)@.filter),
    {
        self.selected = 0;
        self.rows = filtered(&self.items, &self.filter);
    }

    /// Entries of the parent directory, with the position of the current one.
    pub fn parent_listing(&self) -> (listing: Option<(&Vec<Item>, Option<usize>)>)
        ensures
            listing is Some == self@.parent is Some,
            listing matches Some((items, pos)) ==> self@.parent == Some((items_view(items@), pos)),
    {
        match &self.parent {
            Some((items, pos)) => Some((items, *pos)),
            None => None,
        }
    }

    /// Refresh both listings while preserving the query and selection where possible.
    pub fn refresh(&mut self, disk: &Disk)
        requires
            old(self).wf(),
            disk.wf(),
        ensures
            final(self).wf(),
            final(self)@ == old(self)@.reread(disk@),
    {
        let selected = self.selected_name();
        let filter = self.filter.clone();
        let cwd = self.cwd.clone();
        self.load(cwd, &None, disk);
        self.set_filter(&filter);
        let row: usize = self.row_of(&selected);
        self.selected = row;
    }
}

/// Where a selection lands `delta` rows on, of `count`.
pub open spec fn stepped(selected: usize, delta: int, count: nat) -> usize {
    if count == 0 || selected + delta < 0 {
        0
    } else if selected + delta >= count {
        (count - 1) as usize
    } else {
        (selected + delta) as usize
    }
}

/// Where a selection lands `delta` rows on, of `count`.
pub fn step(selected: usize, delta: isize, count: usize) -> (row: usize)
    ensures
        row == stepped(selected, delta as int, count as nat),
        row < count || (row == 0 && count == 0),
{
    if count == 0 {
        return 0;
    }
    if delta < 0 {
        let less: usize = (-(delta + 1)) as usize;
        if selected <= less {
            0
        } else if selected - less - 1 >= count {
            count - 1
        } else {
            selected - less - 1
        }
    } else {
        let more: usize = delta as usize;
        if selected >= count || more >= count - selected {
            count - 1
        } else {
            selected + more
        }
    }
}

/// With nothing typed every item has its row, in order.
proof fn all_rows(items: Seq<ItemView>)
    ensures
        shown_rows(items, Seq::empty()) == Seq::new(
            items.len(),
            |i: int| RowView { index: i as usize, hits: Seq::<u32>::empty() },
        ),
{
    let rows = Seq::new(
        items.len(),
        |i: int| RowView { index: i as usize, hits: Seq::<u32>::empty() },
    );
    assert(rows_are(items, Seq::empty(), rows));
}

/// Placed on a name that is shown, a browser has that name selected.
pub proof fn a_name_that_is_shown_is_selected(
    b: BrowserView,
    dir: PathView,
    filter: Seq<char>,
    name: Seq<char>,
    disk: DiskView,
)
    requires
        shown_rows(disk.listing(dir), filter).len() <= usize::MAX,
        row_names(disk.listing(dir), shown_rows(disk.listing(dir), filter)).contains(name),
    ensures
        b.placed(dir, filter, Some(name), disk).selected_name() == Some(name),
{
    let rows = shown_rows(disk.listing(dir), filter);
    let names = row_names(disk.listing(dir), rows);
    text::index_of_is_first(names, name);
    let q = b.placed(dir, filter, Some(name), disk);
    assert(q.items == disk.listing(dir) && q.rows == rows);
    assert(names[q.selected as int] == disk.listing(dir)[rows[q.selected as int].index as int].name);
}

/// Placed on a name that is listed, with nothing typed, a browser has that name
/// selected.
pub proof fn a_name_that_is_listed_is_selected(
    b: BrowserView,
    dir: PathView,
    name: Seq<char>,
    disk: DiskView,
)
    requires
        disk.listing(dir).len() <= usize::MAX,
        item_names(disk.listing(dir)).contains(name),
    ensures
        b.placed(dir, Seq::empty(), Some(name), disk).selected_name() == Some(name),
{
    let items = disk.listing(dir);
    all_rows(items);
    let rows = shown_rows(items, Seq::empty());
    let i = choose|i: int| 0 <= i < item_names(items).len() && item_names(items)[i] == name;
    assert(row_names(items, rows)[i] == name);
    a_name_that_is_shown_is_selected(b, dir, Seq::empty(), name, disk);
}

/// A folder gone into and up from again is where it was, selected.
pub proof fn up_comes_back_to_the_folder_left(b: BrowserView, disk: DiskView)
    requires
        b.selected_item() is Some,
        b.selected_item()->Some_0.is_dir,
        fs_path::plain_name(b.selected_item()->Some_0.name, b.on),
        disk.listing(b.cwd).len() <= usize::MAX,
        item_names(disk.listing(b.cwd)).contains(b.selected_item()->Some_0.name),
    ensures
        b.entered(disk).above(disk).cwd == b.cwd,
        b.entered(disk).above(disk).selected_name() == Some(b.selected_item()->Some_0.name),
{
    let name = b.selected_item()->Some_0.name;
    fs_path::a_joined_name_is_the_last(b.cwd, name, b.on);
    let inside = b.entered(disk);
    assert(inside.cwd == b.cwd.join(name, b.on) && inside.on == b.on);
    assert(!inside.cwd.is_empty());
    assert(folder_above(inside.cwd, b.on) == Some(b.cwd));
    assert(named_in_parent(inside.cwd, b.on) == Some(name));
    let left = BrowserView {
        back: remembered(inside.back, inside.visit()),
        forward: Seq::empty(),
        ..inside
    };
    if inside.cwd.same(b.cwd) {
        assert(inside.cwd.names.len() == b.cwd.names.len() + 1);
    }
    a_name_that_is_listed_is_selected(left, b.cwd, name, disk);
}

/// A path shown in the folder holding it is selected there.
pub proof fn what_is_shown_in_place_is_selected(
    b: BrowserView,
    dir: PathView,
    name: Seq<char>,
    disk: DiskView,
)
    requires
        fs_path::plain_name(name, b.on),
        disk.is_dir(dir),
        disk.listing(dir).len() <= usize::MAX,
        item_names(disk.listing(dir)).contains(name),
    ensures
        b.showing(dir.join(name, b.on), disk).cwd == dir,
        b.showing(dir.join(name, b.on), disk).selected_path() == Some(dir.join(name, b.on)),
{
    fs_path::a_joined_name_is_the_last(dir, name, b.on);
    let path = dir.join(name, b.on);
    assert(BrowserView::revealed(path, disk, b.on) == Some((dir, Some(name))));
    let left = if b.cwd.same(dir) {
        b
    } else {
        BrowserView { back: remembered(b.back, b.visit()), forward: Seq::empty(), ..b }
    };
    a_name_that_is_listed_is_selected(left, dir, name, disk);
    assert(b.showing(path, disk) == left.placed(dir, Seq::empty(), Some(name), disk));
}

/// Going back from somewhere new brings back the place left: its folder, the
/// filter that was typed, and what was selected.
pub proof fn going_back_brings_back_the_place_left(
    b: BrowserView,
    dir: PathView,
    name: Option<Seq<char>>,
    disk: DiskView,
)
    requires
        b.wf(),
        !b.cwd.same(dir),
        b.cwd.is_empty() || disk.is_dir(b.cwd),
        b.items == disk.listing(b.cwd),
        b.rows.len() <= usize::MAX,
    ensures
        ({
            let q = b.gone_to(dir, name, disk).retraced(false, disk);
            &&& b.gone_to(dir, name, disk).retraces(false, disk)
            &&& q.cwd == b.cwd
            &&& q.filter == b.filter
            &&& q.items == b.items
            &&& q.rows == b.rows
            &&& b.selected_name() is Some ==> q.selected_name() == b.selected_name()
            &&& b.back.len() < HISTORY_LIMIT ==> q.back == b.back
        }),
{
    let there = b.gone_to(dir, name, disk);
    assert(there.back == remembered(b.back, b.visit()));
    assert(there.back.last() == b.visit());
    assert(newest_present(there.back, disk) == there.back.len() - 1);
    let at = there.back.len() - 1;
    let left = BrowserView {
        back: there.back.take(at),
        forward: remembered(there.forward, there.visit()),
        ..there
    };
    if b.back.len() < HISTORY_LIMIT {
        assert(there.back.take(at) =~= b.back);
    }
    if b.selected_name() is Some {
        let row = b.selected as int;
        let shown = b.selected_name()->Some_0;
        assert(row_names(b.items, b.rows)[row] == shown);
        a_name_that_is_shown_is_selected(left, b.cwd, b.filter, shown, disk);
    }
}

/// Going forward again undoes going back.
pub proof fn going_forward_undoes_going_back(b: BrowserView, disk: DiskView)
    requires
        b.wf(),
        b.retraces(false, disk),
        b.cwd.is_empty() || disk.is_dir(b.cwd),
        b.items == disk.listing(b.cwd),
        b.rows.len() <= usize::MAX,
    ensures
        ({
            let q = b.retraced(false, disk).retraced(true, disk);
            &&& b.retraced(false, disk).retraces(true, disk)
            &&& q.cwd == b.cwd
            &&& q.filter == b.filter
            &&& q.items == b.items
            &&& q.rows == b.rows
            &&& b.selected_name() is Some ==> q.selected_name() == b.selected_name()
            &&& b.forward.len() < HISTORY_LIMIT ==> q.forward == b.forward
        }),
{
    let there = b.retraced(false, disk);
    assert(there.forward == remembered(b.forward, b.visit()));
    assert(there.forward.last() == b.visit());
    assert(newest_present(there.forward, disk) == there.forward.len() - 1);
    let at = there.forward.len() - 1;
    let left = BrowserView {
        forward: there.forward.take(at),
        back: remembered(there.back, there.visit()),
        ..there
    };
    if b.forward.len() < HISTORY_LIMIT {
        assert(there.forward.take(at) =~= b.forward);
    }
    if b.selected_name() is Some {
        let row = b.selected as int;
        let shown = b.selected_name()->Some_0;
        assert(row_names(b.items, b.rows)[row] == shown);
        a_name_that_is_shown_is_selected(left, b.cwd, b.filter, shown, disk);
    }
}

/// Somewhere new after going back drops what was ahead.
pub proof fn somewhere_new_drops_what_was_ahead(
    b: BrowserView,
    dir: PathView,
    name: Option<Seq<char>>,
    disk: DiskView,
)
    requires
        !b.cwd.same(dir),
    ensures
        b.gone_to(dir, name, disk).forward.len() == 0,
        !b.gone_to(dir, name, disk).retraces(true, disk),
        b.gone_to(dir, name, disk).back.last() == b.visit(),
{
}

proof fn newest_is_present(stack: Seq<VisitView>, disk: DiskView)
    ensures
        ({
            let at = newest_present(stack, disk);
            &&& -1 <= at < stack.len()
            &&& at >= 0 ==> stack[at].cwd.is_empty() || disk.is_dir(stack[at].cwd)
            &&& forall|k: int|
                at < k < stack.len() ==> !(stack[k].cwd.is_empty() || disk.is_dir(
                    (#[trigger] stack[k]).cwd,
                ))
        }),
    decreases stack.len(),
{
    if stack.len() > 0 {
        let before = stack.drop_last();
        newest_is_present(before, disk);
        let at = newest_present(stack, disk);
        assert forall|k: int| at < k < stack.len() implies !(stack[k].cwd.is_empty()
            || disk.is_dir((#[trigger] stack[k]).cwd)) by {
            if k < before.len() {
                assert(before[k] == stack[k]);
            }
        }
    }
}

/// Places that are gone are skipped: a step leads to a folder that is there, or
/// to the list of drives, and only past places that are not.
pub proof fn history_skips_what_is_gone(
    b: BrowserView,
    from: Seq<VisitView>,
    forward: bool,
    disk: DiskView,
)
    requires
        from == (if forward {
            b.forward
        } else {
            b.back
        }),
    ensures
        ({
            let at = newest_present(from, disk);
            let q = b.retraced(forward, disk);
            &&& b.retraces(forward, disk) ==> q.cwd == from[at].cwd && (q.cwd.is_empty()
                || disk.is_dir(q.cwd))
            &&& !b.retraces(forward, disk) ==> q.cwd == b.cwd && q.filter == b.filter && q.selected
                == b.selected
            &&& forall|k: int|
                at < k < from.len() ==> !(from[k].cwd.is_empty() || disk.is_dir(
                    (#[trigger] from[k]).cwd,
                ))
        }),
{
    newest_is_present(from, disk);
}

/// The history keeps up to so many places in each direction.
pub proof fn history_is_bounded(b: BrowserView)
    requires
        b.wf(),
    ensures
        b.back.len() <= HISTORY_LIMIT,
        b.forward.len() <= HISTORY_LIMIT,
{
}

/// Reading a folder again keeps what is typed, and what is selected as long as
/// it is still shown.
pub proof fn reading_again_keeps_the_place(b: BrowserView, disk: DiskView)
    requires
        shown_rows(disk.listing(b.cwd), b.filter).len() <= usize::MAX,
    ensures
        b.reread(disk).cwd == b.cwd,
        b.reread(disk).filter == b.filter,
        b.reread(disk).back == b.back,
        b.reread(disk).forward == b.forward,
        b.selected_name() matches Some(name) ==> row_names(
            disk.listing(b.cwd),
            shown_rows(disk.listing(b.cwd), b.filter),
        ).contains(name) ==> b.reread(disk).selected_name() == Some(name),
{
    match b.selected_name() {
        Some(name) => {
            let rows = shown_rows(disk.listing(b.cwd), b.filter);
            if row_names(disk.listing(b.cwd), rows).contains(name) {
                a_name_that_is_shown_is_selected(b, b.cwd, b.filter, name, disk);
            }
        },
        None => {},
    }
}

} // verus!
