//! Putting things in order, those that rank the same staying in the order they
//! came in.

use vstd::prelude::*;

verus! {

broadcast use vstd::seq_lib::group_seq_properties;

/// What things are ordered by.
pub trait SortKey: Sized {
    /// Whether this key comes before the other, or ranks the same.
    spec fn le(self, other: Self) -> bool;

    proof fn le_total(a: Self, b: Self)
        ensures
            a.le(b) || b.le(a),
    ;

    proof fn le_transitive(a: Self, b: Self, c: Self)
        requires
            a.le(b),
            b.le(c),
        ensures
            a.le(c),
    ;

    fn not_after(&self, other: &Self) -> (res: bool)
        ensures
            res == self.le(*other),
    ;
}

/// Whether the thing at `i` goes before the one at `j`: by its key, and by its
/// place where the keys rank the same.
pub open spec fn before<K: SortKey>(keys: Seq<K>, i: usize, j: usize) -> bool {
    keys[i as int].le(keys[j as int]) && (keys[j as int].le(keys[i as int]) ==> i < j)
}

/// The places from `from` up to `to`.
pub open spec fn places(from: usize, to: usize) -> Seq<usize> {
    Seq::new((to - from) as nat, |k: int| (from + k) as usize)
}

/// Whether each place goes before all that follow it.
pub open spec fn ascending<K: SortKey>(keys: Seq<K>, order: Seq<usize>) -> bool {
    forall|p: int, q: int|
        0 <= p < q < order.len() ==> before(keys, #[trigger] order[p], #[trigger] order[q])
}

/// Whether `order` is every place of `keys`, once, in order.
pub open spec fn orders<K: SortKey>(keys: Seq<K>, order: Seq<usize>) -> bool {
    &&& order.to_multiset() == places(0, keys.len() as usize).to_multiset()
    &&& ascending(keys, order)
}

proof fn places_hold(from: usize, to: usize, x: usize)
    requires
        from <= to,
    ensures
        places(from, to).to_multiset().contains(x) <==> from <= x < to,
{
    let all = places(from, to);
    if from <= x < to {
        assert(all[x - from] == x);
        assert(all.contains(x));
    }
    if all.contains(x) {
        let k = choose|k: int| 0 <= k < all.len() && all[k] == x;
    }
    all.to_multiset_ensures();
}

proof fn places_split(from: usize, mid: usize, to: usize)
    requires
        from <= mid <= to,
    ensures
        places(from, to).to_multiset() == places(from, mid).to_multiset().add(
            places(mid, to).to_multiset(),
        ),
{
    assert(places(from, to) =~= places(from, mid) + places(mid, to));
    vstd::seq_lib::lemma_multiset_commutative(places(from, mid), places(mid, to));
}

/// Every place named by an order of `from..to` lies in it.
pub proof fn order_stays_inside(order: Seq<usize>, from: usize, to: usize)
    requires
        from <= to,
        order.to_multiset() == places(from, to).to_multiset(),
    ensures
        order.len() == to - from,
        forall|p: int| 0 <= p < order.len() ==> from <= #[trigger] order[p] < to,
{
    order.to_multiset_ensures();
    places(from, to).to_multiset_ensures();
    assert forall|p: int| 0 <= p < order.len() implies from <= #[trigger] order[p] < to by {
        assert(order.contains(order[p]));
        places_hold(from, to, order[p]);
    }
}

/// Every place of `from..to` is named by an order of it.
pub proof fn order_reaches(order: Seq<usize>, from: usize, to: usize, x: usize)
    requires
        from <= x < to,
        order.to_multiset() == places(from, to).to_multiset(),
    ensures
        order.contains(x),
{
    order.to_multiset_ensures();
    places_hold(from, to, x);
    assert(order.to_multiset().count(x) > 0);
}

/// The two runs in one, each in order and every place of the first below every
/// place of the second.
fn merged<K: SortKey>(
    keys: &Vec<K>,
    left: &Vec<usize>,
    right: &Vec<usize>,
    Ghost(mid): Ghost<int>,
) -> (out: Vec<usize>)
    requires
        ascending(keys@, left@),
        ascending(keys@, right@),
        forall|p: int| 0 <= p < left@.len() ==> #[trigger] left@[p] < mid <= keys@.len(),
        forall|p: int| 0 <= p < right@.len() ==> mid <= #[trigger] right@[p] < keys@.len(),
    ensures
        ascending(keys@, out@),
        out@.to_multiset() == left@.to_multiset().add(right@.to_multiset()),
{
    let mut out: Vec<usize> = Vec::new();
    let mut a: usize = 0;
    let mut b: usize = 0;
    assert(left@.take(0) =~= Seq::<usize>::empty() && right@.take(0) =~= Seq::<usize>::empty());
    assert(out@.to_multiset() =~= left@.take(0).to_multiset().add(right@.take(0).to_multiset()));
    while a < left.len() || b < right.len()
        invariant
            a <= left@.len(),
            b <= right@.len(),
            ascending(keys@, left@),
            ascending(keys@, right@),
            forall|p: int| 0 <= p < left@.len() ==> #[trigger] left@[p] < mid <= keys@.len(),
            forall|p: int| 0 <= p < right@.len() ==> mid <= #[trigger] right@[p] < keys@.len(),
            ascending(keys@, out@),
            forall|p: int, q: int|
                0 <= p < out@.len() && a <= q < left@.len() ==> before(
                    keys@,
                    #[trigger] out@[p],
                    #[trigger] left@[q],
                ),
            forall|p: int, q: int|
                0 <= p < out@.len() && b <= q < right@.len() ==> before(
                    keys@,
                    #[trigger] out@[p],
                    #[trigger] right@[q],
                ),
            out@.to_multiset() == left@.take(a as int).to_multiset().add(
                right@.take(b as int).to_multiset(),
            ),
        decreases left@.len() - a + right@.len() - b,
    {
        let first = if a < left.len() && b < right.len() {
            keys[left[a]].not_after(&keys[right[b]])
        } else {
            a < left.len()
        };
        let ghost was = out@;
        if first {
            let next: usize = left[a];
            proof {
                assert forall|q: int| b <= q < right@.len() implies before(
                    keys@,
                    next,
                    #[trigger] right@[q],
                ) by {
                    let key = keys@[next as int];
                    let low = keys@[right@[b as int] as int];
                    if q > b {
                        assert(before(keys@, right@[b as int], right@[q]));
                        K::le_transitive(key, low, keys@[right@[q] as int]);
                    }
                }
                assert(left@.take(a + 1) =~= left@.take(a as int).push(next));
            }
            out.push(next);
            a += 1;
            assert(out@.to_multiset() =~= left@.take(a as int).to_multiset().add(
                right@.take(b as int).to_multiset(),
            ));
        } else {
            let next: usize = right[b];
            proof {
                assert forall|q: int| a <= q < left@.len() implies before(
                    keys@,
                    next,
                    #[trigger] left@[q],
                ) by {
                    let key = keys@[next as int];
                    let low = keys@[left@[a as int] as int];
                    let high = keys@[left@[q] as int];
                    K::le_total(key, low);
                    if q > a {
                        assert(before(keys@, left@[a as int], left@[q]));
                        K::le_transitive(key, low, high);
                        if high.le(key) {
                            K::le_transitive(low, high, key);
                        }
                    }
                }
                assert(right@.take(b + 1) =~= right@.take(b as int).push(next));
            }
            out.push(next);
            b += 1;
            assert(out@.to_multiset() =~= left@.take(a as int).to_multiset().add(
                right@.take(b as int).to_multiset(),
            ));
        }
        assert(ascending(keys@, out@)) by {
            assert forall|p: int, q: int| 0 <= p < q < out@.len() implies before(
                keys@,
                #[trigger] out@[p],
                #[trigger] out@[q],
            ) by {
                if q < was.len() {
                    assert(out@[p] == was[p] && out@[q] == was[q]);
                }
            }
        }
    }
    assert(left@.take(a as int) =~= left@ && right@.take(b as int) =~= right@);
    out
}

fn ordered_range<K: SortKey>(keys: &Vec<K>, from: usize, to: usize) -> (order: Vec<usize>)
    requires
        from <= to <= keys@.len(),
    ensures
        order@.to_multiset() == places(from, to).to_multiset(),
        ascending(keys@, order@),
    decreases to - from,
{
    if to - from <= 1 {
        let mut order: Vec<usize> = Vec::new();
        if from < to {
            order.push(from);
        }
        assert(order@ =~= places(from, to));
        return order;
    }
    let mid: usize = from + (to - from) / 2;
    let left = ordered_range(keys, from, mid);
    let right = ordered_range(keys, mid, to);
    proof {
        order_stays_inside(left@, from, mid);
        order_stays_inside(right@, mid, to);
        places_split(from, mid, to);
    }
    merged(keys, &left, &right, Ghost(mid as int))
}

/// The places of `keys` in order.
pub fn stable_order<K: SortKey>(keys: &Vec<K>) -> (order: Vec<usize>)
    ensures
        orders(keys@, order@),
        order@.len() == keys@.len(),
        forall|p: int| 0 <= p < order@.len() ==> #[trigger] order@[p] < keys@.len(),
{
    let order = ordered_range(keys, 0, keys.len());
    proof {
        order_stays_inside(order@, 0, keys.len());
    }
    order
}

/// Whether each element stands in `rel` to all that follow it.
pub open spec fn sorted_by(rel: spec_fn(usize, usize) -> bool, s: Seq<usize>) -> bool {
    forall|p: int, q: int| 0 <= p < q < s.len() ==> rel(#[trigger] s[p], #[trigger] s[q])
}

/// There is only one way to put the same things in order, where of no two each
/// goes before the other.
pub proof fn order_is_unique(rel: spec_fn(usize, usize) -> bool, a: Seq<usize>, b: Seq<usize>)
    requires
        forall|x: usize, y: usize| !(#[trigger] rel(x, y) && rel(y, x)),
        sorted_by(rel, a),
        sorted_by(rel, b),
        a.to_multiset() == b.to_multiset(),
    ensures
        a == b,
    decreases a.len(),
{
    a.to_multiset_ensures();
    b.to_multiset_ensures();
    if a.len() > 0 {
        assert(a.contains(a[0]) && b.contains(b[0]));
        assert(b.to_multiset().count(a[0]) > 0 && a.to_multiset().count(b[0]) > 0);
        assert(b.contains(a[0]) && a.contains(b[0]));
        let p = choose|p: int| 0 <= p < b.len() && b[p] == a[0];
        let q = choose|q: int| 0 <= q < a.len() && a[q] == b[0];
        if p > 0 && q > 0 {
            assert(rel(a[0], a[q]));
            assert(rel(b[0], b[p]));
        }
        let x = a[0];
        assert(a =~= seq![x] + a.drop_first());
        assert(b =~= seq![x] + b.drop_first());
        vstd::seq_lib::lemma_multiset_commutative(seq![x], a.drop_first());
        vstd::seq_lib::lemma_multiset_commutative(seq![x], b.drop_first());
        assert(a.drop_first().to_multiset() =~= a.to_multiset().sub(seq![x].to_multiset()));
        assert(b.drop_first().to_multiset() =~= b.to_multiset().sub(seq![x].to_multiset()));
        assert(sorted_by(rel, a.drop_first()));
        assert(sorted_by(rel, b.drop_first()));
        order_is_unique(rel, a.drop_first(), b.drop_first());
    } else {
        assert(a =~= b);
    }
}

/// Two sequences of the same members, sorted by the same strict order, are the
/// same.
pub proof fn members_in_order_are_unique(
    rel: spec_fn(usize, usize) -> bool,
    a: Seq<usize>,
    b: Seq<usize>,
)
    requires
        forall|x: usize, y: usize| !(#[trigger] rel(x, y) && rel(y, x)),
        sorted_by(rel, a),
        sorted_by(rel, b),
        forall|x: usize| #[trigger] a.contains(x) <==> b.contains(x),
    ensures
        a == b,
    decreases a.len(),
{
    if a.len() == 0 {
        if b.len() > 0 {
            assert(b.contains(b[0]));
            assert(a.contains(b[0]));
        }
        assert(a =~= b);
    } else {
        assert(a.contains(a[0]));
        let p = choose|p: int| 0 <= p < b.len() && b[p] == a[0];
        assert(b.contains(b[0]));
        assert(a.contains(b[0]));
        let q = choose|q: int| 0 <= q < a.len() && a[q] == b[0];
        if p > 0 && q > 0 {
            assert(rel(a[0], a[q]));
            assert(rel(b[0], b[p]));
        }
        let x = a[0];
        assert(b[0] == x);
        let c = a.drop_first();
        let d = b.drop_first();
        assert forall|y: usize| #[trigger] c.contains(y) <==> d.contains(y) by {
            if c.contains(y) {
                let i = choose|i: int| 0 <= i < c.len() && c[i] == y;
                assert(a[i + 1] == y);
                assert(rel(a[0], a[i + 1]));
                assert(a.contains(y));
                let j = choose|j: int| 0 <= j < b.len() && b[j] == y;
                assert(d[j - 1] == y);
            }
            if d.contains(y) {
                let i = choose|i: int| 0 <= i < d.len() && d[i] == y;
                assert(b[i + 1] == y);
                assert(rel(b[0], b[i + 1]));
                assert(b.contains(y));
                assert(a.contains(y));
                let j = choose|j: int| 0 <= j < a.len() && a[j] == y;
                assert(c[j - 1] == y);
            }
        }
        assert forall|i: int, j: int| 0 <= i < j < c.len() implies rel(
            #[trigger] c[i],
            #[trigger] c[j],
        ) by {
            assert(rel(a[i + 1], a[j + 1]));
        }
        assert forall|i: int, j: int| 0 <= i < j < d.len() implies rel(
            #[trigger] d[i],
            #[trigger] d[j],
        ) by {
            assert(rel(b[i + 1], b[j + 1]));
        }
        members_in_order_are_unique(rel, c, d);
        assert(a =~= seq![x] + c);
        assert(b =~= seq![x] + d);
    }
}

} // verus!
