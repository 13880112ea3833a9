//! Orders on texts and stable sorting.

use vstd::prelude::*;

use crate::text::{chars_of, same_text, views};

verus! {

/// `a` comes before `b` or equals it, by code point from the first character on.
pub open spec fn text_le(a: Seq<char>, b: Seq<char>) -> bool
    decreases a.len(),
{
    if a.len() == 0 {
        true
    } else if b.len() == 0 {
        false
    } else if a[0] != b[0] {
        a[0] < b[0]
    } else {
        text_le(a.drop_first(), b.drop_first())
    }
}

/// Of two texts one comes before the other or they are equal.
pub proof fn lemma_text_le_total(a: Seq<char>, b: Seq<char>)
    ensures
        text_le(a, b) || text_le(b, a),
    decreases a.len(),
{
    if a.len() > 0 && b.len() > 0 && a[0] == b[0] {
        lemma_text_le_total(a.drop_first(), b.drop_first());
    }
}

/// Two texts that come before each other are equal.
pub proof fn lemma_text_le_antisymmetric(a: Seq<char>, b: Seq<char>)
    requires
        text_le(a, b),
        text_le(b, a),
    ensures
        a == b,
    decreases a.len(),
{
    if a.len() > 0 && b.len() > 0 {
        lemma_text_le_antisymmetric(a.drop_first(), b.drop_first());
        assert(a =~= seq![a[0]] + a.drop_first());
        assert(b =~= seq![b[0]] + b.drop_first());
    } else {
        assert(a =~= b);
    }
}

/// The order of texts is transitive.
pub proof fn lemma_text_le_transitive(a: Seq<char>, b: Seq<char>, c: Seq<char>)
    requires
        text_le(a, b),
        text_le(b, c),
    ensures
        text_le(a, c),
    decreases a.len(),
{
    if a.len() > 0 && b.len() > 0 && c.len() > 0 && a[0] == b[0] && b[0] == c[0] {
        lemma_text_le_transitive(a.drop_first(), b.drop_first(), c.drop_first());
    }
}

/// `a` comes before `b` or equals it.
pub fn text_at_most(a: &str, b: &str) -> (r: bool)
    ensures
        r == text_le(a@, b@),
{
    let x = chars_of(a);
    let y = chars_of(b);
    let mut i: usize = 0;
    proof {
        assert(x@.skip(0) =~= a@);
        assert(y@.skip(0) =~= b@);
    }
    while i < x.len() && i < y.len() && x[i] == y[i]
        invariant
            i <= x.len(),
            i <= y.len(),
            text_le(x@.skip(i as int), y@.skip(i as int)) == text_le(a@, b@),
        decreases x.len() - i,
    {
        proof {
            assert(x@.skip(i as int).drop_first() =~= x@.skip(i + 1));
            assert(y@.skip(i as int).drop_first() =~= y@.skip(i + 1));
        }
        i += 1;
    }
    i == x.len() || (i < y.len() && x[i] < y[i])
}

/// A type whose values stand in a total preorder.
pub trait Ordered: Sized {
    /// `self` comes before `other` or ties with it.
    spec fn at_most(&self, other: &Self) -> bool;

    /// Any two values can be ordered.
    proof fn total(a: &Self, b: &Self)
        ensures
            a.at_most(b) || b.at_most(a),
    ;

    /// The order is transitive.
    proof fn transitive(a: &Self, b: &Self, c: &Self)
        requires
            a.at_most(b),
            b.at_most(c),
        ensures
            a.at_most(c),
    ;

    /// Decides the order.
    fn is_at_most(&self, other: &Self) -> (r: bool)
        ensures
            r == self.at_most(other),
    ;
}

impl Ordered for String {
    open spec fn at_most(&self, other: &Self) -> bool {
        text_le(self@, other@)
    }

    proof fn total(a: &Self, b: &Self) {
        lemma_text_le_total(a@, b@);
    }

    proof fn transitive(a: &Self, b: &Self, c: &Self) {
        lemma_text_le_transitive(a@, b@, c@);
    }

    fn is_at_most(&self, other: &Self) -> (r: bool) {
        text_at_most(self.as_str(), other.as_str())
    }
}

/// `order` lists each of the first `n` positions once.
pub open spec fn is_listing(order: Seq<usize>, n: nat) -> bool {
    &&& order.len() == n
    &&& order.no_duplicates()
    &&& forall|i: int| 0 <= i < order.len() ==> #[trigger] order[i] < n
    &&& forall|k: usize| k < n ==> #[trigger] order.contains(k)
}

/// `order` lists the positions of `keys` from the smallest key to the largest;
/// positions of keys that tie keep their order.
pub open spec fn is_stable_order<K: Ordered>(keys: Seq<K>, order: Seq<usize>) -> bool {
    &&& is_listing(order, keys.len())
    &&& forall|i: int, j: int|
        0 <= i < j < order.len() ==> ranks_before(
            keys,
            #[trigger] order[i],
            #[trigger] order[j],
        )
}

/// Position `p` stands before position `q` in a stable order of `keys`.
pub open spec fn ranks_before<K: Ordered>(keys: Seq<K>, p: usize, q: usize) -> bool {
    keys[p as int].at_most(&keys[q as int]) && (keys[q as int].at_most(&keys[p as int]) ==> p < q)
}

/// The positions of `keys` from the smallest key to the largest.
pub fn stable_order<K: Ordered>(keys: &Vec<K>) -> (order: Vec<usize>)
    ensures
        is_stable_order(keys@, order@),
{
    let mut order: Vec<usize> = Vec::new();
    let mut n: usize = 0;
    while n < keys.len()
        invariant
            n <= keys.len(),
            is_listing(order@, n as nat),
            forall|i: int, j: int|
                0 <= i < j < order.len() ==> ranks_before(
                    keys@,
                    #[trigger] order@[i],
                    #[trigger] order@[j],
                ),
        decreases keys.len() - n,
    {
        let at = insertion_point(keys, &order, n);
        let ghost before = order@;
        order.insert(at, n);
        proof {
            let after = order@;
            assert(after == before.insert(at as int, n));
            assert forall|k: usize| k < n + 1 implies #[trigger] after.contains(k) by {
                if k == n {
                    assert(after[at as int] == n);
                } else {
                    assert(before.contains(k));
                    let i = choose|i: int| 0 <= i < before.len() && before[i] == k;
                    assert(after[if i < at { i } else { i + 1 }] == k);
                }
            }
            assert forall|i: int, j: int| 0 <= i < j < after.len() implies ranks_before(
                keys@,
                #[trigger] after[i],
                #[trigger] after[j],
            ) by {
                let x = if i < at { i } else { i - 1 };
                let y = if j < at { j } else { j - 1 };
                if i == at {
                    K::total(&keys@[n as int], &keys@[before[y] as int]);
                } else if j == at {
                    assert(before[x] < n);
                } else {
                    assert(after[i] == before[x]);
                    assert(after[j] == before[y]);
                }
            }
        }
        n += 1;
    }
    order
}

/// How many positions of a sorted listing hold a key that comes before key `n` or ties with it.
fn insertion_point<K: Ordered>(keys: &Vec<K>, order: &Vec<usize>, n: usize) -> (at: usize)
    requires
        n < keys.len(),
        is_listing(order@, n as nat),
        forall|i: int, j: int|
            0 <= i < j < order.len() ==> ranks_before(
                keys@,
                #[trigger] order@[i],
                #[trigger] order@[j],
            ),
    ensures
        at <= order.len(),
        forall|i: int|
            0 <= i < at ==> keys@[#[trigger] order@[i] as int].at_most(&keys@[n as int]),
        forall|i: int|
            at <= i < order.len() ==> !keys@[#[trigger] order@[i] as int].at_most(&keys@[n as int]),
{
    let mut low: usize = 0;
    let mut high: usize = order.len();
    while low < high
        invariant
            low <= high <= order.len(),
            n < keys.len(),
            is_listing(order@, n as nat),
            forall|i: int, j: int|
                0 <= i < j < order.len() ==> ranks_before(
                    keys@,
                    #[trigger] order@[i],
                    #[trigger] order@[j],
                ),
            forall|i: int|
                0 <= i < low ==> keys@[#[trigger] order@[i] as int].at_most(&keys@[n as int]),
            forall|i: int|
                high <= i < order.len() ==> !keys@[#[trigger] order@[i] as int].at_most(
                    &keys@[n as int],
                ),
        decreases high - low,
    {
        let mid: usize = low + (high - low) / 2;
        assert(order@[mid as int] < n);
        if keys[order[mid]].is_at_most(&keys[n]) {
            proof {
                assert forall|i: int| 0 <= i < mid + 1 implies keys@[#[trigger] order@[i] as int].at_most(
                    &keys@[n as int],
                ) by {
                    if i < mid {
                        assert(ranks_before(keys@, order@[i], order@[mid as int]));
                        K::transitive(
                            &keys@[order@[i] as int],
                            &keys@[order@[mid as int] as int],
                            &keys@[n as int],
                        );
                    }
                }
            }
            low = mid + 1;
        } else {
            proof {
                assert forall|i: int| mid <= i < order.len() implies !keys@[#[trigger] order@[i] as int].at_most(
                    &keys@[n as int],
                ) by {
                    if mid < i && keys@[order@[i] as int].at_most(&keys@[n as int]) {
                        assert(ranks_before(keys@, order@[mid as int], order@[i]));
                        K::transitive(
                            &keys@[order@[mid as int] as int],
                            &keys@[order@[i] as int],
                            &keys@[n as int],
                        );
                    }
                }
            }
            high = mid;
        }
    }
    low
}

/// `list` is sorted and holds no text twice.
pub open spec fn strictly_sorted(list: Seq<Seq<char>>) -> bool {
    forall|i: int, j: int|
        0 <= i < j < list.len() ==> #[trigger] text_le(list[i], list[j]) && list[i] != list[j]
}

/// `list` is sorted.
pub open spec fn sorted(list: Seq<Seq<char>>) -> bool {
    forall|i: int, j: int| 0 <= i < j < list.len() ==> #[trigger] text_le(list[i], list[j])
}

/// The items of `s` at the positions that `order` lists.
pub open spec fn picked<A>(s: Seq<A>, order: Seq<usize>) -> Seq<A> {
    order.map_values(|k: usize| s[k as int])
}

/// `b` holds the items of `a`, each as often, in some order.
pub open spec fn is_rearrangement<A>(a: Seq<A>, b: Seq<A>) -> bool {
    exists|order: Seq<usize>| #[trigger] is_listing(order, a.len()) && b == picked(a, order)
}

/// Two lists sorted without repetition that hold the same texts are equal.
pub proof fn lemma_strictly_sorted_unique(a: Seq<Seq<char>>, b: Seq<Seq<char>>)
    requires
        strictly_sorted(a),
        strictly_sorted(b),
        forall|t: Seq<char>| #[trigger] a.contains(t) == b.contains(t),
    ensures
        a == b,
    decreases a.len(),
{
    if a.len() == 0 {
        if b.len() > 0 {
            assert(b.contains(b[0]));
            assert(a.contains(b[0]));
        }
        assert(a =~= b);
    } else {
        assert(a.contains(a.last()));
        let j = choose|j: int| 0 <= j < b.len() && b[j] == a.last();
        assert(b.contains(b.last()));
        assert(a.contains(b.last()));
        let i = choose|i: int| 0 <= i < a.len() && a[i] == b.last();
        if j < b.len() - 1 {
            assert(text_le(b[j], b[b.len() - 1]));
            if i < a.len() - 1 {
                assert(text_le(a[i], a[a.len() - 1]));
                lemma_text_le_antisymmetric(a.last(), b.last());
            }
        }
        assert(a.last() == b.last());
        let x = a.drop_last();
        let y = b.drop_last();
        assert forall|t: Seq<char>| #[trigger] x.contains(t) == y.contains(t) by {
            if x.contains(t) {
                let k = choose|k: int| 0 <= k < x.len() && x[k] == t;
                assert(a[k] == t);
                assert(text_le(a[k], a[a.len() - 1]));
                assert(a.contains(t));
                let m = choose|m: int| 0 <= m < b.len() && b[m] == t;
                assert(y[m] == t);
            }
            if y.contains(t) {
                let k = choose|k: int| 0 <= k < y.len() && y[k] == t;
                assert(b[k] == t);
                assert(text_le(b[k], b[b.len() - 1]));
                assert(b.contains(t));
                assert(a.contains(t));
                let m = choose|m: int| 0 <= m < a.len() && a[m] == t;
                assert(x[m] == t);
            }
        }
        assert forall|k: int, m: int| 0 <= k < m < x.len() implies #[trigger] text_le(x[k], x[m])
            && x[k] != x[m] by {
            assert(text_le(a[k], a[m]));
        }
        assert forall|k: int, m: int| 0 <= k < m < y.len() implies #[trigger] text_le(y[k], y[m])
            && y[k] != y[m] by {
            assert(text_le(b[k], b[m]));
        }
        lemma_strictly_sorted_unique(x, y);
        assert(a =~= x.push(a.last()));
        assert(b =~= y.push(b.last()));
    }
}

/// The texts of `list` in order, each as often as `list` has it.
pub open spec fn in_order(list: Seq<Seq<char>>) -> Seq<Seq<char>> {
    list.sort_by(|a: Seq<char>, b: Seq<char>| text_le(a, b))
}

/// The items that a listing of all positions picks are the items there are.
proof fn lemma_picked_items<A>(s: Seq<A>, order: Seq<usize>)
    requires
        is_listing(order, s.len()),
    ensures
        picked(s, order).to_multiset() == s.to_multiset(),
    decreases s.len(),
{
    broadcast use vstd::seq_lib::group_to_multiset_ensures;

    if s.len() == 0 {
        assert(picked(s, order) =~= s);
    } else {
        lemma_listing_fits(order, s.len());
        let n = (s.len() - 1) as usize;
        assert(n == s.len() - 1);
        assert(order.contains(n));
        let j = choose|j: int| 0 <= j < order.len() && order[j] == n;
        let rest = order.remove(j);
        let front = s.drop_last();
        assert forall|i: int| 0 <= i < rest.len() implies #[trigger] rest[i] < front.len() by {
            let k = if i < j { i } else { i + 1 };
            assert(rest[i] == order[k]);
            assert(order[k] != order[j]);
            assert(order[k] < s.len());
        }
        assert forall|k: usize| k < front.len() implies #[trigger] rest.contains(k) by {
            assert(order.contains(k));
            let i = choose|i: int| 0 <= i < order.len() && order[i] == k;
            assert(rest[if i < j { i } else { i - 1 }] == k);
        }
        assert forall|a: int, b: int| 0 <= a < rest.len() && 0 <= b < rest.len() && a != b implies rest[a]
            != rest[b] by {
            let x = if a < j { a } else { a + 1 };
            let y = if b < j { b } else { b + 1 };
            assert(order[x] != order[y]);
        }
        lemma_picked_items(front, rest);
        assert(picked(s, order).remove(j) =~= picked(front, rest));
        assert(picked(s, order) =~= picked(front, rest).insert(j, s.last()));
        vstd::seq_lib::to_multiset_insert(picked(front, rest), j, s.last());
        assert(s =~= front.push(s.last()));
    }
}

/// Positions are numbers that fit.
pub proof fn lemma_listing_fits(order: Seq<usize>, n: nat)
    requires
        is_listing(order, n),
    ensures
        n <= usize::MAX + 1,
    decreases n,
{
    if n > usize::MAX + 1 {
        let all = Seq::new(order.len(), |i: int| order[i] as int);
        assert(all.no_duplicates());
        let bound = vstd::set_lib::set_int_range(0, usize::MAX + 1);
        vstd::set_lib::lemma_int_range(0, usize::MAX + 1);
        all.unique_seq_to_set();
        assert forall|x: int| #[trigger] all.to_set().contains(x) implies bound.contains(x) by {
            let i = choose|i: int| 0 <= i < all.len() && all[i] == x;
        }
        assert(all.to_set().subset_of(bound));
        vstd::set_lib::lemma_len_subset(all.to_set(), bound);
    }
}

/// The order of texts is total.
proof fn lemma_text_order()
    ensures
        vstd::relations::total_ordering(|a: Seq<char>, b: Seq<char>| text_le(a, b)),
{
    let leq = |a: Seq<char>, b: Seq<char>| text_le(a, b);
    assert forall|x: Seq<char>| #[trigger] leq(x, x) by {
        lemma_text_le_total(x, x);
    }
    assert forall|x: Seq<char>, y: Seq<char>| #[trigger] leq(x, y) && #[trigger] leq(y, x) implies x
        == y by {
        lemma_text_le_antisymmetric(x, y);
    }
    assert forall|x: Seq<char>, y: Seq<char>, z: Seq<char>| #[trigger] leq(x, y) && #[trigger] leq(
        y,
        z,
    ) implies leq(x, z) by {
        lemma_text_le_transitive(x, y, z);
    }
    assert forall|x: Seq<char>, y: Seq<char>| #[trigger] leq(x, y) || #[trigger] leq(y, x) by {
        lemma_text_le_total(x, y);
    }
}

/// There is one way to bring texts in order.
pub proof fn lemma_in_order(list: Seq<Seq<char>>, r: Seq<Seq<char>>)
    requires
        sorted(r),
        is_rearrangement(list, r),
    ensures
        r == in_order(list),
{
    let leq = |a: Seq<char>, b: Seq<char>| text_le(a, b);
    let order = choose|order: Seq<usize>| #[trigger]
        is_listing(order, list.len()) && r == picked(list, order);
    lemma_picked_items(list, order);
    lemma_text_order();
    list.lemma_sort_by_ensures(leq);
    assert forall|i: int, j: int| 0 <= i < j < r.len() implies #[trigger] leq(r[i], r[j]) by {
        assert(text_le(r[i], r[j]));
    }
    vstd::seq_lib::lemma_sorted_unique(r, list.sort_by(leq), leq);
}

/// The texts of `list` in order.
pub fn sort_texts(list: &Vec<String>) -> (r: Vec<String>)
    ensures
        views(r@) == in_order(views(list@)),
        sorted(views(r@)),
        is_rearrangement(views(list@), views(r@)),
{
    let order = stable_order(list);
    let mut out: Vec<String> = Vec::new();
    let mut i: usize = 0;
    while i < order.len()
        invariant
            is_stable_order(list@, order@),
            i <= order.len(),
            out.len() == i,
            forall|j: int| 0 <= j < i ==> (#[trigger] out@[j])@ == list@[order@[j] as int]@,
        decreases order.len() - i,
    {
        out.push(list[order[i]].clone());
        i += 1;
    }
    proof {
        assert forall|j: int, k: int| 0 <= j < k < views(out@).len() implies #[trigger] text_le(
            views(out@)[j],
            views(out@)[k],
        ) by {
            assert(ranks_before(list@, order@[j], order@[k]));
            assert(out@[j]@ == list@[order@[j] as int]@);
            assert(out@[k]@ == list@[order@[k] as int]@);
        }
        assert(views(out@) =~= picked(views(list@), order@));
        assert(is_listing(order@, views(list@).len()));
        lemma_in_order(views(list@), views(out@));
    }
    out
}

/// The distinct texts of `list` in order.
pub fn sort_distinct(list: &Vec<String>) -> (r: Vec<String>)
    ensures
        strictly_sorted(views(r@)),
        forall|t: Seq<char>| #[trigger] views(r@).contains(t) == views(list@).contains(t),
        r.len() <= list.len(),
{
    let order = stable_order(list);
    let mut out: Vec<String> = Vec::new();
    let mut i: usize = 0;
    while i < order.len()
        invariant
            is_stable_order(list@, order@),
            i <= order.len(),
            out.len() <= i,
            out.len() == 0 ==> i == 0,
            out.len() > 0 ==> out@.last()@ == list@[order@[i - 1] as int]@,
            strictly_sorted(views(out@)),
            forall|j: int|
                0 <= j < i ==> views(out@).contains(list@[(#[trigger] order@[j]) as int]@),
            forall|j: int|
                0 <= j < out.len() ==> views(list@).contains((#[trigger] out@[j])@),
        decreases order.len() - i,
    {
        let next: &String = &list[order[i]];
        let ghost before = views(out@);
        proof {
            assert(views(list@)[order@[i as int] as int] == next@);
        }
        if out.len() == 0 || !same_text(out[out.len() - 1].as_str(), next.as_str()) {
            proof {
                if out.len() > 0 {
                    assert(ranks_before(list@, order@[i - 1], order@[i as int]));
                    assert(before.last() == out@.last()@);
                    assert(text_le(before.last(), next@));
                }
            }
            out.push(next.clone());
            proof {
                let after = views(out@);
                assert(after =~= before.push(next@));
                assert forall|j: int, k: int| 0 <= j < k < after.len() implies #[trigger] text_le(
                    after[j],
                    after[k],
                ) && after[j] != after[k] by {
                    if k < before.len() {
                        assert(text_le(before[j], before[k]));
                    } else if j < before.len() - 1 {
                        assert(text_le(before[j], before[before.len() - 1]));
                        lemma_text_le_transitive(before[j], before.last(), next@);
                        if before[j] == next@ {
                            lemma_text_le_antisymmetric(before[j], before.last());
                        }
                    }
                }
                assert forall|j: int| 0 <= j < i + 1 implies after.contains(
                    list@[(#[trigger] order@[j]) as int]@,
                ) by {
                    if j < i {
                        let t = list@[order@[j] as int]@;
                        assert(before.contains(t));
                        let m = choose|m: int| 0 <= m < before.len() && before[m] == t;
                        assert(after[m] == t);
                    } else {
                        assert(after[before.len() as int] == next@);
                    }
                }
            }
        } else {
            proof {
                assert(before[before.len() - 1] == next@);
            }
        }
        i += 1;
    }
    proof {
        assert forall|t: Seq<char>| #[trigger] views(out@).contains(t) == views(list@).contains(
            t,
        ) by {
            if views(out@).contains(t) {
                let j = choose|j: int| 0 <= j < views(out@).len() && views(out@)[j] == t;
                assert(out@[j]@ == t);
            }
            if views(list@).contains(t) {
                let k = choose|k: int| 0 <= k < views(list@).len() && views(list@)[k] == t;
                assert(order@.contains(k as usize));
                let j = choose|j: int| 0 <= j < order@.len() && order@[j] == k as usize;
                assert(list@[order@[j] as int]@ == t);
            }
        }
    }
    out
}

/// Two lists of positions in stable order that hold the same positions are equal.
proof fn lemma_same_positions<K: Ordered>(keys: Seq<K>, a: Seq<usize>, b: Seq<usize>)
    requires
        forall|i: int, j: int|
            0 <= i < j < a.len() ==> ranks_before(keys, #[trigger] a[i], #[trigger] a[j]),
        forall|i: int, j: int|
            0 <= i < j < b.len() ==> ranks_before(keys, #[trigger] b[i], #[trigger] b[j]),
        forall|k: usize| #[trigger] a.contains(k) == b.contains(k),
    ensures
        a == b,
    decreases a.len(),
{
    if a.len() == 0 {
        if b.len() > 0 {
            assert(b.contains(b[0]));
            assert(a.contains(b[0]));
        }
        assert(a =~= b);
    } else {
        assert(a.contains(a.last()));
        assert(b.contains(a.last()));
        let j = choose|j: int| 0 <= j < b.len() && b[j] == a.last();
        assert(b.contains(b.last()));
        assert(a.contains(b.last()));
        let i = choose|i: int| 0 <= i < a.len() && a[i] == b.last();
        if j < b.len() - 1 {
            assert(ranks_before(keys, b[j], b[b.len() - 1]));
            if i < a.len() - 1 {
                assert(ranks_before(keys, a[i], a[a.len() - 1]));
            }
        }
        assert(a.last() == b.last());
        let x = a.drop_last();
        let y = b.drop_last();
        assert forall|t: usize| #[trigger] x.contains(t) == y.contains(t) by {
            if x.contains(t) {
                let k = choose|k: int| 0 <= k < x.len() && x[k] == t;
                assert(ranks_before(keys, a[k], a[a.len() - 1]));
                assert(a.contains(t));
                assert(b.contains(t));
                let m = choose|m: int| 0 <= m < b.len() && b[m] == t;
                assert(m < b.len() - 1);
                assert(y[m] == t);
            }
            if y.contains(t) {
                let k = choose|k: int| 0 <= k < y.len() && y[k] == t;
                assert(ranks_before(keys, b[k], b[b.len() - 1]));
                assert(b.contains(t));
                assert(a.contains(t));
                let m = choose|m: int| 0 <= m < a.len() && a[m] == t;
                assert(m < a.len() - 1);
                assert(x[m] == t);
            }
        }
        assert forall|k: int, m: int| 0 <= k < m < x.len() implies ranks_before(
            keys,
            #[trigger] x[k],
            #[trigger] x[m],
        ) by {
            assert(ranks_before(keys, a[k], a[m]));
        }
        assert forall|k: int, m: int| 0 <= k < m < y.len() implies ranks_before(
            keys,
            #[trigger] y[k],
            #[trigger] y[m],
        ) by {
            assert(ranks_before(keys, b[k], b[m]));
        }
        lemma_same_positions(keys, x, y);
        assert(a =~= x.push(a.last()));
        assert(b =~= y.push(b.last()));
    }
}

/// There is one stable order of a list of keys.
pub proof fn stable_order_is_unique<K: Ordered>(keys: Seq<K>, a: Seq<usize>, b: Seq<usize>)
    requires
        is_stable_order(keys, a),
        is_stable_order(keys, b),
    ensures
        a == b,
{
    assert forall|k: usize| #[trigger] a.contains(k) == b.contains(k) by {
        if a.contains(k) {
            let i = choose|i: int| 0 <= i < a.len() && a[i] == k;
            assert(a[i] < keys.len());
        }
        if b.contains(k) {
            let i = choose|i: int| 0 <= i < b.len() && b[i] == k;
            assert(b[i] < keys.len());
        }
    }
    lemma_same_positions(keys, a, b);
}

/// Texts are ordered by their first difference: of two texts that differ behind a common
/// beginning the one with the smaller character there comes first, and a beginning of a text
/// comes before the text.
pub proof fn texts_are_ordered_by_first_difference(
    common: Seq<char>,
    a: char,
    b: char,
    x: Seq<char>,
    y: Seq<char>,
)
    ensures
        a < b ==> text_le(common.push(a) + x, common.push(b) + y) && !text_le(
            common.push(b) + y,
            common.push(a) + x,
        ),
        text_le(common, common + x),
        x.len() > 0 ==> !text_le(common + x, common),
    decreases common.len(),
{
    let (s, t, u) = (common.push(a) + x, common.push(b) + y, common + x);
    if common.len() > 0 {
        let rest = common.drop_first();
        texts_are_ordered_by_first_difference(rest, a, b, x, y);
        assert(s.drop_first() =~= rest.push(a) + x);
        assert(t.drop_first() =~= rest.push(b) + y);
        assert(u.drop_first() =~= rest + x);
        assert(s[0] == common[0] && t[0] == common[0] && u[0] == common[0]);
    } else {
        assert(s[0] == a && t[0] == b);
    }
}

/// A sorted list holds its texts in order, each of them once where it is strictly sorted.
pub proof fn sorted_lists_are_in_order(list: Seq<Seq<char>>, i: int, j: int)
    requires
        0 <= i < j < list.len(),
    ensures
        sorted(list) ==> text_le(list[i], list[j]),
        strictly_sorted(list) ==> text_le(list[i], list[j]) && list[i] != list[j],
{
}

} // verus!
