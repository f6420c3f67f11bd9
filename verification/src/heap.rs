//! Price-time priority and the binary-heap model of one side of the book.
//!
//! Everything here is specification and proof: the relation that orders a
//! side, the heap shape, the two restoring walks (`sift_up`, `sift_down`) as
//! functions on sequences, and the lemmas that the executable book rests on.

use vstd::multiset::Multiset;
use vstd::prelude::*;
use vstd::seq_lib::{to_multiset_build, to_multiset_contains, to_multiset_len, to_multiset_update};
use crate::order::{Order, Side};

verus! {

/// Strict price-time priority: `a` is served strictly before `b`.
///
/// On the buy side the higher price wins, on the sell side the lower one; at
/// equal prices the earlier timestamp wins.  Two orders with the same price
/// and timestamp are tied: neither is better than the other.
pub open spec fn better(a: Order, b: Order, side: Side) -> bool {
    if a.price != b.price {
        match side {
            Side::Buy => a.price > b.price,
            Side::Sell => a.price < b.price,
        }
    } else {
        a.timestamp < b.timestamp
    }
}

/// Whether `order` declares itself for `side`: type `0` for the buy side,
/// type `1` for the sell side.  An order of any other type is for neither.
pub open spec fn on_side(order: Order, side: Side) -> bool {
    match side {
        Side::Buy => order.is_buy(),
        Side::Sell => order.is_sell(),
    }
}

/// Index of the parent of heap node `i`.
pub open spec fn parent(i: int) -> int {
    (i - 1) / 2
}

/// The heap invariant on the first `n` slots of `s`: no node is better than
/// its parent.
pub open spec fn heap_ordered(s: Seq<Order>, n: int, side: Side) -> bool {
    forall|i: int| 0 < i < n ==> !better(#[trigger] s[i], s[parent(i)], side)
}

/// `s` with the slots `i` and `j` exchanged.
pub open spec fn swap(s: Seq<Order>, i: int, j: int) -> Seq<Order> {
    s.update(i, s[j]).update(j, s[i])
}

/// Walks the order in slot `i` towards the root: while it is strictly better
/// than its parent the two are exchanged.
pub open spec fn sift_up(s: Seq<Order>, i: int, side: Side) -> Seq<Order>
    decreases i,
{
    if 0 < i < s.len() && better(s[i], s[parent(i)], side) {
        sift_up(swap(s, i, parent(i)), parent(i), side)
    } else {
        s
    }
}

/// Among node `i` and its children below `n`, the slot that holds the best
/// order.  The left child replaces the node only if strictly better, the
/// right child replaces the winner of those two only if strictly better.
pub open spec fn best_of_family(s: Seq<Order>, n: int, i: int, side: Side) -> int {
    let left = 2 * i + 1;
    let right = 2 * i + 2;
    let first = if left < n && better(s[left], s[i], side) {
        left
    } else {
        i
    };
    if right < n && better(s[right], s[first], side) {
        right
    } else {
        first
    }
}

/// Walks the order in slot `i` towards the leaves of the heap on the first
/// `n` slots: while a child is strictly better, the node is exchanged with
/// the best of its family.
pub open spec fn sift_down(s: Seq<Order>, n: int, i: int, side: Side) -> Seq<Order>
    decreases n - i,
{
    if 0 <= i < n <= s.len() && best_of_family(s, n, i, side) != i {
        sift_down(swap(s, i, best_of_family(s, n, i, side)), n, best_of_family(s, n, i, side), side)
    } else {
        s
    }
}

/// One side of the book as a mathematical value.
pub struct Heap {
    /// Every slot of the backing array.  The slots from `len` on are stale:
    /// they are kept, but they are not part of the book.
    pub slots: Seq<Order>,
    /// Number of resting orders.
    pub len: nat,
}

impl Heap {
    /// The resting orders in heap layout, best first.
    pub open spec fn resting(self) -> Seq<Order> {
        self.slots.take(self.len as int)
    }

    /// The resting orders without their layout.
    pub open spec fn orders(self) -> Multiset<Order> {
        self.resting().to_multiset()
    }

    /// The side fits its array and its live slots form a heap.
    pub open spec fn wf(self, side: Side) -> bool {
        &&& self.len <= self.slots.len()
        &&& heap_ordered(self.slots, self.len as int, side)
    }

    pub open spec fn is_full(self) -> bool {
        self.len >= self.slots.len()
    }

    /// No resting order has a zero amount.
    pub open spec fn no_empty_order(self) -> bool {
        forall|o: Order| self.orders().contains(o) ==> o.amount > 0
    }

    /// Every resting order declares itself for `side`.
    pub open spec fn all_on_side(self, side: Side) -> bool {
        forall|o: Order| #[trigger] self.orders().contains(o) ==> on_side(o, side)
    }

    /// The best resting order; meaningful while `len > 0`.
    pub open spec fn top(self) -> Order {
        self.slots[0]
    }

    /// The side after `order` was offered to it: unchanged when full,
    /// otherwise appended and walked up.
    pub open spec fn insert(self, order: Order, side: Side) -> Heap {
        if self.is_full() {
            self
        } else {
            Heap {
                slots: sift_up(self.slots.update(self.len as int, order), self.len as int, side),
                len: self.len + 1,
            }
        }
    }

    /// The side after its best order was taken: the last live order moves to
    /// the root and is walked down.  Unchanged when empty.
    pub open spec fn pop(self, side: Side) -> Heap {
        if self.len == 0 {
            self
        } else if self.len == 1 {
            Heap { slots: self.slots, len: 0 }
        } else {
            let last = self.len - 1;
            Heap {
                slots: sift_down(self.slots.update(0, self.slots[last]), last, 0, side),
                len: last as nat,
            }
        }
    }

    /// The side after its `k` best orders were taken, one after the other.
    pub open spec fn pop_n(self, k: nat, side: Side) -> Heap
        decreases k,
    {
        if k == 0 {
            self
        } else {
            self.pop_n((k - 1) as nat, side).pop(side)
        }
    }
}

/// The heap invariant with one exemption: node `i` may be better than its
/// parent.  The children of `i` already respect the parent of `i`.
pub open spec fn heap_but_above(s: Seq<Order>, n: int, i: int, side: Side) -> bool {
    &&& forall|j: int| 0 < j < n && j != i ==> !better(#[trigger] s[j], s[parent(j)], side)
    &&& forall|j: int|
        0 < j < n && parent(j) == i && i > 0 ==> !better(#[trigger] s[j], s[parent(i)], side)
}

/// The heap invariant with one exemption: the children of node `i` may be
/// better than `i`.  They already respect the parent of `i`.
pub open spec fn heap_but_below(s: Seq<Order>, n: int, i: int, side: Side) -> bool {
    &&& forall|j: int|
        0 < j < n && parent(j) != i ==> !better(#[trigger] s[j], s[parent(j)], side)
    &&& forall|j: int|
        0 < j < n && parent(j) == i && i > 0 ==> !better(#[trigger] s[j], s[parent(i)], side)
}

/// Exchanging two of the first `n` slots keeps the multiset of those slots.
pub proof fn lemma_swap_keeps_orders(s: Seq<Order>, n: int, i: int, j: int)
    requires
        0 <= i < n <= s.len(),
        0 <= j < n,
    ensures
        swap(s, i, j).len() == s.len(),
        swap(s, i, j).take(n).to_multiset() == s.take(n).to_multiset(),
        forall|k: int| n <= k < s.len() ==> swap(s, i, j)[k] == s[k],
{
    let p = s.take(n);
    let q = p.update(i, s[j]);
    assert(swap(s, i, j).take(n) =~= q.update(j, s[i]));
    to_multiset_update(p, i, s[j]);
    to_multiset_update(q, j, s[i]);
    assert(p.to_multiset().count(s[i]) > 0 && p.to_multiset().count(s[j]) > 0) by {
        to_multiset_contains(p, s[i]);
        to_multiset_contains(p, s[j]);
        assert(p[i] == s[i] && p[j] == s[j]);
    }
    assert(q.update(j, s[i]).to_multiset() =~= p.to_multiset());
}

/// `sift_up` restores the heap invariant and only rearranges the first `n`
/// slots.
pub proof fn lemma_sift_up(s: Seq<Order>, n: int, i: int, side: Side)
    requires
        0 <= i < n <= s.len(),
        heap_but_above(s, n, i, side),
    ensures
        sift_up(s, i, side).len() == s.len(),
        heap_ordered(sift_up(s, i, side), n, side),
        sift_up(s, i, side).take(n).to_multiset() == s.take(n).to_multiset(),
        forall|k: int| n <= k < s.len() ==> sift_up(s, i, side)[k] == s[k],
    decreases i,
{
    if 0 < i && better(s[i], s[parent(i)], side) {
        let p = parent(i);
        let t = swap(s, i, p);
        lemma_swap_keeps_orders(s, n, i, p);
        assert(heap_but_above(t, n, p, side)) by {
            assert forall|j: int| 0 < j < n && j != p implies !better(
                #[trigger] t[j],
                t[parent(j)],
                side,
            ) by {
                if j == i {
                } else if parent(j) == i {
                    assert(!better(s[j], s[parent(i)], side));
                } else if parent(j) == p {
                    assert(!better(s[j], s[p], side));
                } else {
                    assert(!better(s[j], s[parent(j)], side));
                }
            }
            assert forall|j: int| 0 < j < n && parent(j) == p && p > 0 implies !better(
                #[trigger] t[j],
                t[parent(p)],
                side,
            ) by {
                assert(!better(s[p], s[parent(p)], side));
                if j != i {
                    assert(!better(s[j], s[p], side));
                }
            }
        }
        lemma_sift_up(t, n, p, side);
    } else {
        assert(sift_up(s, i, side) == s);
        assert forall|j: int| 0 < j < n implies !better(
            #[trigger] s[j],
            s[parent(j)],
            side,
        ) by {}
    }
}

/// `sift_down` restores the heap invariant and only rearranges the first `n`
/// slots.
pub proof fn lemma_sift_down(s: Seq<Order>, n: int, i: int, side: Side)
    requires
        0 <= i < n <= s.len(),
        heap_but_below(s, n, i, side),
    ensures
        sift_down(s, n, i, side).len() == s.len(),
        heap_ordered(sift_down(s, n, i, side), n, side),
        sift_down(s, n, i, side).take(n).to_multiset() == s.take(n).to_multiset(),
        forall|k: int| n <= k < s.len() ==> sift_down(s, n, i, side)[k] == s[k],
    decreases n - i,
{
    let b = best_of_family(s, n, i, side);
    if b != i {
        let t = swap(s, i, b);
        lemma_swap_keeps_orders(s, n, i, b);
        assert(heap_but_below(t, n, b, side)) by {
            assert forall|j: int| 0 < j < n && parent(j) != b implies !better(
                #[trigger] t[j],
                t[parent(j)],
                side,
            ) by {
                if parent(j) == i {
                } else if j == i {
                    assert(!better(s[b], s[parent(i)], side));
                } else {
                    assert(!better(s[j], s[parent(j)], side));
                }
            }
            assert forall|j: int| 0 < j < n && parent(j) == b && b > 0 implies !better(
                #[trigger] t[j],
                t[parent(b)],
                side,
            ) by {
                assert(!better(s[j], s[b], side));
            }
        }
        lemma_sift_down(t, n, b, side);
    } else {
        assert(sift_down(s, n, i, side) == s);
        assert forall|j: int| 0 < j < n implies !better(
            #[trigger] s[j],
            s[parent(j)],
            side,
        ) by {
            if parent(j) != i {
                assert(!better(s[j], s[parent(j)], side));
            }
        }
    }
}

/// In a heap no order is better than the root.
pub proof fn lemma_root_is_best(s: Seq<Order>, n: int, j: int, side: Side)
    requires
        heap_ordered(s, n, side),
        0 <= j < n,
    ensures
        !better(s[j], s[0], side),
    decreases j,
{
    if j > 0 {
        lemma_root_is_best(s, n, parent(j), side);
        assert(!better(s[j], s[parent(j)], side));
    }
}

/// A side without live slots holds no order.
pub proof fn lemma_empty_side_holds_nothing(h: Heap)
    requires
        h.len == 0,
    ensures
        h.orders().len() == 0,
        forall|o: Order| !h.orders().contains(o),
        h.no_empty_order(),
        forall|side: Side| h.all_on_side(side),
{
    assert(h.resting() =~= Seq::<Order>::empty());
    assert forall|o: Order| !h.orders().contains(o) by {
        to_multiset_contains(h.resting(), o);
    }
    to_multiset_len(h.resting());
}

/// Offering an order to a side keeps it a heap; unless the side is full the
/// order joins the resting orders and nothing else changes.
pub proof fn lemma_insert(h: Heap, order: Order, side: Side)
    requires
        h.wf(side),
    ensures
        h.insert(order, side).wf(side),
        h.insert(order, side).slots.len() == h.slots.len(),
        h.is_full() ==> h.insert(order, side) == h,
        !h.is_full() ==> h.insert(order, side).len == h.len + 1,
        !h.is_full() ==> h.insert(order, side).orders() == h.orders().insert(order),
        h.no_empty_order() && order.amount > 0 ==> h.insert(order, side).no_empty_order(),
        h.all_on_side(side) && on_side(order, side) ==> h.insert(order, side).all_on_side(side),
{
    if !h.is_full() {
        let n = h.len as int;
        let s = h.slots.update(n, order);
        assert(heap_but_above(s, n + 1, n, side)) by {
            assert forall|j: int| 0 < j < n + 1 && j != n implies !better(
                #[trigger] s[j],
                s[parent(j)],
                side,
            ) by {
                assert(!better(h.slots[j], h.slots[parent(j)], side));
            }
        }
        lemma_sift_up(s, n + 1, n, side);
        assert(s.take(n + 1) =~= h.slots.take(n).push(order));
        to_multiset_build(h.slots.take(n), order);
        assert forall|o: Order|
            h.no_empty_order() && order.amount > 0 && h.insert(order, side).orders().contains(
                o,
            ) implies o.amount > 0 by {
            if o != order {
                assert(h.orders().contains(o));
            }
        }
        assert forall|o: Order|
            h.all_on_side(side) && on_side(order, side) && h.insert(order, side).orders().contains(
                o,
            ) implies on_side(o, side) by {
            if o != order {
                assert(h.orders().contains(o));
            }
        }
    }
}

/// Taking the best order keeps the side a heap, removes exactly that order,
/// and no resting order was better than it.
pub proof fn lemma_pop(h: Heap, side: Side)
    requires
        h.wf(side),
        h.len > 0,
    ensures
        h.pop(side).wf(side),
        h.pop(side).slots.len() == h.slots.len(),
        h.pop(side).len == h.len - 1,
        h.orders() == h.pop(side).orders().insert(h.top()),
        h.orders().contains(h.top()),
        forall|o: Order| h.orders().contains(o) ==> !better(o, h.top(), side),
        forall|o: Order| h.pop(side).orders().contains(o) ==> h.orders().contains(o),
        h.no_empty_order() ==> h.pop(side).no_empty_order(),
        h.all_on_side(side) ==> h.pop(side).all_on_side(side),
{
    let n = h.len as int;
    let last = n - 1;
    assert forall|o: Order| h.orders().contains(o) implies !better(o, h.top(), side) by {
        to_multiset_contains(h.resting(), o);
        let j = choose|j: int| 0 <= j < n && h.resting()[j] == o;
        lemma_root_is_best(h.slots, n, j, side);
    }
    assert(h.resting() =~= h.slots.take(last).push(h.slots[last]));
    to_multiset_build(h.slots.take(last), h.slots[last]);
    if last == 0 {
        assert(h.pop(side).resting() =~= h.slots.take(0));
    } else {
        let s = h.slots.update(0, h.slots[last]);
        assert(heap_but_below(s, last, 0, side)) by {
            assert forall|j: int| 0 < j < last && parent(j) != 0 implies !better(
                #[trigger] s[j],
                s[parent(j)],
                side,
            ) by {
                assert(!better(h.slots[j], h.slots[parent(j)], side));
            }
        }
        lemma_sift_down(s, last, 0, side);
        assert(s.take(last) =~= h.slots.take(last).update(0, h.slots[last]));
        to_multiset_update(h.slots.take(last), 0, h.slots[last]);
        to_multiset_contains(h.slots.take(last), h.slots[0]);
        assert(h.slots.take(last)[0] == h.slots[0]);
        assert(h.orders() =~= h.pop(side).orders().insert(h.top()));
    }
    assert forall|o: Order| h.no_empty_order() && h.pop(side).orders().contains(o) implies o.amount
        > 0 by {
        assert(h.orders().contains(o));
    }
    assert forall|o: Order| h.all_on_side(side) && h.pop(side).orders().contains(o) implies on_side(
        o,
        side,
    ) by {
        assert(h.orders().contains(o));
    }
}

/// Price-time priority: an order is never taken while a better one rests.
/// Of two resting orders the one with the better price leaves first, and at
/// equal prices the one with the earlier timestamp; the other is still
/// resting after the pop.
pub proof fn lemma_better_order_leaves_first(h: Heap, a: Order, b: Order, side: Side)
    requires
        h.wf(side),
        h.orders().contains(a),
        h.orders().contains(b),
        better(a, b, side),
    ensures
        h.top() != b,
        h.pop(side).orders().contains(b),
{
    to_multiset_contains(h.resting(), a);
    lemma_pop(h, side);
}

/// Orders leave a side in priority order: of two orders taken out by
/// successive pops, the later one is never better than the earlier one.
pub proof fn lemma_pops_in_priority_order(h: Heap, i: nat, j: nat, side: Side)
    requires
        h.wf(side),
        i <= j < h.len,
    ensures
        !better(h.pop_n(j, side).top(), h.pop_n(i, side).top(), side),
{
    lemma_pop_n(h, i, j, side);
    lemma_pop(h.pop_n(i, side), side);
    lemma_pop(h.pop_n(j, side), side);
}

/// Taking `j` orders leaves a heap that holds `j` orders less, all of which
/// were still resting after only `i <= j` were taken.
pub proof fn lemma_pop_n(h: Heap, i: nat, j: nat, side: Side)
    requires
        h.wf(side),
        i <= j <= h.len,
    ensures
        h.pop_n(i, side).wf(side),
        h.pop_n(j, side).wf(side),
        h.pop_n(i, side).len == h.len - i,
        h.pop_n(j, side).len == h.len - j,
        forall|o: Order|
            h.pop_n(j, side).orders().contains(o) ==> h.pop_n(i, side).orders().contains(o),
    decreases j,
{
    if j == 0 {
    } else if i == j {
        lemma_pop_n(h, (j - 1) as nat, (j - 1) as nat, side);
        lemma_pop(h.pop_n((j - 1) as nat, side), side);
    } else {
        lemma_pop_n(h, i, (j - 1) as nat, side);
        lemma_pop(h.pop_n((j - 1) as nat, side), side);
    }
}

} // verus!
