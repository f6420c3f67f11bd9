//! The order book: two fixed-capacity binary heaps, bids and asks.

use vstd::prelude::*;
use crate::heap::{
    best_of_family, better, lemma_empty_side_holds_nothing, lemma_insert, lemma_pop, parent,
    sift_down, sift_up, swap, Heap,
};
use crate::order::{Order, Side, MAX_ORDERS};

verus! {

/// The resting orders of one instrument.
///
/// Each side is a binary heap laid out in the first `*_count` slots of its
/// array: the buy side with the highest price at the root, the sell side with
/// the lowest, ties going to the earlier timestamp.  Slots from `*_count` on
/// are stale.
#[derive(Copy, Clone, Debug, PartialEq, Eq)]
pub struct OrderBook {
    pub buy_orders: [Order; MAX_ORDERS],
    pub buy_count: u8,
    pub sell_orders: [Order; MAX_ORDERS],
    pub sell_count: u8,
}

/// The book as a mathematical value: its two sides.
pub struct BookView {
    pub buys: Heap,
    pub sells: Heap,
}

impl BookView {
    /// Both sides fit their arrays and are heaps under their own ordering.
    pub open spec fn wf(self) -> bool {
        &&& self.buys.wf(Side::Buy)
        &&& self.sells.wf(Side::Sell)
    }

    /// No resting order has a zero amount.
    pub open spec fn no_empty_order(self) -> bool {
        &&& self.buys.no_empty_order()
        &&& self.sells.no_empty_order()
    }

    /// Every order rests on the side that it declares: the buy side holds
    /// buy orders only, the sell side sell orders only.
    pub open spec fn orders_on_own_side(self) -> bool {
        &&& self.buys.all_on_side(Side::Buy)
        &&& self.sells.all_on_side(Side::Sell)
    }
}

impl View for OrderBook {
    type V = BookView;

    open spec fn view(&self) -> BookView {
        BookView {
            buys: Heap { slots: self.buy_orders@, len: self.buy_count as nat },
            sells: Heap { slots: self.sell_orders@, len: self.sell_count as nat },
        }
    }
}

/// Exchanges two slots of a side's array.
fn swap_slots(orders: &mut [Order; MAX_ORDERS], i: usize, j: usize)
    requires
        i < MAX_ORDERS,
        j < MAX_ORDERS,
    ensures
        final(orders)@ == swap(old(orders)@, i as int, j as int),
{
    let a = orders[i];
    let b = orders[j];
    orders[i] = b;
    orders[j] = a;
}

impl OrderBook {
    /// Both counts are within capacity and both sides are heaps.
    pub open spec fn wf(&self) -> bool {
        self@.wf()
    }

    /// No resting order has a zero amount.  The book itself never creates
    /// such an order; it holds as long as none is inserted.
    pub open spec fn no_empty_order(&self) -> bool {
        self@.no_empty_order()
    }

    /// Every order rests on the side that it declares.  The book takes any
    /// order on either side; it holds as long as buy orders are inserted on
    /// the buy side and sell orders on the sell side.
    pub open spec fn orders_on_own_side(&self) -> bool {
        self@.orders_on_own_side()
    }

    /// An empty book; every slot holds `Order::empty()`.
    pub fn new() -> (book: OrderBook)
        ensures
            book.wf(),
            book.buy_count == 0,
            book.sell_count == 0,
            forall|i: int| 0 <= i < MAX_ORDERS ==> book.buy_orders[i] == Order::empty(),
            forall|i: int| 0 <= i < MAX_ORDERS ==> book.sell_orders[i] == Order::empty(),
            book.no_empty_order(),
            book.orders_on_own_side(),
    {
        let book = OrderBook {
            buy_orders: [Order::empty();MAX_ORDERS],
            buy_count: 0,
            sell_orders: [Order::empty();MAX_ORDERS],
            sell_count: 0,
        };
        proof {
            lemma_empty_side_holds_nothing(book@.buys);
            lemma_empty_side_holds_nothing(book@.sells);
        }
        book
    }

    /// Decides whether the book is well formed.  A book that was built by
    /// this module always is; one that comes from storage is tested with this
    /// before any other operation.
    pub fn is_valid(&self) -> (valid: bool)
        ensures
            valid == self.wf(),
    {
        if self.buy_count as usize > MAX_ORDERS || self.sell_count as usize > MAX_ORDERS {
            return false;
        }
        let mut i: usize = 1;
        while i < self.buy_count as usize
            invariant
                1 <= i,
                self.buy_count <= MAX_ORDERS,
                forall|j: int|
                    0 < j < i ==> !better(
                        #[trigger] self.buy_orders@[j],
                        self.buy_orders@[parent(j)],
                        Side::Buy,
                    ),
            decreases self.buy_count - i,
        {
            if self.compare_buy(i, (i - 1) / 2) {
                return false;
            }
            i += 1;
        }
        let mut i: usize = 1;
        while i < self.sell_count as usize
            invariant
                1 <= i,
                self.sell_count <= MAX_ORDERS,
                self@.buys.wf(Side::Buy),
                forall|j: int|
                    0 < j < i ==> !better(
                        #[trigger] self.sell_orders@[j],
                        self.sell_orders@[parent(j)],
                        Side::Sell,
                    ),
            decreases self.sell_count - i,
        {
            if self.compare_sell(i, (i - 1) / 2) {
                return false;
            }
            i += 1;
        }
        true
    }

    /// Offers `order` to the buy side.
    ///
    /// Returns `false` and leaves the book as it is when the side is full.
    /// Otherwise the order is stored in the first free slot and walked up
    /// towards the root while it is strictly better than its parent.
    pub fn insert_buy(&mut self, order: Order) -> (success: bool)
        requires
            old(self).wf(),
        ensures
            final(self).wf(),
            success == !old(self)@.buys.is_full(),
            !success ==> *final(self) == *old(self),
            final(self)@.buys == old(self)@.buys.insert(order, Side::Buy),
            final(self)@.sells == old(self)@.sells,
            success ==> final(self)@.buys.orders() == old(self)@.buys.orders().insert(order),
            old(self).no_empty_order() && order.amount > 0 ==> final(self).no_empty_order(),
            old(self).orders_on_own_side() && order.is_buy() ==> final(self).orders_on_own_side(),
    {
        proof {
            lemma_insert(self@.buys, order, Side::Buy);
        }
        let success = if self.buy_count >= MAX_ORDERS as u8 {
            false
        } else {
            let ghost start = self.buy_orders@.update(self.buy_count as int, order);
            let ghost last = self.buy_count as int;
            let ghost sells = self@.sells;
            self.buy_orders[self.buy_count as usize] = order;
            self.buy_count += 1;

            let mut i: u8 = self.buy_count - 1;
            let mut done = false;
            for step in 0..MAX_ORDERS
                invariant
                    i <= last < MAX_ORDERS,
                    self.buy_count == last + 1,
                    self@.sells == sells,
                    !done ==> i + step <= last,
                    !done ==> sift_up(self.buy_orders@, i as int, Side::Buy) == sift_up(
                        start,
                        last,
                        Side::Buy,
                    ),
                    done ==> self.buy_orders@ == sift_up(start, last, Side::Buy),
            {
                if i == 0 || done {
                    done = true;
                } else {
                    let parent: u8 = (i - 1) / 2;
                    if self.compare_buy(i as usize, parent as usize) {
                        swap_slots(&mut self.buy_orders, i as usize, parent as usize);
                        i = parent;
                    } else {
                        done = true;
                    }
                }
            }
            true
        };
        success
    }

    /// Offers `order` to the sell side.
    ///
    /// Returns `false` and leaves the book as it is when the side is full.
    /// Otherwise the order is stored in the first free slot and walked up
    /// towards the root while it is strictly better than its parent.
    pub fn insert_sell(&mut self, order: Order) -> (success: bool)
        requires
            old(self).wf(),
        ensures
            final(self).wf(),
            success == !old(self)@.sells.is_full(),
            !success ==> *final(self) == *old(self),
            final(self)@.sells == old(self)@.sells.insert(order, Side::Sell),
            final(self)@.buys == old(self)@.buys,
            success ==> final(self)@.sells.orders() == old(self)@.sells.orders().insert(order),
            old(self).no_empty_order() && order.amount > 0 ==> final(self).no_empty_order(),
            old(self).orders_on_own_side() && order.is_sell() ==> final(self).orders_on_own_side(),
    {
        proof {
            lemma_insert(self@.sells, order, Side::Sell);
        }
        let success = if self.sell_count >= MAX_ORDERS as u8 {
            false
        } else {
            let ghost start = self.sell_orders@.update(self.sell_count as int, order);
            let ghost last = self.sell_count as int;
            let ghost buys = self@.buys;
            self.sell_orders[self.sell_count as usize] = order;
            self.sell_count += 1;

            let mut i: u8 = self.sell_count - 1;
            let mut done = false;
            for step in 0..MAX_ORDERS
                invariant
                    i <= last < MAX_ORDERS,
                    self.sell_count == last + 1,
                    self@.buys == buys,
                    !done ==> i + step <= last,
                    !done ==> sift_up(self.sell_orders@, i as int, Side::Sell) == sift_up(
                        start,
                        last,
                        Side::Sell,
                    ),
                    done ==> self.sell_orders@ == sift_up(start, last, Side::Sell),
            {
                if i == 0 || done {
                    done = true;
                } else {
                    let parent: u8 = (i - 1) / 2;
                    if self.compare_sell(i as usize, parent as usize) {
                        swap_slots(&mut self.sell_orders, i as usize, parent as usize);
                        i = parent;
                    } else {
                        done = true;
                    }
                }
            }
            true
        };
        success
    }

    /// Whether the buy order in slot `i` is strictly better than the one in
    /// slot `j`: higher price, or equal price and earlier timestamp.
    fn compare_buy(&self, i: usize, j: usize) -> (b: bool)
        requires
            i < MAX_ORDERS,
            j < MAX_ORDERS,
        ensures
            b == better(self.buy_orders[i as int], self.buy_orders[j as int], Side::Buy),
    {
        let a = &self.buy_orders[i];
        let b = &self.buy_orders[j];

        if a.price != b.price {
            a.price > b.price
        } else {
            a.timestamp < b.timestamp
        }
    }

    /// Whether the sell order in slot `i` is strictly better than the one in
    /// slot `j`: lower price, or equal price and earlier timestamp.
    fn compare_sell(&self, i: usize, j: usize) -> (b: bool)
        requires
            i < MAX_ORDERS,
            j < MAX_ORDERS,
        ensures
            b == better(self.sell_orders[i as int], self.sell_orders[j as int], Side::Sell),
    {
        let a = &self.sell_orders[i];
        let b = &self.sell_orders[j];

        if a.price != b.price {
            a.price < b.price
        } else {
            a.timestamp < b.timestamp
        }
    }

    /// Restores the buy heap below slot `i`: while a child is strictly better,
    /// the order is exchanged with the best of the node and its children.
    /// The walk is bounded by the capacity of the side.
    fn heapify_buy(&mut self, i: usize)
        requires
            i < MAX_ORDERS,
            old(self).buy_count <= MAX_ORDERS,
        ensures
            final(self).buy_orders@ == sift_down(
                old(self).buy_orders@,
                old(self).buy_count as int,
                i as int,
                Side::Buy,
            ),
            final(self).buy_count == old(self).buy_count,
            final(self)@.sells == old(self)@.sells,
    {
        let ghost start = self.buy_orders@;
        let ghost from = i as int;
        let ghost count = self.buy_count as int;
        let ghost sells = self@.sells;
        let mut i: usize = i;
        let mut done = false;
        for step in 0..MAX_ORDERS
            invariant
                i < MAX_ORDERS,
                self.buy_count == count <= MAX_ORDERS,
                self@.sells == sells,
                !done ==> step <= i,
                !done ==> sift_down(self.buy_orders@, count, i as int, Side::Buy) == sift_down(
                    start,
                    count,
                    from,
                    Side::Buy,
                ),
                done ==> self.buy_orders@ == sift_down(start, count, from, Side::Buy),
        {
            if done {
            } else {
                let left: usize = 2 * i + 1;
                let right: usize = 2 * i + 2;
                let mut largest: usize = i;

                if left < self.buy_count as usize && self.compare_buy(left, largest) {
                    largest = left;
                }
                if right < self.buy_count as usize && self.compare_buy(right, largest) {
                    largest = right;
                }
                assert(i < count ==> largest == best_of_family(
                    self.buy_orders@,
                    count,
                    i as int,
                    Side::Buy,
                ));

                if largest != i {
                    swap_slots(&mut self.buy_orders, i, largest);
                    i = largest;
                } else {
                    done = true;
                }
            }
        }
    }

    /// Restores the sell heap below slot `i`: while a child is strictly better,
    /// the order is exchanged with the best of the node and its children.
    /// The walk is bounded by the capacity of the side.
    fn heapify_sell(&mut self, i: usize)
        requires
            i < MAX_ORDERS,
            old(self).sell_count <= MAX_ORDERS,
        ensures
            final(self).sell_orders@ == sift_down(
                old(self).sell_orders@,
                old(self).sell_count as int,
                i as int,
                Side::Sell,
            ),
            final(self).sell_count == old(self).sell_count,
            final(self)@.buys == old(self)@.buys,
    {
        let ghost start = self.sell_orders@;
        let ghost from = i as int;
        let ghost count = self.sell_count as int;
        let ghost buys = self@.buys;
        let mut i: usize = i;
        let mut done = false;
        for step in 0..MAX_ORDERS
            invariant
                i < MAX_ORDERS,
                self.sell_count == count <= MAX_ORDERS,
                self@.buys == buys,
                !done ==> step <= i,
                !done ==> sift_down(self.sell_orders@, count, i as int, Side::Sell) == sift_down(
                    start,
                    count,
                    from,
                    Side::Sell,
                ),
                done ==> self.sell_orders@ == sift_down(start, count, from, Side::Sell),
        {
            if done {
            } else {
                let left: usize = 2 * i + 1;
                let right: usize = 2 * i + 2;
                let mut smallest: usize = i;

                if left < self.sell_count as usize && self.compare_sell(left, smallest) {
                    smallest = left;
                }
                if right < self.sell_count as usize && self.compare_sell(right, smallest) {
                    smallest = right;
                }
                assert(i < count ==> smallest == best_of_family(
                    self.sell_orders@,
                    count,
                    i as int,
                    Side::Sell,
                ));

                if smallest != i {
                    swap_slots(&mut self.sell_orders, i, smallest);
                    i = smallest;
                } else {
                    done = true;
                }
            }
        }
    }

    /// Takes the best buy order out of the book.
    ///
    /// The root is returned, the last live order takes its slot and is walked
    /// down.  Calling this on an empty side is not allowed: test `has_buy`
    /// first.
    pub fn pop_buy(&mut self) -> (order: Order)
        requires
            old(self).wf(),
            old(self).has_buy(),
        ensures
            final(self).wf(),
            order == old(self)@.buys.top(),
            final(self)@.buys == old(self)@.buys.pop(Side::Buy),
            final(self)@.sells == old(self)@.sells,
            old(self)@.buys.orders() == final(self)@.buys.orders().insert(order),
            forall|o: Order|
                old(self)@.buys.orders().contains(o) ==> !better(o, order, Side::Buy),
            old(self).no_empty_order() ==> final(self).no_empty_order() && order.amount > 0,
            old(self).orders_on_own_side() ==> final(self).orders_on_own_side() && order.is_buy(),
    {
        proof {
            lemma_pop(self@.buys, Side::Buy);
        }
        let order = self.buy_orders[0];
        self.buy_count -= 1;

        if self.buy_count > 0 {
            self.buy_orders[0] = self.buy_orders[self.buy_count as usize];
            self.heapify_buy(0);
        }
        order
    }

    /// Takes the best sell order out of the book.
    ///
    /// The root is returned, the last live order takes its slot and is walked
    /// down.  Calling this on an empty side is not allowed: test `has_sell`
    /// first.
    pub fn pop_sell(&mut self) -> (order: Order)
        requires
            old(self).wf(),
            old(self).has_sell(),
        ensures
            final(self).wf(),
            order == old(self)@.sells.top(),
            final(self)@.sells == old(self)@.sells.pop(Side::Sell),
            final(self)@.buys == old(self)@.buys,
            old(self)@.sells.orders() == final(self)@.sells.orders().insert(order),
            forall|o: Order|
                old(self)@.sells.orders().contains(o) ==> !better(o, order, Side::Sell),
            old(self).no_empty_order() ==> final(self).no_empty_order() && order.amount > 0,
            old(self).orders_on_own_side() ==> final(self).orders_on_own_side() && order.is_sell(),
    {
        proof {
            lemma_pop(self@.sells, Side::Sell);
        }
        let order = self.sell_orders[0];
        self.sell_count -= 1;

        if self.sell_count > 0 {
            self.sell_orders[0] = self.sell_orders[self.sell_count as usize];
            self.heapify_sell(0);
        }
        order
    }

    /// The best buy order, left in place.  Only valid while the side is not
    /// empty.
    pub fn peek_buy(&self) -> (order: Order)
        requires
            self.wf(),
            self.has_buy(),
        ensures
            order == self@.buys.top(),
            self@.buys.orders().contains(order),
            forall|o: Order| self@.buys.orders().contains(o) ==> !better(o, order, Side::Buy),
    {
        proof {
            lemma_pop(self@.buys, Side::Buy);
        }
        self.buy_orders[0]
    }

    /// The best sell order, left in place.  Only valid while the side is not
    /// empty.
    pub fn peek_sell(&self) -> (order: Order)
        requires
            self.wf(),
            self.has_sell(),
        ensures
            order == self@.sells.top(),
            self@.sells.orders().contains(order),
            forall|o: Order| self@.sells.orders().contains(o) ==> !better(o, order, Side::Sell),
    {
        proof {
            lemma_pop(self@.sells, Side::Sell);
        }
        self.sell_orders[0]
    }

    pub open spec fn spec_has_buy(&self) -> bool {
        self.buy_count > 0
    }

    /// Whether a buy order rests in the book.
    #[verifier::when_used_as_spec(spec_has_buy)]
    pub fn has_buy(&self) -> (b: bool)
        ensures
            b == (self.buy_count > 0),
    {
        self.buy_count > 0
    }

    pub open spec fn spec_has_sell(&self) -> bool {
        self.sell_count > 0
    }

    /// Whether a sell order rests in the book.
    #[verifier::when_used_as_spec(spec_has_sell)]
    pub fn has_sell(&self) -> (b: bool)
        ensures
            b == (self.sell_count > 0),
    {
        self.sell_count > 0
    }
}

} // verus!
