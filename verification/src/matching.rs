//! The matching pass and the two entry points of the engine: submitting an
//! order and running one pass over the book.
//!
//! A pass is a bounded sequence of fills.  Each fill takes the best bid and
//! the best ask, trades the smaller of their amounts at the midpoint of
//! their prices, and puts back whatever is left of either order with its
//! price and timestamp untouched.

use vstd::prelude::*;
use crate::book::{BookView, OrderBook};
use crate::heap::{lemma_insert, lemma_pop, Heap};
use crate::order::{
    MatchResult, MatchedOrder, Order, SensitiveOrderData, Side, MAX_MATCHES_PER_BATCH, MAX_ORDERS,
};

verus! {

/// Whether the best bid meets the best ask.
pub open spec fn crosses(book: BookView) -> bool {
    &&& book.buys.len > 0
    &&& book.sells.len > 0
    &&& book.buys.top().price >= book.sells.top().price
}

/// The quantity that a buyer and a seller trade: the smaller amount.
pub open spec fn fill_quantity(buyer: Order, seller: Order) -> u64 {
    if buyer.amount < seller.amount {
        buyer.amount
    } else {
        seller.amount
    }
}

/// The price of a fill: the midpoint of the two limit prices, rounded down.
/// Neither order's own price is used; both sides settle at the midpoint.
pub open spec fn execution_price(buyer: Order, seller: Order) -> u64 {
    ((buyer.price + seller.price) / 2) as u64
}

/// `order` after `quantity` of it was filled.
pub open spec fn residual(order: Order, quantity: u64) -> Order {
    Order { amount: (order.amount - quantity) as u64, ..order }
}

/// One side after its best order traded `quantity`: the order leaves the
/// heap and, if anything of it is left, comes back with the reduced amount.
pub open spec fn side_after_fill(heap: Heap, quantity: u64, side: Side) -> Heap {
    if heap.top().amount > quantity {
        heap.pop(side).insert(residual(heap.top(), quantity), side)
    } else {
        heap.pop(side)
    }
}

/// The fill that a crossing book produces next, numbered `match_id`.
pub open spec fn next_fill(book: BookView, match_id: u64) -> MatchedOrder {
    MatchedOrder {
        match_id,
        quantity: fill_quantity(book.buys.top(), book.sells.top()),
        execution_price: execution_price(book.buys.top(), book.sells.top()),
    }
}

/// The book after its next fill.
pub open spec fn book_after_fill(book: BookView) -> BookView {
    let quantity = fill_quantity(book.buys.top(), book.sells.top());
    BookView {
        buys: side_after_fill(book.buys, quantity, Side::Buy),
        sells: side_after_fill(book.sells, quantity, Side::Sell),
    }
}

/// The book after `k` consecutive fills.
pub open spec fn book_after(book: BookView, k: nat) -> BookView
    decreases k,
{
    if k == 0 {
        book
    } else {
        book_after_fill(book_after(book, (k - 1) as nat))
    }
}

/// Number of fills of a pass that may make at most `cap` of them: the pass
/// goes on while the book crosses.
pub open spec fn fills_in_pass(book: BookView, cap: nat) -> nat
    decreases cap,
{
    if cap == 0 || !crosses(book) {
        0
    } else {
        1 + fills_in_pass(book_after_fill(book), (cap - 1) as nat)
    }
}

/// The fills of a pass over `book`, in order.
pub open spec fn pass_fills(book: BookView) -> Seq<MatchedOrder> {
    Seq::new(
        fills_in_pass(book, MAX_MATCHES_PER_BATCH as nat),
        |k: int| next_fill(book_after(book, k as nat), k as u64),
    )
}

/// The book that a pass over `book` leaves.
pub open spec fn pass_book(book: BookView) -> BookView {
    book_after(book, fills_in_pass(book, MAX_MATCHES_PER_BATCH as nat))
}

/// What a matching pass over `book` returns: as many fills as the pass
/// makes, each the next fill of the book that the earlier ones left, padding
/// behind them, and the book after the last fill.
pub open spec fn is_pass_outcome(book: OrderBook, result: MatchResult, after: OrderBook) -> bool {
    &&& result.num_matches == fills_in_pass(book@, MAX_MATCHES_PER_BATCH as nat)
    &&& forall|k: int|
        0 <= k < result.num_matches ==> result.matches[k] == next_fill(
            book_after(book@, k as nat),
            k as u64,
        )
    &&& forall|k: int|
        result.num_matches <= k < MAX_MATCHES_PER_BATCH ==> result.matches[k]
            == MatchedOrder::empty()
    &&& after@ == pass_book(book@)
}

/// A fill takes the traded quantity off its order and nothing else: the
/// order keeps its identity, price and timestamp.  On a valid side the order
/// leaves the heap, and comes back exactly when something of it is left;
/// putting it back never fails for want of room.
pub proof fn lemma_side_after_fill(heap: Heap, quantity: u64, side: Side)
    requires
        heap.wf(side),
        heap.len > 0,
        quantity <= heap.top().amount,
    ensures
        residual(heap.top(), quantity).amount == heap.top().amount - quantity,
        residual(heap.top(), quantity).order_id == heap.top().order_id,
        residual(heap.top(), quantity).price == heap.top().price,
        residual(heap.top(), quantity).timestamp == heap.top().timestamp,
        residual(heap.top(), quantity).order_type == heap.top().order_type,
        side_after_fill(heap, quantity, side).wf(side),
        side_after_fill(heap, quantity, side).slots.len() == heap.slots.len(),
        heap.top().amount > quantity ==> {
            &&& side_after_fill(heap, quantity, side).len == heap.len
            &&& side_after_fill(heap, quantity, side).orders() == heap.orders().remove(
                heap.top(),
            ).insert(residual(heap.top(), quantity))
        },
        heap.top().amount == quantity ==> {
            &&& side_after_fill(heap, quantity, side).len == heap.len - 1
            &&& side_after_fill(heap, quantity, side).orders() == heap.orders().remove(heap.top())
        },
        heap.no_empty_order() ==> side_after_fill(heap, quantity, side).no_empty_order(),
        heap.all_on_side(side) ==> side_after_fill(heap, quantity, side).all_on_side(side),
{
    lemma_pop(heap, side);
    lemma_insert(heap.pop(side), residual(heap.top(), quantity), side);
    assert(heap.pop(side).orders() =~= heap.orders().remove(heap.top()));
}

/// Conservation: a fill trades the smaller of the two amounts, which uses
/// up at least one of the two orders, and each side loses exactly that
/// quantity from its best order and nothing from any other.
pub proof fn lemma_fill_conserves(book: BookView)
    requires
        book.wf(),
        crosses(book),
    ensures
        ({
            let buyer = book.buys.top();
            let seller = book.sells.top();
            let quantity = fill_quantity(buyer, seller);
            let after = book_after_fill(book);
            &&& quantity <= buyer.amount
            &&& quantity <= seller.amount
            &&& quantity == buyer.amount || quantity == seller.amount
            &&& after.wf()
            &&& after.buys.slots.len() == book.buys.slots.len()
            &&& after.sells.slots.len() == book.sells.slots.len()
            &&& after.buys.orders() == if buyer.amount > quantity {
                book.buys.orders().remove(buyer).insert(residual(buyer, quantity))
            } else {
                book.buys.orders().remove(buyer)
            }
            &&& after.sells.orders() == if seller.amount > quantity {
                book.sells.orders().remove(seller).insert(residual(seller, quantity))
            } else {
                book.sells.orders().remove(seller)
            }
            &&& book.no_empty_order() ==> after.no_empty_order() && quantity > 0
            &&& book.orders_on_own_side() ==> after.orders_on_own_side()
        }),
{
    let quantity = fill_quantity(book.buys.top(), book.sells.top());
    lemma_side_after_fill(book.buys, quantity, Side::Buy);
    lemma_side_after_fill(book.sells, quantity, Side::Sell);
    lemma_pop(book.buys, Side::Buy);
    lemma_pop(book.sells, Side::Sell);
}

/// The price of a fill lies between the two limit prices: the seller gets
/// at least the price asked and the buyer pays at most the price bid.
pub proof fn lemma_fill_price_is_between(book: BookView, match_id: u64)
    requires
        crosses(book),
    ensures
        book.sells.top().price <= next_fill(book, match_id).execution_price,
        next_fill(book, match_id).execution_price <= book.buys.top().price,
{
}

/// Making one fill and then `k` more is making `k + 1` fills.
pub proof fn lemma_book_after_shift(book: BookView, k: nat)
    ensures
        book_after(book_after_fill(book), k) == book_after(book, k + 1),
    decreases k,
{
    reveal_with_fuel(book_after, 2);
    if k > 0 {
        lemma_book_after_shift(book, (k - 1) as nat);
    }
}

/// Batch bound: a pass never makes more fills than its cap.
pub proof fn lemma_pass_is_bounded(book: BookView, cap: nat)
    ensures
        fills_in_pass(book, cap) <= cap,
    decreases cap,
{
    if cap > 0 && crosses(book) {
        lemma_pass_is_bounded(book_after_fill(book), (cap - 1) as nat);
    }
}

/// No spurious cross: every fill of a pass is made on a book whose best bid
/// meets its best ask.
pub proof fn lemma_pass_fills_only_crossing(book: BookView, cap: nat, k: nat)
    requires
        k < fills_in_pass(book, cap),
    ensures
        crosses(book_after(book, k)),
    decreases cap,
{
    if k > 0 {
        lemma_pass_fills_only_crossing(book_after_fill(book), (cap - 1) as nat, (k - 1) as nat);
        lemma_book_after_shift(book, (k - 1) as nat);
    }
}

/// A pass that stops short of its cap leaves a book that does not cross.
pub proof fn lemma_pass_stops_uncrossed(book: BookView, cap: nat)
    requires
        fills_in_pass(book, cap) < cap,
    ensures
        !crosses(book_after(book, fills_in_pass(book, cap))),
    decreases cap,
{
    if cap > 0 && crosses(book) {
        lemma_pass_stops_uncrossed(book_after_fill(book), (cap - 1) as nat);
        lemma_book_after_shift(book, fills_in_pass(book_after_fill(book), (cap - 1) as nat));
    }
}

/// The heap invariant holds after every fill of a pass, no side grows, a
/// book without zero-amount orders stays without them, and every order stays
/// on the side that it declares.
pub proof fn lemma_pass_keeps_book_valid(book: BookView, cap: nat, k: nat)
    requires
        book.wf(),
        k <= fills_in_pass(book, cap),
    ensures
        book_after(book, k).wf(),
        book_after(book, k).buys.slots.len() == book.buys.slots.len(),
        book_after(book, k).sells.slots.len() == book.sells.slots.len(),
        book_after(book, k).buys.len <= book.buys.len,
        book_after(book, k).sells.len <= book.sells.len,
        book.no_empty_order() ==> book_after(book, k).no_empty_order(),
        book.orders_on_own_side() ==> book_after(book, k).orders_on_own_side(),
    decreases k,
{
    if k > 0 {
        let previous = book_after(book, (k - 1) as nat);
        lemma_pass_keeps_book_valid(book, cap, (k - 1) as nat);
        lemma_pass_fills_only_crossing(book, cap, (k - 1) as nat);
        lemma_fill_conserves(previous);
        let quantity = fill_quantity(previous.buys.top(), previous.sells.top());
        lemma_side_after_fill(previous.buys, quantity, Side::Buy);
        lemma_side_after_fill(previous.sells, quantity, Side::Sell);
    }
}

/// Idempotent no-op: a pass over a book that does not cross makes no fill
/// and returns the book as it was.
pub proof fn lemma_uncrossed_pass_is_noop(book: OrderBook, result: MatchResult, after: OrderBook)
    requires
        is_pass_outcome(book, result, after),
        !crosses(book@),
    ensures
        result.num_matches == 0,
        result@ == Seq::<MatchedOrder>::empty(),
        after == book,
{
    lemma_book_determined_by_view(book, after);
}

/// Determinism: the outcome of a pass is a function of the book.  Two
/// outcomes for the same book agree in every fill, every padding slot and
/// every slot of the returned book.
pub proof fn lemma_pass_is_deterministic(
    book: OrderBook,
    first_result: MatchResult,
    first_after: OrderBook,
    second_result: MatchResult,
    second_after: OrderBook,
)
    requires
        is_pass_outcome(book, first_result, first_after),
        is_pass_outcome(book, second_result, second_after),
    ensures
        first_result == second_result,
        first_after == second_after,
{
    lemma_book_determined_by_view(first_after, second_after);
    assert(first_result.matches =~= second_result.matches);
}

/// Two books with the same view are the same book, stale slots included.
pub proof fn lemma_book_determined_by_view(a: OrderBook, b: OrderBook)
    requires
        a@ == b@,
    ensures
        a == b,
{
    assert(a.buy_orders =~= b.buy_orders);
    assert(a.sell_orders =~= b.sell_orders);
}

/// A fresh, empty order book.
pub fn init_order_book() -> (order_book: OrderBook)
    ensures
        order_book.wf(),
        order_book.buy_count == 0,
        order_book.sell_count == 0,
        forall|i: int| 0 <= i < MAX_ORDERS ==> order_book.buy_orders[i] == Order::empty(),
        forall|i: int| 0 <= i < MAX_ORDERS ==> order_book.sell_orders[i] == Order::empty(),
        order_book.no_empty_order(),
        order_book.orders_on_own_side(),
{
    OrderBook::new()
}

/// The order that a submission describes: the confidential amount and
/// price together with the public id, type and timestamp.
pub open spec fn submitted_order(
    sensitive: SensitiveOrderData,
    order_id: u64,
    order_type: u8,
    timestamp: u64,
) -> Order {
    Order { order_id, amount: sensitive.amount, price: sensitive.price, order_type, timestamp }
}

/// Builds an order from its confidential and public parts and offers it to
/// the book: to the buy side when `order_type` is `0`, to the sell side when
/// it is `1`.
///
/// Returns the book, whether the order was accepted, and the two counts of
/// the returned book.  Three kinds of order are never accepted: one without
/// quantity, since no order with a zero amount may rest in the book; one
/// whose type is neither buy nor sell, since it belongs on neither side; and
/// one for a side that is full.  A rejected order leaves the book as it went
/// in.
pub fn submit_order(
    sensitive: SensitiveOrderData,
    order_book: OrderBook,
    order_id: u64,
    order_type: u8,
    timestamp: u64,
) -> (res: (OrderBook, bool, u8, u8))
    requires
        order_book.wf(),
    ensures
        res.0.wf(),
        sensitive.amount == 0 || order_type > 1 ==> !res.1,
        sensitive.amount > 0 && order_type == 0 ==> {
            &&& res.1 == !order_book@.buys.is_full()
            &&& res.0@.buys == order_book@.buys.insert(
                submitted_order(sensitive, order_id, order_type, timestamp),
                Side::Buy,
            )
            &&& res.0@.sells == order_book@.sells
        },
        sensitive.amount > 0 && order_type == 1 ==> {
            &&& res.1 == !order_book@.sells.is_full()
            &&& res.0@.sells == order_book@.sells.insert(
                submitted_order(sensitive, order_id, order_type, timestamp),
                Side::Sell,
            )
            &&& res.0@.buys == order_book@.buys
        },
        !res.1 ==> res.0 == order_book,
        res.2 == res.0.buy_count,
        res.3 == res.0.sell_count,
        order_book.no_empty_order() ==> res.0.no_empty_order(),
        order_book.orders_on_own_side() ==> res.0.orders_on_own_side(),
{
    let mut order_book = order_book;
    let order = Order {
        order_id,
        amount: sensitive.amount,
        price: sensitive.price,
        order_type,
        timestamp,
    };

    let success = if order.amount == 0 {
        false
    } else if order.is_buy() {
        order_book.insert_buy(order)
    } else if order.is_sell() {
        order_book.insert_sell(order)
    } else {
        false
    };

    let buy_count = order_book.buy_count;
    let sell_count = order_book.sell_count;

    (order_book, success, buy_count, sell_count)
}

/// Runs one matching pass over the book.
///
/// While the best bid meets the best ask, and at most
/// `MAX_MATCHES_PER_BATCH` times, the two best orders are taken out, a fill
/// is recorded for the smaller of their amounts at the midpoint price, and
/// each order that is not used up goes back into its side.  Returns the
/// fills and the book that is left.
pub fn match_orders(order_book: OrderBook) -> (res: (MatchResult, OrderBook))
    requires
        order_book.wf(),
    ensures
        is_pass_outcome(order_book, res.0, res.1),
        res.0@ == pass_fills(order_book@),
        res.0.num_matches <= MAX_MATCHES_PER_BATCH,
        !crosses(order_book@) ==> res.0.num_matches == 0 && res.1 == order_book,
        res.1.wf(),
        order_book.no_empty_order() ==> {
            &&& res.1.no_empty_order()
            &&& forall|k: int| 0 <= k < res.0.num_matches ==> res.0.matches[k].quantity > 0
        },
        order_book.orders_on_own_side() ==> res.1.orders_on_own_side(),
{
    let ghost start = order_book@;
    let ghost initial = order_book;
    let mut order_book = order_book;
    let mut result = MatchResult::empty();

    let mut match_count: u8 = 0;
    let mut next_match_id: u64 = 0;

    for match_idx in 0..MAX_MATCHES_PER_BATCH
        invariant
            order_book.wf(),
            match_count <= match_idx,
            next_match_id == match_count,
            match_count == match_idx || !crosses(order_book@),
            match_count + fills_in_pass(order_book@, (MAX_MATCHES_PER_BATCH - match_idx) as nat)
                == fills_in_pass(start, MAX_MATCHES_PER_BATCH as nat),
            order_book@ == book_after(start, match_count as nat),
            match_count == 0 ==> order_book == initial,
            initial.no_empty_order() ==> order_book.no_empty_order(),
            initial.orders_on_own_side() ==> order_book.orders_on_own_side(),
            initial.no_empty_order() ==> forall|k: int|
                0 <= k < match_count ==> result.matches[k].quantity > 0,
            result.num_matches == 0,
            forall|k: int|
                0 <= k < match_count ==> result.matches[k] == next_fill(
                    book_after(start, k as nat),
                    k as u64,
                ),
            forall|k: int|
                match_count <= k < MAX_MATCHES_PER_BATCH ==> result.matches[k]
                    == MatchedOrder::empty(),
    {
        if order_book.has_buy() && order_book.has_sell() {
            let buy = order_book.peek_buy();
            let sell = order_book.peek_sell();

            if buy.price >= sell.price {
                let ghost before = order_book@;
                proof {
                    lemma_pop(before.buys, Side::Buy);
                    lemma_pop(before.sells, Side::Sell);
                }
                let mut buyer = order_book.pop_buy();
                let mut seller = order_book.pop_sell();

                let execution_price = ((buyer.price as u128 + seller.price as u128) / 2) as u64;
                let fill_quantity = if buyer.amount < seller.amount {
                    buyer.amount
                } else {
                    seller.amount
                };

                result.set_match(
                    match_idx as u8,
                    MatchedOrder {
                        match_id: next_match_id,
                        quantity: fill_quantity,
                        execution_price,
                    },
                );

                buyer.amount = buyer.amount - fill_quantity;
                seller.amount = seller.amount - fill_quantity;

                if buyer.amount > 0 {
                    order_book.insert_buy(buyer);
                }
                if seller.amount > 0 {
                    order_book.insert_sell(seller);
                }
                assert(order_book@ == book_after_fill(before));

                match_count = match_idx as u8 + 1;
                next_match_id += 1;
            }
        }
    }

    result.num_matches = match_count;
    assert(result@ =~= pass_fills(start));

    (result, order_book)
}

} // verus!
