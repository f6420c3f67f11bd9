use matching_engine::book::OrderBook;
use matching_engine::order::{MatchResult, MatchedOrder, Order, MAX_MATCHES_PER_BATCH, MAX_ORDERS};

fn buy(order_id: u64, price: u64, amount: u64, timestamp: u64) -> Order {
    Order { order_id, amount, price, order_type: 0, timestamp }
}

fn sell(order_id: u64, price: u64, amount: u64, timestamp: u64) -> Order {
    Order { order_id, amount, price, order_type: 1, timestamp }
}

#[test]
fn capacities_are_five_orders_and_three_matches() {
    assert_eq!(MAX_ORDERS, 5);
    assert_eq!(MAX_MATCHES_PER_BATCH, 3);
}

#[test]
fn empty_order_is_all_zero() {
    let order = Order::empty();
    assert_eq!(order, Order { order_id: 0, amount: 0, price: 0, order_type: 0, timestamp: 0 });
    assert_eq!(
        MatchedOrder::empty(),
        MatchedOrder { match_id: 0, quantity: 0, execution_price: 0 }
    );
}

#[test]
fn order_side_predicates() {
    assert!(buy(1, 10, 1, 0).is_buy());
    assert!(!buy(1, 10, 1, 0).is_sell());
    assert!(sell(1, 10, 1, 0).is_sell());
    assert!(!sell(1, 10, 1, 0).is_buy());
    let neither = Order { order_id: 1, amount: 1, price: 1, order_type: 2, timestamp: 0 };
    assert!(!neither.is_buy());
    assert!(!neither.is_sell());
}

#[test]
fn new_book_is_empty_and_zeroed() {
    let book = OrderBook::new();
    assert_eq!(book.buy_count, 0);
    assert_eq!(book.sell_count, 0);
    assert!(!book.has_buy());
    assert!(!book.has_sell());
    assert_eq!(book.buy_orders, [Order::empty(); MAX_ORDERS]);
    assert_eq!(book.sell_orders, [Order::empty(); MAX_ORDERS]);
}

#[test]
fn buy_side_pops_by_price_then_time() {
    let mut book = OrderBook::new();
    let a = buy(1, 100, 1, 1);
    let b = buy(2, 105, 1, 2);
    let c = buy(3, 105, 1, 0);
    assert!(book.insert_buy(a));
    assert!(book.insert_buy(b));
    assert!(book.insert_buy(c));
    assert_eq!(book.buy_count, 3);
    assert_eq!(book.pop_buy(), c);
    assert_eq!(book.pop_buy(), b);
    assert_eq!(book.pop_buy(), a);
    assert!(!book.has_buy());
}

#[test]
fn sell_side_pops_by_price_then_time() {
    let mut book = OrderBook::new();
    let a = sell(1, 105, 1, 1);
    let b = sell(2, 100, 1, 2);
    let c = sell(3, 100, 1, 0);
    let d = sell(4, 101, 1, 3);
    assert!(book.insert_sell(a));
    assert!(book.insert_sell(b));
    assert!(book.insert_sell(c));
    assert!(book.insert_sell(d));
    assert_eq!(book.pop_sell(), c);
    assert_eq!(book.pop_sell(), b);
    assert_eq!(book.pop_sell(), d);
    assert_eq!(book.pop_sell(), a);
    assert!(!book.has_sell());
}

#[test]
fn insert_walks_the_new_order_up() {
    let mut book = OrderBook::new();
    let a = buy(1, 100, 1, 1);
    let b = buy(2, 105, 1, 2);
    let c = buy(3, 105, 1, 0);
    book.insert_buy(a);
    assert_eq!(book.buy_orders[0], a);
    book.insert_buy(b);
    assert_eq!(book.buy_orders[0], b);
    assert_eq!(book.buy_orders[1], a);
    book.insert_buy(c);
    assert_eq!(book.buy_orders[0], c);
    assert_eq!(book.buy_orders[1], a);
    assert_eq!(book.buy_orders[2], b);
    assert_eq!(book.buy_orders[3], Order::empty());
    assert_eq!(book.sell_count, 0);
}

#[test]
fn insert_stops_at_an_equal_parent() {
    let mut book = OrderBook::new();
    let first = buy(1, 100, 1, 7);
    let second = buy(2, 100, 2, 7);
    book.insert_buy(first);
    book.insert_buy(second);
    assert_eq!(book.buy_orders[0], first);
    assert_eq!(book.buy_orders[1], second);
    assert_eq!(book.pop_buy(), first);
    assert_eq!(book.pop_buy(), second);
}

#[test]
fn pop_moves_the_last_order_to_the_root_and_walks_it_down() {
    let mut book = OrderBook::new();
    for (i, price) in [50u64, 40, 45, 10, 30].iter().enumerate() {
        assert!(book.insert_buy(buy(i as u64, *price, 1, i as u64)));
    }
    // heap layout: 50, 40, 45, 10, 30
    assert_eq!(book.buy_orders.map(|o| o.price), [50, 40, 45, 10, 30]);
    assert_eq!(book.pop_buy().price, 50);
    // 30 goes to the root, then down below 45
    assert_eq!(book.buy_count, 4);
    assert_eq!(book.buy_orders.map(|o| o.price), [45, 40, 30, 10, 30]);
    assert_eq!(book.pop_buy().price, 45);
    assert_eq!(book.buy_orders.map(|o| o.price), [40, 10, 30, 10, 30]);
    assert_eq!(book.pop_buy().price, 40);
    assert_eq!(book.pop_buy().price, 30);
    assert_eq!(book.pop_buy().price, 10);
    assert_eq!(book.buy_count, 0);
}

#[test]
fn heap_invariant_holds_after_mixed_inserts_and_pops() {
    let mut book = OrderBook::new();
    let prices = [7u64, 3, 9, 1, 5, 8, 2, 6, 4, 10, 11, 0];
    let mut ts = 0u64;
    for (round, price) in prices.iter().enumerate() {
        if !book.insert_sell(sell(round as u64, *price, 1, ts)) {
            book.pop_sell();
            assert!(book.insert_sell(sell(round as u64, *price, 1, ts)));
        }
        ts += 1;
        if round % 3 == 2 {
            book.pop_sell();
        }
        for i in 1..book.sell_count as usize {
            let child = book.sell_orders[i];
            let parent = book.sell_orders[(i - 1) / 2];
            let child_better = child.price < parent.price
                || (child.price == parent.price && child.timestamp < parent.timestamp);
            assert!(!child_better);
        }
    }
}

#[test]
fn full_side_rejects_and_keeps_the_book() {
    let mut book = OrderBook::new();
    for i in 0..5u64 {
        assert!(book.insert_buy(buy(i, 100 + i, 1, i)));
    }
    assert!(book.insert_sell(sell(9, 500, 1, 9)));
    let before = book;
    assert!(!book.insert_buy(buy(5, 1000, 1, 5)));
    assert_eq!(book, before);
    assert_eq!(book.buy_count, 5);
    for i in 0..5u64 {
        assert!(book.insert_sell(sell(10 + i, 600 + i, 1, 10 + i)) == (i < 4));
    }
    assert_eq!(book.sell_count, 5);
    let before = book;
    assert!(!book.insert_sell(sell(20, 1, 1, 20)));
    assert_eq!(book, before);
}

#[test]
fn the_two_sides_do_not_touch_each_other() {
    let mut book = OrderBook::new();
    book.insert_buy(buy(1, 10, 1, 1));
    let sells = book.sell_orders;
    assert_eq!(book.sell_count, 0);
    book.insert_sell(sell(2, 20, 1, 2));
    book.insert_buy(buy(3, 30, 1, 3));
    assert_eq!(book.sell_count, 1);
    assert_eq!(book.sell_orders[0], sell(2, 20, 1, 2));
    assert_eq!(book.sell_orders[1..], sells[1..]);
    let buys = (book.buy_orders, book.buy_count);
    assert_eq!(book.pop_sell(), sell(2, 20, 1, 2));
    assert_eq!((book.buy_orders, book.buy_count), buys);
}

#[test]
fn peek_returns_the_root_without_change() {
    let mut book = OrderBook::new();
    book.insert_buy(buy(1, 10, 1, 1));
    book.insert_buy(buy(2, 12, 1, 2));
    book.insert_sell(sell(3, 20, 1, 3));
    book.insert_sell(sell(4, 15, 1, 4));
    let before = book;
    assert_eq!(book.peek_buy(), buy(2, 12, 1, 2));
    assert_eq!(book.peek_sell(), sell(4, 15, 1, 4));
    assert_eq!(book, before);
    assert!(book.has_buy());
    assert!(book.has_sell());
}

#[test]
fn pop_of_the_only_order_empties_the_side() {
    let mut book = OrderBook::new();
    book.insert_sell(sell(1, 10, 3, 1));
    assert_eq!(book.pop_sell(), sell(1, 10, 3, 1));
    assert_eq!(book.sell_count, 0);
    assert!(!book.has_sell());
    assert!(book.insert_sell(sell(2, 11, 3, 2)));
    assert_eq!(book.peek_sell(), sell(2, 11, 3, 2));
}

#[test]
fn empty_match_result_is_padding_only() {
    let result = MatchResult::empty();
    assert_eq!(result.num_matches, 0);
    assert_eq!(result.matches, [MatchedOrder::empty(); MAX_MATCHES_PER_BATCH]);
}

#[test]
fn set_match_writes_one_slot() {
    let mut result = MatchResult::empty();
    let m = MatchedOrder { match_id: 7, quantity: 8, execution_price: 9 };
    result.set_match(1, m);
    assert_eq!(result.matches, [MatchedOrder::empty(), m, MatchedOrder::empty()]);
    assert_eq!(result.num_matches, 0);
    result.set_match(0, m);
    result.set_match(2, m);
    assert_eq!(result.matches, [m, m, m]);
}

#[test]
fn set_match_ignores_an_index_beyond_the_batch() {
    let mut result = MatchResult::empty();
    let m = MatchedOrder { match_id: 7, quantity: 8, execution_price: 9 };
    result.set_match(3, m);
    result.set_match(255, m);
    assert_eq!(result, MatchResult::empty());
}

#[test]
fn validity_check_accepts_built_books_and_rejects_broken_ones() {
    let mut book = OrderBook::new();
    assert!(book.is_valid());
    for (i, price) in [50u64, 40, 45, 10, 30].iter().enumerate() {
        book.insert_buy(buy(i as u64, *price, 1, i as u64));
        book.insert_sell(sell(i as u64, *price, 1, i as u64));
        assert!(book.is_valid());
    }
    book.pop_buy();
    book.pop_sell();
    assert!(book.is_valid());

    let mut too_many = book;
    too_many.buy_count = 6;
    assert!(!too_many.is_valid());
    let mut too_many = book;
    too_many.sell_count = 255;
    assert!(!too_many.is_valid());

    // a child better than its parent
    let mut unordered = book;
    unordered.buy_orders[3].price = 1_000;
    assert!(!unordered.is_valid());
    let mut unordered = book;
    unordered.sell_orders[1].price = 0;
    assert!(!unordered.is_valid());

    // a stale slot does not matter
    let mut stale = book;
    stale.buy_orders[4].price = 1_000;
    stale.sell_orders[4].price = 0;
    assert!(stale.is_valid());
}
