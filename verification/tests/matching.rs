use matching_engine::book::OrderBook;
use matching_engine::matching::{init_order_book, match_orders, submit_order};
use matching_engine::order::{MatchResult, MatchedOrder, Order, SensitiveOrderData};

fn buy(order_id: u64, price: u64, amount: u64, timestamp: u64) -> Order {
    Order { order_id, amount, price, order_type: 0, timestamp }
}

fn sell(order_id: u64, price: u64, amount: u64, timestamp: u64) -> Order {
    Order { order_id, amount, price, order_type: 1, timestamp }
}

fn book_of(buys: &[Order], sells: &[Order]) -> OrderBook {
    let mut book = OrderBook::new();
    for o in buys {
        assert!(book.insert_buy(*o));
    }
    for o in sells {
        assert!(book.insert_sell(*o));
    }
    book
}

#[test]
fn init_order_book_is_a_new_book() {
    assert_eq!(init_order_book(), OrderBook::new());
}

#[test]
fn end_to_end_partial_fill() {
    let book = book_of(&[buy(1, 105, 10, 1)], &[sell(2, 100, 4, 2)]);
    let (result, after) = match_orders(book);
    assert_eq!(result.num_matches, 1);
    assert_eq!(result.matches[0], MatchedOrder { match_id: 0, quantity: 4, execution_price: 102 });
    assert_eq!(result.matches[1], MatchedOrder::empty());
    assert_eq!(result.matches[2], MatchedOrder::empty());
    assert_eq!(after.buy_count, 1);
    assert_eq!(after.buy_orders[0], buy(1, 105, 6, 1));
    assert_eq!(after.sell_count, 0);
    assert!(!after.has_sell());
}

#[test]
fn uncrossed_book_is_left_alone() {
    let book = book_of(&[buy(1, 99, 10, 1), buy(2, 98, 5, 2)], &[sell(3, 100, 4, 3)]);
    let (result, after) = match_orders(book);
    assert_eq!(result, MatchResult::empty());
    assert_eq!(after, book);
    let (again, after_again) = match_orders(after);
    assert_eq!(again, MatchResult::empty());
    assert_eq!(after_again, book);
}

#[test]
fn one_sided_and_empty_books_make_no_fill() {
    let empty = OrderBook::new();
    assert_eq!(match_orders(empty), (MatchResult::empty(), empty));
    let only_buys = book_of(&[buy(1, 99, 10, 1)], &[]);
    assert_eq!(match_orders(only_buys), (MatchResult::empty(), only_buys));
    let only_sells = book_of(&[], &[sell(1, 1, 10, 1)]);
    assert_eq!(match_orders(only_sells), (MatchResult::empty(), only_sells));
}

#[test]
fn equal_prices_cross() {
    let book = book_of(&[buy(1, 100, 5, 1)], &[sell(2, 100, 5, 2)]);
    let (result, after) = match_orders(book);
    assert_eq!(result.num_matches, 1);
    assert_eq!(result.matches[0], MatchedOrder { match_id: 0, quantity: 5, execution_price: 100 });
    assert_eq!(after.buy_count, 0);
    assert_eq!(after.sell_count, 0);
}

#[test]
fn a_pass_stops_at_three_fills() {
    let buys: Vec<Order> = (0..5).map(|i| buy(i, 200 + i, 1, i)).collect();
    let sells: Vec<Order> = (0..5).map(|i| sell(10 + i, 100 + i, 1, 10 + i)).collect();
    let book = book_of(&buys, &sells);
    let (result, after) = match_orders(book);
    assert_eq!(result.num_matches, 3);
    assert_eq!(
        result.matches,
        [
            MatchedOrder { match_id: 0, quantity: 1, execution_price: 152 },
            MatchedOrder { match_id: 1, quantity: 1, execution_price: 152 },
            MatchedOrder { match_id: 2, quantity: 1, execution_price: 152 },
        ]
    );
    assert_eq!(after.buy_count, 2);
    assert_eq!(after.sell_count, 2);
    let (next, rest) = match_orders(after);
    assert_eq!(next.num_matches, 2);
    assert_eq!(next.matches[0], MatchedOrder { match_id: 0, quantity: 1, execution_price: 152 });
    assert_eq!(next.matches[1], MatchedOrder { match_id: 1, quantity: 1, execution_price: 152 });
    assert_eq!(next.matches[2], MatchedOrder::empty());
    assert_eq!(rest.buy_count, 0);
    assert_eq!(rest.sell_count, 0);
}

#[test]
fn a_large_buyer_sweeps_several_sellers() {
    let book = book_of(
        &[buy(1, 110, 10, 1)],
        &[sell(2, 100, 3, 2), sell(3, 105, 4, 3), sell(4, 108, 5, 4)],
    );
    let (result, after) = match_orders(book);
    assert_eq!(result.num_matches, 3);
    assert_eq!(
        result.matches,
        [
            MatchedOrder { match_id: 0, quantity: 3, execution_price: 105 },
            MatchedOrder { match_id: 1, quantity: 4, execution_price: 107 },
            MatchedOrder { match_id: 2, quantity: 3, execution_price: 109 },
        ]
    );
    assert_eq!(after.buy_count, 0);
    assert_eq!(after.sell_count, 1);
    assert_eq!(after.sell_orders[0], sell(4, 108, 2, 4));
}

#[test]
fn a_residual_keeps_its_place_in_the_queue() {
    // the partly filled buyer keeps timestamp 1 and stays ahead of the later
    // order at the same price
    let book = book_of(&[buy(1, 100, 5, 1), buy(2, 100, 5, 2)], &[sell(3, 90, 2, 3), sell(4, 95, 1, 4)]);
    let (result, mut after) = match_orders(book);
    assert_eq!(result.num_matches, 2);
    assert_eq!(result.matches[0], MatchedOrder { match_id: 0, quantity: 2, execution_price: 95 });
    assert_eq!(result.matches[1], MatchedOrder { match_id: 1, quantity: 1, execution_price: 97 });
    assert_eq!(after.buy_count, 2);
    assert_eq!(after.pop_buy(), buy(1, 100, 2, 1));
    assert_eq!(after.pop_buy(), buy(2, 100, 5, 2));
    assert_eq!(after.sell_count, 0);
}

#[test]
fn a_pass_stops_when_the_top_no_longer_crosses() {
    let book = book_of(&[buy(1, 100, 5, 1), buy(2, 90, 5, 2)], &[sell(3, 95, 5, 3), sell(4, 96, 5, 4)]);
    let (result, after) = match_orders(book);
    assert_eq!(result.num_matches, 1);
    assert_eq!(result.matches[0], MatchedOrder { match_id: 0, quantity: 5, execution_price: 97 });
    assert_eq!(result.matches[1], MatchedOrder::empty());
    assert_eq!(after.buy_count, 1);
    assert_eq!(after.peek_buy(), buy(2, 90, 5, 2));
    assert_eq!(after.sell_count, 1);
    assert_eq!(after.peek_sell(), sell(4, 96, 5, 4));
}

#[test]
fn fills_take_the_same_quantity_from_both_orders() {
    let buyer = buy(1, 50, 9, 1);
    let seller = sell(2, 40, 13, 2);
    let (result, after) = match_orders(book_of(&[buyer], &[seller]));
    let fill = result.matches[0];
    assert_eq!(fill.quantity, 9);
    assert!(fill.quantity <= buyer.amount && fill.quantity <= seller.amount);
    assert_eq!(after.buy_count, 0);
    assert_eq!(after.sell_count, 1);
    let rest = after.sell_orders[0];
    assert_eq!(rest.amount, seller.amount - fill.quantity);
    assert_eq!((rest.order_id, rest.price, rest.timestamp, rest.order_type), (2, 40, 2, 1));
}

#[test]
fn the_midpoint_rounds_down_and_does_not_overflow() {
    let (result, _) = match_orders(book_of(&[buy(1, 8, 1, 1)], &[sell(2, 5, 1, 2)]));
    assert_eq!(result.matches[0].execution_price, 6);
    let (result, _) = match_orders(book_of(&[buy(1, u64::MAX, 1, 1)], &[sell(2, u64::MAX, 1, 2)]));
    assert_eq!(result.matches[0].execution_price, u64::MAX);
    let (result, _) =
        match_orders(book_of(&[buy(1, u64::MAX, 1, 1)], &[sell(2, u64::MAX - 1, 1, 2)]));
    assert_eq!(result.matches[0].execution_price, u64::MAX - 1);
}

#[test]
fn a_full_book_takes_back_its_residuals() {
    let buys: Vec<Order> = (0..5).map(|i| buy(i, 100, 10, i)).collect();
    let sells: Vec<Order> = (0..5).map(|i| sell(10 + i, 100, 4, 10 + i)).collect();
    let book = book_of(&buys, &sells);
    let (result, after) = match_orders(book);
    assert_eq!(result.num_matches, 3);
    // buyer 0 is filled 4 + 4 + 2 and leaves, seller 12 keeps 2
    assert_eq!(result.matches.map(|m| m.quantity), [4, 4, 2]);
    assert_eq!(after.buy_count, 4);
    assert_eq!(after.sell_count, 3);
    assert_eq!(after.peek_buy(), buy(1, 100, 10, 1));
    assert_eq!(after.peek_sell(), sell(12, 100, 2, 12));
}

#[test]
fn two_passes_over_the_same_book_agree() {
    let book = book_of(
        &[buy(1, 110, 10, 1), buy(2, 110, 3, 1), buy(3, 90, 1, 0)],
        &[sell(4, 100, 3, 2), sell(5, 100, 4, 2), sell(6, 120, 5, 4)],
    );
    let copy = book;
    assert_eq!(match_orders(book), match_orders(copy));
}

#[test]
fn submit_routes_by_order_type() {
    let book = init_order_book();
    let (book, ok, buys, sells) =
        submit_order(SensitiveOrderData { amount: 10, price: 105 }, book, 1, 0, 1);
    assert!(ok);
    assert_eq!((buys, sells), (1, 0));
    assert_eq!(book.buy_orders[0], buy(1, 105, 10, 1));
    let (book, ok, buys, sells) =
        submit_order(SensitiveOrderData { amount: 4, price: 100 }, book, 2, 1, 2);
    assert!(ok);
    assert_eq!((buys, sells), (1, 1));
    assert_eq!(book.sell_orders[0], sell(2, 100, 4, 2));
    // a type that is neither buy nor sell goes to neither side
    let (after, ok, buys, sells) =
        submit_order(SensitiveOrderData { amount: 1, price: 90 }, book, 3, 7, 3);
    assert!(!ok);
    assert_eq!((buys, sells), (1, 1));
    assert_eq!(after, book);
}

#[test]
fn an_order_of_unknown_type_is_rejected() {
    let empty = init_order_book();
    let book = book_of(&[buy(1, 100, 5, 1)], &[sell(2, 110, 5, 2)]);
    for order_type in [2u8, 3, 7, 128, 255] {
        for start in [empty, book] {
            let (after, ok, buys, sells) = submit_order(
                SensitiveOrderData { amount: 1, price: 90 },
                start,
                3,
                order_type,
                3,
            );
            assert!(!ok);
            assert_eq!((buys, sells), (start.buy_count, start.sell_count));
            assert_eq!(after, start);
        }
    }
}

#[test]
fn every_order_rests_on_its_own_side() {
    let mut book = init_order_book();
    for i in 0..12u64 {
        let order_type = (i % 3) as u8;
        book = submit_order(
            SensitiveOrderData { amount: 1 + i % 4, price: 95 + i },
            book,
            i,
            order_type,
            i,
        )
        .0;
        if i % 4 == 3 {
            book = match_orders(book).1;
        }
        for k in 0..book.buy_count as usize {
            assert!(book.buy_orders[k].is_buy());
        }
        for k in 0..book.sell_count as usize {
            assert!(book.sell_orders[k].is_sell());
        }
    }
}

#[test]
fn submit_to_a_full_side_is_rejected() {
    let mut book = init_order_book();
    for i in 0..5u64 {
        let (next, ok, buys, sells) =
            submit_order(SensitiveOrderData { amount: 1, price: 10 + i }, book, i, 0, i);
        assert!(ok);
        assert_eq!((buys as u64, sells), (i + 1, 0));
        book = next;
    }
    let (after, ok, buys, sells) =
        submit_order(SensitiveOrderData { amount: 1, price: 1000 }, book, 5, 0, 5);
    assert!(!ok);
    assert_eq!((buys, sells), (5, 0));
    assert_eq!(after, book);
    let (after, ok, buys, sells) =
        submit_order(SensitiveOrderData { amount: 1, price: 1000 }, book, 6, 1, 6);
    assert!(ok);
    assert_eq!((buys, sells), (5, 1));
    assert_eq!(after.buy_orders, book.buy_orders);
}

#[test]
fn submitted_orders_match_end_to_end() {
    let book = init_order_book();
    let (book, _, _, _) = submit_order(SensitiveOrderData { amount: 10, price: 105 }, book, 1, 0, 1);
    let (book, _, _, _) = submit_order(SensitiveOrderData { amount: 4, price: 100 }, book, 2, 1, 2);
    let (result, book) = match_orders(book);
    assert_eq!(result.num_matches, 1);
    assert_eq!(result.matches[0].quantity, 4);
    assert_eq!(result.matches[0].execution_price, 102);
    assert_eq!(book.peek_buy().amount, 6);
    assert!(!book.has_sell());
}

#[test]
fn an_order_without_quantity_is_rejected() {
    let book = book_of(&[buy(1, 100, 5, 1)], &[sell(2, 110, 5, 2)]);
    for order_type in [0u8, 1, 7] {
        let (after, ok, buys, sells) =
            submit_order(SensitiveOrderData { amount: 0, price: 105 }, book, 3, order_type, 3);
        assert!(!ok);
        assert_eq!((buys, sells), (1, 1));
        assert_eq!(after, book);
    }
    let empty = init_order_book();
    let (after, ok, buys, sells) =
        submit_order(SensitiveOrderData { amount: 0, price: u64::MAX }, empty, 1, 0, 1);
    assert!(!ok);
    assert_eq!((buys, sells), (0, 0));
    assert_eq!(after, empty);
    // the smallest quantity is taken
    let (after, ok, buys, sells) =
        submit_order(SensitiveOrderData { amount: 1, price: u64::MAX }, empty, 1, 0, 1);
    assert!(ok);
    assert_eq!((buys, sells), (1, 0));
    assert_eq!(after.peek_buy(), buy(1, u64::MAX, 1, 1));
}

#[test]
fn submitted_orders_never_lead_to_an_empty_fill() {
    let mut book = init_order_book();
    let amounts = [0u64, 3, 0, 2, 0, 1];
    for (i, amount) in amounts.iter().enumerate() {
        let id = i as u64;
        book = submit_order(SensitiveOrderData { amount: *amount, price: 100 }, book, id, 0, id).0;
        book =
            submit_order(SensitiveOrderData { amount: *amount, price: 90 }, book, 10 + id, 1, id).0;
    }
    assert_eq!((book.buy_count, book.sell_count), (3, 3));
    let (result, after) = match_orders(book);
    assert_eq!(result.num_matches, 3);
    assert_eq!(result.matches.map(|m| m.quantity), [3, 2, 1]);
    assert!(!after.has_buy() && !after.has_sell());
}
