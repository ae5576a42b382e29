use quant_trading_system::events::{OrderBookDelta, OrderBookSnapshot, PriceLevelUpdate, PriceLevels};
use quant_trading_system::order_book::{OrderBookL2, ThreadSafeOrderBook};
use quant_trading_system::{
    Decimal, Price, Quantity, SequenceNumber, Side, Symbol, Timestamp, TradingError, UpdateAction,
};

fn d(text: &str) -> Decimal {
    Decimal::parse(text).unwrap()
}

fn levels(rows: &[(&str, &str)]) -> PriceLevels {
    let mut l = PriceLevels::new();
    for (p, q) in rows {
        l.insert(Price(d(p)), Quantity(d(q)));
    }
    l
}

fn shared_book(seq: u64, bids: &[(&str, &str)], asks: &[(&str, &str)]) -> ThreadSafeOrderBook {
    let order_book = ThreadSafeOrderBook::new(Symbol("ETHUSDC".to_string()));
    let snapshot = OrderBookSnapshot::with_levels(SequenceNumber(seq), Timestamp::now(), levels(bids), levels(asks));
    order_book.apply_snapshot(snapshot).unwrap();
    order_book
}

#[test]
fn order_book_test_order_book_snapshot_application() {
    let mut book = OrderBookL2::new(Symbol("ETHUSDC".to_string()));

    let mut snapshot = OrderBookSnapshot::new(SequenceNumber(1), Timestamp::now());
    snapshot.bids.insert(Price(d("100.0")), Quantity(d("10.0")));
    snapshot.bids.insert(Price(d("99.5")), Quantity(d("5.0")));
    snapshot.asks.insert(Price(d("100.5")), Quantity(d("8.0")));
    snapshot.asks.insert(Price(d("101.0")), Quantity(d("12.0")));

    book.apply_snapshot(snapshot).unwrap();

    assert_eq!(book.best_bid(), Some(Price(d("100.0"))));
    assert_eq!(book.best_ask(), Some(Price(d("100.5"))));
    assert_eq!(book.mid_price(), Some(Price(d("100.25"))));
}

#[test]
fn test_order_book_delta_application() {
    let mut book = OrderBookL2::new(Symbol("ETHUSDC".to_string()));

    let mut snapshot = OrderBookSnapshot::new(SequenceNumber(1), Timestamp::now());
    snapshot.bids.insert(Price(d("100.0")), Quantity(d("10.0")));
    book.apply_snapshot(snapshot).unwrap();

    let delta = OrderBookDelta::with_updates(
        SequenceNumber(2),
        Timestamp::now(),
        vec![PriceLevelUpdate::update(Side::Bid, Price(d("100.5")), Quantity(d("15.0")))],
    );

    book.apply_delta(delta).unwrap();

    assert_eq!(book.best_bid(), Some(Price(d("100.5"))));
    assert_eq!(book.quantity_at_price(Side::Bid, Price(d("100.5"))), Quantity(d("15.0")));
}

#[test]
fn test_idempotent_replay() {
    let mut book = OrderBookL2::new(Symbol("ETHUSDC".to_string()));

    let snapshot = OrderBookSnapshot::new(SequenceNumber(1), Timestamp::now());
    book.apply_snapshot(snapshot).unwrap();

    let delta = OrderBookDelta::with_updates(
        SequenceNumber(2),
        Timestamp::now(),
        vec![PriceLevelUpdate::update(Side::Bid, Price(d("100.0")), Quantity(d("10.0")))],
    );

    // Apply delta first time
    book.apply_delta(delta.clone()).unwrap();
    assert_eq!(book.quantity_at_price(Side::Bid, Price(d("100.0"))), Quantity(d("10.0")));

    // Apply same delta again - should be idempotent
    book.apply_delta(delta).unwrap();
    assert_eq!(book.quantity_at_price(Side::Bid, Price(d("100.0"))), Quantity(d("10.0")));
}

#[test]
fn test_sequence_validation() {
    let mut book = OrderBookL2::new(Symbol("ETHUSDC".to_string()));

    let snapshot = OrderBookSnapshot::new(SequenceNumber(1), Timestamp::now());
    book.apply_snapshot(snapshot).unwrap();

    // Should be 2
    let delta = OrderBookDelta::new(SequenceNumber(5), Timestamp::now());

    let result = book.apply_delta(delta);
    assert!(result.is_err());

    if let Err(TradingError::SequenceOutOfOrder { expected, actual }) = result {
        assert_eq!(expected, 2);
        assert_eq!(actual, 5);
    } else {
        panic!("Expected SequenceOutOfOrder error");
    }
}

#[test]
fn test_thread_safe_order_book() {
    let book = ThreadSafeOrderBook::new(Symbol("ETHUSDC".to_string()));

    let mut snapshot = OrderBookSnapshot::new(SequenceNumber(1), Timestamp::now());
    snapshot.bids.insert(Price(d("100.0")), Quantity(d("10.0")));
    book.apply_snapshot(snapshot).unwrap();

    // Reads through a second handle to the same book
    let book_clone = book.clone();
    for _ in 0..100 {
        let _ = book_clone.best_bid();
        let _ = book_clone.get_snapshot();
    }
    for _ in 0..100 {
        let _ = book.best_ask();
        let _ = book.mid_price();
    }

    assert_eq!(book.best_bid(), Some(Price(d("100.0"))));
}

#[test]
fn test_depth_calculation() {
    let mut book = OrderBookL2::new(Symbol("ETHUSDC".to_string()));

    let mut snapshot = OrderBookSnapshot::new(SequenceNumber(1), Timestamp::now());
    snapshot.bids.insert(Price(d("100.0")), Quantity(d("10.0")));
    snapshot.bids.insert(Price(d("99.5")), Quantity(d("5.0")));
    snapshot.bids.insert(Price(d("99.0")), Quantity(d("8.0")));

    snapshot.asks.insert(Price(d("100.5")), Quantity(d("12.0")));
    snapshot.asks.insert(Price(d("101.0")), Quantity(d("7.0")));

    book.apply_snapshot(snapshot).unwrap();

    let bid_depth = book.depth_to_price(Side::Bid, Price(d("99.5")));
    assert_eq!(bid_depth, Quantity(d("15.0"))); // 10.0 + 5.0

    let ask_depth = book.depth_to_price(Side::Ask, Price(d("101.0")));
    assert_eq!(ask_depth, Quantity(d("19.0"))); // 12.0 + 7.0
}

#[test]
fn test_order_book_creation() {
    let symbol = Symbol("ETHUSDC".to_string());
    let order_book = ThreadSafeOrderBook::new(symbol.clone());

    assert!(order_book.best_bid().is_none());
    assert!(order_book.best_ask().is_none());
    assert_eq!(order_book.symbol(), symbol);
}

#[test]
fn orderbook_tests_test_order_book_snapshot_application() {
    let order_book = ThreadSafeOrderBook::new(Symbol("ETHUSDC".to_string()));

    let snapshot = OrderBookSnapshot::with_levels(
        SequenceNumber(1000),
        Timestamp::now(),
        levels(&[("2400.0", "10.0"), ("2399.0", "5.0")]),
        levels(&[("2401.0", "8.0"), ("2402.0", "12.0")]),
    );

    let result = order_book.apply_snapshot(snapshot);
    assert!(result.is_ok());

    assert_eq!(order_book.best_bid().unwrap(), Price(d("2400.0")));
    assert_eq!(order_book.best_ask().unwrap(), Price(d("2401.0")));

    assert_eq!(order_book.quantity_at_price(Side::Bid, Price(d("2400.0"))), Quantity(d("10.0")));
    assert_eq!(order_book.quantity_at_price(Side::Ask, Price(d("2401.0"))), Quantity(d("8.0")));
}

#[test]
fn test_order_book_delta_updates() {
    let order_book = shared_book(1000, &[("2400.0", "10.0")], &[("2401.0", "10.0")]);

    let updates = vec![PriceLevelUpdate::new(Side::Bid, Price(d("2399.5")), Quantity(d("5.0")), UpdateAction::Update)];
    let delta = OrderBookDelta::with_updates(SequenceNumber(1001), Timestamp::now(), updates);

    let result = order_book.apply_delta(&delta);
    assert!(result.is_ok());

    assert_eq!(order_book.quantity_at_price(Side::Bid, Price(d("2399.5"))), Quantity(d("5.0")));
    assert_eq!(order_book.best_bid().unwrap(), Price(d("2400.0")));
}

#[test]
fn test_order_book_price_level_deletion() {
    let order_book = shared_book(
        1000,
        &[("2400.0", "10.0"), ("2399.0", "5.0")],
        &[("2401.0", "8.0"), ("2402.0", "12.0")],
    );

    let updates = vec![PriceLevelUpdate::new(Side::Bid, Price(d("2400.0")), Quantity::zero(), UpdateAction::Delete)];
    let delta = OrderBookDelta::with_updates(SequenceNumber(1001), Timestamp::now(), updates);

    order_book.apply_delta(&delta).unwrap();

    assert_eq!(order_book.best_bid().unwrap(), Price(d("2399.0")));
    assert_eq!(order_book.quantity_at_price(Side::Bid, Price(d("2400.0"))), Quantity::zero());
}

#[test]
fn test_order_book_spread_calculation() {
    let order_book = shared_book(1000, &[("2400.0", "10.0")], &[("2401.5", "8.0")]);

    let spread = order_book.spread();
    assert!(spread.is_some());
    assert_eq!(spread.unwrap(), Price(d("1.5"))); // 2401.5 - 2400.0
}

#[test]
fn test_order_book_mid_price_calculation() {
    let order_book = shared_book(1000, &[("2400.0", "10.0")], &[("2402.0", "8.0")]);

    let mid_price = order_book.mid_price();
    assert!(mid_price.is_some());
    assert_eq!(mid_price.unwrap(), Price(d("2401.0"))); // (2400 + 2402) / 2
}

#[test]
fn test_order_book_sequence_validation() {
    let order_book = shared_book(1000, &[("2400.0", "10.0")], &[("2401.0", "10.0")]);

    // A snapshot with a lower sequence number fails
    let invalid_snapshot = OrderBookSnapshot::with_levels(
        SequenceNumber(999),
        Timestamp::now(),
        levels(&[("2400.0", "10.0")]),
        levels(&[("2401.0", "10.0")]),
    );
    let result = order_book.apply_snapshot(invalid_snapshot);
    assert!(result.is_err());

    let updates = vec![PriceLevelUpdate::new(Side::Bid, Price(d("2399.0")), Quantity(d("5.0")), UpdateAction::Update)];

    // A delta below the current sequence is skipped
    let old_delta = OrderBookDelta::with_updates(SequenceNumber(999), Timestamp::now(), updates.clone());
    let result = order_book.apply_delta(&old_delta);
    assert!(result.is_ok());

    // A gap in the sequence fails
    let gap_delta = OrderBookDelta::with_updates(SequenceNumber(1002), Timestamp::now(), updates);
    let result = order_book.apply_delta(&gap_delta);
    assert!(result.is_err());
}

#[test]
fn test_order_book_empty_state() {
    let order_book = ThreadSafeOrderBook::new(Symbol("ETHUSDC".to_string()));

    assert!(order_book.best_bid().is_none());
    assert!(order_book.best_ask().is_none());
    assert!(order_book.mid_price().is_none());
    assert!(order_book.spread().is_none());
    assert_eq!(order_book.quantity_at_price(Side::Bid, Price(d("2400.0"))), Quantity::zero());
    assert_eq!(order_book.quantity_at_price(Side::Ask, Price(d("2401.0"))), Quantity::zero());
}

#[test]
fn test_order_book_partial_state() {
    let order_book = shared_book(1000, &[("2400.0", "10.0")], &[]);

    assert!(order_book.best_bid().is_some());
    assert!(order_book.best_ask().is_none());
    assert!(order_book.mid_price().is_none());
    assert!(order_book.spread().is_none());
}

#[test]
fn test_order_book_price_level_updates() {
    let order_book = shared_book(1000, &[("2400.0", "10.0")], &[("2401.0", "10.0")]);

    let updates = vec![PriceLevelUpdate::new(Side::Bid, Price(d("2400.0")), Quantity(d("15.0")), UpdateAction::Update)];
    let delta = OrderBookDelta::with_updates(SequenceNumber(1001), Timestamp::now(), updates);

    order_book.apply_delta(&delta).unwrap();

    assert_eq!(order_book.quantity_at_price(Side::Bid, Price(d("2400.0"))), Quantity(d("15.0")));
}

#[test]
fn test_order_book_multiple_price_levels() {
    let order_book = shared_book(
        1000,
        &[("2400.0", "10.0"), ("2399.5", "8.0"), ("2399.0", "5.0"), ("2398.5", "3.0")],
        &[("2401.0", "7.0"), ("2401.5", "9.0"), ("2402.0", "12.0"), ("2402.5", "15.0")],
    );

    assert_eq!(order_book.best_bid().unwrap(), Price(d("2400.0")));
    assert_eq!(order_book.best_ask().unwrap(), Price(d("2401.0")));

    assert_eq!(order_book.quantity_at_price(Side::Bid, Price(d("2398.5"))), Quantity(d("3.0")));
    assert_eq!(order_book.quantity_at_price(Side::Ask, Price(d("2402.5"))), Quantity(d("15.0")));
}

#[test]
fn test_order_book_cross_spread_handling() {
    let order_book = ThreadSafeOrderBook::new(Symbol("ETHUSDC".to_string()));

    // A crossed book (bid above ask) is accepted as it is
    let snapshot = OrderBookSnapshot::with_levels(
        SequenceNumber(1000),
        Timestamp::now(),
        levels(&[("2402.0", "10.0")]),
        levels(&[("2401.0", "10.0")]),
    );
    let result = order_book.apply_snapshot(snapshot);
    assert!(result.is_ok());

    assert_eq!(order_book.best_bid().unwrap(), Price(d("2402.0")));
    assert_eq!(order_book.best_ask().unwrap(), Price(d("2401.0")));

    let spread = order_book.spread().unwrap();
    assert!(spread.0.lt(&d("0.0")));
}

#[test]
fn test_order_book_operations() {
    let book = ThreadSafeOrderBook::new(Symbol("ETHUSDC".to_string()));

    let mut snapshot = OrderBookSnapshot::new(SequenceNumber(1), Timestamp::now());
    snapshot.bids.insert(Price(d("2445.12")), Quantity(d("3.1005")));
    snapshot.bids.insert(Price(d("2445.11")), Quantity(d("1.20")));
    snapshot.asks.insert(Price(d("2445.13")), Quantity(d("2.05")));
    snapshot.asks.insert(Price(d("2445.14")), Quantity(d("1.50")));

    book.apply_snapshot(snapshot).unwrap();

    assert_eq!(book.best_bid(), Some(Price(d("2445.12"))));
    assert_eq!(book.best_ask(), Some(Price(d("2445.13"))));
    assert_eq!(book.mid_price(), Some(Price(d("2445.125"))));
    assert_eq!(book.spread(), Some(Price(d("0.01"))));

    let bid_depth = book.depth_to_price(Side::Bid, Price(d("2445.11")));
    assert_eq!(bid_depth, Quantity(d("4.3005"))); // 3.1005 + 1.20
}

#[test]
fn snapshot_replaces_all_levels() {
    let mut book = OrderBookL2::new(Symbol("S".to_string()));
    let first = OrderBookSnapshot::with_levels(SequenceNumber(1), Timestamp::now(), levels(&[("10", "1")]), levels(&[("11", "1")]));
    book.apply_snapshot(first).unwrap();
    let second = OrderBookSnapshot::with_levels(SequenceNumber(2), Timestamp::now(), levels(&[("9", "3")]), levels(&[]));
    book.apply_snapshot(second).unwrap();
    assert_eq!(book.quantity_at_price(Side::Bid, Price(d("10"))), Quantity::zero());
    assert_eq!(book.quantity_at_price(Side::Bid, Price(d("9"))), Quantity(d("3")));
    assert_eq!(book.best_ask(), None);
    assert_eq!(book.last_sequence(), SequenceNumber(2));
}

#[test]
fn snapshot_out_of_order_reports_expected_and_keeps_state() {
    let mut book = OrderBookL2::new(Symbol("S".to_string()));
    let first = OrderBookSnapshot::with_levels(SequenceNumber(5), Timestamp::now(), levels(&[("10", "1")]), levels(&[]));
    book.apply_snapshot(first).unwrap();
    let stale = OrderBookSnapshot::with_levels(SequenceNumber(5), Timestamp::now(), levels(&[("8", "1")]), levels(&[]));
    match book.apply_snapshot(stale) {
        Err(TradingError::SequenceOutOfOrder { expected, actual }) => {
            assert_eq!(expected, 6);
            assert_eq!(actual, 5);
        }
        other => panic!("unexpected: {:?}", other),
    }
    assert_eq!(book.best_bid(), Some(Price(d("10"))));
    assert_eq!(book.last_sequence(), SequenceNumber(5));
}

#[test]
fn update_with_zero_quantity_removes_level() {
    let mut book = OrderBookL2::new(Symbol("S".to_string()));
    let first = OrderBookSnapshot::with_levels(SequenceNumber(1), Timestamp::now(), levels(&[("10", "1"), ("9", "2")]), levels(&[]));
    book.apply_snapshot(first).unwrap();
    let delta = OrderBookDelta::with_updates(
        SequenceNumber(2),
        Timestamp::now(),
        vec![PriceLevelUpdate::update(Side::Bid, Price(d("10")), Quantity::zero())],
    );
    book.apply_delta(delta).unwrap();
    assert_eq!(book.best_bid(), Some(Price(d("9"))));
    assert_eq!(book.get_snapshot().bids.len(), 1);
}

#[test]
fn depth_includes_boundary_level() {
    let mut book = OrderBookL2::new(Symbol("S".to_string()));
    let snap = OrderBookSnapshot::with_levels(
        SequenceNumber(1),
        Timestamp::now(),
        levels(&[("10", "1"), ("9", "2"), ("8", "4")]),
        levels(&[("11", "1"), ("12", "2"), ("13", "4")]),
    );
    book.apply_snapshot(snap).unwrap();
    assert_eq!(book.depth_to_price(Side::Bid, Price(d("9"))), Quantity(d("3")));
    assert_eq!(book.depth_to_price(Side::Bid, Price(d("11"))), Quantity::zero());
    assert_eq!(book.depth_to_price(Side::Ask, Price(d("12"))), Quantity(d("3")));
    assert_eq!(book.depth_to_price(Side::Ask, Price(d("10"))), Quantity::zero());
}

#[test]
fn bid_updates_leave_asks_alone() {
    let mut book = OrderBookL2::new(Symbol("S".to_string()));
    let snap = OrderBookSnapshot::with_levels(SequenceNumber(1), Timestamp::now(), levels(&[("10", "1")]), levels(&[("11", "2"), ("12", "3")]));
    book.apply_snapshot(snap).unwrap();
    let before = book.get_snapshot();
    let delta = OrderBookDelta::with_updates(
        SequenceNumber(2),
        Timestamp::now(),
        vec![
            PriceLevelUpdate::update(Side::Bid, Price(d("10.5")), Quantity(d("4"))),
            PriceLevelUpdate::delete(Side::Bid, Price(d("10"))),
        ],
    );
    book.apply_delta(delta).unwrap();
    let after = book.get_snapshot();
    assert_eq!(after.asks, before.asks);
    assert_eq!(after.bids.len(), 1);
    assert_eq!(book.best_bid(), Some(Price(d("10.5"))));
    assert_eq!(book.last_sequence(), SequenceNumber(2));
}
