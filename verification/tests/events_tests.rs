use quant_trading_system::events::{AMMPoolUpdate, MarketEvent, OrderBookDelta, OrderBookSnapshot, PriceLevelUpdate, Trade};
use quant_trading_system::{
    Decimal, FeeTier, PoolAddress, Price, Quantity, SequenceNumber, Side, Symbol, Timestamp, TokenReserves,
    UpdateAction,
};

fn d(text: &str) -> Decimal {
    Decimal::parse(text).unwrap()
}

#[test]
fn test_order_book_snapshot_best_prices() {
    let mut snapshot = OrderBookSnapshot::new(SequenceNumber(1), Timestamp::now());

    // Add some bid levels
    snapshot.bids.insert(Price(d("100.0")), Quantity(d("10.0")));
    snapshot.bids.insert(Price(d("99.5")), Quantity(d("5.0")));

    // Add some ask levels
    snapshot.asks.insert(Price(d("100.5")), Quantity(d("8.0")));
    snapshot.asks.insert(Price(d("101.0")), Quantity(d("12.0")));

    assert_eq!(snapshot.best_bid(), Some(&Price(d("100.0"))));
    assert_eq!(snapshot.best_ask(), Some(&Price(d("100.5"))));
    assert_eq!(snapshot.mid_price(), Some(Price(d("100.25"))));
    assert_eq!(snapshot.spread(), Some(Price(d("0.5"))));
}

#[test]
fn test_amm_pool_implied_price() {
    let reserves = TokenReserves::new(d("1000.0"), d("2000.0"));
    let update = AMMPoolUpdate::new(Timestamp::now(), reserves, None, FeeTier(30));

    let implied_price = update.implied_mid_from_reserves();
    assert_eq!(implied_price, Price(d("2.0"))); // 2000 / 1000 = 2.0
}

#[test]
fn test_price_level_update_creation() {
    let update = PriceLevelUpdate::update(Side::Bid, Price(d("100.0")), Quantity(d("5.0")));

    assert_eq!(update.side, Side::Bid);
    assert_eq!(update.price, Price(d("100.0")));
    assert_eq!(update.quantity, Quantity(d("5.0")));
    assert_eq!(update.action, UpdateAction::Update);

    let delete = PriceLevelUpdate::delete(Side::Ask, Price(d("101.0")));
    assert_eq!(delete.action, UpdateAction::Delete);
    assert!(delete.quantity.is_zero());
}

#[test]
fn empty_snapshot_has_no_prices() {
    let snapshot = OrderBookSnapshot::new(SequenceNumber(1), Timestamp::now());
    assert_eq!(snapshot.best_bid(), None);
    assert_eq!(snapshot.best_ask(), None);
    assert_eq!(snapshot.mid_price(), None);
    assert_eq!(snapshot.spread(), None);
}

#[test]
fn snapshot_levels_replace_by_price() {
    let mut snapshot = OrderBookSnapshot::new(SequenceNumber(1), Timestamp::now());
    snapshot.bids.insert(Price(d("100")), Quantity(d("1")));
    snapshot.bids.insert(Price(d("100.0")), Quantity(d("2")));
    assert_eq!(snapshot.bids.len(), 1);
    assert_eq!(snapshot.bids.get(&Price(d("100"))), Some(Quantity(d("2"))));
    snapshot.bids.remove(&Price(d("100")));
    assert!(snapshot.bids.is_empty());
}

#[test]
fn delta_keeps_updates_in_order() {
    let mut delta = OrderBookDelta::new(SequenceNumber(7), Timestamp::now());
    delta.add_update(PriceLevelUpdate::update(Side::Bid, Price(d("10")), Quantity(d("1"))));
    delta.add_update(PriceLevelUpdate::delete(Side::Ask, Price(d("11"))));
    assert_eq!(delta.updates.len(), 2);
    assert_eq!(delta.updates[0].side, Side::Bid);
    assert_eq!(delta.updates[1].action, UpdateAction::Delete);
}

#[test]
fn implied_mid_prefers_sqrt_price_and_handles_zero_reserve() {
    let reserves = TokenReserves::new(d("0"), d("5"));
    let update = AMMPoolUpdate::new(Timestamp::now(), reserves, None, FeeTier(30));
    assert_eq!(update.implied_mid(), Price::zero());

    let reserves = TokenReserves::new(d("1000"), d("2000"));
    let sqrt = quant_trading_system::SqrtPriceX96(2u128.pow(96), Price(d("1")));
    let update = AMMPoolUpdate::new(Timestamp::now(), reserves, Some(sqrt), FeeTier(5));
    assert_eq!(update.implied_mid(), Price(d("1")));
}

#[test]
fn market_event_sequence_and_timestamp() {
    let ts = Timestamp { secs: 1_735_725_600, nanos: 5 };
    let trade = Trade::new(SequenceNumber(3), ts, Price(d("2445")), Quantity(d("1")), Side::Bid);
    let event = MarketEvent::Trade(Symbol("ETHUSDC".to_string()), trade);
    assert_eq!(event.sequence(), Some(SequenceNumber(3)));
    assert_eq!(event.timestamp(), ts);

    let update = AMMPoolUpdate::new(ts, TokenReserves::new(d("1"), d("1")), None, FeeTier(30));
    let event = MarketEvent::AMMUpdate(PoolAddress("0x1".to_string()), update);
    assert_eq!(event.sequence(), None);
    assert_eq!(event.timestamp(), ts);
}
