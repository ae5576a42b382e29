//! Simulated market data: what a simulated feed emits at each tick.
use crate::decimal::Decimal;
use crate::events::{AMMPoolUpdate, MarketEvent, OrderBookDelta, PriceLevelUpdate};
use crate::parsers::update_view;
use crate::types::{FeeTier, PoolAddress, Price, Quantity, SequenceNumber, Side, Symbol, Timestamp, TokenReserves, UpdateAction};
use vstd::prelude::*;
use vstd::string::*;

verus! {

/// The whole number `n` as a decimal.
fn whole(n: u64) -> (d: Decimal)
    requires
        n < 1_000_000_000,
    ensures
        d@ == (n as int, 0int),
{
    Decimal::from_parts(n as i128, 0)
}

/// The first event of tick `seq` is this ETHUSDC delta.
pub open spec fn simulated_delta(e: MarketEvent, seq: u64, now: Timestamp) -> bool {
    &&& e matches MarketEvent::OrderBookDelta(symbol, delta)
    &&& symbol@ == "ETHUSDC"@
    &&& delta.sequence == SequenceNumber(seq)
    &&& delta.timestamp == now
    &&& delta.updates@.len() == 2
    &&& update_view(delta.updates@[0]) == (
        Side::Bid,
        (2445 + seq % 10, 0int),
        (1 + seq % 5, 0int),
        UpdateAction::Update,
    )
    &&& update_view(delta.updates@[1]) == (
        Side::Ask,
        (2446 + seq % 10, 0int),
        (1 + seq % 3, 0int),
        UpdateAction::Update,
    )
}

/// The second event of tick `seq`, when there is one, is this update of
/// pool `0xPOOL`.
pub open spec fn simulated_pool_update(e: MarketEvent, seq: u64, now: Timestamp) -> bool {
    &&& e matches MarketEvent::AMMUpdate(address, update)
    &&& address@ == "0xPOOL"@
    &&& update.timestamp == now
    &&& update.reserves.token0@ == (1000 + seq % 100, 0int)
    &&& update.reserves.token1@ == (2445000 + seq % 10000, 0int)
    &&& update.sqrt_price is None
    &&& update.fee_tier == FeeTier(30)
}

/// The events a simulated feed emits at tick `seq`: an ETHUSDC delta with
/// one bid level at `2445 + seq % 10` of `1 + seq % 5` and one ask level at
/// `2446 + seq % 10` of `1 + seq % 3`; and, every fiftieth tick, an update
/// of pool `0xPOOL` to reserves `1000 + seq % 100` and
/// `2445000 + seq % 10000`, without square-root price, at 30 basis points.
pub fn simulated_events(seq: u64, now: Timestamp) -> (r: (MarketEvent, Option<MarketEvent>))
    ensures
        simulated_delta(r.0, seq, now),
        r.1 is Some <==> seq % 50 == 0,
        r.1 matches Some(e) ==> simulated_pool_update(e, seq, now),
{
    let bid = PriceLevelUpdate::update(Side::Bid, Price(whole(2445 + seq % 10)), Quantity(whole(1 + seq % 5)));
    let ask = PriceLevelUpdate::update(Side::Ask, Price(whole(2446 + seq % 10)), Quantity(whole(1 + seq % 3)));
    let mut updates: Vec<PriceLevelUpdate> = Vec::new();
    updates.push(bid);
    updates.push(ask);
    let delta = OrderBookDelta::with_updates(SequenceNumber(seq), now, updates);
    let first = MarketEvent::OrderBookDelta(Symbol("ETHUSDC".to_owned()), delta);
    let second = if seq % 50 == 0 {
        let reserves = TokenReserves::new(whole(1000 + seq % 100), whole(2445000 + seq % 10000));
        let update = AMMPoolUpdate::new(now, reserves, None, FeeTier(30));
        Some(MarketEvent::AMMUpdate(PoolAddress("0xPOOL".to_owned()), update))
    } else {
        None
    };
    (first, second)
}

/// Sequence number of the first simulated tick.
pub const FIRST_SIMULATED_SEQ: u64 = 1001;

/// Sequence number of the last simulated tick.
pub const LAST_SIMULATED_SEQ: u64 = 2000;

/// The tick after `seq`, while the simulation runs: `None` once `seq` is
/// the last tick or beyond.
pub fn next_simulated_seq(seq: u64) -> (r: Option<u64>)
    ensures
        r == (if seq < LAST_SIMULATED_SEQ {
            Some((seq + 1) as u64)
        } else {
            None::<u64>
        }),
{
    if seq < LAST_SIMULATED_SEQ {
        Some(seq + 1)
    } else {
        None
    }
}

} // verus!
