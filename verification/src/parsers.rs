//! Building market events from the fields of market data messages.
//!
//! A message's text is decoded into its raw fields elsewhere; the functions
//! here check the fields, parse the numbers and timestamps they hold, and
//! build the events, with the same error messages for each malformed field.
use crate::decimal::{normalize_repr, rd_from_str, Decimal};
use crate::events::{AMMPoolUpdate, OrderBookDelta, OrderBookSnapshot, PriceLevelUpdate, PriceLevels};
use crate::types::{
    chrono_rfc3339, FeeTier, PoolAddress, Price, Quantity, SequenceNumber, Side, SqrtPriceX96, Symbol, Timestamp,
    TokenReserves, TradingError, TradingResult, UpdateAction,
};
use std::str::FromStr;
use vstd::prelude::*;
use vstd::string::*;

verus! {

/// Raw fields of an order book snapshot message.
#[derive(Debug, Clone)]
pub struct RawOrderBookSnapshot {
    /// The `type` field.
    pub event_type: String,
    /// The symbol.
    pub symbol: String,
    /// The sequence number.
    pub seq: u64,
    /// The timestamp text.
    pub ts: String,
    /// Bid rows: `[price, quantity]`.
    pub bids: Vec<Vec<String>>,
    /// Ask rows: `[price, quantity]`.
    pub asks: Vec<Vec<String>>,
}

/// Raw fields of an order book delta message.
#[derive(Debug, Clone)]
pub struct RawOrderBookDelta {
    /// The `type` field.
    pub event_type: String,
    /// The symbol.
    pub symbol: String,
    /// The sequence number.
    pub seq: u64,
    /// The timestamp text.
    pub ts: String,
    /// Bid rows: `[action, price, quantity]`.
    pub bids: Vec<Vec<String>>,
    /// Ask rows: `[action, price, quantity]`.
    pub asks: Vec<Vec<String>>,
}

/// Raw fields of an AMM pool message.
#[derive(Debug, Clone)]
pub struct RawAMMPool {
    /// The pool address.
    pub pool: String,
    /// The fee tier in basis points.
    pub fee: u32,
    /// The timestamp text.
    pub ts: String,
    /// Reserve of token0, as text.
    pub amount0: String,
    /// Reserve of token1, as text.
    pub amount1: String,
    /// The `sqrtPriceX96` text, when present.
    pub sqrt_price_x96: Option<String>,
}

/// What `u128::from_str` makes of a text: the number, or the text of the
/// error.
pub uninterp spec fn u128_from_str(s: Seq<char>) -> Result<u128, Seq<char>>;

/// `u128::from_str`; the outcome is named `u128_from_str` (the error is
/// the text of std's error).
#[verifier::external_body]
fn parse_u128(s: &str) -> (r: Result<u128, String>)
    ensures
        u128_from_str(s@) == (match r {
            Ok(x) => Ok(x),
            Err(e) => Err::<u128, Seq<char>>(e@),
        }),
{
    match u128::from_str(s) {
        Ok(x) => Ok(x),
        Err(e) => Err(e.to_string()),
    }
}

/// A decimal text's value, normalized, or the parse error's text.
pub open spec fn decimal_text(s: Seq<char>) -> Result<(int, int), Seq<char>> {
    match rd_from_str(s) {
        Ok(x) => Ok(normalize_repr(x)),
        Err(e) => Err(e),
    }
}

/// A timestamp text's value, or the error message.
pub open spec fn timestamp_text(s: Seq<char>) -> Result<(int, int), Seq<char>> {
    match chrono_rfc3339(s) {
        Ok(t) => Ok(t),
        Err(e) => Err("Invalid timestamp: "@ + e),
    }
}

/// The texts of rows of fields.
pub open spec fn rows_view(rows: Seq<Vec<String>>) -> Seq<Seq<Seq<char>>> {
    rows.map_values(|r: Vec<String>| r@.map_values(|s: String| s@))
}

/// The (price, quantity) values of snapshot rows of one side (`side` is
/// `bid` or `ask`), or the message of the first malformed row.
pub open spec fn snapshot_rows(rows: Seq<Seq<Seq<char>>>, side: Seq<char>) -> Result<Seq<((int, int), (int, int))>, Seq<char>>
    decreases rows.len(),
{
    if rows.len() == 0 {
        Ok(Seq::empty())
    } else {
        match snapshot_rows(rows.drop_last(), side) {
            Err(e) => Err(e),
            Ok(prev) => {
                let row = rows.last();
                if row.len() != 2 {
                    Err("Invalid "@ + side + " format"@)
                } else {
                    match decimal_text(row[0]) {
                        Err(e) => Err("Invalid "@ + side + " price: "@ + e),
                        Ok(p) => match decimal_text(row[1]) {
                            Err(e) => Err("Invalid "@ + side + " quantity: "@ + e),
                            Ok(q) => Ok(prev.push((p, q))),
                        },
                    }
                }
            },
        }
    }
}

/// The map of (price, quantity) values, later pairs replacing earlier ones.
pub open spec fn pairs_map(s: Seq<((int, int), (int, int))>) -> Map<(int, int), (int, int)>
    decreases s.len(),
{
    if s.len() == 0 {
        Map::empty()
    } else {
        pairs_map(s.drop_last()).insert(s.last().0, s.last().1)
    }
}

/// The values of a price-to-quantity map.
pub open spec fn price_map_view(m: Map<Price, Quantity>) -> Map<(int, int), (int, int)> {
    Map::new(
        |k: (int, int)| exists|p: Price| #[trigger] m.dom().contains(p) && p.0@ == k,
        |k: (int, int)| m[choose|p: Price| #[trigger] m.dom().contains(p) && p.0@ == k].0@,
    )
}

proof fn lemma_price_map_view_insert(m: Map<Price, Quantity>, p: Price, q: Quantity)
    ensures
        price_map_view(m.insert(p, q)) =~= price_map_view(m).insert(p.0@, q.0@),
{
    let m2 = m.insert(p, q);
    assert forall|k: (int, int)| #[trigger] price_map_view(m2).dom().contains(k) <==> price_map_view(m).insert(
        p.0@,
        q.0@,
    ).dom().contains(k) by {
        if exists|x: Price| #[trigger] m2.dom().contains(x) && x.0@ == k {
            let x = choose|x: Price| #[trigger] m2.dom().contains(x) && x.0@ == k;
            if x != p {
                assert(m.dom().contains(x));
            }
        }
        if exists|x: Price| #[trigger] m.dom().contains(x) && x.0@ == k {
            let x = choose|x: Price| #[trigger] m.dom().contains(x) && x.0@ == k;
            assert(m2.dom().contains(x));
        }
        if k == p.0@ {
            assert(m2.dom().contains(p));
        }
    }
    assert forall|k: (int, int)| #[trigger] price_map_view(m2).dom().contains(k) implies price_map_view(m2)[k]
        == price_map_view(m).insert(p.0@, q.0@)[k] by {
        let x = choose|x: Price| #[trigger] m2.dom().contains(x) && x.0@ == k;
        Decimal::lemma_view_eq(x.0, p.0);
        if k != p.0@ {
            let y = choose|y: Price| #[trigger] m.dom().contains(y) && y.0@ == k;
            Decimal::lemma_view_eq(x.0, y.0);
        }
    }
}

/// Builds one side's levels from snapshot rows.
fn levels_from_rows(rows: &Vec<Vec<String>>, side: &str) -> (r: Result<PriceLevels, String>)
    ensures
        match (r, snapshot_rows(rows_view(rows@), side@)) {
            (Ok(l), Ok(pairs)) => price_map_view(l@) == pairs_map(pairs),
            (Err(m), Err(e)) => m@ == e,
            _ => false,
        },
{
    let ghost rv = rows_view(rows@);
    let mut levels = PriceLevels::new();
    let ghost mut acc: Seq<((int, int), (int, int))> = Seq::empty();
    proof {
        assert(price_map_view(levels@) =~= Map::<(int, int), (int, int)>::empty());
        assert(rv.take(0) =~= Seq::<Seq<Seq<char>>>::empty());
    }
    let mut i: usize = 0;
    while i < rows.len()
        invariant
            rv == rows_view(rows@),
            i <= rows@.len(),
            snapshot_rows(rv.take(i as int), side@) == Ok::<Seq<((int, int), (int, int))>, Seq<char>>(acc),
            price_map_view(levels@) == pairs_map(acc),
        decreases rows@.len() - i,
    {
        let row = &rows[i];
        proof {
            assert(rv.take(i + 1).drop_last() =~= rv.take(i as int));
            assert(rv.take(i + 1).last() == rv[i as int]);
            assert(rv[i as int] == row@.map_values(|s: String| s@));
        }
        if row.len() != 2 {
            let mut m = "Invalid ".to_owned();
            m.append(side);
            m.append(" format");
            proof {
                lemma_rows_err_extends(rv, side@, i as int + 1);
            }
            return Err(m);
        }
        proof {
            assert(rv[i as int][0] == row@[0]@);
            assert(rv[i as int][1] == row@[1]@);
        }
        let price = match Decimal::parse(row[0].as_str()) {
            Ok(d) => Price(d),
            Err(e) => {
                let mut m = "Invalid ".to_owned();
                m.append(side);
                m.append(" price: ");
                m.append(e.as_str());
                proof {
                    lemma_rows_err_extends(rv, side@, i as int + 1);
                }
                return Err(m);
            },
        };
        let quantity = match Decimal::parse(row[1].as_str()) {
            Ok(d) => Quantity(d),
            Err(e) => {
                let mut m = "Invalid ".to_owned();
                m.append(side);
                m.append(" quantity: ");
                m.append(e.as_str());
                proof {
                    lemma_rows_err_extends(rv, side@, i as int + 1);
                }
                return Err(m);
            },
        };
        let ghost before = levels@;
        proof {
            lemma_price_map_view_insert(before, price, quantity);
            let prev = acc;
            acc = acc.push((price.0@, quantity.0@));
            assert(acc.drop_last() =~= prev);
        }
        levels.insert(price, quantity);
        i = i + 1;
    }
    proof {
        assert(rv.take(rows@.len() as int) =~= rv);
    }
    Ok(levels)
}

proof fn lemma_rows_err_extends(rv: Seq<Seq<Seq<char>>>, side: Seq<char>, k: int)
    requires
        0 <= k <= rv.len(),
        snapshot_rows(rv.take(k), side) is Err,
    ensures
        snapshot_rows(rv, side) == snapshot_rows(rv.take(k), side),
    decreases rv.len() - k,
{
    if k < rv.len() {
        assert(rv.take(k + 1).drop_last() =~= rv.take(k));
        lemma_rows_err_extends(rv, side, k + 1);
    } else {
        assert(rv.take(k) =~= rv);
    }
}


/// What a snapshot message's fields give: the timestamp and the bid and ask
/// levels by value, or the message of the first malformed field (type,
/// timestamp, bids, then asks).
pub open spec fn snapshot_fields(
    event_type: Seq<char>,
    ts: Seq<char>,
    bids: Seq<Seq<Seq<char>>>,
    asks: Seq<Seq<Seq<char>>>,
) -> Result<((int, int), Map<(int, int), (int, int)>, Map<(int, int), (int, int)>), Seq<char>> {
    if event_type != "snapshot"@ {
        Err("Expected snapshot type, got: "@ + event_type)
    } else {
        match timestamp_text(ts) {
            Err(e) => Err(e),
            Ok(t) => match snapshot_rows(bids, "bid"@) {
                Err(e) => Err(e),
                Ok(b) => match snapshot_rows(asks, "ask"@) {
                    Err(e) => Err(e),
                    Ok(a) => Ok((t, pairs_map(b), pairs_map(a))),
                },
            },
        }
    }
}

/// Parses an RFC 3339 timestamp; a malformed one is a parse error that
/// carries chrono's message.
fn parse_timestamp(ts: &str) -> (r: TradingResult<Timestamp>)
    ensures
        match (r, timestamp_text(ts@)) {
            (Ok(t), Ok(x)) => t.secs == x.0 && t.nanos == x.1,
            (Err(TradingError::ParseError(m)), Err(e)) => m@ == e,
            _ => false,
        },
{
    match Timestamp::parse_rfc3339(ts) {
        Ok(t) => Ok(t),
        Err(e) => {
            let mut m = "Invalid timestamp: ".to_owned();
            m.append(e.as_str());
            Err(TradingError::ParseError(m))
        },
    }
}

/// Builds an order book snapshot from a snapshot message's fields.
///
/// The message must be of type `snapshot`; each bid and ask row is a
/// `[price, quantity]` pair of decimal texts, and a later row at a price
/// replaces an earlier one.
pub fn lob_snapshot_from_raw(raw: &RawOrderBookSnapshot) -> (r: TradingResult<(Symbol, OrderBookSnapshot)>)
    ensures
        match (r, snapshot_fields(raw.event_type@, raw.ts@, rows_view(raw.bids@), rows_view(raw.asks@))) {
            (Ok((symbol, snap)), Ok((t, b, a))) => {
                &&& symbol@ == raw.symbol@
                &&& snap.sequence == SequenceNumber(raw.seq)
                &&& snap.timestamp.secs == t.0
                &&& snap.timestamp.nanos == t.1
                &&& price_map_view(snap.bids@) == b
                &&& price_map_view(snap.asks@) == a
            },
            (Err(TradingError::ParseError(m)), Err(e)) => m@ == e,
            _ => false,
        },
{
    let expected = "snapshot".to_owned();
    if !(raw.event_type == expected) {
        let mut m = "Expected snapshot type, got: ".to_owned();
        m.append(raw.event_type.as_str());
        return Err(TradingError::ParseError(m));
    }
    let timestamp = parse_timestamp(raw.ts.as_str())?;
    let bids = match levels_from_rows(&raw.bids, "bid") {
        Ok(l) => l,
        Err(m) => return Err(TradingError::ParseError(m)),
    };
    let asks = match levels_from_rows(&raw.asks, "ask") {
        Ok(l) => l,
        Err(m) => return Err(TradingError::ParseError(m)),
    };
    let symbol = Symbol(raw.symbol.clone());
    let snapshot = OrderBookSnapshot::with_levels(SequenceNumber(raw.seq), timestamp, bids, asks);
    Ok((symbol, snapshot))
}

/// The action of a delta row: `u` and `n` update a level, `d` deletes it.
pub open spec fn action_text(a: Seq<char>) -> Option<UpdateAction> {
    if a == "u"@ {
        Some(UpdateAction::Update)
    } else if a == "d"@ {
        Some(UpdateAction::Delete)
    } else if a == "n"@ {
        Some(UpdateAction::Update)
    } else {
        None
    }
}

/// A level update by value: side, price, quantity and action.
pub open spec fn update_view(u: PriceLevelUpdate) -> (Side, (int, int), (int, int), UpdateAction) {
    (u.side, u.price.0@, u.quantity.0@, u.action)
}

/// The level updates of delta rows of one side (`side_name` is `bid` or
/// `ask`), or the message of the first malformed row.  A row is
/// `[action, price, quantity]`; a deletion's quantity is zero and its text
/// is not read.
pub open spec fn delta_rows(rows: Seq<Seq<Seq<char>>>, side_name: Seq<char>, side: Side) -> Result<
    Seq<(Side, (int, int), (int, int), UpdateAction)>,
    Seq<char>,
>
    decreases rows.len(),
{
    if rows.len() == 0 {
        Ok(Seq::empty())
    } else {
        match delta_rows(rows.drop_last(), side_name, side) {
            Err(e) => Err(e),
            Ok(prev) => {
                let row = rows.last();
                if row.len() != 3 {
                    Err("Invalid "@ + side_name + " delta format"@)
                } else {
                    match action_text(row[0]) {
                        None => Err("Invalid "@ + side_name + " action: "@ + row[0]),
                        Some(action) => match decimal_text(row[1]) {
                            Err(e) => Err("Invalid "@ + side_name + " price: "@ + e),
                            Ok(p) => if action == UpdateAction::Delete {
                                Ok(prev.push((side, p, (0int, 0int), action)))
                            } else {
                                match decimal_text(row[2]) {
                                    Err(e) => Err("Invalid "@ + side_name + " quantity: "@ + e),
                                    Ok(q) => Ok(prev.push((side, p, q, action))),
                                }
                            },
                        },
                    }
                }
            },
        }
    }
}

proof fn lemma_delta_rows_err_extends(rv: Seq<Seq<Seq<char>>>, side_name: Seq<char>, side: Side, k: int)
    requires
        0 <= k <= rv.len(),
        delta_rows(rv.take(k), side_name, side) is Err,
    ensures
        delta_rows(rv, side_name, side) == delta_rows(rv.take(k), side_name, side),
    decreases rv.len() - k,
{
    if k < rv.len() {
        assert(rv.take(k + 1).drop_last() =~= rv.take(k));
        lemma_delta_rows_err_extends(rv, side_name, side, k + 1);
    } else {
        assert(rv.take(k) =~= rv);
    }
}

/// Appends the updates of one side's delta rows to `updates`.
fn updates_from_rows(
    rows: &Vec<Vec<String>>,
    side_name: &str,
    side: Side,
    updates: &mut Vec<PriceLevelUpdate>,
) -> (r: Result<(), String>)
    ensures
        match (r, delta_rows(rows_view(rows@), side_name@, side)) {
            (Ok(()), Ok(us)) => final(updates)@.map_values(|u: PriceLevelUpdate| update_view(u))
                == old(updates)@.map_values(|u: PriceLevelUpdate| update_view(u)) + us,
            (Err(m), Err(e)) => m@ == e,
            _ => false,
        },
{
    let ghost rv = rows_view(rows@);
    let ghost start = updates@.map_values(|u: PriceLevelUpdate| update_view(u));
    let ghost mut acc: Seq<(Side, (int, int), (int, int), UpdateAction)> = Seq::empty();
    proof {
        assert(rv.take(0) =~= Seq::<Seq<Seq<char>>>::empty());
        assert(start + acc =~= start);
    }
    let u_text = "u".to_owned();
    let d_text = "d".to_owned();
    let n_text = "n".to_owned();
    let mut i: usize = 0;
    while i < rows.len()
        invariant
            rv == rows_view(rows@),
            i <= rows@.len(),
            u_text@ == "u"@,
            d_text@ == "d"@,
            n_text@ == "n"@,
            start == old(updates)@.map_values(|u: PriceLevelUpdate| update_view(u)),
            delta_rows(rv.take(i as int), side_name@, side) == Ok::<
                Seq<(Side, (int, int), (int, int), UpdateAction)>,
                Seq<char>,
            >(acc),
            updates@.map_values(|u: PriceLevelUpdate| update_view(u)) == start + acc,
        decreases rows@.len() - i,
    {
        let row = &rows[i];
        proof {
            assert(rv.take(i + 1).drop_last() =~= rv.take(i as int));
            assert(rv.take(i + 1).last() == rv[i as int]);
            assert(rv[i as int] == row@.map_values(|s: String| s@));
        }
        if row.len() != 3 {
            let mut m = "Invalid ".to_owned();
            m.append(side_name);
            m.append(" delta format");
            proof {
                lemma_delta_rows_err_extends(rv, side_name@, side, i as int + 1);
            }
            return Err(m);
        }
        proof {
            assert(rv[i as int][0] == row@[0]@);
            assert(rv[i as int][1] == row@[1]@);
            assert(rv[i as int][2] == row@[2]@);
        }
        let action = if row[0] == u_text {
            UpdateAction::Update
        } else if row[0] == d_text {
            UpdateAction::Delete
        } else if row[0] == n_text {
            UpdateAction::Update
        } else {
            let mut m = "Invalid ".to_owned();
            m.append(side_name);
            m.append(" action: ");
            m.append(row[0].as_str());
            proof {
                lemma_delta_rows_err_extends(rv, side_name@, side, i as int + 1);
            }
            return Err(m);
        };
        let price = match Decimal::parse(row[1].as_str()) {
            Ok(d) => Price(d),
            Err(e) => {
                let mut m = "Invalid ".to_owned();
                m.append(side_name);
                m.append(" price: ");
                m.append(e.as_str());
                proof {
                    lemma_delta_rows_err_extends(rv, side_name@, side, i as int + 1);
                }
                return Err(m);
            },
        };
        let quantity = match action {
            UpdateAction::Delete => Quantity::zero(),
            UpdateAction::Update => match Decimal::parse(row[2].as_str()) {
                Ok(d) => Quantity(d),
                Err(e) => {
                    let mut m = "Invalid ".to_owned();
                    m.append(side_name);
                    m.append(" quantity: ");
                    m.append(e.as_str());
                    proof {
                        lemma_delta_rows_err_extends(rv, side_name@, side, i as int + 1);
                    }
                    return Err(m);
                },
            },
        };
        let update = PriceLevelUpdate::new(side, price, quantity, action);
        let ghost prev_acc = acc;
        let ghost prev_updates = updates@;
        updates.push(update);
        proof {
            acc = acc.push(update_view(update));
            assert(acc.drop_last() =~= prev_acc);
            assert(updates@.map_values(|u: PriceLevelUpdate| update_view(u)) =~= prev_updates.map_values(
                |u: PriceLevelUpdate| update_view(u),
            ).push(update_view(update)));
            assert(start + acc =~= (start + prev_acc).push(update_view(update)));
        }
        i = i + 1;
    }
    proof {
        assert(rv.take(rows@.len() as int) =~= rv);
    }
    Ok(())
}

/// What a delta message's fields give: the timestamp and the level updates
/// (bids first, then asks), or the message of the first malformed field.
pub open spec fn delta_fields(
    event_type: Seq<char>,
    ts: Seq<char>,
    bids: Seq<Seq<Seq<char>>>,
    asks: Seq<Seq<Seq<char>>>,
) -> Result<((int, int), Seq<(Side, (int, int), (int, int), UpdateAction)>), Seq<char>> {
    if event_type != "delta"@ {
        Err("Expected delta type, got: "@ + event_type)
    } else {
        match timestamp_text(ts) {
            Err(e) => Err(e),
            Ok(t) => match delta_rows(bids, "bid"@, Side::Bid) {
                Err(e) => Err(e),
                Ok(b) => match delta_rows(asks, "ask"@, Side::Ask) {
                    Err(e) => Err(e),
                    Ok(a) => Ok((t, b + a)),
                },
            },
        }
    }
}

/// Builds an order book delta from a delta message's fields.
///
/// The message must be of type `delta`; each row is `[action, price,
/// quantity]` with action `u` (update), `n` (new level, an update) or `d`
/// (delete, whose quantity is zero).  Bid updates come before ask updates.
pub fn lob_delta_from_raw(raw: &RawOrderBookDelta) -> (r: TradingResult<(Symbol, OrderBookDelta)>)
    ensures
        match (r, delta_fields(raw.event_type@, raw.ts@, rows_view(raw.bids@), rows_view(raw.asks@))) {
            (Ok((symbol, delta)), Ok((t, us))) => {
                &&& symbol@ == raw.symbol@
                &&& delta.sequence == SequenceNumber(raw.seq)
                &&& delta.timestamp.secs == t.0
                &&& delta.timestamp.nanos == t.1
                &&& delta.updates@.map_values(|u: PriceLevelUpdate| update_view(u)) == us
            },
            (Err(TradingError::ParseError(m)), Err(e)) => m@ == e,
            _ => false,
        },
{
    let expected = "delta".to_owned();
    if !(raw.event_type == expected) {
        let mut m = "Expected delta type, got: ".to_owned();
        m.append(raw.event_type.as_str());
        return Err(TradingError::ParseError(m));
    }
    let timestamp = parse_timestamp(raw.ts.as_str())?;
    let mut updates: Vec<PriceLevelUpdate> = Vec::new();
    proof {
        assert(updates@.map_values(|u: PriceLevelUpdate| update_view(u)) =~= Seq::empty());
    }
    match updates_from_rows(&raw.bids, "bid", Side::Bid, &mut updates) {
        Ok(()) => {},
        Err(m) => return Err(TradingError::ParseError(m)),
    }
    match updates_from_rows(&raw.asks, "ask", Side::Ask, &mut updates) {
        Ok(()) => {},
        Err(m) => return Err(TradingError::ParseError(m)),
    }
    proof {
        let b = delta_rows(rows_view(raw.bids@), "bid"@, Side::Bid)->Ok_0;
        assert(Seq::<(Side, (int, int), (int, int), UpdateAction)>::empty() + b =~= b);
    }
    let symbol = Symbol(raw.symbol.clone());
    let delta = OrderBookDelta::with_updates(SequenceNumber(raw.seq), timestamp, updates);
    Ok((symbol, delta))
}

/// What an AMM pool message's fields give: the timestamp, the two
/// reserves and the raw square-root price when present, or the message of
/// the first malformed field.
pub open spec fn amm_fields(
    ts: Seq<char>,
    amount0: Seq<char>,
    amount1: Seq<char>,
    sqrt_price: Option<Seq<char>>,
) -> Result<((int, int), (int, int), (int, int), Option<u128>), Seq<char>> {
    match timestamp_text(ts) {
        Err(e) => Err(e),
        Ok(t) => match decimal_text(amount0) {
            Err(e) => Err("Invalid token0 reserve: "@ + e),
            Ok(r0) => match decimal_text(amount1) {
                Err(e) => Err("Invalid token1 reserve: "@ + e),
                Ok(r1) => match sqrt_price {
                    None => Ok((t, r0, r1, None)),
                    Some(text) => match u128_from_str(text) {
                        Err(e) => Err("Invalid sqrtPriceX96: "@ + e),
                        Ok(x) => Ok((t, r0, r1, Some(x))),
                    },
                },
            },
        },
    }
}

/// The texts of an optional field.
pub open spec fn opt_text(s: Option<String>) -> Option<Seq<char>> {
    match s {
        Some(t) => Some(t@),
        None => None,
    }
}

/// Builds an AMM pool update from a pool message's fields.
///
/// `decode` turns a raw `sqrtPriceX96` value into the price it stands for;
/// the update carries the raw value together with what `decode` gave.
pub fn amm_pool_from_raw<F: Fn(u128) -> Price>(raw: &RawAMMPool, decode: F) -> (r: TradingResult<
    (PoolAddress, AMMPoolUpdate),
>)
    requires
        forall|x: u128| call_requires(decode, (x,)),
    ensures
        match (r, amm_fields(raw.ts@, raw.amount0@, raw.amount1@, opt_text(raw.sqrt_price_x96))) {
            (Ok((address, update)), Ok((t, r0, r1, sq))) => {
                &&& address@ == raw.pool@
                &&& update.timestamp.secs == t.0
                &&& update.timestamp.nanos == t.1
                &&& update.reserves.token0@ == r0
                &&& update.reserves.token1@ == r1
                &&& update.fee_tier == FeeTier(raw.fee)
                &&& match (update.sqrt_price, sq) {
                    (None, None) => true,
                    (Some(s), Some(x)) => s.0 == x && call_ensures(decode, (x,), s.1),
                    _ => false,
                }
            },
            (Err(TradingError::ParseError(m)), Err(e)) => m@ == e,
            _ => false,
        },
{
    let timestamp = parse_timestamp(raw.ts.as_str())?;
    let token0 = match Decimal::parse(raw.amount0.as_str()) {
        Ok(d) => d,
        Err(e) => {
            let mut m = "Invalid token0 reserve: ".to_owned();
            m.append(e.as_str());
            return Err(TradingError::ParseError(m));
        },
    };
    let token1 = match Decimal::parse(raw.amount1.as_str()) {
        Ok(d) => d,
        Err(e) => {
            let mut m = "Invalid token1 reserve: ".to_owned();
            m.append(e.as_str());
            return Err(TradingError::ParseError(m));
        },
    };
    let sqrt_price = match &raw.sqrt_price_x96 {
        None => None,
        Some(text) => match parse_u128(text.as_str()) {
            Ok(x) => {
                let price = decode(x);
                Some(SqrtPriceX96(x, price))
            },
            Err(e) => {
                let mut m = "Invalid sqrtPriceX96: ".to_owned();
                m.append(e.as_str());
                return Err(TradingError::ParseError(m));
            },
        },
    };
    let update = AMMPoolUpdate::new(timestamp, TokenReserves::new(token0, token1), sqrt_price, FeeTier(raw.fee));
    Ok((PoolAddress(raw.pool.clone()), update))
}

} // verus!
