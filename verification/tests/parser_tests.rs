use quant_trading_system::events::{AMMPoolUpdate, OrderBookDelta, OrderBookSnapshot};
use quant_trading_system::parsers::{
    amm_pool_from_raw, lob_delta_from_raw, lob_snapshot_from_raw, RawAMMPool, RawOrderBookDelta, RawOrderBookSnapshot,
};
use quant_trading_system::{
    Decimal, FeeTier, PoolAddress, Price, Quantity, SequenceNumber, Side, Symbol, TradingError, UpdateAction,
};
use serde_json::Value;

fn d(text: &str) -> Decimal {
    Decimal::parse(text).unwrap()
}

/// `(raw / 2^96)^2`, computed in floating point and taken back as a decimal.
fn decode_sqrt_price(raw: u128) -> Price {
    if raw == 0 {
        return Price::zero();
    }
    let sqrt_price = raw as f64 / (2u128.pow(96) as f64);
    let price = sqrt_price * sqrt_price;
    match rust_decimal::Decimal::try_from(price) {
        Ok(p) => Price(Decimal::from_parts(p.mantissa(), p.scale())),
        Err(_) => Price::zero(),
    }
}

fn text(v: &Value, key: &str) -> Result<String, String> {
    v.get(key).and_then(|x| x.as_str()).map(|s| s.to_string()).ok_or(format!("missing field `{}`", key))
}

fn rows(v: &Value, key: &str) -> Result<Vec<Vec<String>>, String> {
    let arr = v.get(key).and_then(|x| x.as_array()).ok_or(format!("missing field `{}`", key))?;
    let mut out = Vec::new();
    for row in arr {
        let cells = row.as_array().ok_or("row is not an array".to_string())?;
        let mut r = Vec::new();
        for c in cells {
            r.push(c.as_str().ok_or("cell is not a string".to_string())?.to_string());
        }
        out.push(r);
    }
    Ok(out)
}

fn number(v: &Value, key: &str) -> Result<u64, String> {
    v.get(key).and_then(|x| x.as_u64()).ok_or(format!("missing field `{}`", key))
}

/// Decodes the JSON text of a snapshot message and builds the snapshot.
fn parse_lob_snapshot(json: &str) -> Result<(Symbol, OrderBookSnapshot), String> {
    let v: Value = serde_json::from_str(json).map_err(|e| e.to_string())?;
    let raw = RawOrderBookSnapshot {
        event_type: text(&v, "type")?,
        symbol: text(&v, "symbol")?,
        seq: number(&v, "seq")?,
        ts: text(&v, "ts")?,
        bids: rows(&v, "bids")?,
        asks: rows(&v, "asks")?,
    };
    lob_snapshot_from_raw(&raw).map_err(message)
}

/// Decodes the JSON text of a delta message and builds the delta.
fn parse_lob_delta(json: &str) -> Result<(Symbol, OrderBookDelta), String> {
    let v: Value = serde_json::from_str(json).map_err(|e| e.to_string())?;
    let raw = RawOrderBookDelta {
        event_type: text(&v, "type")?,
        symbol: text(&v, "symbol")?,
        seq: number(&v, "seq")?,
        ts: text(&v, "ts")?,
        bids: rows(&v, "bids")?,
        asks: rows(&v, "asks")?,
    };
    lob_delta_from_raw(&raw).map_err(message)
}

/// Decodes the JSON text of an AMM pool message and builds the update.
fn parse_amm_pool(json: &str) -> Result<(PoolAddress, AMMPoolUpdate), String> {
    let v: Value = serde_json::from_str(json).map_err(|e| e.to_string())?;
    let reserves = v.get("reserves").ok_or("missing field `reserves`".to_string())?;
    let raw = RawAMMPool {
        pool: text(&v, "pool")?,
        fee: number(&v, "fee")? as u32,
        ts: text(&v, "ts")?,
        amount0: text(reserves, "amount0")?,
        amount1: text(reserves, "amount1")?,
        sqrt_price_x96: v.get("sqrtPriceX96").and_then(|x| x.as_str()).map(|s| s.to_string()),
    };
    amm_pool_from_raw(&raw, decode_sqrt_price).map_err(message)
}

fn message(e: TradingError) -> String {
    match e {
        TradingError::ParseError(m) => format!("Parse error: {}", m),
        other => format!("{:?}", other),
    }
}

#[test]
fn test_parse_lob_snapshot() {
    let json = r#"{
        "type": "snapshot",
        "venue": "binance",
        "symbol": "ETHUSDC",
        "seq": 1000,
        "ts": "2025-01-01T10:00:00.000Z",
        "bids": [
            ["2445.12", "3.1005"],
            ["2445.11", "1.20"]
        ],
        "asks": [
            ["2445.13", "2.05"],
            ["2445.14", "1.50"]
        ]
    }"#;

    let (symbol, snapshot) = parse_lob_snapshot(json).unwrap();

    assert_eq!(symbol, Symbol("ETHUSDC".to_string()));
    assert_eq!(snapshot.sequence, SequenceNumber(1000));
    assert_eq!(snapshot.bids.len(), 2);
    assert_eq!(snapshot.asks.len(), 2);

    assert_eq!(snapshot.best_bid(), Some(&Price(d("2445.12"))));
    assert_eq!(snapshot.best_ask(), Some(&Price(d("2445.13"))));
}

#[test]
fn test_parse_lob_delta() {
    let json = r#"{
        "type": "delta",
        "venue": "binance",
        "symbol": "ETHUSDC",
        "seq": 1001,
        "ts": "2025-01-01T10:00:00.050Z",
        "bids": [
            ["u", "2445.12", "3.0000"]
        ],
        "asks": [
            ["n", "2445.15", "1.00"]
        ]
    }"#;

    let (symbol, delta) = parse_lob_delta(json).unwrap();

    assert_eq!(symbol, Symbol("ETHUSDC".to_string()));
    assert_eq!(delta.sequence, SequenceNumber(1001));
    assert_eq!(delta.updates.len(), 2);

    let bid_update = &delta.updates[0];
    assert_eq!(bid_update.side, Side::Bid);
    assert_eq!(bid_update.price, Price(d("2445.12")));
    assert_eq!(bid_update.quantity, Quantity(d("3.0000")));
    assert_eq!(bid_update.action, UpdateAction::Update);

    let ask_update = &delta.updates[1];
    assert_eq!(ask_update.side, Side::Ask);
    assert_eq!(ask_update.price, Price(d("2445.15")));
    assert_eq!(ask_update.quantity, Quantity(d("1.00")));
    assert_eq!(ask_update.action, UpdateAction::Update);
}

#[test]
fn test_parse_amm_pool() {
    let json = r#"{
        "pool": "0xPOOL",
        "venue": "uniswap_v3",
        "pair": "WETH/USDC",
        "fee": 5,
        "ts": "2025-01-01T10:00:00.000Z",
        "reserves": {
            "token0": "WETH",
            "token1": "USDC",
            "amount0": "1000.0000",
            "amount1": "2445000.00"
        },
        "sqrtPriceX96": "79228162514264337593543950336"
    }"#;

    let (address, update) = parse_amm_pool(json).unwrap();

    assert_eq!(address, PoolAddress("0xPOOL".to_string()));
    assert_eq!(update.fee_tier, FeeTier(5));
    assert_eq!(update.reserves.token0, d("1000.0000"));
    assert_eq!(update.reserves.token1, d("2445000.00"));
    assert!(update.sqrt_price.is_some());

    let implied_price = update.implied_mid_from_reserves();
    assert_eq!(implied_price, Price(d("2445.0"))); // 2445000 / 1000
}

#[test]
fn test_parse_delta_delete_action() {
    let json = r#"{
        "type": "delta",
        "venue": "binance",
        "symbol": "ETHUSDC",
        "seq": 1002,
        "ts": "2025-01-01T10:00:00.100Z",
        "bids": [
            ["d", "2445.11", "0"]
        ],
        "asks": []
    }"#;

    let (_, delta) = parse_lob_delta(json).unwrap();

    assert_eq!(delta.updates.len(), 1);
    let update = &delta.updates[0];
    assert_eq!(update.action, UpdateAction::Delete);
    assert!(update.quantity.is_zero());
}

#[test]
fn test_invalid_json_format() {
    let json = r#"{"invalid": "format"}"#;
    let result = parse_lob_snapshot(json);
    assert!(result.is_err());
}

#[test]
fn test_invalid_decimal_parsing() {
    let json = r#"{
        "type": "snapshot",
        "venue": "binance",
        "symbol": "ETHUSDC",
        "seq": 1000,
        "ts": "2025-01-01T10:00:00.000Z",
        "bids": [
            ["invalid_price", "3.1005"]
        ],
        "asks": []
    }"#;

    let result = parse_lob_snapshot(json);
    assert!(result.is_err());
    assert!(result.unwrap_err().contains("Invalid bid price"));
}

fn snapshot_raw(event_type: &str, ts: &str, bids: Vec<Vec<&str>>, asks: Vec<Vec<&str>>) -> RawOrderBookSnapshot {
    let conv = |rows: Vec<Vec<&str>>| rows.into_iter().map(|r| r.into_iter().map(|c| c.to_string()).collect()).collect();
    RawOrderBookSnapshot {
        event_type: event_type.to_string(),
        symbol: "ETHUSDC".to_string(),
        seq: 7,
        ts: ts.to_string(),
        bids: conv(bids),
        asks: conv(asks),
    }
}

fn parse_error(r: Result<impl std::fmt::Debug, TradingError>) -> String {
    match r {
        Err(TradingError::ParseError(m)) => m,
        other => panic!("expected a parse error, got {:?}", other.map(|_| ())),
    }
}

#[test]
fn snapshot_errors_name_the_field() {
    let ts = "2025-01-01T10:00:00.000Z";
    let m = parse_error(lob_snapshot_from_raw(&snapshot_raw("delta", ts, vec![], vec![])));
    assert_eq!(m, "Expected snapshot type, got: delta");
    let m = parse_error(lob_snapshot_from_raw(&snapshot_raw("snapshot", "yesterday", vec![], vec![])));
    assert!(m.starts_with("Invalid timestamp: "));
    let m = parse_error(lob_snapshot_from_raw(&snapshot_raw("snapshot", ts, vec![vec!["1"]], vec![])));
    assert_eq!(m, "Invalid bid format");
    let m = parse_error(lob_snapshot_from_raw(&snapshot_raw("snapshot", ts, vec![], vec![vec!["1", "2", "3"]])));
    assert_eq!(m, "Invalid ask format");
    let m = parse_error(lob_snapshot_from_raw(&snapshot_raw("snapshot", ts, vec![], vec![vec!["1", "x"]])));
    assert!(m.starts_with("Invalid ask quantity: "));
    // Bids are read before asks
    let m = parse_error(lob_snapshot_from_raw(&snapshot_raw("snapshot", ts, vec![vec!["x", "1"]], vec![vec!["1"]])));
    assert!(m.starts_with("Invalid bid price: "));
}

#[test]
fn snapshot_later_row_replaces_earlier() {
    let ts = "2025-01-01T10:00:00.000Z";
    let raw = snapshot_raw("snapshot", ts, vec![vec!["10", "1"], vec!["10.0", "2"]], vec![]);
    let (_, snap) = lob_snapshot_from_raw(&raw).unwrap();
    assert_eq!(snap.bids.len(), 1);
    assert_eq!(snap.bids.get(&Price(d("10"))), Some(Quantity(d("2"))));
    assert_eq!(snap.timestamp.secs, 1_735_725_600);
    assert_eq!(snap.timestamp.nanos, 0);
}

#[test]
fn delta_errors_name_the_field() {
    let raw = |bids: Vec<Vec<&str>>, asks: Vec<Vec<&str>>| {
        let conv =
            |rows: Vec<Vec<&str>>| rows.into_iter().map(|r| r.into_iter().map(|c| c.to_string()).collect()).collect();
        RawOrderBookDelta {
            event_type: "delta".to_string(),
            symbol: "S".to_string(),
            seq: 1,
            ts: "2025-01-01T10:00:00.050Z".to_string(),
            bids: conv(bids),
            asks: conv(asks),
        }
    };
    assert_eq!(parse_error(lob_delta_from_raw(&raw(vec![vec!["u", "1"]], vec![]))), "Invalid bid delta format");
    assert_eq!(parse_error(lob_delta_from_raw(&raw(vec![], vec![vec!["x", "1", "1"]]))), "Invalid ask action: x");
    assert!(parse_error(lob_delta_from_raw(&raw(vec![vec!["u", "p", "1"]], vec![]))).starts_with("Invalid bid price: "));
    assert!(parse_error(lob_delta_from_raw(&raw(vec![vec!["n", "1", "q"]], vec![]))).starts_with("Invalid bid quantity: "));
    // A deletion does not read its quantity
    let (_, delta) = lob_delta_from_raw(&raw(vec![], vec![vec!["d", "5", "not a number"]])).unwrap();
    assert_eq!(delta.updates[0].side, Side::Ask);
    assert!(delta.updates[0].quantity.is_zero());
    let mut wrong = raw(vec![], vec![]);
    wrong.event_type = "snapshot".to_string();
    assert_eq!(parse_error(lob_delta_from_raw(&wrong)), "Expected delta type, got: snapshot");
}

#[test]
fn amm_errors_name_the_field() {
    let base = RawAMMPool {
        pool: "0xP".to_string(),
        fee: 30,
        ts: "2025-01-01T10:00:00.000Z".to_string(),
        amount0: "1000".to_string(),
        amount1: "2000".to_string(),
        sqrt_price_x96: None,
    };
    let (addr, update) = amm_pool_from_raw(&base, decode_sqrt_price).unwrap();
    assert_eq!(addr, PoolAddress("0xP".to_string()));
    assert_eq!(update.sqrt_price, None);
    assert_eq!(update.fee_tier, FeeTier(30));

    let mut bad = base.clone();
    bad.amount0 = "x".to_string();
    assert!(parse_error(amm_pool_from_raw(&bad, decode_sqrt_price)).starts_with("Invalid token0 reserve: "));
    let mut bad = base.clone();
    bad.amount1 = "".to_string();
    assert!(parse_error(amm_pool_from_raw(&bad, decode_sqrt_price)).starts_with("Invalid token1 reserve: "));
    let mut bad = base.clone();
    bad.sqrt_price_x96 = Some("-1".to_string());
    assert!(parse_error(amm_pool_from_raw(&bad, decode_sqrt_price)).starts_with("Invalid sqrtPriceX96: "));
    let mut bad = base.clone();
    bad.ts = "".to_string();
    assert!(parse_error(amm_pool_from_raw(&bad, decode_sqrt_price)).starts_with("Invalid timestamp: "));

    // The raw value is kept together with what the decoder made of it.
    let mut with_sqrt = base.clone();
    with_sqrt.sqrt_price_x96 = Some("158456325028528675187087900672".to_string());
    let (_, update) = amm_pool_from_raw(&with_sqrt, |_x: u128| Price(d("4"))).unwrap();
    let s = update.sqrt_price.unwrap();
    assert_eq!(s.0, 158456325028528675187087900672u128);
    assert_eq!(s.1, Price(d("4")));
}
