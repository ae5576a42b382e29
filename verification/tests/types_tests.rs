use quant_trading_system::{Decimal, FeeTier, Price, Quantity, Side, SqrtPriceX96};

fn d(text: &str) -> Decimal {
    Decimal::parse(text).unwrap()
}

/// `(raw / 2^96)^2`, computed in floating point and taken back as a decimal.
fn decode_sqrt_price(raw: u128) -> Price {
    if raw == 0 {
        return Price::zero();
    }
    let sqrt_price = raw as f64 / (2u128.pow(96) as f64);
    let price = sqrt_price * sqrt_price;
    match rust_decimal::Decimal::try_from(price) {
        Ok(p) => Price(Decimal::from_parts(p.mantissa(), p.scale())),
        Err(_) => Price::zero(),
    }
}

#[test]
fn test_price_ordering() {
    let p1 = Price(d("100.50"));
    let p2 = Price(d("100.51"));
    assert!(p1.lt(&p2));
}

#[test]
fn test_quantity_operations() {
    let q1 = Quantity(d("10.5"));
    let q2 = Quantity(d("5.25"));
    assert!(q2.lt(&q1));
    assert!(!q1.is_zero());
    assert!(Quantity::zero().is_zero());
}

#[test]
fn types_test_fee_tier_conversion() {
    let fee = FeeTier(30); // 30 basis points
    assert_eq!(fee.to_decimal(), d("0.003"));
}

#[test]
fn test_sqrt_price_conversion() {
    // sqrtPriceX96 of 2^96 stands for sqrt(1)
    let raw = 2u128.pow(96);
    let sqrt_price = SqrtPriceX96(raw, decode_sqrt_price(raw));
    let price = sqrt_price.to_price();
    // Should be approximately 1.0, allowing for some precision loss
    assert!(price.0.sub(&d("1.0")).abs().lt(&d("0.1")));
}

#[test]
fn decimal_equality_ignores_trailing_zeros() {
    assert_eq!(d("1000.0"), d("1000"));
    assert_eq!(d("2.50"), Decimal::new(25, 1));
    assert_eq!(d("2.50").mantissa(), 25);
    assert_eq!(d("2.50").scale(), 1);
}

#[test]
fn decimal_arithmetic_exact_values() {
    assert_eq!(d("2445.12").add(&d("2445.13")), d("4890.25"));
    assert_eq!(d("2445.13").sub(&d("2445.12")), d("0.01"));
    assert_eq!(d("3.1005").mul(&d("2")), d("6.201"));
    assert_eq!(d("4890.25").div(&d("2")), d("2445.125"));
    assert_eq!(d("1").checked_div(&Decimal::zero()), None);
    assert_eq!(d("-3.5").abs(), d("3.5"));
    assert_eq!(d("1.5").min(d("2")), d("1.5"));
    assert_eq!(d("1.5").max(d("2")), d("2"));
}

#[test]
fn decimal_parse_reports_errors() {
    assert!(Decimal::parse("not_a_number").is_err());
    assert_eq!(Decimal::parse("-0.25").unwrap(), Decimal::new(-25, 2));
}

#[test]
fn side_names() {
    assert_eq!(Side::Bid.to_string(), "BID");
    assert_eq!(Side::Ask.to_string(), "ASK");
}

#[test]
fn fee_tier_five_basis_points() {
    assert_eq!(FeeTier(5).to_decimal(), d("0.0005"));
    assert_eq!(FeeTier(0).to_decimal(), Decimal::zero());
}

#[test]
fn decimal_display() {
    assert_eq!(Price(d("2445.12")).to_string(), "2445.12");
    assert_eq!(Quantity(d("0.5")).to_string(), "0.5");
    assert_eq!(Decimal::new(-25, 1).to_string(), "-2.5");
    // Trailing zeros are not kept
    assert_eq!(d("3.0000").to_string(), "3");
}
