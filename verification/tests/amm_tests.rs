use quant_trading_system::amm_pool::{AMMPool, AMMPoolType, ThreadSafeAMMPool, TokenIndex};
use quant_trading_system::events::AMMPoolUpdate;
use quant_trading_system::{Decimal, FeeTier, PoolAddress, Price, SqrtPriceX96, Timestamp, TokenReserves, TradingError};

fn d(text: &str) -> Decimal {
    Decimal::parse(text).unwrap()
}

/// `(raw / 2^96)^2`, computed in floating point and taken back as a decimal.
fn decode_sqrt_price(raw: u128) -> Price {
    if raw == 0 {
        return Price::zero();
    }
    let sqrt_price = raw as f64 / (2u128.pow(96) as f64);
    let price = sqrt_price * sqrt_price;
    match rust_decimal::Decimal::try_from(price) {
        Ok(p) => Price(Decimal::from_parts(p.mantissa(), p.scale())),
        Err(_) => Price::zero(),
    }
}

fn sqrt_price(raw: u128) -> SqrtPriceX96 {
    SqrtPriceX96(raw, decode_sqrt_price(raw))
}

#[test]
fn test_v2_pool_creation() {
    let reserves = TokenReserves::new(d("1000.0"), d("2000.0"));
    let pool = AMMPool::new_v2(PoolAddress("0x123".to_string()), reserves, FeeTier(30));

    assert_eq!(pool.pool_type(), &AMMPoolType::ConstantProduct);
    assert_eq!(pool.implied_mid_from_reserves(), Price(d("2.0")));
}

#[test]
fn test_v3_pool_creation() {
    let reserves = TokenReserves::new(d("1000.0"), d("2000.0"));
    let sqrt = sqrt_price(2u128.pow(96)); // sqrt(1) = 1
    let pool = AMMPool::new_v3(PoolAddress("0x456".to_string()), reserves, sqrt, FeeTier(30));

    assert_eq!(pool.pool_type(), &AMMPoolType::ConcentratedLiquidity);
    assert!(pool.sqrt_price().is_some());
}

#[test]
fn amm_pool_test_price_impact_calculation() {
    let reserves = TokenReserves::new(d("1000.0"), d("2000.0"));
    let pool = AMMPool::new_v2(PoolAddress("0x123".to_string()), reserves, FeeTier(30));

    let result = pool.calculate_price_impact(TokenIndex::Token0, d("10.0")).unwrap();

    // With 0.3% fee, input after fee = 10 * 0.997 = 9.97
    // Output = (2000 * 9.97) / (1000 + 9.97) = 19.7406...
    assert!(d("19.7").lt(&result.output_amount));
    assert!(result.output_amount.lt(&d("19.8")));
    assert!(d("0.0").lt(&result.price_impact_percent));
    assert_eq!(result.fee_amount, d("0.03"));
}

#[test]
fn amm_pool_test_large_trade_price_impact() {
    let reserves = TokenReserves::new(d("1000.0"), d("2000.0"));
    let pool = AMMPool::new_v2(PoolAddress("0x123".to_string()), reserves, FeeTier(30));

    let result = pool.calculate_price_impact(TokenIndex::Token0, d("100.0")).unwrap();

    assert!(d("5.0").lt(&result.price_impact_percent));
}

#[test]
fn test_insufficient_liquidity() {
    let reserves = TokenReserves::new(d("100.0"), d("200.0"));
    let pool = AMMPool::new_v2(PoolAddress("0x123".to_string()), reserves, FeeTier(30));

    let result = pool.calculate_price_impact(TokenIndex::Token0, d("1000.0"));

    if let Ok(impact) = result {
        assert!(d("50.0").lt(&impact.price_impact_percent));
    } else {
        assert!(result.is_err());
    }
}

#[test]
fn test_thread_safe_amm_pool() {
    let reserves = TokenReserves::new(d("1000.0"), d("2000.0"));
    let pool = ThreadSafeAMMPool::new_v2(PoolAddress("0x123".to_string()), reserves, FeeTier(30));

    // Reads through a second handle to the same pool
    let pool_clone = pool.clone();
    for _ in 0..100 {
        let _ = pool_clone.implied_mid();
        let _ = pool_clone.calculate_price_impact(TokenIndex::Token0, d("1.0"));
    }
    for _ in 0..100 {
        let _ = pool.get_reserves();
        let _ = pool.get_fee_tier();
    }

    assert_eq!(pool.implied_mid(), Price(d("2.0")));
}

#[test]
fn test_pool_state_update() {
    let reserves = TokenReserves::new(d("1000.0"), d("2000.0"));
    let pool = ThreadSafeAMMPool::new_v2(PoolAddress("0x123".to_string()), reserves, FeeTier(30));

    let new_reserves = TokenReserves::new(d("1100.0"), d("1900.0"));
    let update = AMMPoolUpdate::new(Timestamp::now(), new_reserves, None, FeeTier(25));

    pool.update_state(update).unwrap();

    assert_eq!(pool.get_reserves(), new_reserves);
    assert_eq!(pool.get_fee_tier(), FeeTier(25));

    let new_price = d("1900.0").div(&d("1100.0"));
    assert_eq!(pool.implied_mid(), Price(new_price));
}

#[test]
fn test_amm_pool_v2_creation() {
    let address = PoolAddress("0x123".to_string());
    let reserves = TokenReserves::new(d("1000.0"), d("2000.0"));
    let fee_tier = FeeTier(30);

    let pool = ThreadSafeAMMPool::new_v2(address.clone(), reserves, fee_tier);

    assert_eq!(pool.get_address(), address);
    assert_eq!(pool.get_reserves().token0, d("1000.0"));
    assert_eq!(pool.get_reserves().token1, d("2000.0"));
    assert_eq!(pool.get_fee_tier(), fee_tier);
    assert_eq!(pool.pool_type(), AMMPoolType::ConstantProduct);
}

#[test]
fn test_amm_pool_v3_creation() {
    let address = PoolAddress("0x456".to_string());
    let reserves = TokenReserves::new(d("500.0"), d("1500.0"));
    let sqrt = sqrt_price(2u128.pow(96) * 2); // sqrt(4) * 2^96
    let fee_tier = FeeTier(5);

    let pool = ThreadSafeAMMPool::new_v3(address.clone(), reserves, sqrt, fee_tier);

    assert_eq!(pool.get_address(), address);
    assert_eq!(pool.pool_type(), AMMPoolType::ConcentratedLiquidity);
}

#[test]
fn test_implied_mid_price_v2() {
    let reserves = TokenReserves::new(d("1000.0"), d("2000.0"));
    let pool = ThreadSafeAMMPool::new_v2(PoolAddress("0x789".to_string()), reserves, FeeTier(30));
    let mid_price = pool.implied_mid();

    assert_eq!(mid_price, Price(d("2.0")));
}

#[test]
fn test_implied_mid_price_v3_with_sqrt_price() {
    let reserves = TokenReserves::new(d("1000.0"), d("2000.0"));
    let sqrt = sqrt_price(2u128.pow(96)); // price of 1
    let pool = ThreadSafeAMMPool::new_v3(PoolAddress("0xABC".to_string()), reserves, sqrt, FeeTier(5));
    let mid_price = pool.implied_mid();

    // Should use sqrt_price, not reserves
    assert!(mid_price.0.sub(&d("1.0")).abs().lt(&d("0.1")));
}

#[test]
fn amm_tests_test_price_impact_calculation() {
    let reserves = TokenReserves::new(d("1000.0"), d("2000.0"));
    let pool = ThreadSafeAMMPool::new_v2(PoolAddress("0xDEF".to_string()), reserves, FeeTier(30));

    let result = pool.calculate_price_impact(TokenIndex::Token0, d("10.0"));
    assert!(result.is_ok());

    let impact = result.unwrap();
    assert!(d("0.0").lt(&impact.output_amount));
    assert!(!impact.price_impact_percent.lt(&d("0.0")));
    assert!(d("0.0").lt(&impact.fee_amount));
}

#[test]
fn test_amm_pool_state_update() {
    let initial_reserves = TokenReserves::new(d("1000.0"), d("2000.0"));
    let fee_tier = FeeTier(30);
    let pool = ThreadSafeAMMPool::new_v2(PoolAddress("0x111".to_string()), initial_reserves, fee_tier);

    let new_reserves = TokenReserves::new(d("1100.0"), d("1900.0"));
    let update = AMMPoolUpdate::new(Timestamp::now(), new_reserves, None, fee_tier);

    let result = pool.update_state(update);
    assert!(result.is_ok());

    assert_eq!(pool.get_reserves().token0, d("1100.0"));
    assert_eq!(pool.get_reserves().token1, d("1900.0"));
}

#[test]
fn test_zero_reserves_handling() {
    let reserves = TokenReserves::new(d("0.0"), d("1000.0"));
    let pool = ThreadSafeAMMPool::new_v2(PoolAddress("0x222".to_string()), reserves, FeeTier(30));

    assert_eq!(pool.implied_mid(), Price::zero());
}

#[test]
fn amm_tests_test_large_trade_price_impact() {
    let reserves = TokenReserves::new(d("1000.0"), d("2000.0"));
    let pool = ThreadSafeAMMPool::new_v2(PoolAddress("0x333".to_string()), reserves, FeeTier(30));

    let result = pool.calculate_price_impact(TokenIndex::Token0, d("500.0"));
    assert!(result.is_ok());

    let impact = result.unwrap();
    assert!(d("10.0").lt(&impact.price_impact_percent));
}

#[test]
fn amm_tests_test_fee_tier_conversion() {
    let fee_30 = FeeTier(30);
    assert_eq!(fee_30.to_decimal(), d("0.003"));

    let fee_5 = FeeTier(5);
    assert_eq!(fee_5.to_decimal(), d("0.0005"));
}

#[test]
fn test_token_reserves_operations() {
    let reserves1 = TokenReserves::new(d("1000.0"), d("2000.0"));
    let reserves2 = TokenReserves::new(d("500.0"), d("1000.0"));

    assert_eq!(reserves1.token0, d("1000.0"));
    assert_eq!(reserves1.token1, d("2000.0"));
    assert_ne!(reserves1, reserves2);
}

#[test]
fn price_impact_exact_values() {
    // 10 in at 0.3%: fee 0.03, 9.97 after fee; out = 2000 * 9.97 / 1009.97
    let reserves = TokenReserves::new(d("1000"), d("2000"));
    let pool = AMMPool::new_v2(PoolAddress("0x1".to_string()), reserves, FeeTier(30));
    let r = pool.calculate_price_impact(TokenIndex::Token1, d("20")).unwrap();
    assert_eq!(r.fee_amount, d("0.06"));
    assert!(r.output_amount.lt(&d("10")));
    assert!(d("9.8").lt(&r.output_amount));
}

#[test]
fn price_impact_on_empty_reserve_is_insufficient_liquidity() {
    let reserves = TokenReserves::new(d("0"), d("2000"));
    let pool = AMMPool::new_v2(PoolAddress("0x1".to_string()), reserves, FeeTier(30));
    match pool.calculate_price_impact(TokenIndex::Token0, d("10")) {
        Err(TradingError::InsufficientLiquidity(_)) => {}
        other => panic!("unexpected result: {:?}", other),
    }
}

#[test]
fn update_state_keeps_kind_and_address() {
    let reserves = TokenReserves::new(d("1000"), d("2000"));
    let mut pool = AMMPool::new_v3(PoolAddress("0x9".to_string()), reserves, sqrt_price(2u128.pow(96)), FeeTier(5));
    let update = AMMPoolUpdate::new(Timestamp::now(), TokenReserves::new(d("10"), d("30")), None, FeeTier(30));
    pool.update_state(update).unwrap();
    assert_eq!(pool.pool_type(), &AMMPoolType::ConcentratedLiquidity);
    assert_eq!(pool.get_address(), PoolAddress("0x9".to_string()));
    assert_eq!(pool.get_sqrt_price(), None);
    assert_eq!(pool.implied_mid(), Price(d("3")));
}

#[test]
fn quote_never_drains_the_output_reserve() {
    let reserves = TokenReserves::new(d("1000"), d("2000"));
    let pool = AMMPool::new_v2(PoolAddress("0x1".to_string()), reserves, FeeTier(30));
    let r = pool.calculate_price_impact(TokenIndex::Token0, d("1000000")).unwrap();
    assert!(r.output_amount.lt(&d("2000")));
    assert!(d("99").lt(&r.price_impact_percent));
}
