//! Quantitative trading core: L2 order books, AMM pools, arbitrage
//! detection and market data management, with machine-checked contracts.

pub mod decimal;
pub mod shared;
pub mod types;
pub mod events;
pub mod order_book;
pub mod amm_pool;
pub mod arbitrage;
pub mod market_data;
pub mod metrics;
pub mod parsers;
pub mod ingestion;
pub mod logging;
pub mod simulation;

pub use decimal::Decimal;
pub use types::{
    FeeTier, PoolAddress, Price, Quantity, SequenceNumber, Side, SqrtPriceX96, Symbol, Timestamp,
    TokenReserves, TradingError, TradingResult, UpdateAction,
};
