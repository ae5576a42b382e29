//! Core value types of the trading system.
use crate::decimal::{div_repr, pow10, rd_to_string, repr_lt, Decimal};
use vstd::prelude::*;
use vstd::string::*;

verus! {

/// A trading symbol such as `ETHUSDC`.
#[derive(Debug, PartialEq, Eq, Hash)]
pub struct Symbol(pub String);

impl View for Symbol {
    type V = Seq<char>;

    open spec fn view(&self) -> Seq<char> {
        self.0@
    }
}

impl Symbol {
    /// A copy of this symbol.
    pub fn copy(&self) -> (s: Symbol)
        ensures
            s@ == self@,
    {
        Symbol(self.0.clone())
    }

    /// The symbol's text.
    pub fn to_string(&self) -> (s: String)
        ensures
            s@ == self@,
    {
        self.0.clone()
    }

    /// Equality of the symbols' texts.
    pub fn same_as(&self, other: &Symbol) -> (b: bool)
        ensures
            b == (self@ == other@),
    {
        self.0 == other.0
    }
}

impl Clone for Symbol {
    fn clone(&self) -> (s: Symbol)
        ensures
            s@ == self@,
    {
        self.copy()
    }
}

/// A price, held as an exact decimal.
#[derive(Clone, Copy, Debug, PartialEq, Eq, Hash, Structural)]
pub struct Price(pub Decimal);

impl Price {
    /// The zero price.
    pub fn zero() -> (p: Price)
        ensures
            p.0@ == (0int, 0int),
    {
        Price(Decimal::zero())
    }

    /// The price as its decimal displays.
    pub fn to_string(&self) -> (s: String)
        ensures
            s@ == rd_to_string(self.0@),
    {
        self.0.to_string()
    }

    /// True for the zero price.
    pub fn is_zero(&self) -> (b: bool)
        ensures
            b == (self.0@.0 == 0),
    {
        self.0.is_zero()
    }

    /// `self < other`.
    pub fn lt(&self, other: &Price) -> (b: bool)
        ensures
            b == repr_lt(self.0@, other.0@),
    {
        self.0.lt(&other.0)
    }
}

/// A quantity, held as an exact decimal.
#[derive(Clone, Copy, Debug, PartialEq, Eq, Hash, Structural)]
pub struct Quantity(pub Decimal);

impl Quantity {
    /// The zero quantity.
    pub fn zero() -> (q: Quantity)
        ensures
            q.0@ == (0int, 0int),
    {
        Quantity(Decimal::zero())
    }

    /// The quantity as its decimal displays.
    pub fn to_string(&self) -> (s: String)
        ensures
            s@ == rd_to_string(self.0@),
    {
        self.0.to_string()
    }

    /// True for the zero quantity.
    pub fn is_zero(&self) -> (b: bool)
        ensures
            b == (self.0@.0 == 0),
    {
        self.0.is_zero()
    }

    /// `self < other`.
    pub fn lt(&self, other: &Quantity) -> (b: bool)
        ensures
            b == repr_lt(self.0@, other.0@),
    {
        self.0.lt(&other.0)
    }
}

/// Order side.
#[derive(Clone, Copy, Debug, PartialEq, Eq, Hash, Structural)]
pub enum Side {
    /// Bid (buy) side.
    Bid,
    /// Ask (sell) side.
    Ask,
}

impl Side {
    /// `BID` or `ASK`.
    pub fn to_string(&self) -> (s: String)
        ensures
            s@ == (match self {
                Side::Bid => "BID"@,
                Side::Ask => "ASK"@,
            }),
    {
        match self {
            Side::Bid => "BID".to_owned(),
            Side::Ask => "ASK".to_owned(),
        }
    }
}

/// Sequence number for idempotent message processing.
#[derive(Clone, Copy, Debug, PartialEq, Eq, PartialOrd, Ord, Hash, Structural)]
pub struct SequenceNumber(pub u64);

/// Update action for a price level.
#[derive(Clone, Copy, Debug, PartialEq, Eq, Hash, Structural)]
pub enum UpdateAction {
    /// Add or update a price level.
    Update,
    /// Remove a price level.
    Delete,
}

/// AMM pool address.
#[derive(Debug, PartialEq, Eq, Hash)]
pub struct PoolAddress(pub String);

impl View for PoolAddress {
    type V = Seq<char>;

    open spec fn view(&self) -> Seq<char> {
        self.0@
    }
}

impl PoolAddress {
    /// A copy of this address.
    pub fn copy(&self) -> (a: PoolAddress)
        ensures
            a@ == self@,
    {
        PoolAddress(self.0.clone())
    }

    /// The address's text.
    pub fn to_string(&self) -> (s: String)
        ensures
            s@ == self@,
    {
        self.0.clone()
    }

    /// Equality of the addresses' texts.
    pub fn same_as(&self, other: &PoolAddress) -> (b: bool)
        ensures
            b == (self@ == other@),
    {
        self.0 == other.0
    }
}

impl Clone for PoolAddress {
    fn clone(&self) -> (a: PoolAddress)
        ensures
            a@ == self@,
    {
        self.copy()
    }
}

/// Token reserves of an AMM pool.
#[derive(Clone, Copy, Debug, PartialEq, Eq, Structural)]
pub struct TokenReserves {
    /// Reserve of token0.
    pub token0: Decimal,
    /// Reserve of token1.
    pub token1: Decimal,
}

impl TokenReserves {
    /// Reserves with the given amounts.
    pub fn new(token0: Decimal, token1: Decimal) -> (r: TokenReserves)
        ensures
            r.token0 == token0,
            r.token1 == token1,
    {
        TokenReserves { token0, token1 }
    }
}

/// Square-root price of a concentrated-liquidity pool: the raw
/// `sqrtPriceX96` value together with the price it decodes to,
/// `(raw / 2^96)^2`.  Decoding is floating-point work done where the value
/// enters the system; the library reads the decoded price.
#[derive(Clone, Copy, Debug, PartialEq, Eq, Structural)]
pub struct SqrtPriceX96(pub u128, pub Price);

impl SqrtPriceX96 {
    /// The decoded price.
    pub fn to_price(&self) -> (p: Price)
        ensures
            p == self.1,
    {
        self.1
    }
}

/// Fee tier in basis points.
#[derive(Clone, Copy, Debug, PartialEq, Eq, Structural)]
pub struct FeeTier(pub u32);

/// The fee tier as a fraction: `bps / 10000`.
pub open spec fn fee_fraction(bps: u32) -> (int, int) {
    div_repr((bps as int, 0), (10000, 0)).unwrap()
}

impl FeeTier {
    /// The fee as a fraction (30 basis points is 0.003).
    pub fn to_decimal(&self) -> (d: Decimal)
        ensures
            d@ == fee_fraction(self.0),
    {
        let ten_thousand = Decimal::from_u32(10000);
        proof {
            assert(pow10(0) == 1);
        }
        Decimal::from_u32(self.0).checked_div(&ten_thousand).unwrap()
    }
}

/// Point in time: seconds and nanoseconds since the Unix epoch (UTC).
#[derive(Clone, Copy, Debug, PartialEq, Eq, Structural)]
pub struct Timestamp {
    /// Whole seconds since the epoch.
    pub secs: i64,
    /// Nanoseconds past the second.
    pub nanos: u32,
}

/// `chrono::Utc::now()` as seconds and nanoseconds; nothing is promised of
/// the value, which is the time of the call.
#[verifier::external_body]
fn chrono_now() -> (r: (i64, u32)) {
    let now = chrono::Utc::now();
    (now.timestamp(), now.timestamp_subsec_nanos())
}

/// What `chrono::DateTime::parse_from_rfc3339` makes of a text, taken to
/// UTC: seconds and nanoseconds, or the text of the error.
pub uninterp spec fn chrono_rfc3339(s: Seq<char>) -> Result<(int, int), Seq<char>>;

/// `chrono::DateTime::parse_from_rfc3339` followed by conversion to UTC;
/// the outcome is named `chrono_rfc3339`.
#[verifier::external_body]
fn chrono_parse_rfc3339(s: &str) -> (r: Result<(i64, u32), String>)
    ensures
        chrono_rfc3339(s@) == (match r {
            Ok(x) => Ok((x.0 as int, x.1 as int)),
            Err(e) => Err::<(int, int), Seq<char>>(e@),
        }),
{
    match chrono::DateTime::parse_from_rfc3339(s) {
        Ok(dt) => Ok((dt.timestamp(), dt.timestamp_subsec_nanos())),
        Err(e) => Err(e.to_string()),
    }
}

impl Timestamp {
    /// The current time.
    pub fn now() -> Timestamp {
        let (secs, nanos) = chrono_now();
        Timestamp { secs, nanos }
    }

    /// Parses an RFC 3339 timestamp; the error is chrono's message.
    pub fn parse_rfc3339(s: &str) -> (r: Result<Timestamp, String>)
        ensures
            match (r, chrono_rfc3339(s@)) {
                (Ok(t), Ok(x)) => t.secs == x.0 && t.nanos == x.1,
                (Err(e), Err(m)) => e@ == m,
                _ => false,
            },
    {
        match chrono_parse_rfc3339(s) {
            Ok((secs, nanos)) => Ok(Timestamp { secs, nanos }),
            Err(e) => Err(e),
        }
    }
}

#[verifier::external_type_specification]
#[verifier::external_body]
pub struct ExIoError(std::io::Error);

#[verifier::external_type_specification]
#[verifier::external_body]
pub struct ExJsonError(serde_json::Error);

/// Trading system errors.
#[derive(Debug)]
pub enum TradingError {
    /// Invalid price.
    InvalidPrice(String),
    /// Invalid quantity.
    InvalidQuantity(String),
    /// Sequence number out of order.
    SequenceOutOfOrder {
        /// Expected sequence number.
        expected: u64,
        /// Sequence number received.
        actual: u64,
    },
    /// Not enough liquidity for a trade of the given size.
    InsufficientLiquidity(Decimal),
    /// Malformed input.
    ParseError(String),
    /// Input/output failure.
    IoError(std::io::Error),
    /// A lock could not be taken.
    LockError(String),
    /// JSON (de)serialization failure.
    JsonError(serde_json::Error),
}

/// Result type for trading operations.
pub type TradingResult<T> = Result<T, TradingError>;

} // verus!
