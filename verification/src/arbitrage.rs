//! Arbitrage detection between order books and AMM pools.
use crate::amm_pool::{AMMPool, ThreadSafeAMMPool};
use crate::decimal::{div_repr, mul_repr, repr_lt, sub_repr, within_ulp, Decimal};
use crate::events::levels_map;
use crate::order_book::{OrderBookL2, ThreadSafeOrderBook};
use crate::types::{PoolAddress, Price, Quantity, Side, Symbol};
use vstd::prelude::*;
use vstd::string::*;

verus! {

/// Larger of two values, as `Decimal::max` picks it.
pub open spec fn max_repr(a: (int, int), b: (int, int)) -> (int, int) {
    if repr_lt(a, b) {
        b
    } else {
        a
    }
}

/// Smaller of two values (as `Decimal::min`).
pub open spec fn min_repr(a: (int, int), b: (int, int)) -> (int, int) {
    if repr_lt(b, a) {
        b
    } else {
        a
    }
}

/// Profit percent and estimated profit of buying `qty` at `buy` and selling
/// at `sell`: `((sell - buy) / buy) * 100` (zero for a zero buy price) and
/// `(sell - buy) * qty`; `None` when the arithmetic overflows.
pub open spec fn opportunity_values(buy: (int, int), sell: (int, int), qty: (int, int)) -> Option<
    ((int, int), (int, int)),
> {
    match sub_repr(sell, buy) {
        None => None,
        Some(per_unit) => match mul_repr(per_unit, qty) {
            None => None,
            Some(profit) => if buy.0 == 0 {
                Some(((0, 0), profit))
            } else {
                match div_repr(per_unit, buy) {
                    None => None,
                    Some(ratio) => match mul_repr(ratio, (100, 0)) {
                        None => None,
                        Some(percent) => Some((percent, profit)),
                    },
                }
            },
        },
    }
}

/// Gain of selling at `high` what was bought at `low`, in basis points:
/// `((high - low) / low) * 10000`.
pub open spec fn gain_bps(low: (int, int), high: (int, int)) -> Option<(int, int)> {
    match sub_repr(high, low) {
        None => None,
        Some(per_unit) => match div_repr(per_unit, low) {
            None => None,
            Some(ratio) => mul_repr(ratio, (10000, 0)),
        },
    }
}

/// Relative gain of selling at `high` what was bought at `low`: the price
/// difference divided by `low`.
pub open spec fn relative_gain(low: (int, int), high: (int, int)) -> Option<(int, int)> {
    match sub_repr(high, low) {
        None => None,
        Some(per_unit) => div_repr(per_unit, low),
    }
}

/// `g` is the relative gain `ratio` expressed in basis points: `ratio` times
/// 10000, within one unit of `g`'s last place.
pub open spec fn in_bps(ratio: (int, int), g: (int, int)) -> bool {
    within_ulp(g, (ratio.0 * 10000, ratio.1))
}

/// Buying at `buy` and selling at `sell` gains, in basis points of `buy`,
/// at least `min_bps`: the gain is the relative gain times 10000, and it is
/// not below the threshold.
pub open spec fn clears_threshold(min_bps: u32, buy: (int, int), sell: (int, int)) -> bool {
    &&& relative_gain(buy, sell) matches Some(ratio)
    &&& gain_bps(buy, sell) matches Some(g)
    &&& in_bps(ratio, g)
    &&& !repr_lt(g, (min_bps as int, 0))
}

/// Buying at `buy` and selling at `sell` gains, in basis points of `buy`,
/// less than `min_bps`: the gain is the relative gain times 10000, and it is
/// below the threshold.
pub open spec fn misses_threshold(min_bps: u32, buy: (int, int), sell: (int, int)) -> bool {
    &&& relative_gain(buy, sell) matches Some(ratio)
    &&& gain_bps(buy, sell) matches Some(g)
    &&& in_bps(ratio, g)
    &&& repr_lt(g, (min_bps as int, 0))
}

/// Largest AMM trade considered: `token0 * (slippage_bps / 10000)`, but no
/// less than the minimum trade size.
pub open spec fn max_amm_trade(token0: (int, int), slippage_bps: u32, min_trade: (int, int)) -> Option<(int, int)> {
    match div_repr((slippage_bps as int, 0), (10000, 0)) {
        None => None,
        Some(fraction) => match mul_repr(token0, fraction) {
            None => None,
            Some(estimate) => Some(max_repr(estimate, min_trade)),
        },
    }
}

/// Quantity of an opportunity buying at `buy` and selling at `sell` with
/// `liquidity` on the book side: the most that can be traded, the smaller
/// of the book's liquidity and the AMM cap.  `Some(None)` when there is no
/// opportunity (no price gain, or a gain below the threshold), `None` when
/// the arithmetic overflows or divides by zero.
pub open spec fn direction_quantity(
    min_profit_bps: u32,
    slippage_bps: u32,
    min_trade: (int, int),
    buy: (int, int),
    sell: (int, int),
    liquidity: (int, int),
    token0: (int, int),
) -> Option<Option<(int, int)>> {
    if !repr_lt(buy, sell) {
        Some(None)
    } else {
        match gain_bps(buy, sell) {
            None => None,
            Some(gain) => if repr_lt(gain, (min_profit_bps as int, 0)) {
                Some(None)
            } else {
                match max_amm_trade(token0, slippage_bps, min_trade) {
                    None => None,
                    Some(amm_max) => Some(Some(min_repr(liquidity, amm_max))),
                }
            },
        }
    }
}

/// An opportunity as values: (AMM is the buy venue, buy price, sell price,
/// quantity, (profit percent, estimated profit)).
pub type OppRepr = (bool, (int, int), (int, int), (int, int), ((int, int), (int, int)));

/// One direction of the check, with the opportunity's values.
pub open spec fn direction_opportunity(
    min_profit_bps: u32,
    slippage_bps: u32,
    min_trade: (int, int),
    amm_buys: bool,
    buy: (int, int),
    sell: (int, int),
    liquidity: (int, int),
    token0: (int, int),
) -> Option<Option<OppRepr>> {
    match direction_quantity(min_profit_bps, slippage_bps, min_trade, buy, sell, liquidity, token0) {
        None => None,
        Some(None) => Some(None),
        Some(Some(q)) => match opportunity_values(buy, sell, q) {
            None => None,
            Some(v) => Some(Some((amm_buys, buy, sell, q, v))),
        },
    }
}

/// A venue as values: (is an AMM pool, symbol or address).
pub open spec fn venue_view(v: Venue) -> (bool, Seq<char>) {
    match v {
        Venue::OrderBook(s) => (false, s@),
        Venue::AMM(a) => (true, a@),
    }
}

/// An opportunity as values: venues, prices, quantity, profit figures.
pub open spec fn opp_view(o: ArbitrageOpportunity) -> (
    (bool, Seq<char>),
    (bool, Seq<char>),
    (int, int),
    (int, int),
    (int, int),
    (int, int),
    (int, int),
) {
    (
        venue_view(o.buy_venue),
        venue_view(o.sell_venue),
        o.buy_price.0@,
        o.sell_price.0@,
        o.max_quantity.0@,
        o.profit_percent@,
        o.estimated_profit@,
    )
}

/// The venue is the pool at `addr`.
pub open spec fn venue_is_amm(v: Venue, addr: Seq<char>) -> bool {
    match v {
        Venue::AMM(a) => a@ == addr,
        Venue::OrderBook(_) => false,
    }
}

/// The venue is the book of `sym`.
pub open spec fn venue_is_book(v: Venue, sym: Seq<char>) -> bool {
    match v {
        Venue::OrderBook(s) => s@ == sym,
        Venue::AMM(_) => false,
    }
}

/// The opportunity has the given values, between the book of `sym` and the
/// pool at `addr`.
pub open spec fn opp_matches(o: ArbitrageOpportunity, x: OppRepr, sym: Seq<char>, addr: Seq<char>) -> bool {
    &&& o.buy_price.0@ == x.1
    &&& o.sell_price.0@ == x.2
    &&& o.max_quantity.0@ == x.3
    &&& o.profit_percent@ == x.4.0
    &&& o.estimated_profit@ == x.4.1
    &&& if x.0 {
        venue_is_amm(o.buy_venue, addr) && venue_is_book(o.sell_venue, sym)
    } else {
        venue_is_book(o.buy_venue, sym) && venue_is_amm(o.sell_venue, addr)
    }
}

/// The optional result matches the optional values.
pub open spec fn result_matches(r: Option<ArbitrageOpportunity>, x: Option<OppRepr>, sym: Seq<char>, addr: Seq<char>) -> bool {
    match (r, x) {
        (None, None) => true,
        (Some(o), Some(v)) => opp_matches(o, v, sym, addr),
        _ => false,
    }
}

/// An arbitrage opportunity between two venues.
#[derive(Debug, PartialEq)]
pub struct ArbitrageOpportunity {
    /// Venue to buy at.
    pub buy_venue: Venue,
    /// Venue to sell at.
    pub sell_venue: Venue,
    /// Buy price.
    pub buy_price: Price,
    /// Sell price.
    pub sell_price: Price,
    /// Most that can be traded: the book's liquidity at the traded price,
    /// capped by the AMM's trade size.
    pub max_quantity: Quantity,
    /// Profit in percent of the buy price.
    pub profit_percent: Decimal,
    /// Profit of trading the whole quantity.
    pub estimated_profit: Decimal,
}

impl ArbitrageOpportunity {
    /// Builds an opportunity whenever its profit figures do not overflow.
    pub fn checked_new(
        buy_venue: Venue,
        sell_venue: Venue,
        buy_price: Price,
        sell_price: Price,
        max_quantity: Quantity,
    ) -> (r: Option<ArbitrageOpportunity>)
        ensures
            r is Some <==> opportunity_values(buy_price.0@, sell_price.0@, max_quantity.0@) is Some,
            r matches Some(o) ==> {
                &&& o.buy_venue == buy_venue
                &&& o.sell_venue == sell_venue
                &&& o.buy_price == buy_price
                &&& o.sell_price == sell_price
                &&& o.max_quantity == max_quantity
                &&& Some((o.profit_percent@, o.estimated_profit@)) == opportunity_values(
                    buy_price.0@,
                    sell_price.0@,
                    max_quantity.0@,
                )
            },
    {
        let per_unit = match sell_price.0.checked_sub(&buy_price.0) {
            Some(v) => v,
            None => return None,
        };
        let estimated_profit = match per_unit.checked_mul(&max_quantity.0) {
            Some(v) => v,
            None => return None,
        };
        let profit_percent = if !buy_price.is_zero() {
            let ratio = match per_unit.checked_div(&buy_price.0) {
                Some(v) => v,
                None => return None,
            };
            match ratio.checked_mul(&Decimal::from_u32(100)) {
                Some(v) => v,
                None => return None,
            }
        } else {
            Decimal::zero()
        };
        Some(
            ArbitrageOpportunity {
                buy_venue,
                sell_venue,
                buy_price,
                sell_price,
                max_quantity,
                profit_percent,
                estimated_profit,
            },
        )
    }

    /// An opportunity: profit per unit `sell - buy`, estimated profit
    /// `(sell - buy) * quantity`, profit percent `((sell - buy) / buy) * 100`
    /// (zero for a zero buy price).  The figures must not overflow.
    pub fn new(
        buy_venue: Venue,
        sell_venue: Venue,
        buy_price: Price,
        sell_price: Price,
        max_quantity: Quantity,
    ) -> (o: ArbitrageOpportunity)
        requires
            opportunity_values(buy_price.0@, sell_price.0@, max_quantity.0@) is Some,
        ensures
            o.buy_venue == buy_venue,
            o.sell_venue == sell_venue,
            o.buy_price == buy_price,
            o.sell_price == sell_price,
            o.max_quantity == max_quantity,
            Some((o.profit_percent@, o.estimated_profit@)) == opportunity_values(
                buy_price.0@,
                sell_price.0@,
                max_quantity.0@,
            ),
    {
        Self::checked_new(buy_venue, sell_venue, buy_price, sell_price, max_quantity).unwrap()
    }
}

impl ArbitrageOpportunity {
    /// A copy of this opportunity.
    pub fn copy(&self) -> (o: ArbitrageOpportunity)
        ensures
            opp_view(o) == opp_view(*self),
    {
        ArbitrageOpportunity {
            buy_venue: self.buy_venue.copy(),
            sell_venue: self.sell_venue.copy(),
            buy_price: self.buy_price,
            sell_price: self.sell_price,
            max_quantity: self.max_quantity,
            profit_percent: self.profit_percent,
            estimated_profit: self.estimated_profit,
        }
    }
}

impl Clone for ArbitrageOpportunity {
    fn clone(&self) -> (o: ArbitrageOpportunity)
        ensures
            opp_view(o) == opp_view(*self),
    {
        self.copy()
    }
}

impl Clone for Venue {
    fn clone(&self) -> (v: Venue)
        ensures
            venue_view(v) == venue_view(*self),
    {
        self.copy()
    }
}

/// A trading venue.
#[derive(Debug, PartialEq, Eq, Hash)]
pub enum Venue {
    /// An order book, by symbol.
    OrderBook(Symbol),
    /// An AMM pool, by address.
    AMM(PoolAddress),
}

impl Venue {
    /// A copy of this venue.
    pub fn copy(&self) -> (v: Venue)
        ensures
            venue_view(v) == venue_view(*self),
    {
        match self {
            Venue::OrderBook(s) => Venue::OrderBook(s.copy()),
            Venue::AMM(a) => Venue::AMM(a.copy()),
        }
    }

    /// `OrderBook(<symbol>)` or `AMM(<address>)`.
    pub fn to_string(&self) -> (s: String)
        ensures
            s@ == (match self {
                Venue::OrderBook(sym) => "OrderBook("@ + sym@ + ")"@,
                Venue::AMM(addr) => "AMM("@ + addr@ + ")"@,
            }),
    {
        match self {
            Venue::OrderBook(symbol) => {
                let mut s = "OrderBook(".to_owned();
                s.append(symbol.0.as_str());
                s.append(")");
                s
            },
            Venue::AMM(address) => {
                let mut s = "AMM(".to_owned();
                s.append(address.0.as_str());
                s.append(")");
                s
            },
        }
    }
}

/// Arbitrage detector with a profit threshold, a slippage tolerance and a
/// minimum trade size.
#[derive(Debug)]
pub struct ArbitrageDetector {
    min_profit_bps: u32,
    max_slippage_bps: u32,
    min_trade_size: Decimal,
}

impl ArbitrageDetector {
    /// Minimum profit, in basis points.
    pub closed spec fn spec_min_profit_bps(&self) -> u32 {
        self.min_profit_bps
    }

    /// Slippage tolerance, in basis points.
    pub closed spec fn spec_max_slippage_bps(&self) -> u32 {
        self.max_slippage_bps
    }

    /// Minimum trade size.
    pub closed spec fn spec_min_trade_size(&self) -> Decimal {
        self.min_trade_size
    }

    /// What the check between a book state and a pool state gives:
    /// `Some(None)` for no opportunity, `Some(Some(..))` for one (buying at
    /// the AMM is tried first), `None` when the arithmetic overflows or
    /// divides by zero.
    pub open spec fn spec_check(&self, book: OrderBookL2, pool: AMMPool) -> Option<Option<OppRepr>> {
        match (book.spec_best_bid(), book.spec_best_ask()) {
            (Some(bid), Some(ask)) => match pool.spec_implied_mid() {
                None => None,
                Some(amm) => {
                    let token0 = pool.spec_reserves().token0@;
                    let bid_liquidity = levels_map(book.bid_levels())[bid].0@;
                    let ask_liquidity = levels_map(book.ask_levels())[ask].0@;
                    match direction_opportunity(
                        self.spec_min_profit_bps(),
                        self.spec_max_slippage_bps(),
                        self.spec_min_trade_size()@,
                        true,
                        amm,
                        bid.0@,
                        bid_liquidity,
                        token0,
                    ) {
                        None => None,
                        Some(Some(o)) => Some(Some(o)),
                        Some(None) => direction_opportunity(
                            self.spec_min_profit_bps(),
                            self.spec_max_slippage_bps(),
                            self.spec_min_trade_size()@,
                            false,
                            ask.0@,
                            amm,
                            ask_liquidity,
                            token0,
                        ),
                    }
                },
            },
            _ => Some(None),
        }
    }

    /// `r` is what the check gives for some state of the shared book and
    /// some state of the shared pool, read together (`None` also where the
    /// arithmetic overflows or divides by zero).
    pub open spec fn admits(&self, book: ThreadSafeOrderBook, pool: ThreadSafeAMMPool, r: Option<ArbitrageOpportunity>) -> bool {
        exists|b: OrderBookL2, p: AMMPool|
            #![trigger book.holds(b), pool.holds(p)]
            book.holds(b) && pool.holds(p) && match self.spec_check(b, p) {
                Some(x) => result_matches(r, x, book.symbol_view(), pool.address_view()),
                None => r is None,
            }
    }

    /// A detector with the given profit threshold, a slippage tolerance of
    /// 50 basis points and a minimum trade size of 100.
    pub fn new(min_profit_bps: u32) -> (d: ArbitrageDetector)
        ensures
            d.spec_min_profit_bps() == min_profit_bps,
            d.spec_max_slippage_bps() == 50,
            d.spec_min_trade_size()@ == (100int, 0int),
    {
        ArbitrageDetector { min_profit_bps, max_slippage_bps: 50, min_trade_size: Decimal::from_u32(100) }
    }

    /// A detector with the given parameters.
    pub fn with_params(min_profit_bps: u32, max_slippage_bps: u32, min_trade_size: Decimal) -> (d: ArbitrageDetector)
        ensures
            d.spec_min_profit_bps() == min_profit_bps,
            d.spec_max_slippage_bps() == max_slippage_bps,
            d.spec_min_trade_size() == min_trade_size,
    {
        ArbitrageDetector { min_profit_bps, max_slippage_bps, min_trade_size }
    }

    /// Largest AMM trade considered for the pool's token0 reserve.
    fn calculate_max_amm_trade(&self, token0: Decimal) -> (r: Option<Quantity>)
        ensures
            opt_quantity_view(r) == max_amm_trade(token0@, self.max_slippage_bps, self.min_trade_size@),
    {
        let fraction = match Decimal::from_u32(self.max_slippage_bps).checked_div(&Decimal::from_u32(10000)) {
            Some(v) => v,
            None => return None,
        };
        let estimate = match token0.checked_mul(&fraction) {
            Some(v) => v,
            None => return None,
        };
        Some(Quantity(estimate.max(self.min_trade_size)))
    }

    /// Quantity of one direction (see `direction_quantity`).
    fn direction_quantity(&self, buy: Price, sell: Price, liquidity: Quantity, token0: Decimal) -> (r: Option<
        Option<Quantity>,
    >)
        ensures
            match (r, direction_quantity(
                self.min_profit_bps,
                self.max_slippage_bps,
                self.min_trade_size@,
                buy.0@,
                sell.0@,
                liquidity.0@,
                token0@,
            )) {
                (None, None) => true,
                (Some(None), Some(None)) => true,
                (Some(Some(q)), Some(Some(v))) => q.0@ == v,
                _ => false,
            },
            (repr_lt(buy.0@, sell.0@) && r is Some) ==> {
                &&& relative_gain(buy.0@, sell.0@) matches Some(ratio)
                &&& gain_bps(buy.0@, sell.0@) matches Some(g)
                &&& in_bps(ratio, g)
                &&& (r matches Some(Some(_)) <==> !repr_lt(g, (self.min_profit_bps as int, 0)))
            },
    {
        if !buy.lt(&sell) {
            return Some(None);
        }
        let per_unit = match sell.0.checked_sub(&buy.0) {
            Some(v) => v,
            None => return None,
        };
        let ratio = match per_unit.checked_div(&buy.0) {
            Some(v) => v,
            None => return None,
        };
        let gain = match ratio.checked_mul(&Decimal::from_u32(10000)) {
            Some(v) => v,
            None => return None,
        };
        if gain.lt(&Decimal::from_u32(self.min_profit_bps)) {
            return Some(None);
        }
        let amm_max = match self.calculate_max_amm_trade(token0) {
            Some(v) => v,
            None => return None,
        };
        Some(Some(Quantity(liquidity.0.min(amm_max.0))))
    }

    /// One direction of the check, building the opportunity.
    fn direction_opportunity(
        &self,
        buy_venue: Venue,
        sell_venue: Venue,
        buy: Price,
        sell: Price,
        liquidity: Quantity,
        token0: Decimal,
    ) -> (r: Option<Option<ArbitrageOpportunity>>)
        ensures
            match (r, direction_quantity(
                self.min_profit_bps,
                self.max_slippage_bps,
                self.min_trade_size@,
                buy.0@,
                sell.0@,
                liquidity.0@,
                token0@,
            )) {
                (None, None) => true,
                (Some(None), Some(None)) => true,
                (None, Some(Some(q))) => opportunity_values(buy.0@, sell.0@, q) is None,
                (Some(Some(o)), Some(Some(q))) => {
                    &&& o.buy_venue == buy_venue
                    &&& o.sell_venue == sell_venue
                    &&& o.buy_price == buy
                    &&& o.sell_price == sell
                    &&& o.max_quantity.0@ == q
                    &&& Some((o.profit_percent@, o.estimated_profit@)) == opportunity_values(buy.0@, sell.0@, q)
                },
                _ => false,
            },
            r matches Some(Some(_)) ==> clears_threshold(self.min_profit_bps, buy.0@, sell.0@),
            (r matches Some(None) && repr_lt(buy.0@, sell.0@)) ==> misses_threshold(
                self.min_profit_bps,
                buy.0@,
                sell.0@,
            ),
    {
        match self.direction_quantity(buy, sell, liquidity, token0) {
            None => None,
            Some(None) => Some(None),
            Some(Some(q)) => match ArbitrageOpportunity::checked_new(buy_venue, sell_venue, buy, sell, q) {
                Some(o) => Some(Some(o)),
                None => None,
            },
        }
    }

    /// Checks a book state against a pool state, whenever the arithmetic
    /// does not overflow or divide by zero: buying at the AMM and selling to
    /// the book's best bid is tried first, then buying at the book's best
    /// ask and selling to the AMM.
    pub fn checked_arbitrage_between(&self, book: &OrderBookL2, pool: &AMMPool) -> (r: Option<
        Option<ArbitrageOpportunity>,
    >)
        ensures
            r is Some <==> self.spec_check(*book, *pool) is Some,
            r matches Some(x) ==> result_matches(
                x,
                self.spec_check(*book, *pool).unwrap(),
                book.symbol_view(),
                pool.address_view(),
            ),
            r matches Some(Some(o)) ==> clears_threshold(
                self.spec_min_profit_bps(),
                o.buy_price.0@,
                o.sell_price.0@,
            ),
            r matches Some(None) ==> match (book.spec_best_bid(), book.spec_best_ask(), pool.spec_implied_mid()) {
                (Some(bid), Some(ask), Some(amm)) => {
                    &&& repr_lt(amm, bid.0@) ==> misses_threshold(self.spec_min_profit_bps(), amm, bid.0@)
                    &&& repr_lt(ask.0@, amm) ==> misses_threshold(self.spec_min_profit_bps(), ask.0@, amm)
                },
                _ => true,
            },
    {
        let bid = match book.best_bid() {
            Some(p) => p,
            None => return Some(None),
        };
        let ask = match book.best_ask() {
            Some(p) => p,
            None => return Some(None),
        };
        let amm_mid = match pool.checked_implied_mid() {
            Some(p) => p,
            None => return None,
        };
        let token0 = pool.get_reserves().token0;
        let bid_liquidity = book.quantity_at_price(Side::Bid, bid);
        let first = self.direction_opportunity(
            Venue::AMM(pool.get_address()),
            Venue::OrderBook(book.symbol().copy()),
            amm_mid,
            bid,
            bid_liquidity,
            token0,
        );
        match first {
            None => return None,
            Some(Some(o)) => return Some(Some(o)),
            Some(None) => {},
        }
        let ask_liquidity = book.quantity_at_price(Side::Ask, ask);
        self.direction_opportunity(
            Venue::OrderBook(book.symbol().copy()),
            Venue::AMM(pool.get_address()),
            ask,
            amm_mid,
            ask_liquidity,
            token0,
        )
    }

    /// Checks a book state against a pool state; the arithmetic must not
    /// overflow or divide by zero.
    pub fn check_arbitrage_between(&self, book: &OrderBookL2, pool: &AMMPool) -> (r: Option<ArbitrageOpportunity>)
        requires
            self.spec_check(*book, *pool) is Some,
        ensures
            result_matches(r, self.spec_check(*book, *pool).unwrap(), book.symbol_view(), pool.address_view()),
            r matches Some(o) ==> clears_threshold(self.spec_min_profit_bps(), o.buy_price.0@, o.sell_price.0@),
    {
        self.checked_arbitrage_between(book, pool).unwrap()
    }

    /// Checks a shared book against a shared pool, both read under their
    /// locks at once; `None` also when the arithmetic overflows or divides
    /// by zero.
    pub fn check_arbitrage(&self, order_book: &ThreadSafeOrderBook, amm_pool: &ThreadSafeAMMPool) -> (r: Option<
        ArbitrageOpportunity,
    >)
        ensures
            self.admits(*order_book, *amm_pool, r),
            r matches Some(o) ==> clears_threshold(self.spec_min_profit_bps(), o.buy_price.0@, o.sell_price.0@),
    {
        let book_handle = order_book.inner.acquire_read();
        let pool_handle = amm_pool.inner.acquire_read();
        let ghost b = book_handle.view();
        let ghost p = pool_handle.view();
        let r = self.checked_arbitrage_between(book_handle.borrow(), pool_handle.borrow());
        proof {
            order_book.lemma_lock_state(b);
            amm_pool.lemma_lock_state(p);
        }
        pool_handle.release_read();
        book_handle.release_read();
        match r {
            Some(x) => x,
            None => None,
        }
    }

    /// Checks every shared book against every shared pool, book by book and
    /// pool by pool, and returns the opportunities found, by decreasing
    /// profit percent (pair order among equal profits).
    pub fn scan_opportunities(
        &self,
        order_books: &[ThreadSafeOrderBook],
        amm_pools: &[ThreadSafeAMMPool],
    ) -> (r: Vec<ArbitrageOpportunity>)
        ensures
            sorted_by_profit_desc(r@),
            exists|g: Seq<Seq<Option<ArbitrageOpportunity>>>|
                {
                    &&& g.len() == order_books@.len()
                    &&& forall|a: int| 0 <= a < g.len() ==> #[trigger] g[a].len() == amm_pools@.len()
                    &&& forall|a: int, b: int|
                        0 <= a < g.len() && 0 <= b < amm_pools@.len() ==> self.admits(
                            order_books@[a],
                            amm_pools@[b],
                            #[trigger] g[a][b],
                        )
                    &&& forall|a: int, b: int|
                        0 <= a < g.len() && 0 <= b < amm_pools@.len() ==> (#[trigger] g[a][b] matches Some(o)
                            ==> clears_threshold(self.spec_min_profit_bps(), o.buy_price.0@, o.sell_price.0@))
                    &&& opp_views(r@) == sort_by_profit(grid_found_views(g))
                },
    {
        let mut outcomes: Vec<Option<ArbitrageOpportunity>> = Vec::new();
        let ghost mut g: Seq<Seq<Option<ArbitrageOpportunity>>> = Seq::empty();
        let mut i: usize = 0;
        while i < order_books.len()
            invariant
                i <= order_books@.len(),
                g.len() == i,
                forall|a: int| 0 <= a < g.len() ==> #[trigger] g[a].len() == amm_pools@.len(),
                forall|a: int, b: int|
                    0 <= a < g.len() && 0 <= b < amm_pools@.len() ==> self.admits(
                        order_books@[a],
                        amm_pools@[b],
                        #[trigger] g[a][b],
                    ),
                forall|a: int, b: int|
                    0 <= a < g.len() && 0 <= b < amm_pools@.len() ==> (#[trigger] g[a][b] matches Some(o)
                        ==> clears_threshold(self.spec_min_profit_bps(), o.buy_price.0@, o.sell_price.0@)),
                found_views(outcomes@) == grid_found_views(g),
            decreases order_books@.len() - i,
        {
            let ghost mut row: Seq<Option<ArbitrageOpportunity>> = Seq::empty();
            proof {
                assert(grid_found_views(g) + found_views(row) =~= grid_found_views(g));
            }
            let mut j: usize = 0;
            while j < amm_pools.len()
                invariant
                    i < order_books@.len(),
                    j <= amm_pools@.len(),
                    g.len() == i,
                    forall|a: int| 0 <= a < g.len() ==> #[trigger] g[a].len() == amm_pools@.len(),
                    forall|a: int, b: int|
                        0 <= a < g.len() && 0 <= b < amm_pools@.len() ==> self.admits(
                            order_books@[a],
                            amm_pools@[b],
                            #[trigger] g[a][b],
                        ),
                    forall|a: int, b: int|
                        0 <= a < g.len() && 0 <= b < amm_pools@.len() ==> (#[trigger] g[a][b] matches Some(o)
                            ==> clears_threshold(self.spec_min_profit_bps(), o.buy_price.0@, o.sell_price.0@)),
                    row.len() == j,
                    forall|b: int| 0 <= b < j ==> self.admits(order_books@[i as int], amm_pools@[b], #[trigger] row[b]),
                    forall|b: int| 0 <= b < j ==> (#[trigger] row[b] matches Some(o) ==> clears_threshold(
                        self.spec_min_profit_bps(),
                        o.buy_price.0@,
                        o.sell_price.0@,
                    )),
                    found_views(outcomes@) == grid_found_views(g) + found_views(row),
                decreases amm_pools@.len() - j,
            {
                let checked = self.check_arbitrage(&order_books[i], &amm_pools[j]);
                let ghost before = outcomes@;
                let ghost old_row = row;
                proof {
                    row = row.push(checked);
                    assert(row.drop_last() =~= old_row);
                }
                outcomes.push(checked);
                proof {
                    assert(outcomes@.drop_last() =~= before);
                    assert(outcomes@.last() == row.last());
                    match row.last() {
                        Some(o) => {
                            assert(grid_found_views(g) + found_views(row) =~= (grid_found_views(g) + found_views(
                                old_row,
                            )).push(opp_view(o)));
                        },
                        None => {},
                    }
                    assert forall|b: int| 0 <= b < j + 1 implies self.admits(
                        order_books@[i as int],
                        amm_pools@[b],
                        #[trigger] row[b],
                    ) by {
                        if b < j {
                            assert(row[b] == old_row[b]);
                        }
                    }
                    assert forall|b: int| 0 <= b < j + 1 implies (#[trigger] row[b] matches Some(o)
                        ==> clears_threshold(self.spec_min_profit_bps(), o.buy_price.0@, o.sell_price.0@)) by {
                        if b < j {
                            assert(row[b] == old_row[b]);
                        }
                    }
                }
                j = j + 1;
            }
            let ghost old_g = g;
            proof {
                g = g.push(row);
                assert(g.drop_last() =~= old_g);
                assert forall|a: int| 0 <= a < g.len() implies #[trigger] g[a].len() == amm_pools@.len() by {
                    if a < old_g.len() {
                        assert(g[a] == old_g[a]);
                    }
                }
                assert forall|a: int, b: int|
                    0 <= a < g.len() && 0 <= b < amm_pools@.len() implies self.admits(
                        order_books@[a],
                        amm_pools@[b],
                        #[trigger] g[a][b],
                    ) by {
                    if a < old_g.len() {
                        assert(g[a] == old_g[a]);
                    } else {
                        assert(g[a] == row);
                    }
                }
                assert forall|a: int, b: int|
                    0 <= a < g.len() && 0 <= b < amm_pools@.len() implies (#[trigger] g[a][b] matches Some(o)
                        ==> clears_threshold(self.spec_min_profit_bps(), o.buy_price.0@, o.sell_price.0@)) by {
                    if a < old_g.len() {
                        assert(g[a] == old_g[a]);
                    } else {
                        assert(g[a] == row);
                    }
                }
            }
            i = i + 1;
        }
        opportunities_from_outcomes(&outcomes)
    }

    /// Minimum profit, in basis points.
    pub fn min_profit_bps(&self) -> (b: u32)
        ensures
            b == self.spec_min_profit_bps(),
    {
        self.min_profit_bps
    }

    /// Slippage tolerance, in basis points.
    pub fn max_slippage_bps(&self) -> (b: u32)
        ensures
            b == self.spec_max_slippage_bps(),
    {
        self.max_slippage_bps
    }

    /// Minimum trade size.
    pub fn min_trade_size(&self) -> (d: Decimal)
        ensures
            d == self.spec_min_trade_size(),
    {
        self.min_trade_size
    }
}

/// An opportunity as values (see `opp_view`).
pub type OppView = ((bool, Seq<char>), (bool, Seq<char>), (int, int), (int, int), (int, int), (int, int), (int, int));

/// The opportunities among per-pair outcomes, in order, as values.
pub open spec fn found_views(s: Seq<Option<ArbitrageOpportunity>>) -> Seq<OppView>
    decreases s.len(),
{
    if s.len() == 0 {
        Seq::empty()
    } else {
        let prev = found_views(s.drop_last());
        match s.last() {
            Some(o) => prev.push(opp_view(o)),
            None => prev,
        }
    }
}

/// The opportunities among the outcomes of a grid of pairs, row by row.
pub open spec fn grid_found_views(g: Seq<Seq<Option<ArbitrageOpportunity>>>) -> Seq<OppView>
    decreases g.len(),
{
    if g.len() == 0 {
        Seq::empty()
    } else {
        grid_found_views(g.drop_last()) + found_views(g.last())
    }
}

/// `x` put after every element whose profit percent is at least its own.
pub open spec fn insert_by_profit(t: Seq<OppView>, x: OppView) -> Seq<OppView>
    decreases t.len(),
{
    if t.len() == 0 {
        seq![x]
    } else if repr_lt(t[0].5, x.5) {
        seq![x] + t
    } else {
        seq![t[0]] + insert_by_profit(t.drop_first(), x)
    }
}

/// The stable sort by decreasing profit percent: the elements, in order,
/// each put after every element already placed with at least its profit.
pub open spec fn sort_by_profit(s: Seq<OppView>) -> Seq<OppView>
    decreases s.len(),
{
    if s.len() == 0 {
        Seq::empty()
    } else {
        insert_by_profit(sort_by_profit(s.drop_last()), s.last())
    }
}

proof fn lemma_insert_by_profit_at(t: Seq<OppView>, x: OppView, pos: int)
    requires
        0 <= pos <= t.len(),
        forall|i: int| 0 <= i < pos ==> !repr_lt(#[trigger] t[i].5, x.5),
        pos < t.len() ==> repr_lt(t[pos].5, x.5),
    ensures
        insert_by_profit(t, x) == t.insert(pos, x),
    decreases pos,
{
    if pos == 0 {
        if t.len() == 0 {
            assert(t.insert(0, x) =~= seq![x]);
        } else {
            assert(t.insert(0, x) =~= seq![x] + t);
        }
    } else {
        let u = t.drop_first();
        assert forall|i: int| 0 <= i < pos - 1 implies !repr_lt(#[trigger] u[i].5, x.5) by {
            assert(u[i] == t[i + 1]);
        }
        lemma_insert_by_profit_at(u, x, pos - 1);
        assert(!repr_lt(t[0].5, x.5));
        assert(seq![t[0]] + u.insert(pos - 1, x) =~= t.insert(pos, x));
    }
}

/// The opportunities among per-pair outcomes, in outcome order, sorted
/// stably by decreasing profit percent.
pub fn opportunities_from_outcomes(outcomes: &Vec<Option<ArbitrageOpportunity>>) -> (r: Vec<ArbitrageOpportunity>)
    ensures
        opp_views(r@) == sort_by_profit(found_views(outcomes@)),
        sorted_by_profit_desc(r@),
{
    let mut found: Vec<ArbitrageOpportunity> = Vec::new();
    let mut i: usize = 0;
    proof {
        assert(outcomes@.take(0) =~= Seq::<Option<ArbitrageOpportunity>>::empty());
        assert(opp_views(found@) =~= Seq::<OppView>::empty());
    }
    while i < outcomes.len()
        invariant
            i <= outcomes@.len(),
            opp_views(found@) == found_views(outcomes@.take(i as int)),
        decreases outcomes@.len() - i,
    {
        proof {
            assert(outcomes@.take(i + 1).drop_last() =~= outcomes@.take(i as int));
            assert(outcomes@.take(i + 1).last() == outcomes@[i as int]);
        }
        match &outcomes[i] {
            Some(o) => {
                let c = o.copy();
                let ghost before = found@;
                found.push(c);
                proof {
                    assert(opp_views(found@) =~= opp_views(before).push(opp_view(c)));
                }
            },
            None => {},
        }
        i = i + 1;
    }
    proof {
        assert(outcomes@.take(outcomes@.len() as int) =~= outcomes@);
    }
    sort_by_profit_desc(&found)
}

/// Profit percents never increase along the sequence.
pub open spec fn sorted_by_profit_desc(s: Seq<ArbitrageOpportunity>) -> bool {
    forall|i: int, j: int| 0 <= i < j < s.len() ==> !repr_lt(#[trigger] s[i].profit_percent@, #[trigger] s[j].profit_percent@)
}

/// The views of a sequence of opportunities.
pub open spec fn opp_views(s: Seq<ArbitrageOpportunity>) -> Seq<
    ((bool, Seq<char>), (bool, Seq<char>), (int, int), (int, int), (int, int), (int, int), (int, int)),
> {
    s.map_values(|o: ArbitrageOpportunity| opp_view(o))
}

/// Orders opportunities by decreasing profit percent, keeping the order of
/// opportunities with equal profit percent.
pub fn sort_by_profit_desc(v: &Vec<ArbitrageOpportunity>) -> (r: Vec<ArbitrageOpportunity>)
    ensures
        opp_views(r@) == sort_by_profit(opp_views(v@)),
        sorted_by_profit_desc(r@),
        opp_views(r@).to_multiset() == opp_views(v@).to_multiset(),
{
    broadcast use vstd::seq_lib::group_to_multiset_ensures;

    let mut out: Vec<ArbitrageOpportunity> = Vec::new();
    let mut k: usize = 0;
    while k < v.len()
        invariant
            k <= v@.len(),
            sorted_by_profit_desc(out@),
            opp_views(out@).to_multiset() == opp_views(v@.take(k as int)).to_multiset(),
            opp_views(out@) == sort_by_profit(opp_views(v@.take(k as int))),
        decreases v@.len() - k,
    {
        let x = v[k].copy();
        let mut pos: usize = 0;
        while pos < out.len() && !out[pos].profit_percent.lt(&x.profit_percent)
            invariant
                pos <= out@.len(),
                forall|i: int| 0 <= i < pos ==> !repr_lt(#[trigger] out@[i].profit_percent@, x.profit_percent@),
            decreases out@.len() - pos,
        {
            pos = pos + 1;
        }
        let ghost old_out = out@;
        proof {
            let t = old_out.insert(pos as int, x);
            assert forall|i: int, j: int| 0 <= i < j < t.len() implies !repr_lt(
                #[trigger] t[i].profit_percent@,
                #[trigger] t[j].profit_percent@,
            ) by {
                if j < pos {
                    assert(!repr_lt(old_out[i].profit_percent@, old_out[j].profit_percent@));
                } else if j == pos {
                    assert(!repr_lt(old_out[i].profit_percent@, x.profit_percent@));
                } else if i < pos {
                    assert(!repr_lt(old_out[i].profit_percent@, old_out[j - 1].profit_percent@));
                } else if i == pos {
                    assert(repr_lt(old_out[pos as int].profit_percent@, x.profit_percent@));
                    if pos as int != j - 1 {
                        assert(!repr_lt(old_out[pos as int].profit_percent@, old_out[j - 1].profit_percent@));
                    }
                    if repr_lt(x.profit_percent@, old_out[j - 1].profit_percent@) {
                        crate::decimal::lemma_lt_transitive(
                            old_out[pos as int].profit_percent@,
                            x.profit_percent@,
                            old_out[j - 1].profit_percent@,
                        );
                    }
                } else {
                    assert(!repr_lt(old_out[i - 1].profit_percent@, old_out[j - 1].profit_percent@));
                }
            }
            assert(opp_views(t) =~= opp_views(old_out).insert(pos as int, opp_view(x)));
            vstd::seq_lib::to_multiset_insert(opp_views(old_out), pos as int, opp_view(x));
            assert(v@.take(k + 1) =~= v@.take(k as int).push(v@[k as int]));
            assert(opp_views(v@.take(k + 1)) =~= opp_views(v@.take(k as int)).push(opp_view(v@[k as int])));
            vstd::seq_lib::to_multiset_build(opp_views(v@.take(k as int)), opp_view(v@[k as int]));
            assert forall|i: int| 0 <= i < pos implies !repr_lt(#[trigger] opp_views(old_out)[i].5, opp_view(x).5) by {
                assert(opp_views(old_out)[i] == opp_view(old_out[i]));
            }
            if pos < old_out.len() {
                assert(opp_views(old_out)[pos as int] == opp_view(old_out[pos as int]));
            }
            lemma_insert_by_profit_at(opp_views(old_out), opp_view(x), pos as int);
            assert(opp_views(v@.take(k + 1)).drop_last() =~= opp_views(v@.take(k as int)));
        }
        let ghost xv = opp_view(x);
        out.insert(pos, x);
        proof {
            assert(out@ == old_out.insert(pos as int, x));
            assert(opp_views(out@) =~= opp_views(old_out).insert(pos as int, xv));
            assert(opp_views(out@).to_multiset() == opp_views(old_out).to_multiset().insert(xv));
        }
        k = k + 1;
    }
    proof {
        assert(v@.take(v@.len() as int) =~= v@);
    }
    out
}

/// A reported opportunity buys strictly cheaper than it sells, trades at
/// the book's best bid when buying at the AMM or at the book's best ask
/// when selling to it, and never trades more than the book holds at that
/// price.
pub proof fn lemma_opportunity_profitable(d: ArbitrageDetector, book: OrderBookL2, pool: AMMPool)
    ensures
        d.spec_check(book, pool) matches Some(Some(x)) ==> {
            &&& repr_lt(x.1, x.2)
            &&& x.0 ==> (book.spec_best_bid() matches Some(bid) && x.2 == bid.0@ && !repr_lt(
                levels_map(book.bid_levels())[bid].0@,
                x.3,
            ))
            &&& !x.0 ==> (book.spec_best_ask() matches Some(ask) && x.1 == ask.0@ && !repr_lt(
                levels_map(book.ask_levels())[ask].0@,
                x.3,
            ))
            &&& Some(x.4) == opportunity_values(x.1, x.2, x.3)
        },
{
    if let Some(Some(x)) = d.spec_check(book, pool) {
        let bid = book.spec_best_bid().unwrap();
        let ask = book.spec_best_ask().unwrap();
        let amm = pool.spec_implied_mid().unwrap();
        let token0 = pool.spec_reserves().token0@;
        let mt = d.spec_min_trade_size()@;
        let bl = levels_map(book.bid_levels())[bid].0@;
        let al = levels_map(book.ask_levels())[ask].0@;
        if x.0 {
            let cap = max_amm_trade(token0, d.spec_max_slippage_bps(), mt).unwrap();
            crate::decimal::lemma_lt_asymmetric(bl, cap);
            crate::decimal::lemma_lt_asymmetric(cap, bl);
        } else {
            let cap = max_amm_trade(token0, d.spec_max_slippage_bps(), mt).unwrap();
            crate::decimal::lemma_lt_asymmetric(al, cap);
            crate::decimal::lemma_lt_asymmetric(cap, al);
        }
    }
}

/// A reported opportunity buys at `x.1` and sells at `x.2` with a gain, in
/// basis points, of at least the detector's threshold, where the gain is
/// the relative gain `(sell - buy) / buy` multiplied by 10000.
pub proof fn lemma_reported_gain_clears_threshold(d: ArbitrageDetector, book: OrderBookL2, pool: AMMPool)
    ensures
        d.spec_check(book, pool) matches Some(Some(x)) ==> match (relative_gain(x.1, x.2), gain_bps(x.1, x.2)) {
            (Some(ratio), Some(g)) => {
                &&& mul_repr(ratio, (10000, 0)) == Some(g)
                &&& !repr_lt(g, (d.spec_min_profit_bps() as int, 0))
            },
            _ => false,
        },
{
}

/// A book without bids or without asks gives no opportunity, and neither
/// does an AMM price within the book's spread (at or above the best bid and
/// at or below the best ask).
pub proof fn lemma_no_arbitrage_inside_spread(d: ArbitrageDetector, book: OrderBookL2, pool: AMMPool)
    ensures
        (book.spec_best_bid() is None || book.spec_best_ask() is None) ==> d.spec_check(book, pool) == Some(
            None::<OppRepr>,
        ),
        (book.spec_best_bid() matches Some(bid) && book.spec_best_ask() matches Some(ask) && pool.spec_implied_mid()
            matches Some(amm) && !repr_lt(amm, bid.0@) && !repr_lt(ask.0@, amm)) ==> d.spec_check(book, pool)
            == Some(None::<OppRepr>),
{
}

/// The value of an optional quantity.
pub open spec fn opt_quantity_view(q: Option<Quantity>) -> Option<(int, int)> {
    match q {
        Some(x) => Some(x.0@),
        None => None,
    }
}

/// The symbol `s` paired with each address, in order.
pub open spec fn row_pairs(s: Seq<char>, aa: Seq<Seq<char>>) -> Seq<(Seq<char>, Seq<char>)> {
    aa.map_values(|a: Seq<char>| (s, a))
}

/// Every symbol paired with every address, symbol by symbol.
pub open spec fn all_pairs(ss: Seq<Seq<char>>, aa: Seq<Seq<char>>) -> Seq<(Seq<char>, Seq<char>)>
    decreases ss.len(),
{
    if ss.len() == 0 {
        Seq::empty()
    } else {
        all_pairs(ss.drop_last(), aa) + row_pairs(ss.last(), aa)
    }
}

/// The texts of (symbol, address) pairs.
pub open spec fn pair_views(r: Seq<(Symbol, PoolAddress)>) -> Seq<(Seq<char>, Seq<char>)> {
    r.map_values(|p: (Symbol, PoolAddress)| (p.0@, p.1@))
}

/// The book-and-pool pairs to check for arbitrage: every symbol with every
/// address, symbol by symbol.
pub fn pairs_to_check(symbols: &Vec<Symbol>, addresses: &Vec<PoolAddress>) -> (r: Vec<(Symbol, PoolAddress)>)
    ensures
        pair_views(r@) == all_pairs(
            symbols@.map_values(|s: Symbol| s@),
            addresses@.map_values(|a: PoolAddress| a@),
        ),
{
    let ghost sv = symbols@.map_values(|s: Symbol| s@);
    let ghost av = addresses@.map_values(|a: PoolAddress| a@);
    let mut out: Vec<(Symbol, PoolAddress)> = Vec::new();
    proof {
        assert(sv.take(0) =~= Seq::<Seq<char>>::empty());
        assert(pair_views(out@) =~= Seq::<(Seq<char>, Seq<char>)>::empty());
    }
    let mut i: usize = 0;
    while i < symbols.len()
        invariant
            sv == symbols@.map_values(|s: Symbol| s@),
            av == addresses@.map_values(|a: PoolAddress| a@),
            i <= symbols@.len(),
            pair_views(out@) == all_pairs(sv.take(i as int), av),
        decreases symbols@.len() - i,
    {
        proof {
            assert(av.take(0) =~= Seq::<Seq<char>>::empty());
            assert(row_pairs(sv[i as int], av.take(0)) =~= Seq::<(Seq<char>, Seq<char>)>::empty());
            assert(all_pairs(sv.take(i as int), av) + row_pairs(sv[i as int], av.take(0)) =~= all_pairs(
                sv.take(i as int),
                av,
            ));
        }
        let mut j: usize = 0;
        while j < addresses.len()
            invariant
                sv == symbols@.map_values(|s: Symbol| s@),
                av == addresses@.map_values(|a: PoolAddress| a@),
                i < symbols@.len(),
                j <= addresses@.len(),
                pair_views(out@) == all_pairs(sv.take(i as int), av) + row_pairs(sv[i as int], av.take(j as int)),
            decreases addresses@.len() - j,
        {
            let ghost before = out@;
            out.push((symbols[i].copy(), addresses[j].copy()));
            proof {
                assert(row_pairs(sv[i as int], av.take(j + 1)) =~= row_pairs(sv[i as int], av.take(j as int)).push(
                    (sv[i as int], av[j as int]),
                ));
                assert(pair_views(out@) =~= pair_views(before).push((sv[i as int], av[j as int])));
            }
            j = j + 1;
        }
        proof {
            assert(av.take(addresses@.len() as int) =~= av);
            assert(sv.take(i + 1).drop_last() =~= sv.take(i as int));
            assert(sv.take(i + 1).last() == sv[i as int]);
        }
        i = i + 1;
    }
    proof {
        assert(sv.take(symbols@.len() as int) =~= sv);
    }
    out
}

} // verus!
