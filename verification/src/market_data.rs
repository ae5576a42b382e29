//! Market data manager: the order books and AMM pools of the system.
use crate::amm_pool::{AMMPool, AMMPoolType, ThreadSafeAMMPool};
use crate::decimal::Decimal;
use crate::events::{
    mid_of, mid_repr, spread_of, spread_repr, AMMPoolUpdate, MarketEvent, OrderBookDelta, OrderBookSnapshot, Trade,
};
use crate::order_book::{delta_outcome, outcome_matches, snapshot_outcome, BookState, OrderBookL2, ThreadSafeOrderBook};
use crate::types::{FeeTier, PoolAddress, Price, Symbol, Timestamp, TokenReserves, TradingError, TradingResult};
use vstd::prelude::*;
use vstd::rwlock::{RwLock, RwLockPredicate};
use vstd::string::*;

verus! {

/// Registered books: no symbol twice, each book registered under its own
/// symbol.
pub open spec fn book_registry_wf(s: Seq<(Symbol, ThreadSafeOrderBook)>) -> bool {
    &&& forall|i: int, j: int| 0 <= i < j < s.len() ==> #[trigger] s[i].0@ != #[trigger] s[j].0@
    &&& forall|i: int| 0 <= i < s.len() ==> (#[trigger] s[i]).1.symbol_view() == s[i].0@
}

/// Registered pools: no address twice.
pub open spec fn pool_registry_wf(s: Seq<(PoolAddress, ThreadSafeAMMPool)>) -> bool {
    forall|i: int, j: int| 0 <= i < j < s.len() ==> #[trigger] s[i].0@ != #[trigger] s[j].0@
}

/// What the book registry always satisfies.
pub struct BookRegistryInv {}

impl RwLockPredicate<Vec<(Symbol, ThreadSafeOrderBook)>> for BookRegistryInv {
    open spec fn inv(self, v: Vec<(Symbol, ThreadSafeOrderBook)>) -> bool {
        book_registry_wf(v@)
    }
}

/// What the pool registry always satisfies.
pub struct PoolRegistryInv {}

impl RwLockPredicate<Vec<(PoolAddress, ThreadSafeAMMPool)>> for PoolRegistryInv {
    open spec fn inv(self, v: Vec<(PoolAddress, ThreadSafeAMMPool)>) -> bool {
        pool_registry_wf(v@)
    }
}

fn find_book(books: &Vec<(Symbol, ThreadSafeOrderBook)>, symbol: &Symbol) -> (r: Option<usize>)
    ensures
        r matches Some(i) ==> i < books@.len() && books@[i as int].0@ == symbol@,
        r is None ==> forall|i: int| 0 <= i < books@.len() ==> (#[trigger] books@[i]).0@ != symbol@,
{
    let mut i: usize = 0;
    while i < books.len()
        invariant
            i <= books@.len(),
            forall|k: int| 0 <= k < i ==> (#[trigger] books@[k]).0@ != symbol@,
        decreases books@.len() - i,
    {
        if books[i].0.same_as(symbol) {
            return Some(i);
        }
        i = i + 1;
    }
    None
}

fn find_pool(pools: &Vec<(PoolAddress, ThreadSafeAMMPool)>, address: &PoolAddress) -> (r: Option<usize>)
    ensures
        r matches Some(i) ==> i < pools@.len() && pools@[i as int].0@ == address@,
        r is None ==> forall|i: int| 0 <= i < pools@.len() ==> (#[trigger] pools@[i]).0@ != address@,
{
    let mut i: usize = 0;
    while i < pools.len()
        invariant
            i <= pools@.len(),
            forall|k: int| 0 <= k < i ==> (#[trigger] pools@[k]).0@ != address@,
        decreases pools@.len() - i,
    {
        if pools[i].0.same_as(address) {
            return Some(i);
        }
        i = i + 1;
    }
    None
}

/// No pool is registered at `address` in the registry state `v`.
pub open spec fn no_pool(v: Seq<(PoolAddress, ThreadSafeAMMPool)>, address: Seq<char>) -> bool {
    forall|k: int| 0 <= k < v.len() ==> (#[trigger] v[k]).0@ != address
}

/// The kind of pool an update creates: concentrated liquidity when it
/// carries a square-root price, constant product otherwise.
pub open spec fn pool_type_for_update(update: AMMPoolUpdate) -> AMMPoolType {
    if update.sqrt_price is Some {
        AMMPoolType::ConcentratedLiquidity
    } else {
        AMMPoolType::ConstantProduct
    }
}

/// Applies an AMM update to a pool registry: the pool registered at
/// `address` takes the update, and where none is, a new pool made from the
/// update is registered there, of the kind the update calls for.
fn register_amm_update(pools: &mut Vec<(PoolAddress, ThreadSafeAMMPool)>, address: PoolAddress, update: AMMPoolUpdate)
    requires
        pool_registry_wf(old(pools)@),
    ensures
        pool_registry_wf(final(pools)@),
        !no_pool(old(pools)@, address@) ==> final(pools)@ == old(pools)@,
        no_pool(old(pools)@, address@) ==> {
            &&& final(pools)@.len() == old(pools)@.len() + 1
            &&& final(pools)@.drop_last() == old(pools)@
            &&& final(pools)@.last().0@ == address@
            &&& final(pools)@.last().1.address_view() == address@
            &&& final(pools)@.last().1.spec_pool_type() == pool_type_for_update(update)
        },
{
    match find_pool(pools, &address) {
        Some(i) => {
            let _ = pools[i].1.update_state(update);
        },
        None => {
            let pool = ThreadSafeAMMPool::from_pool(AMMPool::for_update(address.copy(), update));
            let ghost old_pools = pools@;
            pools.push((address, pool));
            proof {
                assert(pools@.drop_last() =~= old_pools);
                assert forall|i: int, j: int| 0 <= i < j < pools@.len() implies #[trigger] pools@[i].0@
                    != #[trigger] pools@[j].0@ by {
                    if j == old_pools.len() {
                        assert(pools@[i] == old_pools[i]);
                    }
                }
            }
        },
    }
}

/// The text of the error for a delta whose symbol has no book.
pub open spec fn no_book_message(symbol: Seq<char>) -> Seq<char> {
    "No order book found for symbol: "@ + symbol
}

/// `symbol` has no book in the registry state `v`.
pub open spec fn no_book(v: Seq<(Symbol, ThreadSafeOrderBook)>, symbol: Seq<char>) -> bool {
    forall|k: int| 0 <= k < v.len() ==> (#[trigger] v[k]).0@ != symbol
}

/// Outcome of a snapshot on a new book, which is at sequence number zero:
/// accepted unless its own sequence number is zero.
pub open spec fn new_book_outcome(seq: u64) -> Result<(), (u64, u64)> {
    if seq == 0 {
        Err((1u64, 0u64))
    } else {
        Ok(())
    }
}

/// `r` is what applying `snapshot` for `symbol` gives for some state of the
/// registry: a new book's outcome when the symbol has no book (the book is
/// kept only when the snapshot is accepted), otherwise the outcome on some
/// state of the symbol's book.
pub open spec fn snapshot_result(symbol: Seq<char>, snapshot: OrderBookSnapshot, r: TradingResult<()>) -> bool {
    exists|v: Seq<(Symbol, ThreadSafeOrderBook)>|
        #[trigger] book_registry_wf(v) && if no_book(v, symbol) {
            outcome_matches(r, new_book_outcome(snapshot.sequence.0))
        } else {
            exists|s: BookState|
                outcome_matches(
                    r,
                    #[trigger] snapshot_outcome(
                        s,
                        snapshot.sequence.0,
                        snapshot.timestamp,
                        snapshot.bids@,
                        snapshot.asks@,
                    ).1,
                )
        }
}

/// `r` is what applying `delta` for `symbol` gives for some state of the
/// registry: the missing-book error exactly when the symbol has no book,
/// otherwise the outcome on some state of the symbol's book.
pub open spec fn delta_result(symbol: Seq<char>, delta: OrderBookDelta, r: TradingResult<()>) -> bool {
    exists|v: Seq<(Symbol, ThreadSafeOrderBook)>|
        #[trigger] book_registry_wf(v) && if no_book(v, symbol) {
            r matches Err(TradingError::ParseError(m)) && m@ == no_book_message(symbol)
        } else {
            exists|s: BookState|
                outcome_matches(r, #[trigger] delta_outcome(s, delta.sequence.0, delta.timestamp, delta.updates@).1)
        }
}

/// Holds every order book and AMM pool, shared between threads.
pub struct MarketDataManager {
    orderbooks: RwLock<Vec<(Symbol, ThreadSafeOrderBook)>, BookRegistryInv>,
    amm_pools: RwLock<Vec<(PoolAddress, ThreadSafeAMMPool)>, PoolRegistryInv>,
}

impl MarketDataManager {
    /// A manager with no books and no pools.
    pub fn new() -> MarketDataManager {
        let books: Vec<(Symbol, ThreadSafeOrderBook)> = Vec::new();
        let pools: Vec<(PoolAddress, ThreadSafeAMMPool)> = Vec::new();
        MarketDataManager {
            orderbooks: RwLock::new(books, Ghost(BookRegistryInv {})),
            amm_pools: RwLock::new(pools, Ghost(PoolRegistryInv {})),
        }
    }

    /// Processes an event: snapshots and deltas go to the symbol's book,
    /// AMM updates to the pool at the address, trades are accepted as they
    /// are.
    pub fn process_event(&self, event: MarketEvent) -> (r: TradingResult<()>)
        ensures
            match event {
                MarketEvent::OrderBookSnapshot(symbol, snapshot) => snapshot_result(symbol@, snapshot, r),
                MarketEvent::OrderBookDelta(symbol, delta) => delta_result(symbol@, delta, r),
                MarketEvent::Trade(_, _) => r is Ok,
                MarketEvent::AMMUpdate(_, _) => r is Ok,
            },
    {
        match event {
            MarketEvent::OrderBookSnapshot(symbol, snapshot) => self.apply_orderbook_snapshot(symbol, snapshot),
            MarketEvent::OrderBookDelta(symbol, delta) => self.apply_orderbook_delta(symbol, &delta),
            MarketEvent::Trade(symbol, trade) => self.process_trade(symbol, trade),
            MarketEvent::AMMUpdate(address, update) => self.process_amm_update(address, update),
        }
    }

    /// Applies a snapshot to the symbol's book, creating the book when the
    /// symbol has none (a new book is kept only when the snapshot is
    /// accepted).
    pub fn apply_orderbook_snapshot(&self, symbol: Symbol, snapshot: OrderBookSnapshot) -> (r: TradingResult<()>)
        ensures
            snapshot_result(symbol@, snapshot, r),
    {
        let (mut books, handle) = self.orderbooks.acquire_write();
        let ghost registry = books@;
        let ghost seq = snapshot.sequence.0;
        let ghost ts = snapshot.timestamp;
        let ghost bids = snapshot.bids@;
        let ghost asks = snapshot.asks@;
        let r = match find_book(&books, &symbol) {
            Some(i) => books[i].1.apply_snapshot(snapshot),
            None => {
                let mut book = OrderBookL2::new(symbol.copy());
                match book.apply_snapshot(snapshot) {
                    Ok(()) => {
                        let new_book = ThreadSafeOrderBook::from_book(book);
                        let ghost old_books = books@;
                        books.push((symbol, new_book));
                        proof {
                            assert forall|i: int, j: int| 0 <= i < j < books@.len() implies #[trigger] books@[i].0@
                                != #[trigger] books@[j].0@ by {
                                if j == old_books.len() {
                                    assert(books@[i] == old_books[i]);
                                }
                            }
                            assert forall|i: int| 0 <= i < books@.len() implies (#[trigger] books@[i]).1.symbol_view()
                                == books@[i].0@ by {
                                if i < old_books.len() {
                                    assert(books@[i] == old_books[i]);
                                }
                            }
                        }
                        Ok(())
                    },
                    Err(e) => Err(e),
                }
            },
        };
        proof {
            assert(book_registry_wf(registry));
            if !no_book(registry, symbol@) {
                let k = choose|k: int| 0 <= k < registry.len() && (#[trigger] registry[k]).0@ == symbol@;
                assert(exists|s: BookState| outcome_matches(r, #[trigger] snapshot_outcome(s, seq, ts, bids, asks).1));
            }
        }
        handle.release_write(books);
        r
    }

    /// Applies a delta to the symbol's book; a symbol without a book is a
    /// parse error.
    pub fn apply_orderbook_delta(&self, symbol: Symbol, delta: &OrderBookDelta) -> (r: TradingResult<()>)
        ensures
            delta_result(symbol@, *delta, r),
    {
        let handle = self.orderbooks.acquire_read();
        let books = handle.borrow();
        let ghost registry = books@;
        let r = match find_book(books, &symbol) {
            Some(i) => books[i].1.apply_delta(delta),
            None => {
                let mut m = "No order book found for symbol: ".to_owned();
                m.append(symbol.0.as_str());
                Err(TradingError::ParseError(m))
            },
        };
        proof {
            assert(book_registry_wf(registry));
        }
        handle.release_read();
        r
    }

    /// Trades are accepted without changing any state.
    fn process_trade(&self, _symbol: Symbol, _trade: Trade) -> (r: TradingResult<()>)
        ensures
            r is Ok,
    {
        Ok(())
    }

    /// Applies an AMM update to the pool at `address`, creating the pool
    /// when there is none: concentrated liquidity when the update carries a
    /// square-root price, constant product otherwise.
    fn process_amm_update(&self, address: PoolAddress, update: AMMPoolUpdate) -> (r: TradingResult<()>)
        ensures
            r is Ok,
    {
        let (mut pools, handle) = self.amm_pools.acquire_write();
        register_amm_update(&mut pools, address, update);
        handle.release_write(pools);
        Ok(())
    }

    /// The book of `symbol`, if there is one.
    pub fn get_orderbook(&self, symbol: &Symbol) -> (r: Option<ThreadSafeOrderBook>)
        ensures
            r matches Some(b) ==> b.symbol_view() == symbol@,
    {
        let handle = self.orderbooks.acquire_read();
        let books = handle.borrow();
        let r = match find_book(books, symbol) {
            Some(i) => Some(books[i].1.clone()),
            None => None,
        };
        handle.release_read();
        r
    }

    /// The pool registered at `address`, if there is one.
    pub fn get_amm_pool(&self, address: &PoolAddress) -> (r: Option<ThreadSafeAMMPool>)
        ensures
            r matches Some(p) ==> exists|v: Seq<(PoolAddress, ThreadSafeAMMPool)>, i: int|
                pool_registry_wf(v) && 0 <= i < v.len() && #[trigger] v[i].0@ == address@ && p.same_pool(&v[i].1),
    {
        let handle = self.amm_pools.acquire_read();
        let pools = handle.borrow();
        let r = match find_pool(pools, address) {
            Some(i) => {
                let p = pools[i].1.clone();
                proof {
                    assert(pool_registry_wf(pools@) && 0 <= i < pools@.len() && pools@[i as int].0@ == address@
                        && p.same_pool(&pools@[i as int].1));
                }
                Some(p)
            },
            None => None,
        };
        handle.release_read();
        r
    }

    /// Registers `pool` at `address`, replacing any pool registered there.
    pub fn add_amm_pool(&self, address: PoolAddress, pool: ThreadSafeAMMPool) {
        let (mut pools, handle) = self.amm_pools.acquire_write();
        match find_pool(&pools, &address) {
            Some(i) => {
                let ghost old_pools = pools@;
                pools.set(i, (address, pool));
                proof {
                    assert forall|a: int, b: int| 0 <= a < b < pools@.len() implies #[trigger] pools@[a].0@
                        != #[trigger] pools@[b].0@ by {
                        assert(old_pools[a].0@ != old_pools[b].0@);
                    }
                }
            },
            None => {
                let ghost old_pools = pools@;
                pools.push((address, pool));
                proof {
                    assert forall|a: int, b: int| 0 <= a < b < pools@.len() implies #[trigger] pools@[a].0@
                        != #[trigger] pools@[b].0@ by {
                        if b == old_pools.len() {
                            assert(pools@[a] == old_pools[a]);
                        }
                    }
                }
            },
        }
        handle.release_write(pools);
    }

    /// Symbols that have a book, each once.
    pub fn get_orderbook_symbols(&self) -> (r: Vec<Symbol>)
        ensures
            forall|i: int, j: int| 0 <= i < j < r@.len() ==> #[trigger] r@[i]@ != #[trigger] r@[j]@,
    {
        let handle = self.orderbooks.acquire_read();
        let books = handle.borrow();
        let mut out: Vec<Symbol> = Vec::new();
        let mut i: usize = 0;
        while i < books.len()
            invariant
                i <= books@.len(),
                book_registry_wf(books@),
                out@.len() == i,
                forall|k: int| 0 <= k < i ==> (#[trigger] out@[k])@ == books@[k].0@,
            decreases books@.len() - i,
        {
            out.push(books[i].0.copy());
            i = i + 1;
        }
        proof {
            assert forall|a: int, b: int| 0 <= a < b < out@.len() implies #[trigger] out@[a]@ != #[trigger] out@[b]@ by {
                assert(books@[a].0@ != books@[b].0@);
            }
        }
        handle.release_read();
        out
    }

    /// Addresses that have a pool, each once.
    pub fn get_amm_pool_addresses(&self) -> (r: Vec<PoolAddress>)
        ensures
            forall|i: int, j: int| 0 <= i < j < r@.len() ==> #[trigger] r@[i]@ != #[trigger] r@[j]@,
    {
        let handle = self.amm_pools.acquire_read();
        let pools = handle.borrow();
        let mut out: Vec<PoolAddress> = Vec::new();
        let mut i: usize = 0;
        while i < pools.len()
            invariant
                i <= pools@.len(),
                pool_registry_wf(pools@),
                out@.len() == i,
                forall|k: int| 0 <= k < i ==> (#[trigger] out@[k])@ == pools@[k].0@,
            decreases pools@.len() - i,
        {
            out.push(pools[i].0.copy());
            i = i + 1;
        }
        proof {
            assert forall|a: int, b: int| 0 <= a < b < out@.len() implies #[trigger] out@[a]@ != #[trigger] out@[b]@ by {
                assert(pools@[a].0@ != pools@[b].0@);
            }
        }
        handle.release_read();
        out
    }

    /// Metrics of every book with both sides (a book whose mid price or
    /// spread overflows is left out), in registry order, and of every pool:
    /// each book and pool is read once, under the registry's lock, and the
    /// metrics are made from those readings.
    pub fn get_market_metrics(&self) -> (m: MarketMetrics)
        ensures
            exists|books: Seq<(Symbol, ThreadSafeOrderBook)>, readings: Seq<BookReading>|
                {
                    &&& book_registry_wf(books)
                    &&& readings_of_books(books, readings)
                    &&& m.orderbook_metrics@.map_values(|x: OrderBookMetrics| book_metric_view(x)) == book_metrics_of(
                        readings,
                    )
                },
            exists|pools: Seq<(PoolAddress, ThreadSafeAMMPool)>, readings: Seq<PoolReading>|
                {
                    &&& pool_registry_wf(pools)
                    &&& readings_of_pools(pools, readings)
                    &&& m.amm_metrics@.map_values(|x: AMMMetrics| pool_metric_view(x)) == readings.map_values(
                        |r: PoolReading| pool_reading_view(r),
                    )
                },
    {
        let handle = self.orderbooks.acquire_read();
        let books = handle.borrow();
        let mut book_readings: Vec<BookReading> = Vec::new();
        let mut i: usize = 0;
        while i < books.len()
            invariant
                i <= books@.len(),
                book_registry_wf(books@),
                book_readings@.len() == i,
                forall|k: int|
                    0 <= k < i ==> reading_of_book(books@[k], #[trigger] book_readings@[k]),
            decreases books@.len() - i,
        {
            let book = &books[i].1;
            let reading = BookReading {
                symbol: books[i].0.copy(),
                best_bid: book.best_bid(),
                best_ask: book.best_ask(),
                last_update: book.last_update(),
            };
            book_readings.push(reading);
            i = i + 1;
        }
        let ghost book_registry = books@;
        handle.release_read();
        let handle = self.amm_pools.acquire_read();
        let pools = handle.borrow();
        let mut pool_readings: Vec<PoolReading> = Vec::new();
        let mut j: usize = 0;
        while j < pools.len()
            invariant
                j <= pools@.len(),
                pool_registry_wf(pools@),
                pool_readings@.len() == j,
                forall|k: int|
                    0 <= k < j ==> reading_of_pool(pools@[k], #[trigger] pool_readings@[k]),
            decreases pools@.len() - j,
        {
            let pool = &pools[j].1;
            let reading = PoolReading {
                address: pools[j].0.copy(),
                pool_type: pool.pool_type(),
                implied_mid: pool.implied_mid(),
                reserves: pool.get_reserves(),
                fee_tier: pool.get_fee_tier(),
                last_update: pool.last_update(),
            };
            pool_readings.push(reading);
            j = j + 1;
        }
        let ghost pool_registry = pools@;
        handle.release_read();
        let m = metrics_from_readings(&book_readings, &pool_readings, Timestamp::now());
        proof {
            assert(readings_of_books(book_registry, book_readings@));
            assert(readings_of_pools(pool_registry, pool_readings@));
        }
        m
    }
}

impl Default for MarketDataManager {
    fn default() -> Self {
        Self::new()
    }
}

/// Metrics of all books and pools.
#[derive(Debug)]
pub struct MarketMetrics {
    /// When the metrics were collected.
    pub timestamp: Timestamp,
    /// Metrics of each book, one per symbol.
    pub orderbook_metrics: Vec<OrderBookMetrics>,
    /// Metrics of each pool, one per address.
    pub amm_metrics: Vec<AMMMetrics>,
}

impl MarketMetrics {
    /// Empty metrics stamped with the current time.
    pub fn new() -> (m: MarketMetrics)
        ensures
            m.orderbook_metrics@.len() == 0,
            m.amm_metrics@.len() == 0,
    {
        MarketMetrics { timestamp: Timestamp::now(), orderbook_metrics: Vec::new(), amm_metrics: Vec::new() }
    }
}

impl Default for MarketMetrics {
    fn default() -> Self {
        Self::new()
    }
}

/// Metrics of one order book.
#[derive(Debug)]
pub struct OrderBookMetrics {
    /// Symbol.
    pub symbol: Symbol,
    /// Best bid.
    pub best_bid: Price,
    /// Best ask.
    pub best_ask: Price,
    /// `(best bid + best ask) / 2`.
    pub mid_price: Price,
    /// `best ask - best bid`.
    pub spread: Decimal,
    /// Time of the book's last change.
    pub last_update: Timestamp,
}

/// Metrics of one AMM pool.
#[derive(Debug)]
pub struct AMMMetrics {
    /// Address.
    pub address: PoolAddress,
    /// Kind of pool.
    pub pool_type: AMMPoolType,
    /// Implied mid price.
    pub implied_mid: Price,
    /// Reserves.
    pub reserves: TokenReserves,
    /// Fee tier.
    pub fee_tier: FeeTier,
    /// Time of the last update.
    pub last_update: Timestamp,
}

/// What was read of one book: its symbol, best prices and time of last
/// change.
#[derive(Debug)]
pub struct BookReading {
    /// Symbol.
    pub symbol: Symbol,
    /// Best bid read.
    pub best_bid: Option<Price>,
    /// Best ask read.
    pub best_ask: Option<Price>,
    /// Time of last change read.
    pub last_update: Timestamp,
}

/// What was read of one pool.
#[derive(Debug)]
pub struct PoolReading {
    /// Address.
    pub address: PoolAddress,
    /// Kind of pool.
    pub pool_type: AMMPoolType,
    /// Implied mid price read.
    pub implied_mid: Price,
    /// Reserves read.
    pub reserves: TokenReserves,
    /// Fee tier read.
    pub fee_tier: FeeTier,
    /// Time of the last update read.
    pub last_update: Timestamp,
}

/// Book metrics as values: symbol, best bid, best ask, mid, spread, time.
pub type BookMetricView = (Seq<char>, Price, Price, (int, int), (int, int), Timestamp);

/// Pool metrics as values: address, kind, implied mid, reserves, fee, time.
pub type PoolMetricView = (Seq<char>, AMMPoolType, Price, TokenReserves, FeeTier, Timestamp);

/// The values of book metrics.
pub open spec fn book_metric_view(m: OrderBookMetrics) -> BookMetricView {
    (m.symbol@, m.best_bid, m.best_ask, m.mid_price.0@, m.spread@, m.last_update)
}

/// The values of pool metrics.
pub open spec fn pool_metric_view(m: AMMMetrics) -> PoolMetricView {
    (m.address@, m.pool_type, m.implied_mid, m.reserves, m.fee_tier, m.last_update)
}

/// The values of a pool reading.
pub open spec fn pool_reading_view(r: PoolReading) -> PoolMetricView {
    (r.address@, r.pool_type, r.implied_mid, r.reserves, r.fee_tier, r.last_update)
}

/// The metrics a book reading gives: present when both sides are and the
/// mid price and spread do not overflow.
pub open spec fn reading_metric(r: BookReading) -> Option<BookMetricView> {
    match (r.best_bid, r.best_ask) {
        (Some(b), Some(a)) => match (mid_repr(b, a), spread_repr(b, a)) {
            (Some(mid), Some(spread)) => Some((r.symbol@, b, a, mid, spread, r.last_update)),
            _ => None,
        },
        _ => None,
    }
}

/// The book metrics of a sequence of readings, in order.
pub open spec fn book_metrics_of(rs: Seq<BookReading>) -> Seq<BookMetricView>
    decreases rs.len(),
{
    if rs.len() == 0 {
        Seq::empty()
    } else {
        let prev = book_metrics_of(rs.drop_last());
        match reading_metric(rs.last()) {
            Some(v) => prev.push(v),
            None => prev,
        }
    }
}

/// `r` was read of the registered book `e`: its symbol, and each value
/// from some state of the shared book.
pub open spec fn reading_of_book(e: (Symbol, ThreadSafeOrderBook), r: BookReading) -> bool {
    &&& r.symbol@ == e.0@
    &&& exists|b: OrderBookL2| #[trigger] e.1.holds(b) && r.best_bid == b.spec_best_bid()
    &&& exists|b: OrderBookL2| #[trigger] e.1.holds(b) && r.best_ask == b.spec_best_ask()
    &&& exists|b: OrderBookL2| #[trigger] e.1.holds(b) && r.last_update == b.spec_last_update()
}

/// `r` was read of the registered pool `e`: its address and kind, and
/// each other value from some state of the shared pool (a mid price that
/// overflows reads as zero).
pub open spec fn reading_of_pool(e: (PoolAddress, ThreadSafeAMMPool), r: PoolReading) -> bool {
    &&& r.address@ == e.0@
    &&& r.pool_type == e.1.spec_pool_type()
    &&& exists|p: AMMPool|
        #[trigger] e.1.holds(p) && match p.spec_implied_mid() {
            Some(v) => r.implied_mid.0@ == v,
            None => r.implied_mid.0@ == (0int, 0int),
        }
    &&& exists|p: AMMPool| #[trigger] e.1.holds(p) && r.reserves == p.spec_reserves()
    &&& exists|p: AMMPool| #[trigger] e.1.holds(p) && r.fee_tier == p.spec_fee_tier()
    &&& exists|p: AMMPool| #[trigger] e.1.holds(p) && r.last_update == p.spec_last_update()
}

/// One reading per registered book, in registry order.
pub open spec fn readings_of_books(books: Seq<(Symbol, ThreadSafeOrderBook)>, readings: Seq<BookReading>) -> bool {
    &&& readings.len() == books.len()
    &&& forall|k: int| 0 <= k < books.len() ==> reading_of_book(books[k], #[trigger] readings[k])
}

/// One reading per registered pool, in registry order.
pub open spec fn readings_of_pools(pools: Seq<(PoolAddress, ThreadSafeAMMPool)>, readings: Seq<PoolReading>) -> bool {
    &&& readings.len() == pools.len()
    &&& forall|k: int| 0 <= k < pools.len() ==> reading_of_pool(pools[k], #[trigger] readings[k])
}

/// Market metrics from readings: one book entry per reading with both
/// sides and a mid price and spread that do not overflow, in order, and one
/// pool entry per pool reading, in order.
pub fn metrics_from_readings(books: &Vec<BookReading>, pools: &Vec<PoolReading>, timestamp: Timestamp) -> (m:
    MarketMetrics)
    ensures
        m.timestamp == timestamp,
        m.orderbook_metrics@.map_values(|x: OrderBookMetrics| book_metric_view(x)) == book_metrics_of(books@),
        m.amm_metrics@.map_values(|x: AMMMetrics| pool_metric_view(x)) == pools@.map_values(
            |r: PoolReading| pool_reading_view(r),
        ),
{
    let mut orderbook_metrics: Vec<OrderBookMetrics> = Vec::new();
    let mut i: usize = 0;
    proof {
        assert(books@.take(0) =~= Seq::<BookReading>::empty());
        assert(orderbook_metrics@.map_values(|x: OrderBookMetrics| book_metric_view(x)) =~= Seq::<
            BookMetricView,
        >::empty());
    }
    while i < books.len()
        invariant
            i <= books@.len(),
            orderbook_metrics@.map_values(|x: OrderBookMetrics| book_metric_view(x)) == book_metrics_of(
                books@.take(i as int),
            ),
        decreases books@.len() - i,
    {
        proof {
            assert(books@.take(i + 1).drop_last() =~= books@.take(i as int));
            assert(books@.take(i + 1).last() == books@[i as int]);
        }
        let r = &books[i];
        if let (Some(bid), Some(ask)) = (r.best_bid, r.best_ask) {
            if let (Some(mid), Some(spread)) = (mid_of(&bid, &ask), spread_of(&bid, &ask)) {
                let entry = OrderBookMetrics {
                    symbol: r.symbol.copy(),
                    best_bid: bid,
                    best_ask: ask,
                    mid_price: mid,
                    spread: spread.0,
                    last_update: r.last_update,
                };
                let ghost before = orderbook_metrics@;
                orderbook_metrics.push(entry);
                proof {
                    assert(orderbook_metrics@.map_values(|x: OrderBookMetrics| book_metric_view(x)) =~= before.map_values(
                        |x: OrderBookMetrics| book_metric_view(x),
                    ).push(book_metric_view(entry)));
                }
            }
        }
        i = i + 1;
    }
    proof {
        assert(books@.take(books@.len() as int) =~= books@);
    }
    let mut amm_metrics: Vec<AMMMetrics> = Vec::new();
    let mut j: usize = 0;
    while j < pools.len()
        invariant
            j <= pools@.len(),
            amm_metrics@.len() == j,
            forall|k: int| 0 <= k < j ==> pool_metric_view(#[trigger] amm_metrics@[k]) == pool_reading_view(pools@[k]),
        decreases pools@.len() - j,
    {
        let r = &pools[j];
        let entry = AMMMetrics {
            address: r.address.copy(),
            pool_type: r.pool_type,
            implied_mid: r.implied_mid,
            reserves: r.reserves,
            fee_tier: r.fee_tier,
            last_update: r.last_update,
        };
        amm_metrics.push(entry);
        j = j + 1;
    }
    proof {
        assert(amm_metrics@.map_values(|x: AMMMetrics| pool_metric_view(x)) =~= pools@.map_values(
            |r: PoolReading| pool_reading_view(r),
        ));
    }
    MarketMetrics { timestamp, orderbook_metrics, amm_metrics }
}

} // verus!
