//! L2 order book: price levels per side with sequence-checked updates.
use crate::decimal::{add_repr, Decimal};
use crate::events::{
    lemma_bottom_price_is_min, lemma_top_price_is_max, bottom_price, levels_map, mid_defined, mid_of, mid_of_sides, opt_price_view, price_lt, spread_defined,
    spread_of, spread_of_sides, top_price, OrderBookDelta, OrderBookSnapshot, PriceLevelUpdate, PriceLevels,
};
use crate::types::{Price, Quantity, SequenceNumber, Side, Symbol, Timestamp, TradingError, TradingResult, UpdateAction};
use std::sync::Arc;
use vstd::prelude::*;
use vstd::rwlock::{RwLock, RwLockPredicate};

verus! {

/// The abstract state of an order book.
pub ghost struct BookState {
    /// Bid quantity at each bid price.
    pub bids: Map<Price, Quantity>,
    /// Ask quantity at each ask price.
    pub asks: Map<Price, Quantity>,
    /// Last sequence number applied.
    pub last_sequence: u64,
    /// Time of the last change.
    pub last_update: Timestamp,
}

/// One level update applied to one side's map: a zero-quantity update and a
/// delete remove the level, any other update sets it.
pub open spec fn apply_level_update(m: Map<Price, Quantity>, u: PriceLevelUpdate) -> Map<Price, Quantity> {
    match u.action {
        UpdateAction::Update => if u.quantity.0@.0 == 0 {
            m.remove(u.price)
        } else {
            m.insert(u.price, u.quantity)
        },
        UpdateAction::Delete => m.remove(u.price),
    }
}

/// The updates of one side, applied in order to that side's map.
pub open spec fn apply_side_updates(m: Map<Price, Quantity>, ups: Seq<PriceLevelUpdate>, side: Side) -> Map<Price, Quantity>
    decreases ups.len(),
{
    if ups.len() == 0 {
        m
    } else {
        let prev = apply_side_updates(m, ups.drop_last(), side);
        if ups.last().side == side {
            apply_level_update(prev, ups.last())
        } else {
            prev
        }
    }
}

/// Outcome of applying a snapshot: the new state and `Ok` or the
/// (expected, actual) sequence numbers of the error.
pub open spec fn snapshot_outcome(
    s: BookState,
    seq: u64,
    ts: Timestamp,
    bids: Map<Price, Quantity>,
    asks: Map<Price, Quantity>,
) -> (BookState, Result<(), (u64, u64)>) {
    if seq <= s.last_sequence {
        (s, Err((if s.last_sequence == u64::MAX { 0 } else { (s.last_sequence + 1) as u64 }, seq)))
    } else {
        (BookState { bids, asks, last_sequence: seq, last_update: ts }, Ok(()))
    }
}

/// Outcome of applying a delta: replays of old sequence numbers are
/// skipped, a gap is an error, the next sequence number applies the updates.
pub open spec fn delta_outcome(
    s: BookState,
    seq: u64,
    ts: Timestamp,
    ups: Seq<PriceLevelUpdate>,
) -> (BookState, Result<(), (u64, u64)>) {
    if seq <= s.last_sequence {
        (s, Ok(()))
    } else if seq != s.last_sequence + 1 {
        (s, Err(((s.last_sequence + 1) as u64, seq)))
    } else {
        (
            BookState {
                bids: apply_side_updates(s.bids, ups, Side::Bid),
                asks: apply_side_updates(s.asks, ups, Side::Ask),
                last_sequence: seq,
                last_update: ts,
            },
            Ok(()),
        )
    }
}

/// The error value that an outcome's error stands for.
pub open spec fn outcome_matches(r: TradingResult<()>, o: Result<(), (u64, u64)>) -> bool {
    match (r, o) {
        (Ok(()), Ok(())) => true,
        (Err(TradingError::SequenceOutOfOrder { expected, actual }), Err((e, a))) => expected == e && actual == a,
        _ => false,
    }
}

/// The level is counted in the depth up to `max`: bids at or above it,
/// asks at or below it.
pub open spec fn in_depth(side: Side, p: Price, max: Price) -> bool {
    match side {
        Side::Bid => !price_lt(p, max),
        Side::Ask => !price_lt(max, p),
    }
}

/// Running sum, in increasing price order, of the quantities counted in
/// the depth (`None` when a partial sum overflows).
pub open spec fn depth_sum(s: Seq<(Price, Quantity)>, side: Side, max: Price) -> Option<(int, int)>
    decreases s.len(),
{
    if s.len() == 0 {
        Some((0, 0))
    } else {
        let prev = depth_sum(s.drop_last(), side, max);
        if in_depth(side, s.last().0, max) {
            match prev {
                Some(t) => add_repr(t, s.last().1.0@),
                None => None,
            }
        } else {
            prev
        }
    }
}

/// L2 order book for one symbol.
#[derive(Debug)]
pub struct OrderBookL2 {
    symbol: Symbol,
    bids: PriceLevels,
    asks: PriceLevels,
    last_sequence: SequenceNumber,
    last_update: Timestamp,
}

impl OrderBookL2 {
    /// The book's symbol.
    pub closed spec fn symbol_view(&self) -> Seq<char> {
        self.symbol@
    }

    /// Bid levels in increasing price order.
    pub closed spec fn bid_levels(&self) -> Seq<(Price, Quantity)> {
        self.bids.entries()
    }

    /// Ask levels in increasing price order.
    pub closed spec fn ask_levels(&self) -> Seq<(Price, Quantity)> {
        self.asks.entries()
    }

    /// Last sequence number applied.
    pub closed spec fn spec_last_sequence(&self) -> u64 {
        self.last_sequence.0
    }

    /// Time of the last change.
    pub closed spec fn spec_last_update(&self) -> Timestamp {
        self.last_update
    }

    /// The abstract state.
    pub open spec fn state(&self) -> BookState {
        BookState {
            bids: levels_map(self.bid_levels()),
            asks: levels_map(self.ask_levels()),
            last_sequence: self.spec_last_sequence(),
            last_update: self.spec_last_update(),
        }
    }

    /// Levels of one side.
    pub open spec fn side_levels(&self, side: Side) -> Seq<(Price, Quantity)> {
        match side {
            Side::Bid => self.bid_levels(),
            Side::Ask => self.ask_levels(),
        }
    }

    /// Highest bid.
    pub open spec fn spec_best_bid(&self) -> Option<Price> {
        top_price(self.bid_levels())
    }

    /// Lowest ask.
    pub open spec fn spec_best_ask(&self) -> Option<Price> {
        bottom_price(self.ask_levels())
    }

    /// An empty book for `symbol`, at sequence number zero.
    pub fn new(symbol: Symbol) -> (b: OrderBookL2)
        ensures
            b.symbol_view() == symbol@,
            b.bid_levels().len() == 0,
            b.ask_levels().len() == 0,
            b.state().bids == Map::<Price, Quantity>::empty(),
            b.state().asks == Map::<Price, Quantity>::empty(),
            b.state().last_sequence == 0,
    {
        OrderBookL2 {
            symbol,
            bids: PriceLevels::new(),
            asks: PriceLevels::new(),
            last_sequence: SequenceNumber(0),
            last_update: Timestamp::now(),
        }
    }

    /// Replaces the book with a snapshot whose sequence number is newer
    /// than the last one applied; an older or equal one is an error and
    /// leaves the book unchanged.
    pub fn apply_snapshot(&mut self, snapshot: OrderBookSnapshot) -> (r: TradingResult<()>)
        ensures
            final(self).symbol_view() == old(self).symbol_view(),
            ({
                let o = snapshot_outcome(
                    old(self).state(),
                    snapshot.sequence.0,
                    snapshot.timestamp,
                    snapshot.bids@,
                    snapshot.asks@,
                );
                &&& final(self).state() == o.0
                &&& outcome_matches(r, o.1)
            }),
            r is Ok ==> final(self).bid_levels() == snapshot.bids.entries()
                && final(self).ask_levels() == snapshot.asks.entries(),
            r is Err ==> final(self).bid_levels() == old(self).bid_levels()
                && final(self).ask_levels() == old(self).ask_levels(),
    {
        if snapshot.sequence.0 <= self.last_sequence.0 {
            return Err(
                TradingError::SequenceOutOfOrder {
                    expected: self.last_sequence.0.wrapping_add(1),
                    actual: snapshot.sequence.0,
                },
            );
        }
        self.bids = snapshot.bids;
        self.asks = snapshot.asks;
        self.last_sequence = snapshot.sequence;
        self.last_update = snapshot.timestamp;
        Ok(())
    }

    /// Applies a delta: an already-applied sequence number is skipped, a
    /// gap is an error that leaves the book unchanged, and the next
    /// sequence number applies the updates in order.
    pub fn apply_delta(&mut self, delta: OrderBookDelta) -> (r: TradingResult<()>)
        ensures
            final(self).symbol_view() == old(self).symbol_view(),
            ({
                let o = delta_outcome(old(self).state(), delta.sequence.0, delta.timestamp, delta.updates@);
                &&& final(self).state() == o.0
                &&& outcome_matches(r, o.1)
            }),
            (r is Err || delta.sequence.0 <= old(self).spec_last_sequence()) ==> final(self).bid_levels()
                == old(self).bid_levels() && final(self).ask_levels() == old(self).ask_levels(),
    {
        if delta.sequence.0 <= self.last_sequence.0 {
            return Ok(());
        }
        if delta.sequence.0 != self.last_sequence.0 + 1 {
            return Err(
                TradingError::SequenceOutOfOrder {
                    expected: self.last_sequence.0 + 1,
                    actual: delta.sequence.0,
                },
            );
        }
        let ghost bids0 = self.state().bids;
        let ghost asks0 = self.state().asks;
        let ghost ups = delta.updates@;
        let mut i: usize = 0;
        while i < delta.updates.len()
            invariant
                i <= ups.len(),
                ups == delta.updates@,
                self.symbol_view() == old(self).symbol_view(),
                self.spec_last_sequence() == old(self).spec_last_sequence(),
                self.spec_last_update() == old(self).spec_last_update(),
                self.state().bids == apply_side_updates(bids0, ups.take(i as int), Side::Bid),
                self.state().asks == apply_side_updates(asks0, ups.take(i as int), Side::Ask),
            decreases ups.len() - i,
        {
            let u = delta.updates[i];
            let _ = self.apply_price_level_update(u);
            proof {
                assert(ups.take(i + 1).drop_last() =~= ups.take(i as int));
                assert(ups.take(i + 1).last() == u);
            }
            i = i + 1;
        }
        proof {
            assert(ups.take(ups.len() as int) =~= ups);
        }
        self.last_sequence = delta.sequence;
        self.last_update = delta.timestamp;
        Ok(())
    }

    /// Applies one level update to its side.
    fn apply_price_level_update(&mut self, update: PriceLevelUpdate) -> (r: TradingResult<()>)
        ensures
            r is Ok,
            final(self).symbol_view() == old(self).symbol_view(),
            final(self).spec_last_sequence() == old(self).spec_last_sequence(),
            final(self).spec_last_update() == old(self).spec_last_update(),
            final(self).state().bids == (if update.side == Side::Bid {
                apply_level_update(old(self).state().bids, update)
            } else {
                old(self).state().bids
            }),
            final(self).state().asks == (if update.side == Side::Ask {
                apply_level_update(old(self).state().asks, update)
            } else {
                old(self).state().asks
            }),
    {
        let remove = match update.action {
            UpdateAction::Update => update.quantity.is_zero(),
            UpdateAction::Delete => true,
        };
        match update.side {
            Side::Bid => {
                if remove {
                    self.bids.remove(&update.price);
                } else {
                    self.bids.insert(update.price, update.quantity);
                }
            },
            Side::Ask => {
                if remove {
                    self.asks.remove(&update.price);
                } else {
                    self.asks.insert(update.price, update.quantity);
                }
            },
        }
        Ok(())
    }

    /// A snapshot of the current state.
    pub fn get_snapshot(&self) -> (s: OrderBookSnapshot)
        ensures
            s.sequence.0 == self.spec_last_sequence(),
            s.timestamp == self.spec_last_update(),
            s.bids.entries() == self.bid_levels(),
            s.asks.entries() == self.ask_levels(),
    {
        OrderBookSnapshot::with_levels(self.last_sequence, self.last_update, self.bids.copy(), self.asks.copy())
    }

    /// Highest bid price: a bid price with no higher bid; `None` exactly
    /// when there are no bids.
    pub fn best_bid(&self) -> (r: Option<Price>)
        ensures
            r == self.spec_best_bid(),
            r is None <==> self.state().bids.dom() =~= Set::<Price>::empty(),
            r matches Some(p) ==> self.state().bids.dom().contains(p) && forall|k: Price|
                #[trigger] self.state().bids.dom().contains(k) ==> !price_lt(p, k),
    {
        self.bids.check_sorted();
        proof {
            lemma_top_price_is_max(self.bid_levels());
        }
        match self.bids.last() {
            Some(p) => Some(*p),
            None => None,
        }
    }

    /// Lowest ask price: an ask price with no lower ask; `None` exactly when
    /// there are no asks.
    pub fn best_ask(&self) -> (r: Option<Price>)
        ensures
            r == self.spec_best_ask(),
            r is None <==> self.state().asks.dom() =~= Set::<Price>::empty(),
            r matches Some(p) ==> self.state().asks.dom().contains(p) && forall|k: Price|
                #[trigger] self.state().asks.dom().contains(k) ==> !price_lt(k, p),
    {
        self.asks.check_sorted();
        proof {
            lemma_bottom_price_is_min(self.ask_levels());
        }
        match self.asks.first() {
            Some(p) => Some(*p),
            None => None,
        }
    }

    /// Mid price, computed whenever it does not overflow: `Some(None)`
    /// when a side is empty.
    pub fn checked_mid_price(&self) -> (r: Option<Option<Price>>)
        ensures
            r is Some <==> mid_defined(self.spec_best_bid(), self.spec_best_ask()),
            r matches Some(m) ==> opt_price_view(m) == mid_of_sides(self.spec_best_bid(), self.spec_best_ask()),
    {
        match (self.best_bid(), self.best_ask()) {
            (Some(bid), Some(ask)) => {
                match mid_of(&bid, &ask) {
                    Some(p) => Some(Some(p)),
                    None => None,
                }
            },
            _ => Some(None),
        }
    }

    /// Mid price `(best bid + best ask) / 2` when both sides have levels;
    /// the sum of the best prices must not overflow.
    pub fn mid_price(&self) -> (r: Option<Price>)
        requires
            mid_defined(self.spec_best_bid(), self.spec_best_ask()),
        ensures
            opt_price_view(r) == mid_of_sides(self.spec_best_bid(), self.spec_best_ask()),
    {
        self.checked_mid_price().unwrap()
    }

    /// Spread, computed whenever it does not overflow: `Some(None)` when a
    /// side is empty.
    pub fn checked_spread(&self) -> (r: Option<Option<Price>>)
        ensures
            r is Some <==> spread_defined(self.spec_best_bid(), self.spec_best_ask()),
            r matches Some(m) ==> opt_price_view(m) == spread_of_sides(self.spec_best_bid(), self.spec_best_ask()),
    {
        match (self.best_bid(), self.best_ask()) {
            (Some(bid), Some(ask)) => match spread_of(&bid, &ask) {
                Some(p) => Some(Some(p)),
                None => None,
            },
            _ => Some(None),
        }
    }

    /// Spread `best ask - best bid` when both sides have levels; the
    /// difference must not overflow.
    pub fn spread(&self) -> (r: Option<Price>)
        requires
            spread_defined(self.spec_best_bid(), self.spec_best_ask()),
        ensures
            opt_price_view(r) == spread_of_sides(self.spec_best_bid(), self.spec_best_ask()),
    {
        self.checked_spread().unwrap()
    }

    /// Quantity at `price` on `side`, zero when there is no such level.
    pub fn quantity_at_price(&self, side: Side, price: Price) -> (q: Quantity)
        ensures
            ({
                let m = levels_map(self.side_levels(side));
                if m.dom().contains(price) {
                    q == m[price]
                } else {
                    q.0@ == (0int, 0int)
                }
            }),
    {
        let found = match side {
            Side::Bid => self.bids.get(&price),
            Side::Ask => self.asks.get(&price),
        };
        match found {
            Some(q) => q,
            None => Quantity::zero(),
        }
    }

    /// Total quantity up to `max_price` (bids at or above it, asks at or
    /// below it), computed whenever no partial sum overflows.
    pub fn checked_depth_to_price(&self, side: Side, max_price: Price) -> (r: Option<Quantity>)
        ensures
            r matches Some(q) ==> depth_sum(self.side_levels(side), side, max_price) == Some(q.0@),
            r is None ==> depth_sum(self.side_levels(side), side, max_price) is None,
    {
        let levels = match side {
            Side::Bid => &self.bids,
            Side::Ask => &self.asks,
        };
        let ghost s = self.side_levels(side);
        let n = levels.len();
        let mut total = Decimal::zero();
        let mut i: usize = 0;
        while i < n
            invariant
                n == s.len(),
                s == self.side_levels(side),
                levels.entries() == s,
                i <= n,
                depth_sum(s.take(i as int), side, max_price) == Some(total@),
            decreases n - i,
        {
            let (p, q) = levels.level_at(i);
            proof {
                assert(s.take(i + 1).drop_last() =~= s.take(i as int));
                assert(s.take(i + 1).last() == (p, q));
            }
            let counted = match side {
                Side::Bid => !p.lt(&max_price),
                Side::Ask => !max_price.lt(&p),
            };
            if counted {
                match total.checked_add(&q.0) {
                    Some(t) => {
                        total = t;
                    },
                    None => {
                        proof {
                            assert(in_depth(side, p, max_price));
                            assert(depth_sum(s.take(i + 1), side, max_price) is None);
                            lemma_depth_sum_none_extends(s, side, max_price, i as int + 1);
                            assert(s.take(s.len() as int) =~= s);
                        }
                        return None;
                    },
                }
            }
            i = i + 1;
        }
        proof {
            assert(s.take(n as int) =~= s);
        }
        Some(Quantity(total))
    }

    /// Total quantity up to `max_price` (bids at or above it, asks at or
    /// below it); no partial sum may overflow.
    pub fn depth_to_price(&self, side: Side, max_price: Price) -> (q: Quantity)
        requires
            depth_sum(self.side_levels(side), side, max_price) is Some,
        ensures
            depth_sum(self.side_levels(side), side, max_price) == Some(q.0@),
    {
        self.checked_depth_to_price(side, max_price).unwrap()
    }

    /// The book's symbol.
    pub fn symbol(&self) -> (s: &Symbol)
        ensures
            s@ == self.symbol_view(),
    {
        &self.symbol
    }

    /// Last sequence number applied.
    pub fn last_sequence(&self) -> (s: SequenceNumber)
        ensures
            s.0 == self.spec_last_sequence(),
    {
        self.last_sequence
    }

    /// Time of the last change.
    pub fn last_update(&self) -> (t: Timestamp)
        ensures
            t == self.spec_last_update(),
    {
        self.last_update
    }
}

/// What every state of a shared book satisfies: it is the book of a fixed
/// symbol.
pub struct BookLockInv {
    /// The symbol of the book.
    pub symbol: Ghost<Seq<char>>,
}

impl RwLockPredicate<OrderBookL2> for BookLockInv {
    open spec fn inv(self, v: OrderBookL2) -> bool {
        v.symbol_view() == self.symbol@
    }
}

/// An order book shared between threads behind a reader-writer lock.
/// Clones share the same book.  Each call observes or changes the book as
/// it is when the call takes the lock; the contracts speak of that state.
pub struct ThreadSafeOrderBook {
    pub(crate) inner: Arc<RwLock<OrderBookL2, BookLockInv>>,
}

impl ThreadSafeOrderBook {
    /// The symbol of the shared book.
    pub closed spec fn symbol_view(&self) -> Seq<char> {
        (*self.inner).pred().symbol@
    }

    /// `b` is a state the shared book can be in.
    pub open spec fn holds(&self, b: OrderBookL2) -> bool {
        b.symbol_view() == self.symbol_view()
    }

    /// A state the lock admits is a state the shared book can be in.
    pub(crate) proof fn lemma_lock_state(&self, b: OrderBookL2)
        requires
            (*self.inner).inv(b),
        ensures
            self.holds(b),
    {
    }

    /// Both handles share one book.
    pub closed spec fn same_book(&self, other: &ThreadSafeOrderBook) -> bool {
        self.inner == other.inner
    }

    /// A new shared book for `symbol`.
    pub fn new(symbol: Symbol) -> (b: ThreadSafeOrderBook)
        ensures
            b.symbol_view() == symbol@,
    {
        let ghost sym = symbol@;
        let book = OrderBookL2::new(symbol);
        let lock = RwLock::new(book, Ghost(BookLockInv { symbol: Ghost(sym) }));
        ThreadSafeOrderBook { inner: Arc::new(lock) }
    }

    /// Shares `book`.
    pub fn from_book(book: OrderBookL2) -> (b: ThreadSafeOrderBook)
        ensures
            b.symbol_view() == book.symbol_view(),
    {
        let ghost sym = book.symbol_view();
        let lock = RwLock::new(book, Ghost(BookLockInv { symbol: Ghost(sym) }));
        ThreadSafeOrderBook { inner: Arc::new(lock) }
    }

    /// Applies a snapshot to the shared book (see `OrderBookL2::apply_snapshot`).
    pub fn apply_snapshot(&self, snapshot: OrderBookSnapshot) -> (r: TradingResult<()>)
        ensures
            exists|s: BookState|
                outcome_matches(
                    r,
                    #[trigger] snapshot_outcome(
                        s,
                        snapshot.sequence.0,
                        snapshot.timestamp,
                        snapshot.bids@,
                        snapshot.asks@,
                    ).1,
                ),
    {
        let (mut book, handle) = self.inner.acquire_write();
        let ghost s = book.state();
        let ghost seq = snapshot.sequence.0;
        let ghost ts = snapshot.timestamp;
        let ghost bids = snapshot.bids@;
        let ghost asks = snapshot.asks@;
        let r = book.apply_snapshot(snapshot);
        proof {
            assert(outcome_matches(r, snapshot_outcome(s, seq, ts, bids, asks).1));
        }
        handle.release_write(book);
        r
    }

    /// Applies a delta to the shared book (see `OrderBookL2::apply_delta`).
    pub fn apply_delta(&self, delta: &OrderBookDelta) -> (r: TradingResult<()>)
        ensures
            exists|s: BookState|
                outcome_matches(r, #[trigger] delta_outcome(s, delta.sequence.0, delta.timestamp, delta.updates@).1),
    {
        let (mut book, handle) = self.inner.acquire_write();
        let ghost s = book.state();
        let r = book.apply_delta(delta.copy());
        proof {
            assert(outcome_matches(r, delta_outcome(s, delta.sequence.0, delta.timestamp, delta.updates@).1));
        }
        handle.release_write(book);
        r
    }

    /// A snapshot of the shared book.
    pub fn get_snapshot(&self) -> (r: OrderBookSnapshot)
        ensures
            exists|b: OrderBookL2|
                #[trigger] self.holds(b) && r.sequence.0 == b.spec_last_sequence() && r.timestamp
                    == b.spec_last_update() && r.bids.entries() == b.bid_levels() && r.asks.entries()
                    == b.ask_levels(),
    {
        let handle = self.inner.acquire_read();
        let ghost b = handle.view();
        proof {
            assert(self.holds(b));
        }
        let r = handle.borrow().get_snapshot();
        handle.release_read();
        r
    }

    /// Highest bid of the shared book.
    pub fn best_bid(&self) -> (r: Option<Price>)
        ensures
            exists|b: OrderBookL2| #[trigger] self.holds(b) && r == b.spec_best_bid(),
    {
        let handle = self.inner.acquire_read();
        let ghost b = handle.view();
        proof {
            assert(self.holds(b));
        }
        let r = handle.borrow().best_bid();
        handle.release_read();
        r
    }

    /// Lowest ask of the shared book.
    pub fn best_ask(&self) -> (r: Option<Price>)
        ensures
            exists|b: OrderBookL2| #[trigger] self.holds(b) && r == b.spec_best_ask(),
    {
        let handle = self.inner.acquire_read();
        let ghost b = handle.view();
        proof {
            assert(self.holds(b));
        }
        let r = handle.borrow().best_ask();
        handle.release_read();
        r
    }

    /// Mid price of the shared book; `None` also when the sum of the best
    /// prices overflows.
    pub fn mid_price(&self) -> (r: Option<Price>)
        ensures
            exists|b: OrderBookL2|
                #[trigger] self.holds(b) && if mid_defined(b.spec_best_bid(), b.spec_best_ask()) {
                    opt_price_view(r) == mid_of_sides(b.spec_best_bid(), b.spec_best_ask())
                } else {
                    r is None
                },
    {
        let handle = self.inner.acquire_read();
        let ghost b = handle.view();
        proof {
            assert(self.holds(b));
        }
        let r = match handle.borrow().checked_mid_price() {
            Some(m) => m,
            None => None,
        };
        handle.release_read();
        r
    }

    /// Spread of the shared book; `None` also when the difference
    /// overflows.
    pub fn spread(&self) -> (r: Option<Price>)
        ensures
            exists|b: OrderBookL2|
                #[trigger] self.holds(b) && if spread_defined(b.spec_best_bid(), b.spec_best_ask()) {
                    opt_price_view(r) == spread_of_sides(b.spec_best_bid(), b.spec_best_ask())
                } else {
                    r is None
                },
    {
        let handle = self.inner.acquire_read();
        let ghost b = handle.view();
        proof {
            assert(self.holds(b));
        }
        let r = match handle.borrow().checked_spread() {
            Some(m) => m,
            None => None,
        };
        handle.release_read();
        r
    }

    /// Quantity at `price` on `side` of the shared book.
    pub fn quantity_at_price(&self, side: Side, price: Price) -> (q: Quantity)
        ensures
            exists|b: OrderBookL2|
                #[trigger] self.holds(b) && ({
                    let m = levels_map(b.side_levels(side));
                    if m.dom().contains(price) {
                        q == m[price]
                    } else {
                        q.0@ == (0int, 0int)
                    }
                }),
    {
        let handle = self.inner.acquire_read();
        let ghost b = handle.view();
        proof {
            assert(self.holds(b));
        }
        let q = handle.borrow().quantity_at_price(side, price);
        handle.release_read();
        q
    }

    /// Depth up to `max_price` of the shared book; zero when a partial sum
    /// overflows.
    pub fn depth_to_price(&self, side: Side, max_price: Price) -> (q: Quantity)
        ensures
            exists|b: OrderBookL2|
                #[trigger] self.holds(b) && match depth_sum(b.side_levels(side), side, max_price) {
                    Some(v) => q.0@ == v,
                    None => q.0@ == (0int, 0int),
                },
    {
        let handle = self.inner.acquire_read();
        let ghost b = handle.view();
        proof {
            assert(self.holds(b));
        }
        let r = handle.borrow().checked_depth_to_price(side, max_price);
        handle.release_read();
        match r {
            Some(q) => q,
            None => Quantity::zero(),
        }
    }

    /// The symbol of the shared book.
    pub fn symbol(&self) -> (s: Symbol)
        ensures
            s@ == self.symbol_view(),
    {
        let handle = self.inner.acquire_read();
        let ghost b = handle.view();
        proof {
            assert(self.holds(b));
        }
        let s = handle.borrow().symbol().copy();
        handle.release_read();
        s
    }

    /// Last sequence number applied to the shared book.
    pub fn last_sequence(&self) -> (s: SequenceNumber)
        ensures
            exists|b: OrderBookL2| #[trigger] self.holds(b) && s.0 == b.spec_last_sequence(),
    {
        let handle = self.inner.acquire_read();
        let ghost b = handle.view();
        proof {
            assert(self.holds(b));
        }
        let s = handle.borrow().last_sequence();
        handle.release_read();
        s
    }

    /// Time of the last change to the shared book.
    pub fn last_update(&self) -> (t: Timestamp)
        ensures
            exists|b: OrderBookL2| #[trigger] self.holds(b) && t == b.spec_last_update(),
    {
        let handle = self.inner.acquire_read();
        let ghost b = handle.view();
        proof {
            assert(self.holds(b));
        }
        let t = handle.borrow().last_update();
        handle.release_read();
        t
    }
}

impl Clone for ThreadSafeOrderBook {
    /// Another handle to the same shared book.
    fn clone(&self) -> (c: ThreadSafeOrderBook)
        ensures
            c.same_book(self),
            c.symbol_view() == self.symbol_view(),
    {
        ThreadSafeOrderBook { inner: crate::shared::share(&self.inner) }
    }
}

/// Replaying a delta is idempotent: once a delta has been accepted,
/// applying it again succeeds and changes nothing.
pub proof fn lemma_delta_replay_idempotent(s: BookState, seq: u64, ts: Timestamp, ups: Seq<PriceLevelUpdate>)
    ensures
        ({
            let (s1, r1) = delta_outcome(s, seq, ts, ups);
            r1 is Ok ==> delta_outcome(s1, seq, ts, ups) == (s1, Ok::<(), (u64, u64)>(()))
        }),
{
}

/// A rejected delta or snapshot leaves the book as it was.
pub proof fn lemma_rejection_keeps_state(
    s: BookState,
    seq: u64,
    ts: Timestamp,
    ups: Seq<PriceLevelUpdate>,
    bids: Map<Price, Quantity>,
    asks: Map<Price, Quantity>,
)
    ensures
        delta_outcome(s, seq, ts, ups).1 is Err ==> delta_outcome(s, seq, ts, ups).0 == s,
        snapshot_outcome(s, seq, ts, bids, asks).1 is Err ==> snapshot_outcome(s, seq, ts, bids, asks).0 == s,
{
}

/// The last sequence number never decreases, and it becomes the applied
/// sequence number when a snapshot or a new delta is accepted.
pub proof fn lemma_sequence_monotone(
    s: BookState,
    seq: u64,
    ts: Timestamp,
    ups: Seq<PriceLevelUpdate>,
    bids: Map<Price, Quantity>,
    asks: Map<Price, Quantity>,
)
    ensures
        delta_outcome(s, seq, ts, ups).0.last_sequence >= s.last_sequence,
        snapshot_outcome(s, seq, ts, bids, asks).0.last_sequence >= s.last_sequence,
        snapshot_outcome(s, seq, ts, bids, asks).1 is Ok ==> snapshot_outcome(s, seq, ts, bids, asks).0.last_sequence
            == seq,
        (delta_outcome(s, seq, ts, ups).1 is Ok && seq > s.last_sequence) ==> delta_outcome(
            s,
            seq,
            ts,
            ups,
        ).0.last_sequence == seq,
{
}

/// An accepted snapshot replaces both sides of the book.
pub proof fn lemma_snapshot_replaces(
    s: BookState,
    seq: u64,
    ts: Timestamp,
    bids: Map<Price, Quantity>,
    asks: Map<Price, Quantity>,
)
    ensures
        snapshot_outcome(s, seq, ts, bids, asks).1 is Ok <==> seq > s.last_sequence,
        snapshot_outcome(s, seq, ts, bids, asks).1 is Ok ==> snapshot_outcome(s, seq, ts, bids, asks).0.bids
            == bids && snapshot_outcome(s, seq, ts, bids, asks).0.asks == asks,
{
}

/// After a level update, reading that level gives what the update wrote:
/// a nonzero update sets the quantity, a zero update or a delete removes
/// the level; other levels are untouched.
pub proof fn lemma_level_update_read(m: Map<Price, Quantity>, u: PriceLevelUpdate, p: Price)
    ensures
        (u.action == UpdateAction::Update && u.quantity.0@.0 != 0) ==> apply_level_update(m, u).dom().contains(
            u.price,
        ) && apply_level_update(m, u)[u.price] == u.quantity,
        (u.action == UpdateAction::Delete || u.quantity.0@.0 == 0) ==> !apply_level_update(m, u).dom().contains(
            u.price,
        ),
        p != u.price ==> (apply_level_update(m, u).dom().contains(p) == m.dom().contains(p) && (m.dom().contains(p)
            ==> apply_level_update(m, u)[p] == m[p])),
{
}

/// Updates of one side never change the other side.
pub proof fn lemma_other_side_untouched(m: Map<Price, Quantity>, ups: Seq<PriceLevelUpdate>, side: Side)
    requires
        forall|i: int| 0 <= i < ups.len() ==> #[trigger] ups[i].side != side,
    ensures
        apply_side_updates(m, ups, side) == m,
    decreases ups.len(),
{
    if ups.len() > 0 {
        assert(ups.last() == ups[ups.len() - 1]);
        lemma_other_side_untouched(m, ups.drop_last(), side);
    }
}

/// Once a prefix's running sum overflows, every longer prefix's does.
proof fn lemma_depth_sum_none_extends(s: Seq<(Price, Quantity)>, side: Side, max: Price, k: int)
    requires
        0 <= k <= s.len(),
        depth_sum(s.take(k), side, max) is None,
    ensures
        depth_sum(s, side, max) is None,
    decreases s.len() - k,
{
    if k < s.len() {
        assert(s.take(k + 1).drop_last() =~= s.take(k));
        lemma_depth_sum_none_extends(s, side, max, k + 1);
    } else {
        assert(s.take(k) =~= s);
    }
}

} // verus!
