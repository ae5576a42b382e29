//! Market events and the price-level collections they carry.
use crate::decimal::{add_repr, div_repr, lemma_lt_transitive, repr_lt, sub_repr, Comparison, Decimal};
use crate::types::{FeeTier, PoolAddress, Price, Quantity, SequenceNumber, Side, Symbol, SqrtPriceX96, Timestamp, TokenReserves, UpdateAction};
use vstd::prelude::*;

verus! {

/// `a` is a strictly lower price than `b`.
pub open spec fn price_lt(a: Price, b: Price) -> bool {
    repr_lt(a.0@, b.0@)
}

/// Levels sorted by strictly increasing price (so no price occurs twice).
pub open spec fn sorted_levels(s: Seq<(Price, Quantity)>) -> bool {
    forall|i: int, j: int| 0 <= i < j < s.len() ==> price_lt(#[trigger] s[i].0, #[trigger] s[j].0)
}

/// Some level of `s` is at price `p`.
pub open spec fn has_price(s: Seq<(Price, Quantity)>, p: Price) -> bool {
    exists|i: int| 0 <= i < s.len() && #[trigger] s[i].0 == p
}

/// The price-to-quantity map that a sequence of levels denotes.
pub open spec fn levels_map(s: Seq<(Price, Quantity)>) -> Map<Price, Quantity> {
    Map::new(
        |p: Price| has_price(s, p),
        |p: Price| s[choose|i: int| 0 <= i < s.len() && #[trigger] s[i].0 == p].1,
    )
}

/// In sorted levels, the map holds each level's quantity at its price.
pub proof fn lemma_levels_map_at(s: Seq<(Price, Quantity)>, i: int)
    requires
        sorted_levels(s),
        0 <= i < s.len(),
    ensures
        levels_map(s).dom().contains(s[i].0),
        levels_map(s)[s[i].0] == s[i].1,
{
    assert(has_price(s, s[i].0));
    let j = choose|j: int| 0 <= j < s.len() && #[trigger] s[j].0 == s[i].0;
    if j < i {
        assert(price_lt(s[j].0, s[i].0));
    } else if i < j {
        assert(price_lt(s[i].0, s[j].0));
    }
}

proof fn lemma_levels_map_insert(s: Seq<(Price, Quantity)>, pos: int, e: (Price, Quantity))
    requires
        sorted_levels(s),
        0 <= pos <= s.len(),
        sorted_levels(s.insert(pos, e)),
        !has_price(s, e.0),
    ensures
        levels_map(s.insert(pos, e)) =~= levels_map(s).insert(e.0, e.1),
{
    let t = s.insert(pos, e);
    assert forall|p: Price| #[trigger] has_price(t, p) <==> (p == e.0 || has_price(s, p)) by {
        if has_price(t, p) {
            let j = choose|j: int| 0 <= j < t.len() && #[trigger] t[j].0 == p;
            if j < pos {
                assert(s[j].0 == p);
            } else if j > pos {
                assert(s[j - 1].0 == p);
            }
        }
        if has_price(s, p) {
            let k = choose|k: int| 0 <= k < s.len() && #[trigger] s[k].0 == p;
            if k < pos {
                assert(t[k].0 == p);
            } else {
                assert(t[k + 1].0 == p);
            }
        }
        if p == e.0 {
            assert(t[pos].0 == p);
        }
    }
    assert forall|p: Price| #[trigger] levels_map(t).dom().contains(p) implies levels_map(t)[p]
        == levels_map(s).insert(e.0, e.1)[p] by {
        let j = choose|j: int| 0 <= j < t.len() && #[trigger] t[j].0 == p;
        lemma_levels_map_at(t, j);
        if j < pos {
            lemma_levels_map_at(s, j);
        } else if j > pos {
            lemma_levels_map_at(s, j - 1);
        }
    }
}

proof fn lemma_levels_map_update(s: Seq<(Price, Quantity)>, i: int, q: Quantity)
    requires
        sorted_levels(s),
        0 <= i < s.len(),
    ensures
        sorted_levels(s.update(i, (s[i].0, q))),
        levels_map(s.update(i, (s[i].0, q))) =~= levels_map(s).insert(s[i].0, q),
{
    let t = s.update(i, (s[i].0, q));
    assert(sorted_levels(t)) by {
        assert forall|a: int, b: int| 0 <= a < b < t.len() implies price_lt(#[trigger] t[a].0, #[trigger] t[b].0) by {
            assert(price_lt(s[a].0, s[b].0));
        }
    }
    assert forall|p: Price| #[trigger] has_price(t, p) <==> has_price(s, p) by {
        if has_price(t, p) {
            let j = choose|j: int| 0 <= j < t.len() && #[trigger] t[j].0 == p;
            assert(s[j].0 == p);
        }
        if has_price(s, p) {
            let k = choose|k: int| 0 <= k < s.len() && #[trigger] s[k].0 == p;
            assert(t[k].0 == p);
        }
    }
    lemma_levels_map_at(s, i);
    assert forall|p: Price| #[trigger] levels_map(t).dom().contains(p) implies levels_map(t)[p]
        == levels_map(s).insert(s[i].0, q)[p] by {
        let j = choose|j: int| 0 <= j < t.len() && #[trigger] t[j].0 == p;
        lemma_levels_map_at(t, j);
        lemma_levels_map_at(s, j);
    }
}

proof fn lemma_levels_map_remove(s: Seq<(Price, Quantity)>, i: int)
    requires
        sorted_levels(s),
        0 <= i < s.len(),
    ensures
        sorted_levels(s.remove(i)),
        levels_map(s.remove(i)) =~= levels_map(s).remove(s[i].0),
{
    let t = s.remove(i);
    assert(sorted_levels(t)) by {
        assert forall|a: int, b: int| 0 <= a < b < t.len() implies price_lt(#[trigger] t[a].0, #[trigger] t[b].0) by {
            let a2 = if a < i { a } else { a + 1 };
            let b2 = if b < i { b } else { b + 1 };
            assert(price_lt(s[a2].0, s[b2].0));
        }
    }
    assert forall|p: Price| #[trigger] has_price(t, p) <==> (has_price(s, p) && p != s[i].0) by {
        if has_price(t, p) {
            let j = choose|j: int| 0 <= j < t.len() && #[trigger] t[j].0 == p;
            if j < i {
                assert(s[j].0 == p);
                assert(price_lt(s[j].0, s[i].0));
            } else {
                assert(s[j + 1].0 == p);
                assert(price_lt(s[i].0, s[j + 1].0));
            }
        }
        if has_price(s, p) && p != s[i].0 {
            let k = choose|k: int| 0 <= k < s.len() && #[trigger] s[k].0 == p;
            if k < i {
                assert(t[k].0 == p);
            } else {
                assert(t[k - 1].0 == p);
            }
        }
    }
    assert forall|p: Price| #[trigger] levels_map(t).dom().contains(p) implies levels_map(t)[p]
        == levels_map(s).remove(s[i].0)[p] by {
        let j = choose|j: int| 0 <= j < t.len() && #[trigger] t[j].0 == p;
        lemma_levels_map_at(t, j);
        if j < i {
            lemma_levels_map_at(s, j);
        } else {
            lemma_levels_map_at(s, j + 1);
        }
    }
}

/// Price levels of one side of a book, kept sorted by price.
#[derive(Debug, PartialEq, Eq)]
pub struct PriceLevels {
    levels: Vec<(Price, Quantity)>,
}

impl View for PriceLevels {
    type V = Map<Price, Quantity>;

    open spec fn view(&self) -> Map<Price, Quantity> {
        levels_map(self.entries())
    }
}

impl PriceLevels {
    #[verifier::type_invariant]
    spec fn sorted(self) -> bool {
        sorted_levels(self.levels@)
    }

    /// The levels in increasing price order.
    pub closed spec fn entries(&self) -> Seq<(Price, Quantity)> {
        self.levels@
    }

    /// No levels.
    pub fn new() -> (l: PriceLevels)
        ensures
            l.entries() == Seq::<(Price, Quantity)>::empty(),
            l@ == Map::<Price, Quantity>::empty(),
    {
        let l = PriceLevels { levels: Vec::new() };
        assert(l@ =~= Map::<Price, Quantity>::empty());
        l
    }

    /// The levels are sorted by strictly increasing price.
    pub(crate) fn check_sorted(&self)
        ensures
            sorted_levels(self.entries()),
    {
        proof {
            use_type_invariant(self);
        }
    }

    /// Number of levels.
    pub fn len(&self) -> (n: usize)
        ensures
            n == self.entries().len(),
            sorted_levels(self.entries()),
    {
        proof {
            use_type_invariant(self);
        }
        self.levels.len()
    }

    /// True when there are no levels.
    pub fn is_empty(&self) -> (b: bool)
        ensures
            b == (self.entries().len() == 0),
            b == (self@.dom() == Set::<Price>::empty()),
    {
        proof {
            use_type_invariant(self);
            if self.entries().len() > 0 {
                lemma_levels_map_at(self.entries(), 0);
            } else {
                assert(self@.dom() =~= Set::<Price>::empty());
            }
        }
        self.levels.len() == 0
    }

    /// The level at position `i` (in increasing price order).
    pub fn level_at(&self, i: usize) -> (e: (Price, Quantity))
        requires
            i < self.entries().len(),
        ensures
            e == self.entries()[i as int],
    {
        self.levels[i]
    }

    /// Locates `price`: `Ok(i)` when level `i` is at that price, otherwise
    /// `Err(pos)` where `pos` is the position at which it would go.
    fn find(&self, price: &Price) -> (r: Result<usize, usize>)
        ensures
            sorted_levels(self.entries()),
            match r {
                Ok(i) => i < self.entries().len() && self.entries()[i as int].0 == *price,
                Err(pos) => {
                    &&& pos <= self.entries().len()
                    &&& forall|i: int| 0 <= i < pos ==> price_lt(#[trigger] self.entries()[i].0, *price)
                    &&& forall|i: int| pos <= i < self.entries().len() ==> price_lt(*price, #[trigger] self.entries()[i].0)
                },
            },
    {
        proof {
            use_type_invariant(self);
        }
        let ghost s = self.entries();
        let mut i: usize = 0;
        while i < self.levels.len()
            invariant
                s == self.entries(),
                sorted_levels(s),
                i <= s.len(),
                forall|j: int| 0 <= j < i ==> price_lt(#[trigger] s[j].0, *price),
            decreases s.len() - i,
        {
            let here = self.levels[i].0;
            match here.0.compare(&price.0) {
                Comparison::Equal => {
                    return Ok(i);
                },
                Comparison::Greater => {
                    proof {
                        assert forall|j: int| i <= j < s.len() implies price_lt(*price, #[trigger] s[j].0) by {
                            if j > i {
                                lemma_lt_transitive(price.0@, s[i as int].0.0@, s[j].0.0@);
                            }
                        }
                    }
                    return Err(i);
                },
                Comparison::Less => {},
            }
            i = i + 1;
        }
        Err(i)
    }

    /// The quantity at `price`, if there is a level there.
    pub fn get(&self, price: &Price) -> (r: Option<Quantity>)
        ensures
            r == (if self@.dom().contains(*price) { Some(self@[*price]) } else { None::<Quantity> }),
    {
        match self.find(price) {
            Ok(i) => {
                proof {
                    lemma_levels_map_at(self.entries(), i as int);
                }
                Some(self.levels[i].1)
            },
            Err(pos) => {
                proof {
                    if has_price(self.entries(), *price) {
                        let k = choose|k: int| 0 <= k < self.entries().len() && #[trigger] self.entries()[k].0 == *price;
                        if k < pos {
                            assert(price_lt(self.entries()[k].0, *price));
                        } else {
                            assert(price_lt(*price, self.entries()[k].0));
                        }
                    }
                }
                None
            },
        }
    }

    /// Sets the quantity at `price`, adding the level if absent.
    pub fn insert(&mut self, price: Price, quantity: Quantity)
        ensures
            final(self)@ == old(self)@.insert(price, quantity),
    {
        match self.find(&price) {
            Ok(i) => {
                proof {
                    lemma_levels_map_update(self.entries(), i as int, quantity);
                }
                let mut v: Vec<(Price, Quantity)> = Vec::new();
                std::mem::swap(&mut v, &mut self.levels);
                v.set(i, (price, quantity));
                self.levels = v;
            },
            Err(pos) => {
                let ghost s = self.entries();
                proof {
                    if has_price(s, price) {
                        let k = choose|k: int| 0 <= k < s.len() && #[trigger] s[k].0 == price;
                        if k < pos {
                            assert(price_lt(s[k].0, price));
                        } else {
                            assert(price_lt(price, s[k].0));
                        }
                    }
                    let t = s.insert(pos as int, (price, quantity));
                    assert(sorted_levels(t)) by {
                        assert forall|a: int, b: int| 0 <= a < b < t.len() implies price_lt(#[trigger] t[a].0, #[trigger] t[b].0) by {
                            if b < pos {
                                assert(price_lt(s[a].0, s[b].0));
                            } else if b == pos {
                                assert(price_lt(s[a].0, price));
                            } else if a < pos {
                                assert(price_lt(s[a].0, price));
                                assert(price_lt(price, s[b - 1].0));
                                lemma_lt_transitive(s[a].0.0@, price.0@, s[b - 1].0.0@);
                            } else if a == pos {
                                assert(price_lt(price, s[b - 1].0));
                            } else {
                                assert(price_lt(s[a - 1].0, s[b - 1].0));
                            }
                        }
                    }
                    lemma_levels_map_insert(s, pos as int, (price, quantity));
                }
                let mut v: Vec<(Price, Quantity)> = Vec::new();
                std::mem::swap(&mut v, &mut self.levels);
                v.insert(pos, (price, quantity));
                self.levels = v;
            },
        }
    }

    /// Removes the level at `price`, if any.
    pub fn remove(&mut self, price: &Price)
        ensures
            final(self)@ == old(self)@.remove(*price),
    {
        match self.find(price) {
            Ok(i) => {
                proof {
                    lemma_levels_map_remove(self.entries(), i as int);
                }
                let mut v: Vec<(Price, Quantity)> = Vec::new();
                std::mem::swap(&mut v, &mut self.levels);
                v.remove(i);
                self.levels = v;
            },
            Err(pos) => {
                proof {
                    let s = self.entries();
                    if has_price(s, *price) {
                        let k = choose|k: int| 0 <= k < s.len() && #[trigger] s[k].0 == *price;
                        if k < pos {
                            assert(price_lt(s[k].0, *price));
                        } else {
                            assert(price_lt(*price, s[k].0));
                        }
                    }
                    assert(self@.remove(*price) =~= self@);
                }
            },
        }
    }

    /// The lowest price.
    pub fn first(&self) -> (r: Option<&Price>)
        ensures
            r == (if self.entries().len() == 0 { None::<&Price> } else { Some(&self.entries()[0].0) }),
            sorted_levels(self.entries()),
    {
        proof {
            use_type_invariant(self);
        }
        if self.levels.len() == 0 {
            None
        } else {
            Some(&self.levels[0].0)
        }
    }

    /// The highest price.
    pub fn last(&self) -> (r: Option<&Price>)
        ensures
            r == (if self.entries().len() == 0 {
                None::<&Price>
            } else {
                Some(&self.entries()[self.entries().len() - 1].0)
            }),
            sorted_levels(self.entries()),
    {
        proof {
            use_type_invariant(self);
        }
        let n = self.levels.len();
        if n == 0 {
            None
        } else {
            Some(&self.levels[n - 1].0)
        }
    }

    /// A copy of these levels.
    pub fn copy(&self) -> (l: PriceLevels)
        ensures
            l.entries() == self.entries(),
    {
        proof {
            use_type_invariant(self);
        }
        let mut v: Vec<(Price, Quantity)> = Vec::new();
        let mut i: usize = 0;
        while i < self.levels.len()
            invariant
                i <= self.levels@.len(),
                v@ == self.levels@.subrange(0, i as int),
            decreases self.levels@.len() - i,
        {
            v.push(self.levels[i]);
            i = i + 1;
            assert(v@ =~= self.levels@.subrange(0, i as int));
        }
        assert(v@ =~= self.levels@);
        PriceLevels { levels: v }
    }
}

impl Clone for PriceLevels {
    fn clone(&self) -> (l: PriceLevels)
        ensures
            l.entries() == self.entries(),
    {
        self.copy()
    }
}

/// Highest price of some levels.
pub open spec fn top_price(s: Seq<(Price, Quantity)>) -> Option<Price> {
    if s.len() == 0 {
        None
    } else {
        Some(s[s.len() - 1].0)
    }
}

/// Lowest price of some levels.
pub open spec fn bottom_price(s: Seq<(Price, Quantity)>) -> Option<Price> {
    if s.len() == 0 {
        None
    } else {
        Some(s[0].0)
    }
}

/// In sorted levels the top price is a level's price and no level is higher;
/// there is no top price exactly when there are no levels.
pub proof fn lemma_top_price_is_max(s: Seq<(Price, Quantity)>)
    requires
        sorted_levels(s),
    ensures
        top_price(s) is None <==> levels_map(s).dom() =~= Set::<Price>::empty(),
        top_price(s) matches Some(p) ==> levels_map(s).dom().contains(p) && forall|k: Price|
            #[trigger] levels_map(s).dom().contains(k) ==> !price_lt(p, k),
{
    if s.len() > 0 {
        let n = s.len() - 1;
        lemma_levels_map_at(s, n);
        assert forall|k: Price| #[trigger] levels_map(s).dom().contains(k) implies !price_lt(s[n].0, k) by {
            let j = choose|j: int| 0 <= j < s.len() && #[trigger] s[j].0 == k;
            if j < n {
                assert(price_lt(s[j].0, s[n].0));
            }
        }
    }
}

/// In sorted levels the bottom price is a level's price and no level is
/// lower; there is no bottom price exactly when there are no levels.
pub proof fn lemma_bottom_price_is_min(s: Seq<(Price, Quantity)>)
    requires
        sorted_levels(s),
    ensures
        bottom_price(s) is None <==> levels_map(s).dom() =~= Set::<Price>::empty(),
        bottom_price(s) matches Some(p) ==> levels_map(s).dom().contains(p) && forall|k: Price|
            #[trigger] levels_map(s).dom().contains(k) ==> !price_lt(k, p),
{
    if s.len() > 0 {
        lemma_levels_map_at(s, 0);
        assert forall|k: Price| #[trigger] levels_map(s).dom().contains(k) implies !price_lt(k, s[0].0) by {
            let j = choose|j: int| 0 <= j < s.len() && #[trigger] s[j].0 == k;
            if 0 < j {
                assert(price_lt(s[0].0, s[j].0));
            }
        }
    }
}

/// Mid price `(bid + ask) / 2` (`None` when the sum overflows).
pub open spec fn mid_repr(bid: Price, ask: Price) -> Option<(int, int)> {
    match add_repr(bid.0@, ask.0@) {
        Some(sum) => div_repr(sum, (2, 0)),
        None => None,
    }
}

/// Spread `ask - bid` (`None` when the difference overflows).
pub open spec fn spread_repr(bid: Price, ask: Price) -> Option<(int, int)> {
    sub_repr(ask.0@, bid.0@)
}

/// The sum of the best prices does not overflow (when both exist).
pub open spec fn mid_defined(bid: Option<Price>, ask: Option<Price>) -> bool {
    match (bid, ask) {
        (Some(b), Some(a)) => add_repr(b.0@, a.0@) is Some,
        _ => true,
    }
}

/// The spread of the best prices does not overflow (when both exist).
pub open spec fn spread_defined(bid: Option<Price>, ask: Option<Price>) -> bool {
    match (bid, ask) {
        (Some(b), Some(a)) => spread_repr(b, a) is Some,
        _ => true,
    }
}

/// Mid price of optional best prices (`None` unless both exist).
pub open spec fn mid_of_sides(bid: Option<Price>, ask: Option<Price>) -> Option<(int, int)> {
    match (bid, ask) {
        (Some(b), Some(a)) => mid_repr(b, a),
        _ => None,
    }
}

/// Spread of optional best prices (`None` unless both exist).
pub open spec fn spread_of_sides(bid: Option<Price>, ask: Option<Price>) -> Option<(int, int)> {
    match (bid, ask) {
        (Some(b), Some(a)) => spread_repr(b, a),
        _ => None,
    }
}

/// The value of an optional price.
pub open spec fn opt_price_view(p: Option<Price>) -> Option<(int, int)> {
    match p {
        Some(x) => Some(x.0@),
        None => None,
    }
}

/// Mid price of a best bid and best ask, both present.
pub fn mid_of(bid: &Price, ask: &Price) -> (m: Option<Price>)
    ensures
        opt_price_view(m) == mid_repr(*bid, *ask),
        m is Some <==> add_repr(bid.0@, ask.0@) is Some,
{
    match bid.0.checked_add(&ask.0) {
        Some(sum) => {
            let two = Decimal::from_u32(2);
            proof {
                assert(crate::decimal::pow10(0) == 1);
            }
            let q = sum.checked_div(&two);
            match q {
                Some(d) => Some(Price(d)),
                None => None,
            }
        },
        None => None,
    }
}

/// Spread between a best bid and best ask, both present.
pub fn spread_of(bid: &Price, ask: &Price) -> (s: Option<Price>)
    ensures
        opt_price_view(s) == spread_repr(*bid, *ask),
{
    match ask.0.checked_sub(&bid.0) {
        Some(d) => Some(Price(d)),
        None => None,
    }
}

/// A price level of a book.
#[derive(Clone, Copy, Debug, PartialEq, Eq, Structural)]
pub struct PriceLevel {
    /// Price of the level.
    pub price: Price,
    /// Quantity at that price.
    pub quantity: Quantity,
}

impl PriceLevel {
    /// A level with the given price and quantity.
    pub fn new(price: Price, quantity: Quantity) -> (l: PriceLevel)
        ensures
            l.price == price,
            l.quantity == quantity,
    {
        PriceLevel { price, quantity }
    }
}

/// Change to one price level.
#[derive(Clone, Copy, Debug, PartialEq, Eq, Structural)]
pub struct PriceLevelUpdate {
    /// Side of the book.
    pub side: Side,
    /// Price of the level.
    pub price: Price,
    /// New quantity at the level.
    pub quantity: Quantity,
    /// Update or delete.
    pub action: UpdateAction,
}

impl PriceLevelUpdate {
    /// An update with the given fields.
    pub fn new(side: Side, price: Price, quantity: Quantity, action: UpdateAction) -> (u: PriceLevelUpdate)
        ensures
            u == (PriceLevelUpdate { side, price, quantity, action }),
    {
        PriceLevelUpdate { side, price, quantity, action }
    }

    /// Sets the level at `price` to `quantity`.
    pub fn update(side: Side, price: Price, quantity: Quantity) -> (u: PriceLevelUpdate)
        ensures
            u == (PriceLevelUpdate { side, price, quantity, action: UpdateAction::Update }),
    {
        Self::new(side, price, quantity, UpdateAction::Update)
    }

    /// Removes the level at `price` (the quantity is zero).
    pub fn delete(side: Side, price: Price) -> (u: PriceLevelUpdate)
        ensures
            u.side == side,
            u.price == price,
            u.quantity.0@ == (0int, 0int),
            u.action == UpdateAction::Delete,
    {
        Self::new(side, price, Quantity::zero(), UpdateAction::Delete)
    }
}

/// Full order book state at one sequence number.
#[derive(Debug, PartialEq, Eq)]
pub struct OrderBookSnapshot {
    /// Sequence number.
    pub sequence: SequenceNumber,
    /// Time of the snapshot.
    pub timestamp: Timestamp,
    /// Bid levels.
    pub bids: PriceLevels,
    /// Ask levels.
    pub asks: PriceLevels,
}

impl OrderBookSnapshot {
    /// An empty snapshot.
    pub fn new(sequence: SequenceNumber, timestamp: Timestamp) -> (s: OrderBookSnapshot)
        ensures
            s.sequence == sequence,
            s.timestamp == timestamp,
            s.bids.entries().len() == 0,
            s.asks.entries().len() == 0,
    {
        OrderBookSnapshot { sequence, timestamp, bids: PriceLevels::new(), asks: PriceLevels::new() }
    }

    /// A snapshot with the given levels.
    pub fn with_levels(
        sequence: SequenceNumber,
        timestamp: Timestamp,
        bids: PriceLevels,
        asks: PriceLevels,
    ) -> (s: OrderBookSnapshot)
        ensures
            s == (OrderBookSnapshot { sequence, timestamp, bids, asks }),
    {
        OrderBookSnapshot { sequence, timestamp, bids, asks }
    }

    /// The highest bid price.
    pub fn best_bid(&self) -> (r: Option<&Price>)
        ensures
            r == (match top_price(self.bids.entries()) {
                Some(p) => Some(&p),
                None => None::<&Price>,
            }),
    {
        self.bids.last()
    }

    /// The lowest ask price.
    pub fn best_ask(&self) -> (r: Option<&Price>)
        ensures
            r == (match bottom_price(self.asks.entries()) {
                Some(p) => Some(&p),
                None => None::<&Price>,
            }),
    {
        self.asks.first()
    }

    /// Mid price when both sides have levels; the sum of the best prices
    /// must not overflow.
    pub fn mid_price(&self) -> (r: Option<Price>)
        requires
            mid_defined(top_price(self.bids.entries()), bottom_price(self.asks.entries())),
        ensures
            opt_price_view(r) == mid_of_sides(top_price(self.bids.entries()), bottom_price(self.asks.entries())),
    {
        match (self.best_bid(), self.best_ask()) {
            (Some(bid), Some(ask)) => mid_of(bid, ask),
            _ => None,
        }
    }

    /// Spread when both sides have levels; the difference must not overflow.
    pub fn spread(&self) -> (r: Option<Price>)
        requires
            spread_defined(top_price(self.bids.entries()), bottom_price(self.asks.entries())),
        ensures
            opt_price_view(r) == spread_of_sides(top_price(self.bids.entries()), bottom_price(self.asks.entries())),
    {
        match (self.best_bid(), self.best_ask()) {
            (Some(bid), Some(ask)) => spread_of(bid, ask),
            _ => None,
        }
    }

    /// A copy of this snapshot.
    pub fn copy(&self) -> (s: OrderBookSnapshot)
        ensures
            s.sequence == self.sequence,
            s.timestamp == self.timestamp,
            s.bids.entries() == self.bids.entries(),
            s.asks.entries() == self.asks.entries(),
    {
        OrderBookSnapshot {
            sequence: self.sequence,
            timestamp: self.timestamp,
            bids: self.bids.copy(),
            asks: self.asks.copy(),
        }
    }
}

impl Clone for OrderBookSnapshot {
    fn clone(&self) -> (s: OrderBookSnapshot)
        ensures
            s.sequence == self.sequence,
            s.timestamp == self.timestamp,
            s.bids.entries() == self.bids.entries(),
            s.asks.entries() == self.asks.entries(),
    {
        self.copy()
    }
}

/// Incremental change to an order book.
#[derive(Debug, PartialEq, Eq)]
pub struct OrderBookDelta {
    /// Sequence number.
    pub sequence: SequenceNumber,
    /// Time of the delta.
    pub timestamp: Timestamp,
    /// Level changes, applied in order.
    pub updates: Vec<PriceLevelUpdate>,
}

impl OrderBookDelta {
    /// A delta with no updates.
    pub fn new(sequence: SequenceNumber, timestamp: Timestamp) -> (d: OrderBookDelta)
        ensures
            d.sequence == sequence,
            d.timestamp == timestamp,
            d.updates@ == Seq::<PriceLevelUpdate>::empty(),
    {
        OrderBookDelta { sequence, timestamp, updates: Vec::new() }
    }

    /// A delta with the given updates.
    pub fn with_updates(
        sequence: SequenceNumber,
        timestamp: Timestamp,
        updates: Vec<PriceLevelUpdate>,
    ) -> (d: OrderBookDelta)
        ensures
            d.sequence == sequence,
            d.timestamp == timestamp,
            d.updates@ == updates@,
    {
        OrderBookDelta { sequence, timestamp, updates }
    }

    /// Appends an update.
    pub fn add_update(&mut self, update: PriceLevelUpdate)
        ensures
            final(self).sequence == old(self).sequence,
            final(self).timestamp == old(self).timestamp,
            final(self).updates@ == old(self).updates@.push(update),
    {
        self.updates.push(update);
    }

    /// A copy of this delta.
    pub fn copy(&self) -> (d: OrderBookDelta)
        ensures
            d.sequence == self.sequence,
            d.timestamp == self.timestamp,
            d.updates@ == self.updates@,
    {
        let mut v: Vec<PriceLevelUpdate> = Vec::new();
        let mut i: usize = 0;
        while i < self.updates.len()
            invariant
                i <= self.updates@.len(),
                v@ == self.updates@.subrange(0, i as int),
            decreases self.updates@.len() - i,
        {
            v.push(self.updates[i]);
            i = i + 1;
            assert(v@ =~= self.updates@.subrange(0, i as int));
        }
        assert(v@ =~= self.updates@);
        OrderBookDelta { sequence: self.sequence, timestamp: self.timestamp, updates: v }
    }
}

impl Clone for OrderBookDelta {
    fn clone(&self) -> (d: OrderBookDelta)
        ensures
            d.sequence == self.sequence,
            d.timestamp == self.timestamp,
            d.updates@ == self.updates@,
    {
        self.copy()
    }
}

/// A trade execution.
#[derive(Clone, Copy, Debug, PartialEq, Eq, Structural)]
pub struct Trade {
    /// Sequence number.
    pub sequence: SequenceNumber,
    /// Time of the trade.
    pub timestamp: Timestamp,
    /// Trade price.
    pub price: Price,
    /// Trade quantity.
    pub quantity: Quantity,
    /// Taker side.
    pub side: Side,
}

impl Trade {
    /// A trade with the given fields.
    pub fn new(
        sequence: SequenceNumber,
        timestamp: Timestamp,
        price: Price,
        quantity: Quantity,
        side: Side,
    ) -> (t: Trade)
        ensures
            t == (Trade { sequence, timestamp, price, quantity, side }),
    {
        Trade { sequence, timestamp, price, quantity, side }
    }
}

/// Implied mid price of reserves: `token1 / token0`, zero when token0 is zero.
pub open spec fn reserves_mid_repr(r: TokenReserves) -> Option<(int, int)> {
    if r.token0@.0 == 0 {
        Some((0, 0))
    } else {
        div_repr(r.token1@, r.token0@)
    }
}

/// `token1 / token0` (zero when token0 is zero), when it does not overflow.
pub fn reserves_mid(r: &TokenReserves) -> (p: Option<Price>)
    ensures
        opt_price_view(p) == reserves_mid_repr(*r),
{
    if r.token0.is_zero() {
        Some(Price::zero())
    } else {
        match r.token1.checked_div(&r.token0) {
            Some(d) => Some(Price(d)),
            None => None,
        }
    }
}

/// Implied mid of a pool state: the decoded square-root price when there is
/// one, the reserves ratio otherwise.
pub open spec fn implied_mid_repr(r: TokenReserves, sqrt_price: Option<SqrtPriceX96>) -> Option<(int, int)> {
    match sqrt_price {
        Some(s) => Some(s.1.0@),
        None => reserves_mid_repr(r),
    }
}

/// Update of an AMM pool's state.
#[derive(Clone, Copy, Debug, PartialEq, Eq, Structural)]
pub struct AMMPoolUpdate {
    /// Time of the update.
    pub timestamp: Timestamp,
    /// New reserves.
    pub reserves: TokenReserves,
    /// New square-root price (concentrated-liquidity pools).
    pub sqrt_price: Option<SqrtPriceX96>,
    /// Fee tier.
    pub fee_tier: FeeTier,
}

impl AMMPoolUpdate {
    /// An update with the given fields.
    pub fn new(
        timestamp: Timestamp,
        reserves: TokenReserves,
        sqrt_price: Option<SqrtPriceX96>,
        fee_tier: FeeTier,
    ) -> (u: AMMPoolUpdate)
        ensures
            u == (AMMPoolUpdate { timestamp, reserves, sqrt_price, fee_tier }),
    {
        AMMPoolUpdate { timestamp, reserves, sqrt_price, fee_tier }
    }

    /// `token1 / token0`, zero when token0 is zero; the quotient must not
    /// overflow.
    pub fn implied_mid_from_reserves(&self) -> (p: Price)
        requires
            reserves_mid_repr(self.reserves) is Some,
        ensures
            Some(p.0@) == reserves_mid_repr(self.reserves),
    {
        reserves_mid(&self.reserves).unwrap()
    }

    /// The decoded square-root price when present, the reserves ratio
    /// otherwise.
    pub fn implied_mid(&self) -> (p: Price)
        requires
            implied_mid_repr(self.reserves, self.sqrt_price) is Some,
        ensures
            Some(p.0@) == implied_mid_repr(self.reserves, self.sqrt_price),
    {
        match self.sqrt_price {
            Some(s) => s.to_price(),
            None => self.implied_mid_from_reserves(),
        }
    }
}

/// Events processed by the system.
#[derive(Debug, PartialEq, Eq)]
pub enum MarketEvent {
    /// Order book snapshot.
    OrderBookSnapshot(Symbol, OrderBookSnapshot),
    /// Order book delta.
    OrderBookDelta(Symbol, OrderBookDelta),
    /// Trade.
    Trade(Symbol, Trade),
    /// AMM pool update.
    AMMUpdate(PoolAddress, AMMPoolUpdate),
}

impl MarketEvent {
    /// Time of the event.
    pub fn timestamp(&self) -> (t: Timestamp)
        ensures
            t == (match self {
                MarketEvent::OrderBookSnapshot(_, s) => s.timestamp,
                MarketEvent::OrderBookDelta(_, d) => d.timestamp,
                MarketEvent::Trade(_, t) => t.timestamp,
                MarketEvent::AMMUpdate(_, u) => u.timestamp,
            }),
    {
        match self {
            MarketEvent::OrderBookSnapshot(_, snapshot) => snapshot.timestamp,
            MarketEvent::OrderBookDelta(_, delta) => delta.timestamp,
            MarketEvent::Trade(_, trade) => trade.timestamp,
            MarketEvent::AMMUpdate(_, update) => update.timestamp,
        }
    }

    /// Sequence number, when the event has one (AMM updates do not).
    pub fn sequence(&self) -> (s: Option<SequenceNumber>)
        ensures
            s == (match self {
                MarketEvent::OrderBookSnapshot(_, s) => Some(s.sequence),
                MarketEvent::OrderBookDelta(_, d) => Some(d.sequence),
                MarketEvent::Trade(_, t) => Some(t.sequence),
                MarketEvent::AMMUpdate(_, _) => None::<SequenceNumber>,
            }),
    {
        match self {
            MarketEvent::OrderBookSnapshot(_, snapshot) => Some(snapshot.sequence),
            MarketEvent::OrderBookDelta(_, delta) => Some(delta.sequence),
            MarketEvent::Trade(_, trade) => Some(trade.sequence),
            MarketEvent::AMMUpdate(_, _) => None,
        }
    }
}

} // verus!
