//! AMM pools (constant product and concentrated liquidity) and price impact.
use crate::decimal::{abs_repr, add_repr, div_repr, mul_repr, repr_lt, sub_repr, Decimal};
use crate::events::{implied_mid_repr, opt_price_view, reserves_mid, AMMPoolUpdate};
use crate::types::{fee_fraction, FeeTier, PoolAddress, Price, SqrtPriceX96, Timestamp, TokenReserves, TradingError, TradingResult};
use std::sync::Arc;
use vstd::prelude::*;
use vstd::rwlock::{RwLock, RwLockPredicate};

verus! {

/// Kind of AMM pool.
#[derive(Clone, Copy, Debug, PartialEq, Eq, Structural)]
pub enum AMMPoolType {
    /// Constant product, `x * y = k` (Uniswap V2 style).
    ConstantProduct,
    /// Concentrated liquidity (Uniswap V3 style).
    ConcentratedLiquidity,
}

/// Which token of the pair is put in.
#[derive(Clone, Copy, Debug, PartialEq, Eq, Structural)]
pub enum TokenIndex {
    /// First token of the pair.
    Token0,
    /// Second token of the pair.
    Token1,
}

/// Result of a price impact calculation.
#[derive(Clone, Copy, Debug, PartialEq, Eq, Structural)]
pub struct PriceImpactResult {
    /// Output tokens received.
    pub output_amount: Decimal,
    /// Price impact in percent.
    pub price_impact_percent: Decimal,
    /// Price obtained: output per unit of input.
    pub effective_price: Price,
    /// Fee charged, in input tokens.
    pub fee_amount: Decimal,
}

/// A quote as values: (output, impact percent, effective price, fee amount).
pub type ImpactRepr = ((int, int), (int, int), (int, int), (int, int));

/// The values of a price impact result.
pub open spec fn impact_view(r: PriceImpactResult) -> ImpactRepr {
    (r.output_amount@, r.price_impact_percent@, r.effective_price.0@, r.fee_amount@)
}

/// Constant-product quote for putting `input` into a pool with reserves
/// `rin` (input side) and `rout` (output side) and fee fraction `fee`:
/// `Some(Err(()))` when liquidity is insufficient (a reserve is zero, or the
/// output would not stay below the output reserve), `Some(Ok(..))` with the
/// quote otherwise, and `None` when a step of the arithmetic overflows or
/// divides by zero.
pub open spec fn v2_quote(rin: (int, int), rout: (int, int), fee: (int, int), input: (int, int)) -> Option<
    Result<ImpactRepr, ()>,
> {
    if rin.0 == 0 || rout.0 == 0 {
        Some(Err(()))
    } else {
        match sub_repr((1, 0), fee) {
            None => None,
            Some(keep) => match mul_repr(input, keep) {
                None => None,
                Some(after_fee) => match mul_repr(rout, after_fee) {
                    None => None,
                    Some(num) => match add_repr(rin, after_fee) {
                        None => None,
                        Some(den) => match div_repr(num, den) {
                            None => None,
                            Some(out) => if !repr_lt(out, rout) {
                                Some(Err(()))
                            } else {
                                quote_tail(rin, rout, fee, input, out)
                            },
                        },
                    },
                },
            },
        }
    }
}

/// The part of a quote computed once the output is known to stay below
/// the output reserve.
pub open spec fn quote_tail(
    rin: (int, int),
    rout: (int, int),
    fee: (int, int),
    input: (int, int),
    out: (int, int),
) -> Option<Result<ImpactRepr, ()>> {
    match div_repr(rout, rin) {
        None => None,
        Some(initial) => match div_repr(out, input) {
            None => None,
            Some(effective) => match sub_repr(initial, effective) {
                None => None,
                Some(diff) => match div_repr(diff, initial) {
                    None => None,
                    Some(rel) => match mul_repr(abs_repr(rel), (100, 0)) {
                        None => None,
                        Some(impact) => match mul_repr(input, fee) {
                            None => None,
                            Some(fee_amount) => Some(Ok((out, impact, effective, fee_amount))),
                        },
                    },
                },
            },
        },
    }
}

/// Reserves on the input side and on the output side.
pub open spec fn in_out(r: TokenReserves, t: TokenIndex) -> ((int, int), (int, int)) {
    match t {
        TokenIndex::Token0 => (r.token0@, r.token1@),
        TokenIndex::Token1 => (r.token1@, r.token0@),
    }
}

/// The quote a pool gives for `input` of token `t`.
pub open spec fn pool_quote(r: TokenReserves, fee: FeeTier, t: TokenIndex, input: (int, int)) -> Option<
    Result<ImpactRepr, ()>,
> {
    v2_quote(in_out(r, t).0, in_out(r, t).1, fee_fraction(fee.0), input)
}

/// The result of a quote matches its value (errors are insufficient
/// liquidity for the input amount).
pub open spec fn quote_matches(r: TradingResult<PriceImpactResult>, q: Result<ImpactRepr, ()>, input: Decimal) -> bool {
    match (r, q) {
        (Ok(x), Ok(v)) => impact_view(x) == v,
        (Err(TradingError::InsufficientLiquidity(a)), Err(())) => a == input,
        _ => false,
    }
}

/// An AMM pool.
#[derive(Debug)]
pub struct AMMPool {
    address: PoolAddress,
    pool_type: AMMPoolType,
    reserves: TokenReserves,
    sqrt_price: Option<SqrtPriceX96>,
    fee_tier: FeeTier,
    last_update: Timestamp,
}

impl AMMPool {
    /// The pool's address.
    pub closed spec fn address_view(&self) -> Seq<char> {
        self.address@
    }

    /// The pool's kind.
    pub closed spec fn spec_pool_type(&self) -> AMMPoolType {
        self.pool_type
    }

    /// Current reserves.
    pub closed spec fn spec_reserves(&self) -> TokenReserves {
        self.reserves
    }

    /// Current square-root price.
    pub closed spec fn spec_sqrt_price(&self) -> Option<SqrtPriceX96> {
        self.sqrt_price
    }

    /// Current fee tier.
    pub closed spec fn spec_fee_tier(&self) -> FeeTier {
        self.fee_tier
    }

    /// Time of the last update.
    pub closed spec fn spec_last_update(&self) -> Timestamp {
        self.last_update
    }

    /// Implied mid price of the current state.
    pub open spec fn spec_implied_mid(&self) -> Option<(int, int)> {
        implied_mid_repr(self.spec_reserves(), self.spec_sqrt_price())
    }

    /// A constant-product pool.
    pub fn new_v2(address: PoolAddress, reserves: TokenReserves, fee_tier: FeeTier) -> (p: AMMPool)
        ensures
            p.address_view() == address@,
            p.spec_pool_type() == AMMPoolType::ConstantProduct,
            p.spec_reserves() == reserves,
            p.spec_sqrt_price() == None::<SqrtPriceX96>,
            p.spec_fee_tier() == fee_tier,
    {
        AMMPool {
            address,
            pool_type: AMMPoolType::ConstantProduct,
            reserves,
            sqrt_price: None,
            fee_tier,
            last_update: Timestamp::now(),
        }
    }

    /// A concentrated-liquidity pool.
    pub fn new_v3(
        address: PoolAddress,
        reserves: TokenReserves,
        sqrt_price: SqrtPriceX96,
        fee_tier: FeeTier,
    ) -> (p: AMMPool)
        ensures
            p.address_view() == address@,
            p.spec_pool_type() == AMMPoolType::ConcentratedLiquidity,
            p.spec_reserves() == reserves,
            p.spec_sqrt_price() == Some(sqrt_price),
            p.spec_fee_tier() == fee_tier,
    {
        AMMPool {
            address,
            pool_type: AMMPoolType::ConcentratedLiquidity,
            reserves,
            sqrt_price: Some(sqrt_price),
            fee_tier,
            last_update: Timestamp::now(),
        }
    }

    /// The pool an update creates at `address`: concentrated liquidity
    /// exactly when the update carries a square-root price, with the
    /// update's reserves and fee tier.
    pub fn for_update(address: PoolAddress, update: AMMPoolUpdate) -> (p: AMMPool)
        ensures
            p.address_view() == address@,
            p.spec_pool_type() == (if update.sqrt_price is Some {
                AMMPoolType::ConcentratedLiquidity
            } else {
                AMMPoolType::ConstantProduct
            }),
            p.spec_reserves() == update.reserves,
            p.spec_sqrt_price() == update.sqrt_price,
            p.spec_fee_tier() == update.fee_tier,
    {
        match update.sqrt_price {
            Some(sqrt_price) => AMMPool::new_v3(address, update.reserves, sqrt_price, update.fee_tier),
            None => AMMPool::new_v2(address, update.reserves, update.fee_tier),
        }
    }

    /// Takes the reserves, square-root price, fee tier and time of an
    /// update; the address and kind stay.
    pub fn update_state(&mut self, update: AMMPoolUpdate) -> (r: TradingResult<()>)
        ensures
            r is Ok,
            final(self).address_view() == old(self).address_view(),
            final(self).spec_pool_type() == old(self).spec_pool_type(),
            final(self).spec_reserves() == update.reserves,
            final(self).spec_sqrt_price() == update.sqrt_price,
            final(self).spec_fee_tier() == update.fee_tier,
            final(self).spec_last_update() == update.timestamp,
    {
        self.reserves = update.reserves;
        self.sqrt_price = update.sqrt_price;
        self.fee_tier = update.fee_tier;
        self.last_update = update.timestamp;
        Ok(())
    }

    /// Implied mid price whenever it does not overflow.
    pub fn checked_implied_mid(&self) -> (p: Option<Price>)
        ensures
            opt_price_view(p) == self.spec_implied_mid(),
    {
        match self.sqrt_price {
            Some(s) => Some(s.to_price()),
            None => reserves_mid(&self.reserves),
        }
    }

    /// Implied mid price: the decoded square-root price when there is one,
    /// `token1 / token0` otherwise (zero when token0 is zero); the quotient
    /// must not overflow.
    pub fn implied_mid(&self) -> (p: Price)
        requires
            self.spec_implied_mid() is Some,
        ensures
            Some(p.0@) == self.spec_implied_mid(),
    {
        self.checked_implied_mid().unwrap()
    }

    /// `token1 / token0`, zero when token0 is zero, whenever it does not
    /// overflow.
    pub fn checked_implied_mid_from_reserves(&self) -> (p: Option<Price>)
        ensures
            opt_price_view(p) == crate::events::reserves_mid_repr(self.spec_reserves()),
    {
        reserves_mid(&self.reserves)
    }

    /// `token1 / token0`, zero when token0 is zero; the quotient must not
    /// overflow.
    pub fn implied_mid_from_reserves(&self) -> (p: Price)
        requires
            crate::events::reserves_mid_repr(self.spec_reserves()) is Some,
        ensures
            Some(p.0@) == crate::events::reserves_mid_repr(self.spec_reserves()),
    {
        reserves_mid(&self.reserves).unwrap()
    }

    /// Quote for putting `input_amount` of `input_token` in, whenever the
    /// arithmetic does not overflow or divide by zero.
    pub fn checked_price_impact(&self, input_token: TokenIndex, input_amount: Decimal) -> (r: Option<
        TradingResult<PriceImpactResult>,
    >)
        ensures
            r is Some <==> pool_quote(self.spec_reserves(), self.spec_fee_tier(), input_token, input_amount@) is Some,
            r matches Some(x) ==> quote_matches(
                x,
                pool_quote(self.spec_reserves(), self.spec_fee_tier(), input_token, input_amount@).unwrap(),
                input_amount,
            ),
            r matches Some(Ok(x)) ==> Some(x.effective_price.0@) == div_repr(x.output_amount@, input_amount@),
    {
        let r = self.checked_v2_price_impact(input_token, input_amount);
        proof {
            let (rin, rout) = in_out(self.spec_reserves(), input_token);
            lemma_quote_figures(rin, rout, fee_fraction(self.spec_fee_tier().0), input_amount@);
        }
        r
    }

    /// Quote for putting `input_amount` of `input_token` in; both kinds of
    /// pool are quoted with the constant-product formula.  An empty reserve,
    /// or an output that would not stay below the output reserve, is
    /// insufficient liquidity.  The arithmetic must not overflow or divide
    /// by zero.
    pub fn calculate_price_impact(&self, input_token: TokenIndex, input_amount: Decimal) -> (r: TradingResult<
        PriceImpactResult,
    >)
        requires
            pool_quote(self.spec_reserves(), self.spec_fee_tier(), input_token, input_amount@) is Some,
        ensures
            quote_matches(
                r,
                pool_quote(self.spec_reserves(), self.spec_fee_tier(), input_token, input_amount@).unwrap(),
                input_amount,
            ),
            r matches Ok(x) ==> Some(x.effective_price.0@) == div_repr(x.output_amount@, input_amount@),
    {
        proof {
            let (rin, rout) = in_out(self.spec_reserves(), input_token);
            lemma_quote_figures(rin, rout, fee_fraction(self.spec_fee_tier().0), input_amount@);
        }
        match self.pool_type {
            AMMPoolType::ConstantProduct => self.calculate_v2_price_impact(input_token, input_amount),
            AMMPoolType::ConcentratedLiquidity => self.calculate_v3_price_impact(input_token, input_amount),
        }
    }

    fn calculate_v2_price_impact(&self, input_token: TokenIndex, input_amount: Decimal) -> (r: TradingResult<
        PriceImpactResult,
    >)
        requires
            pool_quote(self.spec_reserves(), self.spec_fee_tier(), input_token, input_amount@) is Some,
        ensures
            quote_matches(
                r,
                pool_quote(self.spec_reserves(), self.spec_fee_tier(), input_token, input_amount@).unwrap(),
                input_amount,
            ),
    {
        self.checked_v2_price_impact(input_token, input_amount).unwrap()
    }

    /// Concentrated-liquidity pools are quoted like constant-product ones.
    fn calculate_v3_price_impact(&self, input_token: TokenIndex, input_amount: Decimal) -> (r: TradingResult<
        PriceImpactResult,
    >)
        requires
            pool_quote(self.spec_reserves(), self.spec_fee_tier(), input_token, input_amount@) is Some,
        ensures
            quote_matches(
                r,
                pool_quote(self.spec_reserves(), self.spec_fee_tier(), input_token, input_amount@).unwrap(),
                input_amount,
            ),
    {
        self.calculate_v2_price_impact(input_token, input_amount)
    }

    fn checked_v2_price_impact(&self, input_token: TokenIndex, input_amount: Decimal) -> (r: Option<
        TradingResult<PriceImpactResult>,
    >)
        ensures
            r is Some <==> pool_quote(self.spec_reserves(), self.spec_fee_tier(), input_token, input_amount@) is Some,
            r matches Some(x) ==> quote_matches(
                x,
                pool_quote(self.spec_reserves(), self.spec_fee_tier(), input_token, input_amount@).unwrap(),
                input_amount,
            ),
    {
        let (reserve_in, reserve_out) = match input_token {
            TokenIndex::Token0 => (self.reserves.token0, self.reserves.token1),
            TokenIndex::Token1 => (self.reserves.token1, self.reserves.token0),
        };
        if reserve_in.is_zero() || reserve_out.is_zero() {
            return Some(Err(TradingError::InsufficientLiquidity(input_amount)));
        }
        let fee_decimal = self.fee_tier.to_decimal();
        let keep = match Decimal::one().checked_sub(&fee_decimal) {
            Some(v) => v,
            None => return None,
        };
        let input_after_fee = match input_amount.checked_mul(&keep) {
            Some(v) => v,
            None => return None,
        };
        let num = match reserve_out.checked_mul(&input_after_fee) {
            Some(v) => v,
            None => return None,
        };
        let den = match reserve_in.checked_add(&input_after_fee) {
            Some(v) => v,
            None => return None,
        };
        let output_amount = match num.checked_div(&den) {
            Some(v) => v,
            None => return None,
        };
        if !output_amount.lt(&reserve_out) {
            return Some(Err(TradingError::InsufficientLiquidity(input_amount)));
        }
        let initial_price = match reserve_out.checked_div(&reserve_in) {
            Some(v) => v,
            None => return None,
        };
        let effective_price = match output_amount.checked_div(&input_amount) {
            Some(v) => v,
            None => return None,
        };
        let diff = match initial_price.checked_sub(&effective_price) {
            Some(v) => v,
            None => return None,
        };
        let rel = match diff.checked_div(&initial_price) {
            Some(v) => v,
            None => return None,
        };
        let price_impact = match rel.abs().checked_mul(&Decimal::from_u32(100)) {
            Some(v) => v,
            None => return None,
        };
        let fee_amount = match input_amount.checked_mul(&fee_decimal) {
            Some(v) => v,
            None => return None,
        };
        Some(
            Ok(
                PriceImpactResult {
                    output_amount,
                    price_impact_percent: price_impact,
                    effective_price: Price(effective_price),
                    fee_amount,
                },
            ),
        )
    }

    /// The pool's address.
    pub fn address(&self) -> (a: &PoolAddress)
        ensures
            a@ == self.address_view(),
    {
        &self.address
    }

    /// The pool's kind.
    pub fn pool_type(&self) -> (t: &AMMPoolType)
        ensures
            *t == self.spec_pool_type(),
    {
        &self.pool_type
    }

    /// Current reserves.
    pub fn get_reserves(&self) -> (r: TokenReserves)
        ensures
            r == self.spec_reserves(),
    {
        self.reserves
    }

    /// Current square-root price.
    pub fn sqrt_price(&self) -> (s: Option<SqrtPriceX96>)
        ensures
            s == self.spec_sqrt_price(),
    {
        self.sqrt_price
    }

    /// Current fee tier.
    pub fn get_fee_tier(&self) -> (f: FeeTier)
        ensures
            f == self.spec_fee_tier(),
    {
        self.fee_tier
    }

    /// Time of the last update.
    pub fn last_update(&self) -> (t: Timestamp)
        ensures
            t == self.spec_last_update(),
    {
        self.last_update
    }

    /// A copy of the pool's address.
    pub fn get_address(&self) -> (a: PoolAddress)
        ensures
            a@ == self.address_view(),
    {
        self.address.copy()
    }

    /// Current square-root price.
    pub fn get_sqrt_price(&self) -> (s: Option<SqrtPriceX96>)
        ensures
            s == self.spec_sqrt_price(),
    {
        self.sqrt_price
    }
}

/// What every state of a shared pool satisfies: it is the pool at a fixed
/// address, of a fixed kind.
pub struct PoolLockInv {
    /// The pool's address.
    pub address: Ghost<Seq<char>>,
    /// The pool's kind.
    pub pool_type: Ghost<AMMPoolType>,
}

impl RwLockPredicate<AMMPool> for PoolLockInv {
    open spec fn inv(self, v: AMMPool) -> bool {
        v.address_view() == self.address@ && v.spec_pool_type() == self.pool_type@
    }
}

/// An AMM pool shared between threads behind a reader-writer lock.
/// Clones share the same pool.  Each call observes or changes the pool as
/// it is when the call takes the lock; the contracts speak of that state.
pub struct ThreadSafeAMMPool {
    pub(crate) inner: Arc<RwLock<AMMPool, PoolLockInv>>,
}

impl ThreadSafeAMMPool {
    /// The shared pool's address.
    pub closed spec fn address_view(&self) -> Seq<char> {
        (*self.inner).pred().address@
    }

    /// The shared pool's kind.
    pub closed spec fn spec_pool_type(&self) -> AMMPoolType {
        (*self.inner).pred().pool_type@
    }

    /// `p` is a state the shared pool can be in.
    pub open spec fn holds(&self, p: AMMPool) -> bool {
        p.address_view() == self.address_view() && p.spec_pool_type() == self.spec_pool_type()
    }

    /// A state the lock admits is a state the shared pool can be in.
    pub(crate) proof fn lemma_lock_state(&self, p: AMMPool)
        requires
            (*self.inner).inv(p),
        ensures
            self.holds(p),
    {
    }

    /// Both handles share one pool.
    pub closed spec fn same_pool(&self, other: &ThreadSafeAMMPool) -> bool {
        self.inner == other.inner
    }

    fn wrap(pool: AMMPool) -> (s: ThreadSafeAMMPool)
        ensures
            s.address_view() == pool.address_view(),
            s.spec_pool_type() == pool.spec_pool_type(),
    {
        let ghost inv = PoolLockInv { address: Ghost(pool.address_view()), pool_type: Ghost(pool.spec_pool_type()) };
        ThreadSafeAMMPool { inner: Arc::new(RwLock::new(pool, Ghost(inv))) }
    }

    /// Shares `pool`.
    pub fn from_pool(pool: AMMPool) -> (s: ThreadSafeAMMPool)
        ensures
            s.address_view() == pool.address_view(),
            s.spec_pool_type() == pool.spec_pool_type(),
    {
        Self::wrap(pool)
    }

    /// A shared constant-product pool.
    pub fn new_v2(address: PoolAddress, reserves: TokenReserves, fee_tier: FeeTier) -> (p: ThreadSafeAMMPool)
        ensures
            p.address_view() == address@,
            p.spec_pool_type() == AMMPoolType::ConstantProduct,
    {
        Self::wrap(AMMPool::new_v2(address, reserves, fee_tier))
    }

    /// A shared concentrated-liquidity pool.
    pub fn new_v3(
        address: PoolAddress,
        reserves: TokenReserves,
        sqrt_price: SqrtPriceX96,
        fee_tier: FeeTier,
    ) -> (p: ThreadSafeAMMPool)
        ensures
            p.address_view() == address@,
            p.spec_pool_type() == AMMPoolType::ConcentratedLiquidity,
    {
        Self::wrap(AMMPool::new_v3(address, reserves, sqrt_price, fee_tier))
    }

    /// Applies an update to the shared pool (see `AMMPool::update_state`).
    pub fn update_state(&self, update: AMMPoolUpdate) -> (r: TradingResult<()>)
        ensures
            r is Ok,
    {
        let (mut pool, handle) = self.inner.acquire_write();
        let r = pool.update_state(update);
        handle.release_write(pool);
        r
    }

    /// Implied mid price of the shared pool; zero when the quotient
    /// overflows.
    pub fn implied_mid(&self) -> (m: Price)
        ensures
            exists|p: AMMPool|
                #[trigger] self.holds(p) && match p.spec_implied_mid() {
                    Some(v) => m.0@ == v,
                    None => m.0@ == (0int, 0int),
                },
    {
        let handle = self.inner.acquire_read();
        let ghost p = handle.view();
        proof {
            assert(self.holds(p));
        }
        let m = handle.borrow().checked_implied_mid();
        handle.release_read();
        match m {
            Some(x) => x,
            None => Price::zero(),
        }
    }

    /// Quote from the shared pool (see `AMMPool::calculate_price_impact`);
    /// an input whose quote overflows is refused as an invalid quantity.
    pub fn calculate_price_impact(&self, input_token: TokenIndex, input_amount: Decimal) -> (r: TradingResult<
        PriceImpactResult,
    >)
        ensures
            exists|p: AMMPool|
                #[trigger] self.holds(p) && match pool_quote(
                    p.spec_reserves(),
                    p.spec_fee_tier(),
                    input_token,
                    input_amount@,
                ) {
                    Some(q) => quote_matches(r, q, input_amount),
                    None => r matches Err(TradingError::InvalidQuantity(_)),
                },
            r matches Ok(x) ==> Some(x.effective_price.0@) == div_repr(x.output_amount@, input_amount@),
    {
        let handle = self.inner.acquire_read();
        let ghost p = handle.view();
        proof {
            assert(self.holds(p));
        }
        let q = handle.borrow().checked_price_impact(input_token, input_amount);
        handle.release_read();
        match q {
            Some(x) => x,
            None => Err(TradingError::InvalidQuantity("price impact overflows".to_owned())),
        }
    }

    /// The shared pool's address.
    pub fn get_address(&self) -> (a: PoolAddress)
        ensures
            a@ == self.address_view(),
    {
        let handle = self.inner.acquire_read();
        let a = handle.borrow().get_address();
        handle.release_read();
        a
    }

    /// The shared pool's kind.
    pub fn pool_type(&self) -> (t: AMMPoolType)
        ensures
            t == self.spec_pool_type(),
    {
        let handle = self.inner.acquire_read();
        let t = *handle.borrow().pool_type();
        handle.release_read();
        t
    }

    /// Reserves of the shared pool.
    pub fn get_reserves(&self) -> (r: TokenReserves)
        ensures
            exists|p: AMMPool| #[trigger] self.holds(p) && r == p.spec_reserves(),
    {
        let handle = self.inner.acquire_read();
        let ghost p = handle.view();
        proof {
            assert(self.holds(p));
        }
        let r = handle.borrow().get_reserves();
        handle.release_read();
        r
    }

    /// Square-root price of the shared pool.
    pub fn get_sqrt_price(&self) -> (s: Option<SqrtPriceX96>)
        ensures
            exists|p: AMMPool| #[trigger] self.holds(p) && s == p.spec_sqrt_price(),
    {
        let handle = self.inner.acquire_read();
        let ghost p = handle.view();
        proof {
            assert(self.holds(p));
        }
        let s = handle.borrow().get_sqrt_price();
        handle.release_read();
        s
    }

    /// Fee tier of the shared pool.
    pub fn get_fee_tier(&self) -> (f: FeeTier)
        ensures
            exists|p: AMMPool| #[trigger] self.holds(p) && f == p.spec_fee_tier(),
    {
        let handle = self.inner.acquire_read();
        let ghost p = handle.view();
        proof {
            assert(self.holds(p));
        }
        let f = handle.borrow().get_fee_tier();
        handle.release_read();
        f
    }

    /// Time of the last update of the shared pool.
    pub fn last_update(&self) -> (t: Timestamp)
        ensures
            exists|p: AMMPool| #[trigger] self.holds(p) && t == p.spec_last_update(),
    {
        let handle = self.inner.acquire_read();
        let ghost p = handle.view();
        proof {
            assert(self.holds(p));
        }
        let t = handle.borrow().last_update();
        handle.release_read();
        t
    }
}

impl Clone for ThreadSafeAMMPool {
    /// Another handle to the same shared pool.
    fn clone(&self) -> (c: ThreadSafeAMMPool)
        ensures
            c.same_pool(self),
            c.address_view() == self.address_view(),
            c.spec_pool_type() == self.spec_pool_type(),
    {
        ThreadSafeAMMPool { inner: crate::shared::share(&self.inner) }
    }
}

/// A quote never pays out the whole output reserve: an accepted quote's
/// output is strictly below it, and a pool with an empty reserve quotes
/// insufficient liquidity.
pub proof fn lemma_quote_bounded_by_reserve(rin: (int, int), rout: (int, int), fee: (int, int), input: (int, int))
    ensures
        v2_quote(rin, rout, fee, input) matches Some(Ok(q)) ==> repr_lt(q.0, rout),
        (rin.0 == 0 || rout.0 == 0) ==> v2_quote(rin, rout, fee, input) == Some(Err::<ImpactRepr, ()>(())),
{
}

/// What an accepted quote's figures are to one another: the effective
/// price is the output per unit of input; the price impact is the distance
/// of the effective price from the pool's price before the swap (output
/// reserve per unit of input reserve), relative to that price, in percent;
/// the fee is the input times the fee fraction.
pub proof fn lemma_quote_figures(rin: (int, int), rout: (int, int), fee: (int, int), input: (int, int))
    ensures
        v2_quote(rin, rout, fee, input) matches Some(Ok(q)) ==> {
            &&& Some(q.2) == div_repr(q.0, input)
            &&& Some(q.3) == mul_repr(input, fee)
            &&& match div_repr(rout, rin) {
                Some(initial) => match sub_repr(initial, q.2) {
                    Some(diff) => match div_repr(diff, initial) {
                        Some(rel) => Some(q.1) == mul_repr(abs_repr(rel), (100, 0)),
                        None => false,
                    },
                    None => false,
                },
                None => false,
            }
        },
{
}

} // verus!
