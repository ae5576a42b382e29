//! Fixed-point decimal numbers backed by `rust_decimal`.
//!
//! A `Decimal` holds a mantissa and a scale (the number of fractional
//! digits); its value is `mantissa / 10^scale`.  Values are kept normalized
//! (no trailing fractional zeros), so two decimals are equal exactly when
//! they denote the same number.  Arithmetic and comparison are performed by
//! `rust_decimal`; the results it computes are named below and the library
//! is verified against those names.
use std::str::FromStr;
use vstd::prelude::*;

verus! {

/// Largest mantissa magnitude a decimal holds (2^96 - 1).
pub const MAX_MANTISSA: i128 = 79228162514264337593543950335i128;

/// Largest number of fractional digits a decimal holds.
pub const MAX_SCALE: u32 = 28u32;

/// 10 raised to `n`.
pub open spec fn pow10(n: nat) -> int
    decreases n,
{
    if n == 0 {
        1
    } else {
        10 * pow10((n - 1) as nat)
    }
}

/// A (mantissa, scale) pair that `rust_decimal` can represent.
pub open spec fn repr_in_range(r: (int, int)) -> bool {
    -MAX_MANTISSA <= r.0 <= MAX_MANTISSA && 0 <= r.1 <= MAX_SCALE
}

/// A representable pair without trailing fractional zeros.
pub open spec fn repr_normalized(r: (int, int)) -> bool {
    &&& repr_in_range(r)
    &&& (r.1 > 0 ==> r.0 % 10 != 0)
}

/// Strips trailing fractional zeros from a (mantissa, scale) pair.
pub open spec fn normalize_repr(r: (int, int)) -> (int, int)
    decreases r.1,
{
    if r.1 > 0 && r.0 % 10 == 0 {
        normalize_repr((r.0 / 10, r.1 - 1))
    } else {
        r
    }
}

/// `x` is `p` rounded to a scale no larger than `p`'s, within one unit of
/// `x`'s last place: `|x - p| <= 10^-x.scale`.
pub open spec fn within_ulp(x: (int, int), p: (int, int)) -> bool {
    &&& 0 <= x.1 <= p.1
    &&& -pow10((p.1 - x.1) as nat) <= x.0 * pow10((p.1 - x.1) as nat) - p.0 <= pow10((p.1 - x.1) as nat)
}

/// The number denoted by `a` is strictly smaller than the one denoted by `b`.
pub open spec fn repr_lt(a: (int, int), b: (int, int)) -> bool {
    a.0 * pow10(b.1 as nat) < b.0 * pow10(a.1 as nat)
}

/// Normalizes an optional raw result.
pub open spec fn normalize_opt(r: Option<(int, int)>) -> Option<(int, int)> {
    match r {
        Some(x) => Some(normalize_repr(x)),
        None => None,
    }
}

/// The raw (mantissa, scale) that `rust_decimal`'s `checked_add` returns.
pub uninterp spec fn rd_checked_add(a: (int, int), b: (int, int)) -> Option<(int, int)>;

/// The raw (mantissa, scale) that `rust_decimal`'s `checked_sub` returns.
pub uninterp spec fn rd_checked_sub(a: (int, int), b: (int, int)) -> Option<(int, int)>;

/// The raw (mantissa, scale) that `rust_decimal`'s `checked_mul` returns.
pub uninterp spec fn rd_checked_mul(a: (int, int), b: (int, int)) -> Option<(int, int)>;

/// The raw (mantissa, scale) that `rust_decimal`'s `checked_div` returns.
pub uninterp spec fn rd_checked_div(a: (int, int), b: (int, int)) -> Option<(int, int)>;

/// What `rust_decimal`'s `from_str` makes of a text: the raw (mantissa,
/// scale) of the number, or the text of the error.
pub uninterp spec fn rd_from_str(s: Seq<char>) -> Result<(int, int), Seq<char>>;

/// Sum of two decimals, normalized (`None` on overflow).
pub open spec fn add_repr(a: (int, int), b: (int, int)) -> Option<(int, int)> {
    normalize_opt(rd_checked_add(a, b))
}

/// Difference of two decimals, normalized (`None` on overflow).
pub open spec fn sub_repr(a: (int, int), b: (int, int)) -> Option<(int, int)> {
    normalize_opt(rd_checked_sub(a, b))
}

/// Product of two decimals, normalized (`None` on overflow).
pub open spec fn mul_repr(a: (int, int), b: (int, int)) -> Option<(int, int)> {
    normalize_opt(rd_checked_mul(a, b))
}

/// Quotient of two decimals, normalized (`None` on overflow or a zero divisor).
pub open spec fn div_repr(a: (int, int), b: (int, int)) -> Option<(int, int)> {
    normalize_opt(rd_checked_div(a, b))
}

/// Absolute value of a pair.
pub open spec fn abs_repr(a: (int, int)) -> (int, int) {
    (if a.0 < 0 { -a.0 } else { a.0 }, a.1)
}

/// The value of an optional decimal.
pub open spec fn opt_view(d: Option<Decimal>) -> Option<(int, int)> {
    match d {
        Some(x) => Some(x@),
        None => None,
    }
}

/// Outcome of comparing two decimals.
#[derive(Clone, Copy, Debug, PartialEq, Eq, Structural)]
pub enum Comparison {
    Less,
    Equal,
    Greater,
}

/// A decimal number `mantissa / 10^scale`, kept normalized.
#[derive(Clone, Copy, Debug, PartialEq, Eq, Hash, Structural)]
pub struct Decimal {
    mantissa: i128,
    scale: u32,
}

impl View for Decimal {
    type V = (int, int);

    closed spec fn view(&self) -> (int, int) {
        (self.mantissa as int, self.scale as int)
    }
}

// ---------------------------------------------------------------------------
// Calls into rust_decimal.
// ---------------------------------------------------------------------------

/// `rust_decimal::Decimal`'s `<`: claimed to order decimals by the numbers
/// they denote.
#[verifier::external_body]
fn rd_lt(a: &Decimal, b: &Decimal) -> (r: bool)
    ensures
        r == repr_lt(a@, b@),
{
    rust_decimal::Decimal::from_i128_with_scale(a.mantissa, a.scale)
        < rust_decimal::Decimal::from_i128_with_scale(b.mantissa, b.scale)
}

/// `rust_decimal::Decimal::checked_add`: the result is named
/// `rd_checked_add`; a result is a representable decimal.
#[verifier::external_body]
fn rd_add(a: &Decimal, b: &Decimal) -> (r: Option<(i128, u32)>)
    ensures
        r matches Some(x) ==> repr_in_range((x.0 as int, x.1 as int)),
        rd_checked_add(a@, b@) == (match r {
            Some(x) => Some((x.0 as int, x.1 as int)),
            None => None::<(int, int)>,
        }),
{
    let x = rust_decimal::Decimal::from_i128_with_scale(a.mantissa, a.scale);
    let y = rust_decimal::Decimal::from_i128_with_scale(b.mantissa, b.scale);
    x.checked_add(y).map(|d| (d.mantissa(), d.scale()))
}

/// `rust_decimal::Decimal::checked_sub`: the result is named
/// `rd_checked_sub`; a result is a representable decimal.
#[verifier::external_body]
fn rd_sub(a: &Decimal, b: &Decimal) -> (r: Option<(i128, u32)>)
    ensures
        r matches Some(x) ==> repr_in_range((x.0 as int, x.1 as int)),
        rd_checked_sub(a@, b@) == (match r {
            Some(x) => Some((x.0 as int, x.1 as int)),
            None => None::<(int, int)>,
        }),
{
    let x = rust_decimal::Decimal::from_i128_with_scale(a.mantissa, a.scale);
    let y = rust_decimal::Decimal::from_i128_with_scale(b.mantissa, b.scale);
    x.checked_sub(y).map(|d| (d.mantissa(), d.scale()))
}

/// `rust_decimal::Decimal::checked_mul`: the result is named
/// `rd_checked_mul`; a result is a representable decimal.  Claimed from
/// the source (`ops/mul.rs`, `Buf24::rescale` in `ops/common.rs`): the
/// product is computed exactly and, when it does not fit, its scale is
/// reduced with rounding, so a result is within one unit of its last place
/// of the exact product, and is the exact product when that is
/// representable and nonzero.
#[verifier::external_body]
fn rd_mul(a: &Decimal, b: &Decimal) -> (r: Option<(i128, u32)>)
    ensures
        r matches Some(x) ==> repr_in_range((x.0 as int, x.1 as int)),
        r matches Some(x) ==> within_ulp((x.0 as int, x.1 as int), (a@.0 * b@.0, a@.1 + b@.1)),
        (repr_in_range((a@.0 * b@.0, a@.1 + b@.1)) && a@.0 * b@.0 != 0) ==> r == Some(
            ((a@.0 * b@.0) as i128, (a@.1 + b@.1) as u32),
        ),
        rd_checked_mul(a@, b@) == (match r {
            Some(x) => Some((x.0 as int, x.1 as int)),
            None => None::<(int, int)>,
        }),
{
    let x = rust_decimal::Decimal::from_i128_with_scale(a.mantissa, a.scale);
    let y = rust_decimal::Decimal::from_i128_with_scale(b.mantissa, b.scale);
    x.checked_mul(y).map(|d| (d.mantissa(), d.scale()))
}

/// `rust_decimal::Decimal::checked_div`: the result is named
/// `rd_checked_div`.  Claimed from the source: a zero divisor gives `None`,
/// a zero dividend over a nonzero divisor gives zero (mantissa 0, scale 0),
/// and a divisor of magnitude at least one never overflows (the quotient is
/// no larger than the dividend); a result is a representable decimal.
#[verifier::external_body]
fn rd_div(a: &Decimal, b: &Decimal) -> (r: Option<(i128, u32)>)
    ensures
        r matches Some(x) ==> repr_in_range((x.0 as int, x.1 as int)),
        rd_checked_div(a@, b@) == (match r {
            Some(x) => Some((x.0 as int, x.1 as int)),
            None => None::<(int, int)>,
        }),
        b@.0 == 0 ==> r is None,
        (a@.0 == 0 && b@.0 != 0) ==> r == Some((0i128, 0u32)),
        abs_repr(b@).0 >= pow10(b@.1 as nat) ==> r is Some,
{
    let x = rust_decimal::Decimal::from_i128_with_scale(a.mantissa, a.scale);
    let y = rust_decimal::Decimal::from_i128_with_scale(b.mantissa, b.scale);
    x.checked_div(y).map(|d| (d.mantissa(), d.scale()))
}

/// `rust_decimal::Decimal::from_str`: the outcome is named `rd_from_str`
/// (the error is the text of `rust_decimal`'s error); a result is a
/// representable decimal.
#[verifier::external_body]
fn rd_parse(s: &str) -> (r: Result<(i128, u32), String>)
    ensures
        r matches Ok(x) ==> repr_in_range((x.0 as int, x.1 as int)),
        rd_from_str(s@) == (match r {
            Ok(x) => Ok((x.0 as int, x.1 as int)),
            Err(e) => Err::<(int, int), Seq<char>>(e@),
        }),
{
    match rust_decimal::Decimal::from_str(s) {
        Ok(d) => Ok((d.mantissa(), d.scale())),
        Err(e) => Err(e.to_string()),
    }
}

/// How `rust_decimal` displays the decimal `mantissa / 10^scale`.
pub uninterp spec fn rd_to_string(v: (int, int)) -> Seq<char>;

/// `rust_decimal::Decimal`'s `Display`: the text is named `rd_to_string`.
#[verifier::external_body]
fn rd_display(d: &Decimal) -> (s: String)
    ensures
        s@ == rd_to_string(d@),
{
    rust_decimal::Decimal::from_i128_with_scale(d.mantissa, d.scale).to_string()
}

// ---------------------------------------------------------------------------
// Lemmas on powers of ten and on the order of decimals.
// ---------------------------------------------------------------------------

/// Powers of ten are positive.
pub proof fn lemma_pow10_pos(n: nat)
    ensures
        pow10(n) > 0,
    decreases n,
{
    if n > 0 {
        lemma_pow10_pos((n - 1) as nat);
    }
}

/// 10^(a+b) = 10^a * 10^b.
pub proof fn lemma_pow10_add(a: nat, b: nat)
    ensures
        pow10(a + b) == pow10(a) * pow10(b),
    decreases a,
{
    if a > 0 {
        lemma_pow10_add((a - 1) as nat, b);
        assert(pow10(a + b) == 10 * pow10((a - 1 + b) as nat));
        assert(10 * (pow10((a - 1) as nat) * pow10(b)) == (10 * pow10((a - 1) as nat)) * pow10(b))
            by (nonlinear_arith);
    }
}

proof fn lemma_mul_cancel(x: int, y: int, c: int)
    requires
        c > 0,
        x * c == y * c,
    ensures
        x == y,
{
    assert(x == y) by (nonlinear_arith)
        requires
            c > 0,
            x * c == y * c,
    ;
}

/// The order on decimals is transitive.
pub proof fn lemma_lt_transitive(a: (int, int), b: (int, int), c: (int, int))
    requires
        repr_lt(a, b),
        repr_lt(b, c),
    ensures
        repr_lt(a, c),
{
    let pa = pow10(a.1 as nat);
    let pb = pow10(b.1 as nat);
    let pc = pow10(c.1 as nat);
    lemma_pow10_pos(a.1 as nat);
    lemma_pow10_pos(b.1 as nat);
    lemma_pow10_pos(c.1 as nat);
    assert(a.0 * pc < c.0 * pa) by (nonlinear_arith)
        requires
            pa > 0,
            pb > 0,
            pc > 0,
            a.0 * pb < b.0 * pa,
            b.0 * pc < c.0 * pb,
    {
        assert(a.0 * pb * pc < b.0 * pa * pc);
        assert(b.0 * pc * pa < c.0 * pb * pa);
        assert(a.0 * pc * pb < c.0 * pa * pb);
    }
}

/// The order on decimals is irreflexive and asymmetric.
pub proof fn lemma_lt_asymmetric(a: (int, int), b: (int, int))
    ensures
        !repr_lt(a, a),
        repr_lt(a, b) ==> !repr_lt(b, a),
{
}

/// Two normalized pairs that denote the same number are the same pair.
pub proof fn lemma_normalized_unique(a: (int, int), b: (int, int))
    requires
        repr_normalized(a),
        repr_normalized(b),
        a.0 * pow10(b.1 as nat) == b.0 * pow10(a.1 as nat),
    ensures
        a == b,
{
    if a.1 <= b.1 {
        lemma_normalized_unique_ordered(a, b);
    } else {
        lemma_normalized_unique_ordered(b, a);
    }
}

proof fn lemma_normalized_unique_ordered(a: (int, int), b: (int, int))
    requires
        repr_normalized(a),
        repr_normalized(b),
        a.1 <= b.1,
        a.0 * pow10(b.1 as nat) == b.0 * pow10(a.1 as nat),
    ensures
        a == b,
{
    let d = (b.1 - a.1) as nat;
    let pa = pow10(a.1 as nat);
    let pd = pow10(d);
    lemma_pow10_add(a.1 as nat, d);
    lemma_pow10_pos(a.1 as nat);
    assert(pow10(b.1 as nat) == pa * pd);
    assert((a.0 * pd) * pa == b.0 * pa) by (nonlinear_arith)
        requires
            a.0 * (pa * pd) == b.0 * pa,
    ;
    lemma_mul_cancel(a.0 * pd, b.0, pa);
    if d > 0 {
        let q = a.0 * pow10((d - 1) as nat);
        assert(pd == 10 * pow10((d - 1) as nat));
        assert(b.0 == 10 * q) by (nonlinear_arith)
            requires
                b.0 == a.0 * pd,
                pd == 10 * pow10((d - 1) as nat),
                q == a.0 * pow10((d - 1) as nat),
        ;
        assert(b.0 % 10 == 0);
        assert(false);
    }
}

/// Normalizing keeps a representable pair representable and normalized.
pub proof fn lemma_normalize_ok(r: (int, int))
    requires
        repr_in_range(r),
    ensures
        repr_normalized(normalize_repr(r)),
    decreases r.1,
{
    if r.1 > 0 && r.0 % 10 == 0 {
        lemma_normalize_ok((r.0 / 10, r.1 - 1));
    }
}

proof fn lemma_within_ulp_step(x: (int, int), p: (int, int))
    requires
        within_ulp(x, p),
        x.1 > 0,
        x.0 % 10 == 0,
    ensures
        within_ulp((x.0 / 10, x.1 - 1), p),
{
    let n = (p.1 - x.1) as nat;
    let u = pow10(n);
    lemma_pow10_pos(n);
    assert(pow10(n + 1) == 10 * u);
    let q = x.0 / 10;
    assert(x.0 == 10 * q);
    assert(q * (10 * u) == x.0 * u) by (nonlinear_arith)
        requires
            x.0 == 10 * q,
    ;
    assert(((p.1 - (x.1 - 1)) as nat) == n + 1);
}

/// Normalizing keeps a rounded value within one unit of its last place.
pub proof fn lemma_normalize_within_ulp(x: (int, int), p: (int, int))
    requires
        within_ulp(x, p),
    ensures
        within_ulp(normalize_repr(x), p),
    decreases x.1,
{
    if x.1 > 0 && x.0 % 10 == 0 {
        lemma_within_ulp_step(x, p);
        lemma_normalize_within_ulp((x.0 / 10, x.1 - 1), p);
    }
}

// ---------------------------------------------------------------------------
// The decimal type.
// ---------------------------------------------------------------------------

impl Decimal {
    #[verifier::type_invariant]
    spec fn normalized(self) -> bool {
        repr_normalized((self.mantissa as int, self.scale as int))
    }

    /// Two decimals are equal exactly when their pairs are.
    pub proof fn lemma_view_eq(a: Decimal, b: Decimal)
        ensures
            (a@ == b@) == (a == b),
    {
    }

    /// Builds the normalized decimal `num / 10^scale`.
    pub fn from_parts(num: i128, scale: u32) -> (d: Decimal)
        requires
            repr_in_range((num as int, scale as int)),
        ensures
            d@ == normalize_repr((num as int, scale as int)),
    {
        let mut m = num;
        let mut s = scale;
        proof {
            lemma_normalize_ok((num as int, scale as int));
        }
        while s > 0 && m % 10 == 0
            invariant
                repr_in_range((m as int, s as int)),
                normalize_repr((m as int, s as int)) == normalize_repr((num as int, scale as int)),
            decreases s,
        {
            proof {
                assert((m / 10) as int == (m as int) / 10);
            }
            m = m / 10;
            s = s - 1;
        }
        proof {
            lemma_normalize_ok((m as int, s as int));
        }
        Decimal { mantissa: m, scale: s }
    }

    /// `num / 10^scale`, as `rust_decimal::Decimal::new` builds it.
    pub fn new(num: i64, scale: u32) -> (d: Decimal)
        requires
            scale <= MAX_SCALE,
        ensures
            d@ == normalize_repr((num as int, scale as int)),
    {
        Self::from_parts(num as i128, scale)
    }

    /// Zero.
    pub fn zero() -> (d: Decimal)
        ensures
            d@ == (0int, 0int),
    {
        Decimal { mantissa: 0, scale: 0 }
    }

    /// One.
    pub fn one() -> (d: Decimal)
        ensures
            d@ == (1int, 0int),
    {
        Decimal { mantissa: 1, scale: 0 }
    }

    /// The integer `n`.
    pub fn from_u32(n: u32) -> (d: Decimal)
        ensures
            d@ == (n as int, 0int),
    {
        Decimal { mantissa: n as i128, scale: 0 }
    }

    /// The mantissa (value times 10^scale).
    pub fn mantissa(&self) -> (m: i128)
        ensures
            m == self@.0,
    {
        self.mantissa
    }

    /// The number of fractional digits.
    pub fn scale(&self) -> (s: u32)
        ensures
            s == self@.1,
    {
        self.scale
    }

    /// True for zero.
    pub fn is_zero(&self) -> (b: bool)
        ensures
            b == (self@.0 == 0),
    {
        self.mantissa == 0
    }

    /// The absolute value.
    pub fn abs(&self) -> (d: Decimal)
        ensures
            d@ == abs_repr(self@),
    {
        proof {
            use_type_invariant(self);
        }
        if self.mantissa < 0 {
            Decimal { mantissa: -self.mantissa, scale: self.scale }
        } else {
            *self
        }
    }

    /// `self < other`.
    pub fn lt(&self, other: &Decimal) -> (b: bool)
        ensures
            b == repr_lt(self@, other@),
    {
        rd_lt(self, other)
    }

    /// Three-way comparison of the numbers denoted.
    pub fn compare(&self, other: &Decimal) -> (c: Comparison)
        ensures
            c == Comparison::Less <==> repr_lt(self@, other@),
            c == Comparison::Greater <==> repr_lt(other@, self@),
            c == Comparison::Equal <==> *self == *other,
    {
        proof {
            use_type_invariant(self);
            use_type_invariant(other);
        }
        if *self == *other {
            Comparison::Equal
        } else if rd_lt(self, other) {
            Comparison::Less
        } else if rd_lt(other, self) {
            Comparison::Greater
        } else {
            proof {
                lemma_normalized_unique(self@, other@);
            }
            Comparison::Equal
        }
    }

    /// The smaller of two decimals (`self` when they are equal).
    pub fn min(self, other: Decimal) -> (d: Decimal)
        ensures
            d == (if repr_lt(other@, self@) { other } else { self }),
    {
        if rd_lt(&other, &self) {
            other
        } else {
            self
        }
    }

    /// The larger of two decimals (`self` when they are equal).
    pub fn max(self, other: Decimal) -> (d: Decimal)
        ensures
            d == (if repr_lt(self@, other@) { other } else { self }),
    {
        if rd_lt(&self, &other) {
            other
        } else {
            self
        }
    }

    fn from_raw(r: Option<(i128, u32)>) -> (d: Option<Decimal>)
        requires
            r matches Some(x) ==> repr_in_range((x.0 as int, x.1 as int)),
        ensures
            opt_view(d) == normalize_opt(
                match r {
                    Some(x) => Some((x.0 as int, x.1 as int)),
                    None => None::<(int, int)>,
                },
            ),
    {
        match r {
            Some(x) => Some(Self::from_parts(x.0, x.1)),
            None => None,
        }
    }

    /// Checked sum.
    pub fn checked_add(&self, other: &Decimal) -> (d: Option<Decimal>)
        ensures
            opt_view(d) == add_repr(self@, other@),
    {
        Self::from_raw(rd_add(self, other))
    }

    /// Checked difference.
    pub fn checked_sub(&self, other: &Decimal) -> (d: Option<Decimal>)
        ensures
            opt_view(d) == sub_repr(self@, other@),
    {
        Self::from_raw(rd_sub(self, other))
    }

    /// Checked product.
    pub fn checked_mul(&self, other: &Decimal) -> (d: Option<Decimal>)
        ensures
            opt_view(d) == mul_repr(self@, other@),
            d matches Some(g) ==> within_ulp(g@, (self@.0 * other@.0, self@.1 + other@.1)),
    {
        let r = rd_mul(self, other);
        proof {
            if let Some(x) = r {
                lemma_normalize_within_ulp((x.0 as int, x.1 as int), (self@.0 * other@.0, self@.1 + other@.1));
            }
        }
        Self::from_raw(r)
    }

    /// Checked quotient.
    pub fn checked_div(&self, other: &Decimal) -> (d: Option<Decimal>)
        ensures
            opt_view(d) == div_repr(self@, other@),
            other@.0 == 0 ==> d is None,
            abs_repr(other@).0 >= pow10(other@.1 as nat) ==> d is Some,
    {
        Self::from_raw(rd_div(self, other))
    }

    /// Sum; the sum must not overflow.
    pub fn add(&self, other: &Decimal) -> (d: Decimal)
        requires
            add_repr(self@, other@) is Some,
        ensures
            Some(d@) == add_repr(self@, other@),
    {
        self.checked_add(other).unwrap()
    }

    /// Difference; the difference must not overflow.
    pub fn sub(&self, other: &Decimal) -> (d: Decimal)
        requires
            sub_repr(self@, other@) is Some,
        ensures
            Some(d@) == sub_repr(self@, other@),
    {
        self.checked_sub(other).unwrap()
    }

    /// Product; the product must not overflow.
    pub fn mul(&self, other: &Decimal) -> (d: Decimal)
        requires
            mul_repr(self@, other@) is Some,
        ensures
            Some(d@) == mul_repr(self@, other@),
    {
        self.checked_mul(other).unwrap()
    }

    /// Quotient; the divisor must be nonzero and the quotient must not overflow.
    pub fn div(&self, other: &Decimal) -> (d: Decimal)
        requires
            div_repr(self@, other@) is Some,
        ensures
            Some(d@) == div_repr(self@, other@),
    {
        self.checked_div(other).unwrap()
    }

    /// The decimal as `rust_decimal` displays it.
    pub fn to_string(&self) -> (s: String)
        ensures
            s@ == rd_to_string(self@),
    {
        rd_display(self)
    }

    /// Parses a decimal from text as `rust_decimal` does; the error is the
    /// text of `rust_decimal`'s error.
    pub fn parse(s: &str) -> (r: Result<Decimal, String>)
        ensures
            match (r, rd_from_str(s@)) {
                (Ok(d), Ok(x)) => d@ == normalize_repr(x),
                (Err(e), Err(t)) => e@ == t,
                _ => false,
            },
    {
        match rd_parse(s) {
            Ok(x) => Ok(Self::from_parts(x.0, x.1)),
            Err(e) => Err(e),
        }
    }
}

} // verus!
