//! Exact decimal amounts.
//!
//! An amount is a signed mantissa of at most 96 bits together with a scale
//! between 0 and 28: the number of digits behind the decimal point. Sums and
//! differences are computed by `rust_decimal` and accepted only when they are
//! exact; comparisons are decided here.

use rust_decimal::Decimal;
use vstd::prelude::*;

verus! {

/// The largest number of digits behind the decimal point.
pub const MAX_SCALE: u32 = 28;

/// The largest mantissa: `2^96 - 1`.
pub const MAX_MANTISSA: i128 = 79_228_162_514_264_337_593_543_950_335;

/// How many of the finest steps, `10^-28`, make up one.
pub const UNITS_PER_ONE: i128 = 10_000_000_000_000_000_000_000_000_000;

/// Ten to the power `n`.
pub open spec fn pow10(n: nat) -> int
    decreases n,
{
    if n == 0 {
        1
    } else {
        10 * pow10((n - 1) as nat)
    }
}

/// The value of `mantissa / 10^scale`, counted in steps of `10^-28`.
pub open spec fn units(mantissa: int, scale: nat) -> int {
    mantissa * pow10((MAX_SCALE - scale) as nat)
}

/// Whether a mantissa and a scale are within what an amount can hold.
pub open spec fn representable(mantissa: i128, scale: u32) -> bool {
    -MAX_MANTISSA <= mantissa <= MAX_MANTISSA && scale <= MAX_SCALE
}

/// Every power of ten is positive.
pub proof fn lemma_pow10_positive(n: nat)
    ensures
        pow10(n) > 0,
    decreases n,
{
    if n > 0 {
        lemma_pow10_positive((n - 1) as nat);
    }
}

/// A higher power of ten is no smaller.
pub proof fn lemma_pow10_monotonic(a: nat, b: nat)
    requires
        a <= b,
    ensures
        pow10(a) <= pow10(b),
    decreases b,
{
    if a < b {
        lemma_pow10_monotonic(a, (b - 1) as nat);
        lemma_pow10_positive((b - 1) as nat);
    }
}

/// Powers of ten multiply by adding their exponents.
pub proof fn lemma_pow10_sum(a: nat, b: nat)
    ensures
        pow10(a) * pow10(b) == pow10(a + b),
    decreases a,
{
    if a > 0 {
        lemma_pow10_sum((a - 1) as nat, b);
        assert(10 * pow10((a - 1) as nat) * pow10(b) == 10 * (pow10((a - 1) as nat) * pow10(b)))
            by (nonlinear_arith);
        assert(((a + b) - 1) as nat == ((a - 1) as nat) + b);
    }
}

/// `10^28`, written out.
pub proof fn lemma_pow10_of_max_scale()
    ensures
        pow10(28) == UNITS_PER_ONE,
{
    reveal_with_fuel(pow10, 29);
}

/// What `Decimal::checked_add` returns for `a_mantissa / 10^a_scale` and
/// `b_mantissa / 10^b_scale`, as the mantissa and the scale of its result.
pub uninterp spec fn decimal_sum(a_mantissa: i128, a_scale: u32, b_mantissa: i128, b_scale: u32) -> Option<(i128, u32)>;

/// What `Decimal::checked_sub` returns for `a_mantissa / 10^a_scale` and
/// `b_mantissa / 10^b_scale`, as the mantissa and the scale of its result.
pub uninterp spec fn decimal_difference(a_mantissa: i128, a_scale: u32, b_mantissa: i128, b_scale: u32) -> Option<(i128, u32)>;

/// Calls `rust_decimal::Decimal::checked_add` on the two decimals with the
/// given mantissas and scales. Nothing is claimed of the result but that it
/// depends on the operands alone; `Decimal::from_i128_with_scale` panics on a
/// mantissa or scale out of range, which the precondition rules out.
#[verifier::external_body]
fn decimal_checked_add(a_mantissa: i128, a_scale: u32, b_mantissa: i128, b_scale: u32) -> (r: Option<(i128, u32)>)
    requires
        representable(a_mantissa, a_scale),
        representable(b_mantissa, b_scale),
    ensures
        r == decimal_sum(a_mantissa, a_scale, b_mantissa, b_scale),
{
    let a = Decimal::from_i128_with_scale(a_mantissa, a_scale);
    let b = Decimal::from_i128_with_scale(b_mantissa, b_scale);
    match a.checked_add(b) {
        Some(sum) => Some((sum.mantissa(), sum.scale())),
        None => None,
    }
}

/// Calls `rust_decimal::Decimal::checked_sub` on the two decimals with the
/// given mantissas and scales. Nothing is claimed of the result but that it
/// depends on the operands alone; `Decimal::from_i128_with_scale` panics on a
/// mantissa or scale out of range, which the precondition rules out.
#[verifier::external_body]
fn decimal_checked_sub(a_mantissa: i128, a_scale: u32, b_mantissa: i128, b_scale: u32) -> (r: Option<(i128, u32)>)
    requires
        representable(a_mantissa, a_scale),
        representable(b_mantissa, b_scale),
    ensures
        r == decimal_difference(a_mantissa, a_scale, b_mantissa, b_scale),
{
    let a = Decimal::from_i128_with_scale(a_mantissa, a_scale);
    let b = Decimal::from_i128_with_scale(b_mantissa, b_scale);
    match a.checked_sub(b) {
        Some(difference) => Some((difference.mantissa(), difference.scale())),
        None => None,
    }
}

/// An exact decimal amount.
#[derive(Clone, Copy, Debug)]
pub struct Money {
    mantissa: i128,
    scale: u32,
}

impl View for Money {
    type V = int;

    /// The amount, counted in steps of `10^-28`.
    open spec fn view(&self) -> int {
        units(self.spec_mantissa() as int, self.spec_scale() as nat)
    }
}

impl Money {
    #[verifier::type_invariant]
    spec fn within_limits(self) -> bool {
        representable(self.mantissa, self.scale)
    }

    /// The mantissa.
    pub closed spec fn spec_mantissa(self) -> i128 {
        self.mantissa
    }

    /// The scale: how many digits of the mantissa stand behind the point.
    pub closed spec fn spec_scale(self) -> u32 {
        self.scale
    }

    /// The amount with the given mantissa and scale.
    pub closed spec fn of(mantissa: i128, scale: u32) -> Money {
        Money { mantissa, scale }
    }

    /// `of` keeps what it is given.
    pub proof fn lemma_of(mantissa: i128, scale: u32)
        ensures
            Money::of(mantissa, scale).spec_mantissa() == mantissa,
            Money::of(mantissa, scale).spec_scale() == scale,
            Money::of(mantissa, scale)@ == units(mantissa as int, scale as nat),
    {
    }

    /// `mantissa / 10^scale`, where an amount can hold it.
    pub fn new(mantissa: i128, scale: u32) -> (r: Option<Money>)
        ensures
            r == (if representable(mantissa, scale) {
                Some(Money::of(mantissa, scale))
            } else {
                None
            }),
    {
        if scale <= MAX_SCALE && -MAX_MANTISSA <= mantissa && mantissa <= MAX_MANTISSA {
            Some(Money { mantissa, scale })
        } else {
            None
        }
    }

    /// Nothing, with no digits behind the point.
    pub fn zero() -> (r: Money)
        ensures
            r == Money::of(0, 0),
            r@ == 0,
    {
        Money { mantissa: 0, scale: 0 }
    }

    /// The mantissa.
    #[verifier::when_used_as_spec(spec_mantissa)]
    pub fn mantissa(self) -> (r: i128)
        ensures
            r == self.spec_mantissa(),
            representable(r, self.spec_scale()),
    {
        proof {
            use_type_invariant(&self);
        }
        self.mantissa
    }

    /// The scale.
    #[verifier::when_used_as_spec(spec_scale)]
    pub fn scale(self) -> (r: u32)
        ensures
            r == self.spec_scale(),
            representable(self.spec_mantissa(), r),
    {
        proof {
            use_type_invariant(&self);
        }
        self.scale
    }

    /// Splits the amount into whole ones and the steps of `10^-28` beside them.
    fn parts(self) -> (r: (i128, i128))
        ensures
            r.0 * UNITS_PER_ONE + r.1 == self@,
            -MAX_MANTISSA <= r.0 <= MAX_MANTISSA,
            -UNITS_PER_ONE < r.1 < UNITS_PER_ONE,
    {
        proof {
            use_type_invariant(&self);
        }
        let divisor: u128 = power_of_ten(self.scale);
        let factor: u128 = power_of_ten(MAX_SCALE - self.scale);
        let negative: bool = self.mantissa < 0;
        let magnitude: u128 = if negative {
            (-self.mantissa) as u128
        } else {
            self.mantissa as u128
        };
        let whole: u128 = magnitude / divisor;
        let rest: u128 = magnitude % divisor;
        proof {
            let d = divisor as int;
            let f = factor as int;
            let w = whole as int;
            let m = magnitude as int;
            let t = rest as int;
            lemma_pow10_sum(self.scale as nat, (MAX_SCALE - self.scale) as nat);
            lemma_pow10_of_max_scale();
            assert(d * f == UNITS_PER_ONE);
            assert(m == d * w + t) by {
                vstd::arithmetic::div_mod::lemma_fundamental_div_mod(m, d);
            }
            assert(w <= m) by (nonlinear_arith)
                requires
                    m == d * w + t,
                    d >= 1,
                    w >= 0,
                    t >= 0,
            ;
            assert(t * f < d * f) by (nonlinear_arith)
                requires
                    0 <= t < d,
                    f >= 1,
            ;
            assert(t * f >= 0) by (nonlinear_arith)
                requires
                    t >= 0,
                    f >= 1,
            ;
            assert(m * f == w * (d * f) + t * f) by (nonlinear_arith)
                requires
                    m == d * w + t,
            ;
        }
        let beside: u128 = rest * factor;
        if negative {
            proof {
                let f = factor as int;
                let m = magnitude as int;
                assert((-m) * f == -(m * f)) by (nonlinear_arith);
            }
            (-(whole as i128), -(beside as i128))
        } else {
            (whole as i128, beside as i128)
        }
    }

    /// Whether this amount is smaller than `other`.
    pub fn less_than(self, other: Money) -> (r: bool)
        ensures
            r == (self@ < other@),
    {
        let (a_whole, a_beside) = self.parts();
        let (b_whole, b_beside) = other.parts();
        sign_of_parts(a_whole - b_whole, a_beside - b_beside) < 0
    }

    /// Whether the two amounts are the same number, whatever their scales.
    pub fn same_amount(self, other: Money) -> (r: bool)
        ensures
            r == (self@ == other@),
    {
        let (a_whole, a_beside) = self.parts();
        let (b_whole, b_beside) = other.parts();
        sign_of_parts(a_whole - b_whole, a_beside - b_beside) == 0
    }

    /// The amount that a computed mantissa and scale stand for, if they are
    /// within limits and amount to exactly `value` steps of `10^-28`.
    pub open spec fn accepted(raw: Option<(i128, u32)>, value: int) -> Option<Money> {
        match raw {
            Some((mantissa, scale)) => if representable(mantissa, scale) && units(
                mantissa as int,
                scale as nat,
            ) == value {
                Some(Money::of(mantissa, scale))
            } else {
                None
            },
            None => None,
        }
    }

    /// The sum as `rust_decimal` computes it, where that is exact.
    pub open spec fn exact_sum(self, other: Money) -> Option<Money> {
        Money::accepted(
            decimal_sum(
                self.spec_mantissa(),
                self.spec_scale(),
                other.spec_mantissa(),
                other.spec_scale(),
            ),
            self@ + other@,
        )
    }

    /// The difference as `rust_decimal` computes it, where that is exact.
    pub open spec fn exact_difference(self, other: Money) -> Option<Money> {
        Money::accepted(
            decimal_difference(
                self.spec_mantissa(),
                self.spec_scale(),
                other.spec_mantissa(),
                other.spec_scale(),
            ),
            self@ - other@,
        )
    }

    /// Takes a mantissa and scale that were computed for `self + other` and
    /// keeps them only if they are that sum exactly.
    pub fn accept_sum(self, other: Money, raw: Option<(i128, u32)>) -> (r: Option<Money>)
        ensures
            r == Money::accepted(raw, self@ + other@),
    {
        match raw {
            Some((mantissa, scale)) => match Money::new(mantissa, scale) {
                Some(amount) => {
                    let (a_whole, a_beside) = self.parts();
                    let (b_whole, b_beside) = other.parts();
                    let (c_whole, c_beside) = amount.parts();
                    if sign_of_parts(a_whole + b_whole - c_whole, a_beside + b_beside - c_beside)
                        == 0 {
                        Some(amount)
                    } else {
                        None
                    }
                },
                None => None,
            },
            None => None,
        }
    }

    /// Takes a mantissa and scale that were computed for `self - other` and
    /// keeps them only if they are that difference exactly.
    pub fn accept_difference(self, other: Money, raw: Option<(i128, u32)>) -> (r: Option<Money>)
        ensures
            r == Money::accepted(raw, self@ - other@),
    {
        match raw {
            Some((mantissa, scale)) => match Money::new(mantissa, scale) {
                Some(amount) => {
                    let (a_whole, a_beside) = self.parts();
                    let (b_whole, b_beside) = other.parts();
                    let (c_whole, c_beside) = amount.parts();
                    if sign_of_parts(a_whole - b_whole - c_whole, a_beside - b_beside - c_beside)
                        == 0 {
                        Some(amount)
                    } else {
                        None
                    }
                },
                None => None,
            },
            None => None,
        }
    }

    /// `self + other`, or `None` where the decimal arithmetic overflows or
    /// would have to round.
    pub fn checked_add(self, other: Money) -> (r: Option<Money>)
        ensures
            r == self.exact_sum(other),
            r matches Some(sum) ==> sum@ == self@ + other@,
    {
        proof {
            use_type_invariant(&self);
            use_type_invariant(&other);
        }
        let raw = decimal_checked_add(self.mantissa, self.scale, other.mantissa, other.scale);
        self.accept_sum(other, raw)
    }

    /// `self - other`, or `None` where the decimal arithmetic overflows or
    /// would have to round.
    pub fn checked_sub(self, other: Money) -> (r: Option<Money>)
        ensures
            r == self.exact_difference(other),
            r matches Some(difference) ==> difference@ == self@ - other@,
    {
        proof {
            use_type_invariant(&self);
            use_type_invariant(&other);
        }
        let raw = decimal_checked_sub(self.mantissa, self.scale, other.mantissa, other.scale);
        self.accept_difference(other, raw)
    }
}

impl PartialEq for Money {
    fn eq(&self, other: &Money) -> (r: bool) {
        self.same_amount(*other)
    }
}

impl Eq for Money {

}

impl vstd::std_specs::cmp::PartialEqSpecImpl for Money {
    open spec fn obeys_eq_spec() -> bool {
        true
    }

    /// Two amounts are equal when they are the same number: `1.0 == 1.00`.
    open spec fn eq_spec(&self, other: &Money) -> bool {
        self@ == other@
    }
}

/// Ten to the power `n`, for a power that fits.
fn power_of_ten(n: u32) -> (r: u128)
    requires
        n <= MAX_SCALE,
    ensures
        r == pow10(n as nat),
        1 <= r <= UNITS_PER_ONE,
{
    let mut r: u128 = 1;
    let mut i: u32 = 0;
    proof {
        lemma_pow10_of_max_scale();
        lemma_pow10_monotonic(0, 28);
    }
    while i < n
        invariant
            i <= n <= MAX_SCALE,
            r == pow10(i as nat),
            1 <= r <= UNITS_PER_ONE,
            pow10(28) == UNITS_PER_ONE,
        decreases n - i,
    {
        proof {
            lemma_pow10_monotonic((i + 1) as nat, 28);
            lemma_pow10_positive((i + 1) as nat);
        }
        r = r * 10;
        i = i + 1;
    }
    r
}

/// The sign of `high * 10^28 + low`: -1, 0 or 1.
fn sign_of_parts(high: i128, low: i128) -> (r: i8)
    requires
        -3 * MAX_MANTISSA <= high <= 3 * MAX_MANTISSA,
        -3 * UNITS_PER_ONE < low < 3 * UNITS_PER_ONE,
    ensures
        -1 <= r <= 1,
        r == 0 <==> high * UNITS_PER_ONE + low == 0,
        r < 0 <==> high * UNITS_PER_ONE + low < 0,
{
    if high >= 3 {
        1
    } else if high <= -3 {
        -1
    } else {
        let total: i128 = high * UNITS_PER_ONE + low;
        if total > 0 {
            1
        } else if total < 0 {
            -1
        } else {
            0
        }
    }
}

} // verus!
