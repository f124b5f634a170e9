//! Exact decimal amounts.
//!
//! An [`Amount`] is a signed mantissa of at most 96 bits together with a
//! scale, the number of digits after the decimal point (at most 28). Its
//! mathematical value is `mantissa / 10^scale`. Contracts speak of that value
//! through [`Amount::units`], the value counted in units of `10^-28`, which is
//! an integer for every amount.

use rust_decimal::Decimal;
use std::cmp::Ordering;
use vstd::arithmetic::div_mod::lemma_fundamental_div_mod;
use vstd::prelude::*;

verus! {

/// The largest scale an amount can have.
pub const MAX_SCALE: u32 = 28;

/// The largest magnitude of a mantissa, `2^96 - 1`.
pub const MAX_MANTISSA: i128 = 79_228_162_514_264_337_593_543_950_335;

/// `10^28`, the number of units in one.
pub const UNITS_PER_ONE: i128 = 10_000_000_000_000_000_000_000_000_000;

/// `10^n`; one for a negative `n`.
pub open spec fn pow10(n: int) -> int
    decreases n,
{
    if n <= 0 {
        1
    } else {
        10 * pow10(n - 1)
    }
}

/// Powers of ten are positive and grow with the exponent.
pub proof fn lemma_pow10_grows(a: int, b: int)
    requires
        a <= b,
    ensures
        0 < pow10(a) <= pow10(b),
    decreases b,
{
    if b <= 0 {
    } else if a == b {
        lemma_pow10_grows(a - 1, b - 1);
    } else {
        lemma_pow10_grows(a, b - 1);
    }
}

/// `10^a * 10^b == 10^(a + b)` for exponents that are not negative.
pub proof fn lemma_pow10_adds(a: int, b: int)
    requires
        0 <= a,
        0 <= b,
    ensures
        pow10(a) * pow10(b) == pow10(a + b),
    decreases a,
{
    if a == 0 {
    } else {
        lemma_pow10_adds(a - 1, b);
        assert(10 * pow10(a - 1) * pow10(b) == 10 * (pow10(a - 1) * pow10(b)))
            by (nonlinear_arith);
    }
}

/// The value of `10^28`.
pub proof fn lemma_pow10_max()
    ensures
        pow10(28) == UNITS_PER_ONE,
{
    reveal_with_fuel(pow10, 30);
}

/// Whether a mantissa and a scale are those of an amount.
pub open spec fn representable(mantissa: int, scale: int) -> bool {
    &&& -MAX_MANTISSA <= mantissa <= MAX_MANTISSA
    &&& 0 <= scale <= MAX_SCALE
}

/// What `Decimal::checked_add` returns for two decimals, each given by its
/// mantissa and scale: the mantissa and scale of its result, or `None` where
/// it reports an overflow.
pub uninterp spec fn decimal_sum(
    mantissa: i128,
    scale: u32,
    other_mantissa: i128,
    other_scale: u32,
) -> Option<(i128, u32)>;

/// What `Decimal::checked_sub` returns for two decimals, each given by its
/// mantissa and scale: the mantissa and scale of its result, or `None` where
/// it reports an overflow.
pub uninterp spec fn decimal_difference(
    mantissa: i128,
    scale: u32,
    other_mantissa: i128,
    other_scale: u32,
) -> Option<(i128, u32)>;

/// What `Decimal::to_string` returns for the decimal with the given mantissa
/// and scale: its digits in plain notation.
pub uninterp spec fn decimal_text(mantissa: i128, scale: u32) -> Seq<char>;

/// The amount that a candidate mantissa and scale stand for, accepted only
/// where they are those of an amount whose value is exactly `target` units.
pub open spec fn certified(target: int, candidate: Option<(i128, u32)>) -> Option<Amount> {
    match candidate {
        Some((mantissa, scale)) => if representable(mantissa as int, scale as int) && mantissa
            * pow10(MAX_SCALE - scale) == target {
            Some(Amount::from_parts(mantissa, scale))
        } else {
            None
        },
        None => None,
    }
}

/// An exact decimal number: `mantissa / 10^scale`.
#[derive(Clone, Copy, Debug)]
pub struct Amount {
    mantissa: i128,
    scale: u32,
}

impl Amount {
    #[verifier::type_invariant]
    spec fn in_range(self) -> bool {
        representable(self.mantissa as int, self.scale as int)
    }

    /// The mantissa: the digits of the amount as a signed integer.
    pub closed spec fn spec_mantissa(&self) -> i128 {
        self.mantissa
    }

    /// The scale: how many of the mantissa's digits follow the decimal point.
    pub closed spec fn spec_scale(&self) -> u32 {
        self.scale
    }

    /// The amount written out in plain notation, as the decimal arithmetic
    /// renders it.
    pub open spec fn text(self) -> Seq<char> {
        decimal_text(self.spec_mantissa(), self.spec_scale())
    }

    /// The amount with this mantissa and this scale.
    pub closed spec fn from_parts(mantissa: i128, scale: u32) -> Amount {
        Amount { mantissa, scale }
    }

    /// The mantissa and the scale of an amount made of parts are those parts.
    pub proof fn lemma_parts(self)
        ensures
            self == Amount::from_parts(self.spec_mantissa(), self.spec_scale()),
            forall|mantissa: i128, scale: u32|
                #![trigger Amount::from_parts(mantissa, scale)]
                Amount::from_parts(mantissa, scale).spec_mantissa() == mantissa
                    && Amount::from_parts(mantissa, scale).spec_scale() == scale,
    {
    }

    /// The value of the amount, counted in units of `10^-28`.
    pub open spec fn units(self) -> int {
        self.spec_mantissa() * pow10(MAX_SCALE - self.spec_scale())
    }

    /// The sum of two amounts as the decimal arithmetic gives it, where it
    /// gives the exact sum; `None` where it overflows or rounds.
    pub open spec fn sum(self, other: Amount) -> Option<Amount> {
        certified(
            self.units() + other.units(),
            decimal_sum(
                self.spec_mantissa(),
                self.spec_scale(),
                other.spec_mantissa(),
                other.spec_scale(),
            ),
        )
    }

    /// The difference of two amounts as the decimal arithmetic gives it,
    /// where it gives the exact difference; `None` where it overflows or
    /// rounds.
    pub open spec fn difference(self, other: Amount) -> Option<Amount> {
        certified(
            self.units() - other.units(),
            decimal_difference(
                self.spec_mantissa(),
                self.spec_scale(),
                other.spec_mantissa(),
                other.spec_scale(),
            ),
        )
    }

    /// An accepted candidate has exactly the value it was accepted for.
    pub proof fn lemma_certified_is_exact(target: int, candidate: Option<(i128, u32)>)
        ensures
            certified(target, candidate) matches Some(amount) ==> amount.units() == target,
    {
    }

    /// A sum, where there is one, is the sum of the values; a difference,
    /// where there is one, is the difference of the values.
    pub proof fn lemma_arithmetic_is_exact(self, other: Amount)
        ensures
            self.sum(other) matches Some(sum) ==> sum.units() == self.units() + other.units(),
            self.difference(other) matches Some(difference) ==> difference.units() == self.units()
                - other.units(),
    {
        Amount::lemma_certified_is_exact(
            self.units() + other.units(),
            decimal_sum(
                self.spec_mantissa(),
                self.spec_scale(),
                other.spec_mantissa(),
                other.spec_scale(),
            ),
        );
        Amount::lemma_certified_is_exact(
            self.units() - other.units(),
            decimal_difference(
                self.spec_mantissa(),
                self.spec_scale(),
                other.spec_mantissa(),
                other.spec_scale(),
            ),
        );
    }

    /// The amount with the given mantissa and scale, where there is one.
    pub fn new(mantissa: i128, scale: u32) -> (r: Option<Amount>)
        ensures
            r == if representable(mantissa as int, scale as int) {
                Some(Amount::from_parts(mantissa, scale))
            } else {
                None
            },
    {
        if scale <= MAX_SCALE && -MAX_MANTISSA <= mantissa && mantissa <= MAX_MANTISSA {
            Some(Amount { mantissa, scale })
        } else {
            None
        }
    }

    /// Zero, with no fractional digits.
    pub fn zero() -> (r: Amount)
        ensures
            r == Amount::from_parts(0, 0),
            r.units() == 0,
    {
        Amount { mantissa: 0, scale: 0 }
    }

    #[verifier::when_used_as_spec(spec_mantissa)]
    pub fn mantissa(&self) -> (m: i128)
        ensures
            m == self.spec_mantissa(),
            -MAX_MANTISSA <= m <= MAX_MANTISSA,
    {
        proof {
            use_type_invariant(self);
        }
        self.mantissa
    }

    #[verifier::when_used_as_spec(spec_scale)]
    pub fn scale(&self) -> (s: u32)
        ensures
            s == self.spec_scale(),
            s <= MAX_SCALE,
    {
        proof {
            use_type_invariant(self);
        }
        self.scale
    }
}

impl Amount {
    /// The whole part `w` and the fractional part `f` of the value, the
    /// latter in units: the value is `w + f / 10^28` with `0 <= f < 10^28`.
    fn split(&self) -> (r: (i128, i128))
        ensures
            self.units() == r.0 * UNITS_PER_ONE + r.1,
            0 <= r.1 < UNITS_PER_ONE,
            -MAX_MANTISSA - 1 <= r.0 <= MAX_MANTISSA,
    {
        proof {
            use_type_invariant(self);
            lemma_pow10_max();
            lemma_pow10_adds(self.scale as int, MAX_SCALE - self.scale);
            lemma_pow10_grows(0, self.scale as int);
            lemma_pow10_grows(0, MAX_SCALE - self.scale);
        }
        let below = power_of_ten(self.scale);
        let above = power_of_ten(MAX_SCALE - self.scale);
        let magnitude: u128 = if self.mantissa >= 0 {
            self.mantissa as u128
        } else {
            (-self.mantissa) as u128
        };
        let whole = magnitude / below;
        let rest = magnitude % below;
        proof {
            lemma_fundamental_div_mod(magnitude as int, below as int);
            assert(rest * above <= (below - 1) * above) by (nonlinear_arith)
                requires
                    0 <= rest <= below - 1,
                    0 < above,
            ;
            assert((below - 1) * above == below * above - above) by (nonlinear_arith);
            assert(magnitude * above == whole * (below * above) + rest * above)
                by (nonlinear_arith)
                requires
                    magnitude == below * whole + rest,
            ;
            assert(whole <= magnitude) by (nonlinear_arith)
                requires
                    magnitude == below * whole + rest,
                    1 <= below,
                    0 <= whole,
                    0 <= rest,
            ;
            assert((-self.mantissa) * (above as int) == -(self.mantissa * (above as int)))
                by (nonlinear_arith);
        }
        let fraction = rest * above;
        if self.mantissa >= 0 {
            (whole as i128, fraction as i128)
        } else if fraction == 0 {
            (-(whole as i128), 0)
        } else {
            (-(whole as i128) - 1, UNITS_PER_ONE - (fraction as i128))
        }
    }

    /// Whether `x + y == z` as values.
    fn adds_up(x: &Amount, y: &Amount, z: &Amount) -> (r: bool)
        ensures
            r == (x.units() + y.units() == z.units()),
    {
        let (x_whole, x_fraction) = x.split();
        let (y_whole, y_fraction) = y.split();
        let (z_whole, z_fraction) = z.split();
        let fractions = x_fraction + y_fraction;
        if fractions >= UNITS_PER_ONE {
            z_whole == x_whole + y_whole + 1 && z_fraction == fractions - UNITS_PER_ONE
        } else {
            z_whole == x_whole + y_whole && z_fraction == fractions
        }
    }

    /// Accepts a candidate for the sum `a + b`: the amount it stands for,
    /// where it is one and its value is exactly the sum.
    pub fn exact_sum(a: &Amount, b: &Amount, candidate: Option<(i128, u32)>) -> (r: Option<Amount>)
        ensures
            r == certified(a.units() + b.units(), candidate),
    {
        match candidate {
            Some((mantissa, scale)) => match Amount::new(mantissa, scale) {
                Some(sum) => if Amount::adds_up(a, b, &sum) {
                    Some(sum)
                } else {
                    None
                },
                None => None,
            },
            None => None,
        }
    }

    /// Accepts a candidate for the difference `a - b`: the amount it stands
    /// for, where it is one and its value is exactly the difference.
    pub fn exact_difference(a: &Amount, b: &Amount, candidate: Option<(i128, u32)>) -> (r: Option<
        Amount,
    >)
        ensures
            r == certified(a.units() - b.units(), candidate),
    {
        match candidate {
            Some((mantissa, scale)) => match Amount::new(mantissa, scale) {
                Some(difference) => if Amount::adds_up(&difference, b, a) {
                    Some(difference)
                } else {
                    None
                },
                None => None,
            },
            None => None,
        }
    }

    /// Writes the amount out in plain notation.
    pub fn to_string(&self) -> (r: String)
        ensures
            r@ == self.text(),
    {
        proof {
            use_type_invariant(self);
        }
        decimal_to_string(self.mantissa, self.scale)
    }

    /// Adds with the decimal arithmetic and keeps the result only where it
    /// is exact.
    pub fn checked_add(&self, other: &Amount) -> (r: Option<Amount>)
        ensures
            r == self.sum(*other),
    {
        proof {
            use_type_invariant(self);
            use_type_invariant(other);
        }
        let candidate = decimal_checked_add(
            self.mantissa,
            self.scale,
            other.mantissa,
            other.scale,
        );
        Amount::exact_sum(self, other, candidate)
    }

    /// Subtracts with the decimal arithmetic and keeps the result only where
    /// it is exact.
    pub fn checked_sub(&self, other: &Amount) -> (r: Option<Amount>)
        ensures
            r == self.difference(*other),
    {
        proof {
            use_type_invariant(self);
            use_type_invariant(other);
        }
        let candidate = decimal_checked_sub(
            self.mantissa,
            self.scale,
            other.mantissa,
            other.scale,
        );
        Amount::exact_difference(self, other, candidate)
    }
}

/// Amounts are equal where their values are, whatever their scales.
impl PartialEq for Amount {
    fn eq(&self, other: &Amount) -> (r: bool) {
        let (whole, fraction) = self.split();
        let (other_whole, other_fraction) = other.split();
        whole == other_whole && fraction == other_fraction
    }
}

impl vstd::std_specs::cmp::PartialEqSpecImpl for Amount {
    open spec fn obeys_eq_spec() -> bool {
        true
    }

    open spec fn eq_spec(&self, other: &Amount) -> bool {
        self.units() == other.units()
    }
}

impl Eq for Amount {

}

/// Amounts are ordered by their values.
impl PartialOrd for Amount {
    fn partial_cmp(&self, other: &Amount) -> (r: Option<Ordering>) {
        let (whole, fraction) = self.split();
        let (other_whole, other_fraction) = other.split();
        if whole < other_whole || (whole == other_whole && fraction < other_fraction) {
            Some(Ordering::Less)
        } else if whole == other_whole && fraction == other_fraction {
            Some(Ordering::Equal)
        } else {
            Some(Ordering::Greater)
        }
    }
}

impl vstd::std_specs::cmp::PartialOrdSpecImpl for Amount {
    open spec fn obeys_partial_cmp_spec() -> bool {
        true
    }

    open spec fn partial_cmp_spec(&self, other: &Amount) -> Option<Ordering> {
        if self.units() < other.units() {
            Some(Ordering::Less)
        } else if self.units() == other.units() {
            Some(Ordering::Equal)
        } else {
            Some(Ordering::Greater)
        }
    }
}

/// `10^n` as a machine integer.
fn power_of_ten(n: u32) -> (p: u128)
    requires
        n <= MAX_SCALE,
    ensures
        p == pow10(n as int),
{
    let mut p: u128 = 1;
    let mut i: u32 = 0;
    while i < n
        invariant
            i <= n <= MAX_SCALE,
            p == pow10(i as int),
        decreases n - i,
    {
        proof {
            lemma_pow10_grows(i + 1, 28);
            lemma_pow10_max();
        }
        p = p * 10;
        i = i + 1;
    }
    p
}

/// Calls `Decimal::checked_add` of rust_decimal on the two decimals with the
/// given mantissas and scales, and hands back the mantissa and scale of what
/// it returns. Nothing is claimed of the result but that it depends on the
/// arguments alone. Both operands must be in range, since the conversion to
/// a `Decimal` panics otherwise.
#[verifier::external_body]
fn decimal_checked_add(mantissa: i128, scale: u32, other_mantissa: i128, other_scale: u32) -> (r:
    Option<(i128, u32)>)
    requires
        representable(mantissa as int, scale as int),
        representable(other_mantissa as int, other_scale as int),
    ensures
        r == decimal_sum(mantissa, scale, other_mantissa, other_scale),
{
    let left = Decimal::from_i128_with_scale(mantissa, scale);
    let right = Decimal::from_i128_with_scale(other_mantissa, other_scale);
    match left.checked_add(right) {
        Some(sum) => Some((sum.mantissa(), sum.scale())),
        None => None,
    }
}

/// Calls `Decimal::checked_sub` of rust_decimal on the two decimals with the
/// given mantissas and scales, and hands back the mantissa and scale of what
/// it returns. Nothing is claimed of the result but that it depends on the
/// arguments alone. Both operands must be in range, since the conversion to
/// a `Decimal` panics otherwise.
#[verifier::external_body]
fn decimal_checked_sub(mantissa: i128, scale: u32, other_mantissa: i128, other_scale: u32) -> (r:
    Option<(i128, u32)>)
    requires
        representable(mantissa as int, scale as int),
        representable(other_mantissa as int, other_scale as int),
    ensures
        r == decimal_difference(mantissa, scale, other_mantissa, other_scale),
{
    let left = Decimal::from_i128_with_scale(mantissa, scale);
    let right = Decimal::from_i128_with_scale(other_mantissa, other_scale);
    match left.checked_sub(right) {
        Some(difference) => Some((difference.mantissa(), difference.scale())),
        None => None,
    }
}

/// Calls `to_string` of rust_decimal's `Decimal` on the decimal with the given
/// mantissa and scale. Nothing is claimed of the text but that it depends on
/// the arguments alone. The decimal must be in range, since the conversion to
/// a `Decimal` panics otherwise.
#[verifier::external_body]
fn decimal_to_string(mantissa: i128, scale: u32) -> (r: String)
    requires
        representable(mantissa as int, scale as int),
    ensures
        r@ == decimal_text(mantissa, scale),
{
    Decimal::from_i128_with_scale(mantissa, scale).to_string()
}

} // verus!
