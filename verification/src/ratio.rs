//! The exact rational value shared by every calculator.
use vstd::prelude::*;

verus! {

use vstd::math::abs;
use crate::errors::MetricsError;

/// The denominator of the approximate decimal form: results of
/// [`Ratio::to_approximate_decimal`] are expressed in millionths.
pub const DECIMAL_SCALE: i128 = 1_000_000;

/// The machine limit on ratio components that the calculators promise and
/// the decimal conversion accepts: large enough for every count a real
/// measurement can produce, small enough that scaling a numerator by the
/// decimal scale stays within the extended-precision intermediate.
pub const RATIO_COMPONENT_LIMIT: i128 = 0x1_0000_0000_0000_0000_0000_0000;

/// An exact integer ratio. The pair is stored verbatim: construction never
/// reduces to lowest terms, so the ratio a calculator reports is exactly the
/// one its counts produced. A zero denominator represents an explicitly
/// undefined ratio; arithmetic never divides by it silently.
#[derive(Clone, Copy, Debug, PartialEq, Eq, Structural)]
pub struct Ratio {
    pub numer: i128,
    pub denom: i128,
}

/// Integer division truncating toward zero, the rounding used when a ratio
/// is narrowed to its approximate decimal form.
pub open spec fn trunc_div(a: int, b: int) -> int
    recommends
        b != 0,
{
    if (a >= 0) == (b >= 0) {
        (abs(a) / abs(b)) as int
    } else {
        -((abs(a) / abs(b)) as int)
    }
}

/// Euclid's greatest common divisor of two non-negative integers; exact
/// fraction addition divides both parts of a sum by it to keep the
/// representation small without changing the mathematical value.
pub open spec fn spec_gcd(a: int, b: int) -> int
    recommends
        0 <= a,
        0 <= b,
    decreases b,
{
    if b <= 0 {
        a
    } else {
        spec_gcd(b, a % b)
    }
}

/// The divisor Euclid's algorithm returns for a positive first argument is
/// positive and divides both arguments.
pub proof fn lemma_gcd_divides(a: int, b: int)
    requires
        1 <= a,
        0 <= b,
    ensures
        1 <= spec_gcd(a, b),
        a % spec_gcd(a, b) == 0,
        b % spec_gcd(a, b) == 0,
    decreases b,
{
    if b <= 0 {
        vstd::arithmetic::div_mod::lemma_mod_self_0(a);
        vstd::arithmetic::div_mod::lemma_small_mod(0, a as nat);
    } else {
        vstd::arithmetic::div_mod::lemma_mod_bound(a, b);
        lemma_gcd_divides(b, a % b);
        let g = spec_gcd(b, a % b);
        vstd::arithmetic::div_mod::lemma_fundamental_div_mod(a, b);
        vstd::arithmetic::div_mod::lemma_fundamental_div_mod(b, g);
        vstd::arithmetic::div_mod::lemma_fundamental_div_mod(a % b, g);
        let z = (b / g) * (a / b) + (a % b) / g;
        assert(a == z * g) by (nonlinear_arith)
            requires
                a == b * (a / b) + a % b,
                b == g * (b / g) + 0,
                a % b == g * ((a % b) / g) + 0,
                z == (b / g) * (a / b) + (a % b) / g,
        ;
        vstd::arithmetic::div_mod::lemma_mod_multiples_basic(z, g);
    }
}

/// Euclid's algorithm on machine words.
pub fn gcd_u128(a: u128, b: u128) -> (g: u128)
    ensures
        g == spec_gcd(a as int, b as int),
{
    let mut x: u128 = a;
    let mut y: u128 = b;
    while y != 0
        invariant
            spec_gcd(x as int, y as int) == spec_gcd(a as int, b as int),
        decreases y,
    {
        let t: u128 = x % y;
        x = y;
        y = t;
    }
    x
}

/// The decimal approximation of a defined ratio is within one part of the
/// scale of the true value: the scaled numerator differs from the
/// approximation times the denominator by less than the denominator, so
/// `to_approximate_decimal` errs by less than one millionth.
pub proof fn lemma_decimal_approximation_error(n: int, d: int)
    requires
        d != 0,
    ensures
        abs(n * DECIMAL_SCALE - trunc_div(n * DECIMAL_SCALE, d) * d) < abs(d),
{
    let a = n * DECIMAL_SCALE;
    let q = trunc_div(a, d);
    let aa = abs(a) as int;
    let ad = abs(d) as int;
    vstd::arithmetic::div_mod::lemma_fundamental_div_mod(aa, ad);
    vstd::arithmetic::div_mod::lemma_mod_bound(aa, ad);
    let r = aa % ad;
    assert(aa == ad * (aa / ad) + r);
    if (a >= 0) == (d >= 0) {
        assert(q == aa / ad);
        if a >= 0 {
            assert(a - q * d == r) by (nonlinear_arith)
                requires
                    a == aa,
                    d == ad,
                    q == aa / ad,
                    aa == ad * (aa / ad) + r,
            ;
        } else {
            assert(a - q * d == -r) by (nonlinear_arith)
                requires
                    a == -aa,
                    d == -ad,
                    q == aa / ad,
                    aa == ad * (aa / ad) + r,
            ;
        }
    } else {
        assert(q == -(aa / ad));
        if a >= 0 {
            assert(q * d == -(aa / ad) * d);
            assert(a - q * d == r) by (nonlinear_arith)
                requires
                    a == aa,
                    d == -ad,
                    q == -(aa / ad),
                    aa == ad * (aa / ad) + r,
            ;
        } else {
            assert(a - q * d == -r) by (nonlinear_arith)
                requires
                    a == -aa,
                    d == ad,
                    q == -(aa / ad),
                    aa == ad * (aa / ad) + r,
            ;
        }
    }
}

impl Ratio {
    /// A ratio is undefined exactly when its denominator is zero.
    pub open spec fn is_undefined(self) -> bool {
        self.denom == 0
    }

    /// Stores the pair verbatim; no reduction, no precision loss.
    pub fn new(numer: i128, denom: i128) -> (r: Ratio)
        ensures
            r == (Ratio { numer, denom }),
    {
        Ratio { numer, denom }
    }

    /// Scales the ratio down by an integer divisor: the result equals
    /// `numer / (denom * divisor)`. A zero divisor is reported as
    /// `DivisionByZero`, never performed.
    pub fn divide(self, divisor: i128) -> (res: Result<Ratio, MetricsError>)
        requires
            i128::MIN <= self.denom * divisor <= i128::MAX,
        ensures
            divisor == 0 ==> res == Err::<Ratio, MetricsError>(MetricsError::DivisionByZero),
            divisor != 0 ==> res == Ok::<Ratio, MetricsError>(
                Ratio { numer: self.numer, denom: (self.denom * divisor) as i128 },
            ),
    {
        if divisor == 0 {
            Err(MetricsError::DivisionByZero)
        } else {
            Ok(Ratio { numer: self.numer, denom: self.denom * divisor })
        }
    }

    /// Narrows the ratio to a decimal approximation in millionths,
    /// truncated toward zero; an undefined ratio (zero denominator) yields
    /// `None` rather than an error or a crash, whatever its numerator. For
    /// a defined ratio the numerator bound keeps the scaled dividend within
    /// the extended-precision intermediate.
    pub fn to_approximate_decimal(self) -> (res: Option<i128>)
        requires
            self.denom == 0 || (-RATIO_COMPONENT_LIMIT <= self.numer <= RATIO_COMPONENT_LIMIT),
        ensures
            self.denom == 0 ==> res is None,
            self.denom != 0 ==> (res matches Some(d)
                && d == trunc_div(self.numer * DECIMAL_SCALE, self.denom as int)),
    {
        if self.denom == 0 {
            None
        } else {
            let negative = (self.numer < 0) != (self.denom < 0);
            let na: u128 = if self.numer < 0 {
                (-self.numer) as u128
            } else {
                self.numer as u128
            };
            let da: u128 = if self.denom == i128::MIN {
                0x8000_0000_0000_0000_0000_0000_0000_0000u128
            } else if self.denom < 0 {
                (-self.denom) as u128
            } else {
                self.denom as u128
            };
            assert(na == abs(self.numer as int));
            assert(da == abs(self.denom as int));
            let scaled: u128 = na * 1_000_000;
            assert(scaled == abs(self.numer * DECIMAL_SCALE));
            let q: u128 = scaled / da;
            assert(q <= scaled) by {
                vstd::arithmetic::div_mod::lemma_div_is_ordered_by_denominator(
                    scaled as int, 1, da as int);
            }
            let qi: i128 = q as i128;
            if negative {
                Some(-qi)
            } else {
                Some(qi)
            }
        }
    }
}

} // verus!
