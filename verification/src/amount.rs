//! Fixed-precision decimal amounts.
//!
//! An [`Amount`] is a signed decimal number with exactly four fractional
//! digits, stored as a count of 1/10000 units in an `i128`. Text is parsed
//! through `rust_decimal` and rounded to four decimal places with that
//! crate's default strategy (banker's rounding, half to even).

use vstd::prelude::*;
use crate::text::{append_u128, append_digit, dec_str, digit_char};

verus! {

/// The four fractional digits of a unit count `f` in `0 .. 10000`,
/// zero-padded.
pub open spec fn frac4_str(f: int) -> Seq<char> {
    seq![
        digit_char(f / 1000),
        digit_char((f / 100) % 10),
        digit_char((f / 10) % 10),
        digit_char(f % 10),
    ]
}

/// The textual form of a non-negative unit count `m`: the whole part, a
/// point, and exactly four fractional digits.
pub open spec fn magnitude_str(m: nat) -> Seq<char> {
    dec_str(m / 10000) + seq!['.'] + frac4_str((m % 10000) as int)
}

/// The textual form of a unit count `u`: a minus sign where `u` is
/// negative, then the whole part, a point, and exactly four fractional
/// digits.
pub open spec fn amount_str(u: int) -> Seq<char> {
    if u < 0 {
        seq!['-'] + magnitude_str((-u) as nat)
    } else {
        magnitude_str(u as nat)
    }
}

/// Largest mantissa magnitude a `rust_decimal::Decimal` can carry (96 bits,
/// so 2^96 - 1).
pub const MANTISSA_MAX: i128 = 79228162514264337593543950335;

/// Largest unit count that parsing or rounding a `rust_decimal::Decimal` can
/// produce: `MANTISSA_MAX * 10000`, reached by a value of scale zero.
pub const PARSED_UNITS_MAX: i128 = 792281625142643375935439503350000;

#[verifier::external_type_specification]
#[verifier::external_body]
pub struct ExDecimal(rust_decimal::Decimal);

#[verifier::external_type_specification]
#[verifier::external_body]
pub struct ExDecimalError(rust_decimal::Error);

/// The unit count (value times 10^4, rounded half-to-even at the fourth
/// fractional digit) that `rust_decimal` reads out of a piece of text, or
/// `None` where the text is not a well-formed decimal number.
pub uninterp spec fn amount_units_of(s: Seq<char>) -> Option<int>;

/// The unit count (value times 10^4, rounded half-to-even at the fourth
/// fractional digit) of a `rust_decimal` value.
pub uninterp spec fn decimal_units_of(d: rust_decimal::Decimal) -> int;

/// 10 raised to `e`.
pub open spec fn pow10(e: nat) -> int
    decreases e,
{
    if e == 0 {
        1
    } else {
        10 * pow10((e - 1) as nat)
    }
}

/// Relies on `rust_decimal`'s `Decimal::from_str` (with surrounding
/// whitespace trimmed first), `Decimal::round_dp` (round to four fractional
/// digits, half to even) and the `mantissa`/`scale` accessors: the parsed,
/// rounded value is `mantissa / 10^scale` with a scale of at most four and a
/// 96-bit mantissa, and it depends on the text alone.
#[verifier::external_body]
fn parse_decimal_4dp(s: &str) -> (r: Result<(i128, u32), rust_decimal::Error>)
    ensures
        match r {
            Ok(p) => {
                &&& p.1 <= 4
                &&& -MANTISSA_MAX <= p.0 <= MANTISSA_MAX
                &&& amount_units_of(s@) == Some(p.0 * pow10((4 - p.1) as nat))
            },
            Err(_) => amount_units_of(s@) is None,
        },
{
    match <rust_decimal::Decimal as core::str::FromStr>::from_str(s.trim()) {
        Ok(d) => {
            let d4 = d.round_dp(4);
            Ok((d4.mantissa(), d4.scale()))
        },
        Err(e) => Err(e),
    }
}

/// Relies on `rust_decimal`'s `Decimal::round_dp` (round to four fractional
/// digits, half to even) and the `mantissa`/`scale` accessors: the rounded
/// value is `mantissa / 10^scale` with a scale of at most four and a 96-bit
/// mantissa, and it depends on the given value alone.
#[verifier::external_body]
fn round_decimal_4dp(value: rust_decimal::Decimal) -> (r: (i128, u32))
    ensures
        r.1 <= 4 && -MANTISSA_MAX <= r.0 <= MANTISSA_MAX,
        r.0 * pow10((4 - r.1) as nat) == decimal_units_of(value),
{
    let d4 = value.round_dp(4);
    (d4.mantissa(), d4.scale())
}

/// 10 raised to `e`, for small exponents.
fn pow10_small(e: u32) -> (r: i128)
    requires
        e <= 4,
    ensures
        r == pow10(e as nat),
        1 <= r <= 10000,
{
    proof {
        reveal_with_fuel(pow10, 5);
    }
    if e == 0 {
        1
    } else if e == 1 {
        10
    } else if e == 2 {
        100
    } else if e == 3 {
        1000
    } else {
        10000
    }
}

/// The unit count of a 96-bit mantissa rescaled from `scale` fractional
/// digits to four.
fn units_from_parts(mantissa: i128, scale: u32) -> (r: i128)
    requires
        scale <= 4,
        -MANTISSA_MAX <= mantissa <= MANTISSA_MAX,
    ensures
        r == mantissa * pow10((4 - scale) as nat),
        -PARSED_UNITS_MAX <= r <= PARSED_UNITS_MAX,
{
    let p = pow10_small(4 - scale);
    proof {
        assert(-PARSED_UNITS_MAX <= mantissa * pow10((4 - scale) as nat) <= PARSED_UNITS_MAX)
            by (nonlinear_arith)
            requires
                -MANTISSA_MAX <= mantissa <= MANTISSA_MAX,
                1 <= pow10((4 - scale) as nat) <= 10000,
                PARSED_UNITS_MAX == MANTISSA_MAX * 10000,
        ;
    }
    mantissa * p
}

/// A signed fixed-point decimal value with exactly four fractional digits,
/// held as a count of 1/10000 units.
#[derive(Debug, Clone, Copy, PartialEq, Eq, Structural)]
pub struct Amount {
    pub units: i128,
}

impl View for Amount {
    type V = int;

    open spec fn view(&self) -> int {
        self.units as int
    }
}

impl Amount {
    /// An amount built from a `rust_decimal` value, rounded to four
    /// fractional digits (half to even).
    pub fn new(value: rust_decimal::Decimal) -> (r: Amount)
        ensures
            r@ == decimal_units_of(value),
            -PARSED_UNITS_MAX <= r@ <= PARSED_UNITS_MAX,
    {
        let (m, sc) = round_decimal_4dp(value);
        Amount { units: units_from_parts(m, sc) }
    }

    /// An amount parsed from text (surrounding whitespace ignored), rounded
    /// to four fractional digits (half to even). Text that is not a
    /// well-formed decimal number is rejected.
    pub fn from_str_truncate(s: &str) -> (r: Result<Amount, rust_decimal::Error>)
        ensures
            match r {
                Ok(a) => amount_units_of(s@) == Some(a@) && -PARSED_UNITS_MAX <= a@
                    <= PARSED_UNITS_MAX,
                Err(_) => amount_units_of(s@) is None,
            },
    {
        match parse_decimal_4dp(s) {
            Ok((m, sc)) => Ok(Amount { units: units_from_parts(m, sc) }),
            Err(e) => Err(e),
        }
    }

    /// The amount worth nothing.
    pub fn zero() -> (r: Amount)
        ensures
            r@ == 0,
    {
        Amount { units: 0 }
    }

    /// True exactly when the amount is below zero.
    pub fn is_negative(&self) -> (r: bool)
        ensures
            r == (self@ < 0),
    {
        self.units < 0
    }

    /// True exactly when the amount is zero.
    pub fn is_zero(&self) -> (r: bool)
        ensures
            r == (self@ == 0),
    {
        self.units == 0
    }

    /// The textual form of the amount: an optional minus sign, the whole
    /// part, and exactly four fractional digits.
    pub fn render(&self) -> (s: String)
        ensures
            s@ == amount_str(self@),
    {
        let mut out = String::new();
        let mag: u128 = if self.units >= 0 {
            self.units as u128
        } else {
            out.append("-");
            (-(self.units + 1)) as u128 + 1
        };
        proof {
            reveal_strlit("-");
            if self@ < 0 {
                assert(out@ =~= seq!['-']);
            }
            assert(mag as int == if self@ < 0 {
                -self@
            } else {
                self@
            });
        }
        let ghost sign = out@;
        append_u128(&mut out, mag / 10000);
        out.append(".");
        let frac = (mag % 10000) as u16;
        append_digit(&mut out, (frac / 1000) as u8);
        append_digit(&mut out, ((frac / 100) % 10) as u8);
        append_digit(&mut out, ((frac / 10) % 10) as u8);
        append_digit(&mut out, (frac % 10) as u8);
        proof {
            reveal_strlit(".");
            assert(out@ =~= sign + magnitude_str(mag as nat));
            assert(out@ =~= amount_str(self@));
        }
        out
    }

    /// The sum of two amounts.
    pub fn plus(self, other: Amount) -> (r: Amount)
        requires
            i128::MIN <= self@ + other@ <= i128::MAX,
        ensures
            r@ == self@ + other@,
    {
        Amount { units: self.units + other.units }
    }

    /// The difference of two amounts.
    pub fn minus(self, other: Amount) -> (r: Amount)
        requires
            i128::MIN <= self@ - other@ <= i128::MAX,
        ensures
            r@ == self@ - other@,
    {
        Amount { units: self.units - other.units }
    }
}

} // verus!
