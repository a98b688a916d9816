//! Numbers of the language: IEEE-754 binary64 values, carried as their bit
//! pattern. Arithmetic and decimal conversion go through `rustc_apfloat`;
//! sign, zero, NaN, equality and ordering are read off the bits here.
use rustc_apfloat::ieee::Double;
use rustc_apfloat::Float;
use rustc_apfloat::Round;
use vstd::prelude::*;

verus! {

pub const SIGN_BIT: u64 = 0x8000_0000_0000_0000;

pub const MAGNITUDE_MASK: u64 = 0x7fff_ffff_ffff_ffff;

pub const EXPONENT_MASK: u64 = 0x7ff0_0000_0000_0000;

pub const FRACTION_MASK: u64 = 0x000f_ffff_ffff_ffff;

/// A binary64 value, held as its IEEE-754 encoding.
#[derive(Clone, Copy, Debug)]
pub struct Number {
    pub bits: u64,
}

/// The encoding of the correctly rounded sum of two binary64 values.
pub uninterp spec fn double_sum(a: u64, b: u64) -> u64;

/// The encoding of the correctly rounded difference of two binary64 values.
pub uninterp spec fn double_difference(a: u64, b: u64) -> u64;

/// The encoding of the correctly rounded product of two binary64 values.
pub uninterp spec fn double_product(a: u64, b: u64) -> u64;

/// The encoding of the correctly rounded quotient of two binary64 values.
pub uninterp spec fn double_quotient(a: u64, b: u64) -> u64;

/// The encoding of the binary64 value nearest to a decimal numeral, if the
/// numeral is well formed.
pub uninterp spec fn double_of_decimal(s: Seq<char>) -> Option<u64>;

/// The encoding of the binary64 value nearest to an unsigned integer.
pub uninterp spec fn double_of_integer(n: u64) -> u64;

pub open spec fn magnitude(b: u64) -> u64 {
    b & MAGNITUDE_MASK
}

pub open spec fn sign_of(b: u64) -> bool {
    b & SIGN_BIT != 0
}

pub open spec fn zero_bits(b: u64) -> bool {
    magnitude(b) == 0
}

pub open spec fn nan_bits(b: u64) -> bool {
    b & EXPONENT_MASK == EXPONENT_MASK && b & FRACTION_MASK != 0
}

/// IEEE equality: NaN equals nothing, and the two zeros are equal.
pub open spec fn double_eq(a: u64, b: u64) -> bool {
    !nan_bits(a) && !nan_bits(b) && (a == b || (zero_bits(a) && zero_bits(b)))
}

/// IEEE "less than": false when either side is NaN.
pub open spec fn double_lt(a: u64, b: u64) -> bool {
    if nan_bits(a) || nan_bits(b) || (zero_bits(a) && zero_bits(b)) {
        false
    } else if sign_of(a) != sign_of(b) {
        sign_of(a)
    } else if sign_of(a) {
        magnitude(b) < magnitude(a)
    } else {
        magnitude(a) < magnitude(b)
    }
}

/// Relies on `rustc_apfloat`'s `Add` for `Double` (round to nearest, ties to even).
#[verifier::external_body]
fn apfloat_add(a: u64, b: u64) -> (r: u64)
    ensures
        r == double_sum(a, b),
{
    (Double::from_bits(a as u128) + Double::from_bits(b as u128)).value.to_bits() as u64
}

/// Relies on `rustc_apfloat`'s `Sub` for `Double` (round to nearest, ties to even).
#[verifier::external_body]
fn apfloat_sub(a: u64, b: u64) -> (r: u64)
    ensures
        r == double_difference(a, b),
{
    (Double::from_bits(a as u128) - Double::from_bits(b as u128)).value.to_bits() as u64
}

/// Relies on `rustc_apfloat`'s `Mul` for `Double` (round to nearest, ties to even).
#[verifier::external_body]
fn apfloat_mul(a: u64, b: u64) -> (r: u64)
    ensures
        r == double_product(a, b),
{
    (Double::from_bits(a as u128) * Double::from_bits(b as u128)).value.to_bits() as u64
}

/// Relies on `rustc_apfloat`'s `Div` for `Double` (round to nearest, ties to even).
#[verifier::external_body]
fn apfloat_div(a: u64, b: u64) -> (r: u64)
    ensures
        r == double_quotient(a, b),
{
    (Double::from_bits(a as u128) / Double::from_bits(b as u128)).value.to_bits() as u64
}

/// A run of decimal digits, optionally followed by `.` and another run.
pub open spec fn plain_numeral(s: Seq<char>) -> bool {
    ||| (s.len() > 0 && forall|i: int| 0 <= i < s.len() ==> '0' <= #[trigger] s[i] <= '9')
    ||| exists|k: int| 0 < k < s.len() - 1 && s[k] == '.' && forall|i: int|
        0 <= i < s.len() && i != k ==> '0' <= #[trigger] s[i] <= '9'
}

/// Relies on `rustc_apfloat`'s `Float::from_str_r` for `Double`, which reads a
/// decimal numeral and rounds it to the nearest value, or reports a malformed
/// one; digits with at most one inner `.` are never malformed.
#[verifier::external_body]
fn apfloat_parse(s: &str) -> (r: Option<u64>)
    ensures
        r == double_of_decimal(s@),
        plain_numeral(s@) ==> r is Some,
{
    match Double::from_str_r(s, Round::NearestTiesToEven) {
        Ok(v) => Some(v.value.to_bits() as u64),
        Err(_) => None,
    }
}

/// Relies on `rustc_apfloat`'s `Float::from_u128` for `Double` (round to nearest).
#[verifier::external_body]
fn apfloat_of_integer(n: u64) -> (r: u64)
    ensures
        r == double_of_integer(n),
{
    Double::from_u128(n as u128).value.to_bits() as u64
}

impl Number {
    pub fn from_bits(bits: u64) -> (r: Number)
        ensures
            r.bits == bits,
    {
        Number { bits }
    }

    /// The number nearest to a decimal numeral such as `12` or `3.25`.
    pub fn parse_decimal(text: &str) -> (r: Option<Number>)
        ensures
            r matches Some(n) ==> double_of_decimal(text@) == Some(n.bits),
            r is None ==> double_of_decimal(text@) is None,
            plain_numeral(text@) ==> r is Some,
    {
        match apfloat_parse(text) {
            Some(bits) => Some(Number { bits }),
            None => None,
        }
    }

    /// The number nearest to an unsigned integer.
    pub fn from_integer(n: u64) -> (r: Number)
        ensures
            r.bits == double_of_integer(n),
    {
        Number { bits: apfloat_of_integer(n) }
    }

    /// Both zeros (positive and negative) count as zero.
    pub fn is_zero(&self) -> (r: bool)
        ensures
            r == zero_bits(self.bits),
    {
        self.bits & MAGNITUDE_MASK == 0
    }

    pub fn is_nan(&self) -> (r: bool)
        ensures
            r == nan_bits(self.bits),
    {
        self.bits & EXPONENT_MASK == EXPONENT_MASK && self.bits & FRACTION_MASK != 0
    }

    /// The number with the opposite sign.
    pub fn negate(&self) -> (r: Number)
        ensures
            r.bits == self.bits ^ SIGN_BIT,
    {
        Number { bits: self.bits ^ SIGN_BIT }
    }

    pub fn add(&self, o: &Number) -> (r: Number)
        ensures
            r.bits == double_sum(self.bits, o.bits),
    {
        Number { bits: apfloat_add(self.bits, o.bits) }
    }

    pub fn subtract(&self, o: &Number) -> (r: Number)
        ensures
            r.bits == double_difference(self.bits, o.bits),
    {
        Number { bits: apfloat_sub(self.bits, o.bits) }
    }

    pub fn multiply(&self, o: &Number) -> (r: Number)
        ensures
            r.bits == double_product(self.bits, o.bits),
    {
        Number { bits: apfloat_mul(self.bits, o.bits) }
    }

    pub fn divide(&self, o: &Number) -> (r: Number)
        ensures
            r.bits == double_quotient(self.bits, o.bits),
    {
        Number { bits: apfloat_div(self.bits, o.bits) }
    }

    /// IEEE equality.
    pub fn equals(&self, o: &Number) -> (r: bool)
        ensures
            r == double_eq(self.bits, o.bits),
    {
        !self.is_nan() && !o.is_nan() && (self.bits == o.bits || (self.is_zero() && o.is_zero()))
    }

    /// IEEE "less than".
    pub fn less_than(&self, o: &Number) -> (r: bool)
        ensures
            r == double_lt(self.bits, o.bits),
    {
        if self.is_nan() || o.is_nan() || (self.is_zero() && o.is_zero()) {
            false
        } else {
            let sa = self.bits & SIGN_BIT != 0;
            let sb = o.bits & SIGN_BIT != 0;
            if sa != sb {
                sa
            } else if sa {
                o.bits & MAGNITUDE_MASK < self.bits & MAGNITUDE_MASK
            } else {
                self.bits & MAGNITUDE_MASK < o.bits & MAGNITUDE_MASK
            }
        }
    }
}

} // verus!
