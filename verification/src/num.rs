//! Numbers of the language: IEEE-754 binary64 values, carried by their bit
//! patterns. Classification and equality are decided here on the bits;
//! rounding arithmetic and the reading of decimal text are done by
//! `rustc_apfloat`.
use rustc_apfloat::ieee::Double;
use rustc_apfloat::Float;
use vstd::prelude::*;

verus! {

/// The bit that holds the sign of a binary64 value.
pub const SIGN_BIT: u64 = 0x8000_0000_0000_0000;

/// The bit pattern of positive infinity: every magnitude above it is a NaN.
pub const INFINITY_BITS: u64 = 0x7ff0_0000_0000_0000;

/// The bit pattern of `a + b`, rounded to nearest, ties to even.
pub uninterp spec fn double_add(a: u64, b: u64) -> u64;

/// The bit pattern of `a - b`, rounded to nearest, ties to even.
pub uninterp spec fn double_sub(a: u64, b: u64) -> u64;

/// The bit pattern of `a * b`, rounded to nearest, ties to even.
pub uninterp spec fn double_mul(a: u64, b: u64) -> u64;

/// The bit pattern of `a / b`, rounded to nearest, ties to even.
pub uninterp spec fn double_div(a: u64, b: u64) -> u64;

/// The bit pattern of the binary64 value nearest to the number that `text`
/// writes, or `None` where `text` writes no number.
pub uninterp spec fn double_from_text(text: Seq<char>) -> Option<u64>;

/// Calls `Add::add` of `rustc_apfloat::ieee::Double` on the two values with
/// the given bit patterns. The contract only names the sum's bit pattern: it
/// depends on the two patterns alone.
#[verifier::external_body]
fn apfloat_add(a: u64, b: u64) -> (r: u64)
    ensures
        r == double_add(a, b),
{
    (Double::from_bits(a as u128) + Double::from_bits(b as u128)).value.to_bits() as u64
}

/// Calls `Sub::sub` of `rustc_apfloat::ieee::Double` on the two values with
/// the given bit patterns. The contract only names the difference's bit
/// pattern: it depends on the two patterns alone.
#[verifier::external_body]
fn apfloat_sub(a: u64, b: u64) -> (r: u64)
    ensures
        r == double_sub(a, b),
{
    (Double::from_bits(a as u128) - Double::from_bits(b as u128)).value.to_bits() as u64
}

/// Calls `Mul::mul` of `rustc_apfloat::ieee::Double` on the two values with
/// the given bit patterns. The contract only names the product's bit pattern:
/// it depends on the two patterns alone.
#[verifier::external_body]
fn apfloat_mul(a: u64, b: u64) -> (r: u64)
    ensures
        r == double_mul(a, b),
{
    (Double::from_bits(a as u128) * Double::from_bits(b as u128)).value.to_bits() as u64
}

/// Calls `Div::div` of `rustc_apfloat::ieee::Double` on the two values with
/// the given bit patterns. The contract only names the quotient's bit
/// pattern: it depends on the two patterns alone.
#[verifier::external_body]
fn apfloat_div(a: u64, b: u64) -> (r: u64)
    ensures
        r == double_div(a, b),
{
    (Double::from_bits(a as u128) / Double::from_bits(b as u128)).value.to_bits() as u64
}

/// Calls `FromStr::from_str` of `rustc_apfloat::ieee::Double` on `text`. The
/// contract only names the outcome: the bit pattern of the value read, or
/// `None` where the crate reports a parse error. It depends on the text alone.
#[verifier::external_body]
fn apfloat_from_text(text: &str) -> (r: Option<u64>)
    ensures
        r == double_from_text(text@),
{
    match text.parse::<Double>() {
        Ok(d) => Some(d.to_bits() as u64),
        Err(_) => None,
    }
}

/// A binary64 number, identified by its bit pattern.
#[derive(Clone, Copy, Debug)]
pub struct Number {
    pub bits: u64,
}

/// The bit pattern without its sign bit.
pub open spec fn magnitude(bits: u64) -> u64 {
    if bits >= SIGN_BIT {
        (bits - SIGN_BIT) as u64
    } else {
        bits
    }
}

/// Whether the pattern is one of the two zeros.
pub open spec fn bits_are_zero(bits: u64) -> bool {
    magnitude(bits) == 0
}

/// Whether the pattern is a NaN.
pub open spec fn bits_are_nan(bits: u64) -> bool {
    magnitude(bits) > INFINITY_BITS
}

/// IEEE-754 equality on bit patterns: a NaN equals nothing, the two zeros
/// equal each other, and any other value equals only itself.
pub open spec fn bits_equal(a: u64, b: u64) -> bool {
    !bits_are_nan(a) && !bits_are_nan(b) && (a == b || (bits_are_zero(a) && bits_are_zero(b)))
}

impl Number {
    /// The number with the given bit pattern.
    pub fn from_bits(bits: u64) -> (n: Number)
        ensures
            n.bits == bits,
    {
        Number { bits }
    }

    /// The bit pattern of this number.
    pub fn to_bits(self) -> (bits: u64)
        ensures
            bits == self.bits,
    {
        self.bits
    }

    /// Reads a decimal numeral.
    pub fn from_text(text: &str) -> (n: Option<Number>)
        ensures
            n == match double_from_text(text@) {
                Some(bits) => Some(Number { bits }),
                None => None,
            },
    {
        match apfloat_from_text(text) {
            Some(bits) => Some(Number { bits }),
            None => None,
        }
    }

    fn magnitude_bits(self) -> (m: u64)
        ensures
            m == magnitude(self.bits),
    {
        if self.bits >= SIGN_BIT {
            self.bits - SIGN_BIT
        } else {
            self.bits
        }
    }

    /// Whether this number is positive or negative zero.
    pub fn is_zero(self) -> (z: bool)
        ensures
            z == bits_are_zero(self.bits),
    {
        self.magnitude_bits() == 0
    }

    /// Whether this number is a NaN.
    pub fn is_nan(self) -> (z: bool)
        ensures
            z == bits_are_nan(self.bits),
    {
        self.magnitude_bits() > INFINITY_BITS
    }

    /// Numeric equality, as IEEE-754 defines it.
    pub fn equals(self, other: Number) -> (e: bool)
        ensures
            e == bits_equal(self.bits, other.bits),
    {
        !self.is_nan() && !other.is_nan() && (self.bits == other.bits || (self.is_zero()
            && other.is_zero()))
    }

    /// The rounded sum.
    pub fn plus(self, rhs: Number) -> (n: Number)
        ensures
            n.bits == double_add(self.bits, rhs.bits),
    {
        Number { bits: apfloat_add(self.bits, rhs.bits) }
    }

    /// The rounded difference.
    pub fn minus(self, rhs: Number) -> (n: Number)
        ensures
            n.bits == double_sub(self.bits, rhs.bits),
    {
        Number { bits: apfloat_sub(self.bits, rhs.bits) }
    }

    /// The rounded product.
    pub fn times(self, rhs: Number) -> (n: Number)
        ensures
            n.bits == double_mul(self.bits, rhs.bits),
    {
        Number { bits: apfloat_mul(self.bits, rhs.bits) }
    }

    /// The rounded quotient. Division by a zero is the caller's to refuse:
    /// here it yields what IEEE-754 prescribes.
    pub fn divided_by(self, rhs: Number) -> (n: Number)
        ensures
            n.bits == double_div(self.bits, rhs.bits),
    {
        Number { bits: apfloat_div(self.bits, rhs.bits) }
    }
}

impl PartialEq for Number {
    fn eq(&self, other: &Number) -> (e: bool) {
        self.equals(*other)
    }
}

impl vstd::std_specs::cmp::PartialEqSpecImpl for Number {
    open spec fn obeys_eq_spec() -> bool {
        true
    }

    open spec fn eq_spec(&self, other: &Number) -> bool {
        bits_equal(self.bits, other.bits)
    }
}

} // verus!
