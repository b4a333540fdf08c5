//! Double-precision numeric values, carried as IEEE-754 bit patterns.
//!
//! The language's numbers are 64-bit floats. The library holds each one as
//! its bit pattern (`u64`) and names the IEEE-754 operations on patterns as
//! uninterpreted functions; the `rustc_apfloat` crate performs the actual
//! arithmetic, behind the trusted wrappers below.

use vstd::prelude::*;
use rustc_apfloat::Float;
use rustc_apfloat::ieee::Double;

verus! {

/// The bit pattern of the double that a valid number lexeme denotes.
pub uninterp spec fn dbl_of_decimal(s: Seq<u8>) -> u64;

/// The bit pattern of the IEEE-754 sum of two doubles given by bit pattern.
pub uninterp spec fn dbl_add(a: u64, b: u64) -> u64;

/// The bit pattern of the IEEE-754 difference of two doubles.
pub uninterp spec fn dbl_sub(a: u64, b: u64) -> u64;

/// The bit pattern of the IEEE-754 product of two doubles.
pub uninterp spec fn dbl_mul(a: u64, b: u64) -> u64;

/// The bit pattern of the IEEE-754 quotient of two doubles.
pub uninterp spec fn dbl_div(a: u64, b: u64) -> u64;

/// The bit pattern of an IEEE-754 double with its sign flipped.
pub uninterp spec fn dbl_neg(a: u64) -> u64;

/// IEEE-754 equality of two doubles given by bit pattern.
pub uninterp spec fn dbl_eq(a: u64, b: u64) -> bool;

/// IEEE-754 `<` on two doubles given by bit pattern.
pub uninterp spec fn dbl_lt(a: u64, b: u64) -> bool;

/// IEEE-754 `<=` on two doubles given by bit pattern.
pub uninterp spec fn dbl_le(a: u64, b: u64) -> bool;

/// IEEE-754 `>` on two doubles given by bit pattern.
pub uninterp spec fn dbl_gt(a: u64, b: u64) -> bool;

/// IEEE-754 `>=` on two doubles given by bit pattern.
pub uninterp spec fn dbl_ge(a: u64, b: u64) -> bool;

/// The decimal text that a double given by bit pattern prints as.
pub uninterp spec fn dbl_text(a: u64) -> Seq<u8>;

/// Relies on `rustc_apfloat`'s `FromStr` for `ieee::Double`: it parses a
/// decimal digit string (with an optional fraction) to the nearest
/// double, rounding ties to even; the result depends on the text alone.
#[verifier::external_body]
pub(crate) fn num_from_decimal(s: &Vec<u8>) -> (r: u64)
    requires
        crate::scanner::is_number_lexeme(s@),
    ensures
        r == dbl_of_decimal(s@),
{
    let text = core::str::from_utf8(s).unwrap();
    let d: Double = text.parse().unwrap();
    d.to_bits() as u64
}

/// Relies on `rustc_apfloat`'s `Add` for `ieee::Double`: IEEE-754 addition,
/// rounding to nearest even; the result depends on the operand bits alone.
#[verifier::external_body]
pub(crate) fn num_add(a: u64, b: u64) -> (r: u64)
    ensures
        r == dbl_add(a, b),
{
    let x = Double::from_bits(a as u128);
    let y = Double::from_bits(b as u128);
    (x + y).value.to_bits() as u64
}

/// Relies on `rustc_apfloat`'s `Sub` for `ieee::Double`: IEEE-754
/// subtraction, rounding to nearest even.
#[verifier::external_body]
pub(crate) fn num_sub(a: u64, b: u64) -> (r: u64)
    ensures
        r == dbl_sub(a, b),
{
    let x = Double::from_bits(a as u128);
    let y = Double::from_bits(b as u128);
    (x - y).value.to_bits() as u64
}

/// Relies on `rustc_apfloat`'s `Mul` for `ieee::Double`: IEEE-754
/// multiplication, rounding to nearest even.
#[verifier::external_body]
pub(crate) fn num_mul(a: u64, b: u64) -> (r: u64)
    ensures
        r == dbl_mul(a, b),
{
    let x = Double::from_bits(a as u128);
    let y = Double::from_bits(b as u128);
    (x * y).value.to_bits() as u64
}

/// Relies on `rustc_apfloat`'s `Div` for `ieee::Double`: IEEE-754 division,
/// rounding to nearest even (division by zero gives an infinity or NaN, as
/// the standard directs, never a panic).
#[verifier::external_body]
pub(crate) fn num_div(a: u64, b: u64) -> (r: u64)
    ensures
        r == dbl_div(a, b),
{
    let x = Double::from_bits(a as u128);
    let y = Double::from_bits(b as u128);
    (x / y).value.to_bits() as u64
}

/// Relies on `rustc_apfloat`'s `Neg` for `ieee::Double`: flips the sign bit.
#[verifier::external_body]
pub(crate) fn num_neg(a: u64) -> (r: u64)
    ensures
        r == dbl_neg(a),
{
    let x = Double::from_bits(a as u128);
    (-x).to_bits() as u64
}

/// Relies on `rustc_apfloat`'s `PartialEq` for `ieee::Double`: IEEE-754
/// equality (`NaN` equals nothing; the two zeros are equal).
#[verifier::external_body]
pub(crate) fn num_eq(a: u64, b: u64) -> (r: bool)
    ensures
        r == dbl_eq(a, b),
{
    let x = Double::from_bits(a as u128);
    let y = Double::from_bits(b as u128);
    x == y
}

/// Relies on `rustc_apfloat`'s `PartialOrd::lt` for `ieee::Double`:
/// IEEE-754 `<` (false on any `NaN` operand).
#[verifier::external_body]
pub(crate) fn num_lt(a: u64, b: u64) -> (r: bool)
    ensures
        r == dbl_lt(a, b),
{
    let x = Double::from_bits(a as u128);
    let y = Double::from_bits(b as u128);
    x < y
}

/// Relies on `rustc_apfloat`'s `PartialOrd::le` for `ieee::Double`:
/// IEEE-754 `<=` (false on any `NaN` operand).
#[verifier::external_body]
pub(crate) fn num_le(a: u64, b: u64) -> (r: bool)
    ensures
        r == dbl_le(a, b),
{
    let x = Double::from_bits(a as u128);
    let y = Double::from_bits(b as u128);
    x <= y
}

/// Relies on `rustc_apfloat`'s `PartialOrd::gt` for `ieee::Double`:
/// IEEE-754 `>` (false on any `NaN` operand).
#[verifier::external_body]
pub(crate) fn num_gt(a: u64, b: u64) -> (r: bool)
    ensures
        r == dbl_gt(a, b),
{
    let x = Double::from_bits(a as u128);
    let y = Double::from_bits(b as u128);
    x > y
}

/// Relies on `rustc_apfloat`'s `PartialOrd::ge` for `ieee::Double`:
/// IEEE-754 `>=` (false on any `NaN` operand).
#[verifier::external_body]
pub(crate) fn num_ge(a: u64, b: u64) -> (r: bool)
    ensures
        r == dbl_ge(a, b),
{
    let x = Double::from_bits(a as u128);
    let y = Double::from_bits(b as u128);
    x >= y
}

/// Relies on `rustc_apfloat`'s `Display` for `ieee::Double`: prints the
/// value as decimal text; the text depends on the bits alone.
#[verifier::external_body]
pub(crate) fn num_to_text(a: u64) -> (r: Vec<u8>)
    ensures
        r@ == dbl_text(a),
{
    let x = Double::from_bits(a as u128);
    format!("{}", x).into_bytes()
}

} // verus!
