//! Single- and double-precision IEEE-754 arithmetic on bit patterns.
//!
//! Floating-point numbers are carried through the library as their bit patterns
//! (`u32` for single precision, `u64` for double precision). The arithmetic itself is
//! done by the software floating-point implementation of `rustc_apfloat`, with the
//! default rounding mode (round to nearest, ties to even) that the hardware operations
//! also use. Those operations are trusted: each stands for the IEEE-754 operation that
//! `rustc_apfloat` computes, named by an uninterpreted function of its arguments.
//! Comparison and negation, which act on the bits directly, are computed and proved here.
use rustc_apfloat::ieee::{Double, Single};
use rustc_apfloat::{Float, FloatConvert};

use vstd::prelude::*;

verus! {

/// The outcome of comparing two floats: ordered, or unordered when one is NaN.
#[derive(Debug, Clone, Copy, PartialEq, Eq, Structural)]
pub enum FloatOrder {
    Less,
    Equal,
    Greater,
    Unordered,
}

/// The bit pattern of negative zero in single precision (the sign bit alone).
pub const SIGN_BIT: u32 = 0x8000_0000u32;

/// The single-precision number nearest to a decimal numeral, if the text parses.
pub uninterp spec fn f32_parse(text: Seq<char>) -> Option<u32>;

/// The single-precision number nearest to a 32-bit integer.
pub uninterp spec fn f32_from_i32(v: i32) -> u32;

/// The IEEE-754 single-precision sum.
pub uninterp spec fn f32_add(a: u32, b: u32) -> u32;

/// The IEEE-754 single-precision difference.
pub uninterp spec fn f32_sub(a: u32, b: u32) -> u32;

/// The IEEE-754 single-precision product.
pub uninterp spec fn f32_mul(a: u32, b: u32) -> u32;

/// The IEEE-754 single-precision quotient.
pub uninterp spec fn f32_div(a: u32, b: u32) -> u32;

/// Whether a bit pattern is a NaN: all exponent bits set and a nonzero fraction.
pub open spec fn is_nan_bits(a: u32) -> bool {
    (a & 0x7F80_0000u32) == 0x7F80_0000u32 && (a & 0x007F_FFFFu32) != 0
}

/// Where a non-NaN bit pattern lies on the number line: its magnitude bits, negated
/// when the sign bit is set (both zeros sit at 0).
pub open spec fn order_key(a: u32) -> int {
    let m = (a & 0x7FFF_FFFFu32) as int;
    if (a & SIGN_BIT) != 0 {
        -m
    } else {
        m
    }
}

/// The IEEE-754 comparison of two single-precision numbers: unordered when either is
/// NaN, otherwise by their place on the number line.
pub open spec fn f32_order(a: u32, b: u32) -> FloatOrder {
    if is_nan_bits(a) || is_nan_bits(b) {
        FloatOrder::Unordered
    } else if order_key(a) < order_key(b) {
        FloatOrder::Less
    } else if order_key(a) == order_key(b) {
        FloatOrder::Equal
    } else {
        FloatOrder::Greater
    }
}

/// A decimal numeral: digits, optionally followed by a dot and more digits.
pub open spec fn decimal_numeral(s: Seq<char>) -> bool {
    &&& s.len() > 0
    &&& '0' <= s[0] <= '9'
    &&& '0' <= s[s.len() - 1] <= '9'
    &&& forall|i: int| 0 <= i < s.len() ==> ('0' <= #[trigger] s[i] <= '9' || s[i] == '.')
    &&& forall|i: int, j: int| 0 <= i < j < s.len() && s[i] == '.' ==> s[j] != '.'
}

/// The double-precision number nearest to a 64-bit unsigned integer.
pub uninterp spec fn f64_from_u64(v: u64) -> u64;

/// The IEEE-754 double-precision sum.
pub uninterp spec fn f64_add(a: u64, b: u64) -> u64;

/// The IEEE-754 double-precision quotient.
pub uninterp spec fn f64_div(a: u64, b: u64) -> u64;

/// The single-precision number nearest to a double-precision number.
pub uninterp spec fn f64_to_f32(a: u64) -> u32;

/// Parses a decimal numeral into single precision with `<Single as FromStr>::from_str`
/// (round to nearest, ties to even). Claims that the result is the named function of
/// the text, and that a decimal numeral (digits with at most one dot between digits)
/// always parses, as `from_decimal_string` accepts every such text.
#[verifier::external_body]
pub(crate) fn parse_f32(text: &str) -> (r: Option<u32>)
    ensures
        r == f32_parse(text@),
        decimal_numeral(text@) ==> r is Some,
{
    match text.parse::<Single>() {
        Ok(x) => Some(x.to_bits() as u32),
        Err(_) => None,
    }
}

/// Converts an integer with `Single::from_i128` (round to nearest, ties to even), the
/// rounding of Rust's `as f32`. Claims only that the result is the named function of
/// the integer.
#[verifier::external_body]
pub(crate) fn from_i32(v: i32) -> (r: u32)
    ensures
        r == f32_from_i32(v),
{
    Single::from_i128(v as i128).value.to_bits() as u32
}

/// Adds with `<Single as Add>::add`. Claims only that the result is the named function
/// of the operands.
#[verifier::external_body]
pub(crate) fn single_add(a: u32, b: u32) -> (r: u32)
    ensures
        r == f32_add(a, b),
{
    (Single::from_bits(a as u128) + Single::from_bits(b as u128)).value.to_bits() as u32
}

/// Subtracts with `<Single as Sub>::sub`. Claims only that the result is the named
/// function of the operands.
#[verifier::external_body]
pub(crate) fn single_sub(a: u32, b: u32) -> (r: u32)
    ensures
        r == f32_sub(a, b),
{
    (Single::from_bits(a as u128) - Single::from_bits(b as u128)).value.to_bits() as u32
}

/// Multiplies with `<Single as Mul>::mul`. Claims only that the result is the named
/// function of the operands.
#[verifier::external_body]
pub(crate) fn single_mul(a: u32, b: u32) -> (r: u32)
    ensures
        r == f32_mul(a, b),
{
    (Single::from_bits(a as u128) * Single::from_bits(b as u128)).value.to_bits() as u32
}

/// Divides with `<Single as Div>::div`. Claims only that the result is the named
/// function of the operands.
#[verifier::external_body]
pub(crate) fn single_div(a: u32, b: u32) -> (r: u32)
    ensures
        r == f32_div(a, b),
{
    (Single::from_bits(a as u128) / Single::from_bits(b as u128)).value.to_bits() as u32
}

/// Compares two single-precision numbers as IEEE-754 does.
pub fn order(a: u32, b: u32) -> (r: FloatOrder)
    ensures
        r == f32_order(a, b),
{
    let nan_a = (a & 0x7F80_0000u32) == 0x7F80_0000u32 && (a & 0x007F_FFFFu32) != 0;
    let nan_b = (b & 0x7F80_0000u32) == 0x7F80_0000u32 && (b & 0x007F_FFFFu32) != 0;
    if nan_a || nan_b {
        return FloatOrder::Unordered;
    }
    let ma = (a & 0x7FFF_FFFFu32) as i64;
    let mb = (b & 0x7FFF_FFFFu32) as i64;
    let ka: i64 = if (a & SIGN_BIT) != 0 {
        -ma
    } else {
        ma
    };
    let kb: i64 = if (b & SIGN_BIT) != 0 {
        -mb
    } else {
        mb
    };
    if ka < kb {
        FloatOrder::Less
    } else if ka == kb {
        FloatOrder::Equal
    } else {
        FloatOrder::Greater
    }
}

/// Converts an integer with `Double::from_u128` (round to nearest, ties to even), the
/// rounding of Rust's `as f64`. Claims only that the result is the named function of
/// the integer.
#[verifier::external_body]
pub(crate) fn double_from_u64(v: u64) -> (r: u64)
    ensures
        r == f64_from_u64(v),
{
    Double::from_u128(v as u128).value.to_bits() as u64
}

/// Adds with `<Double as Add>::add`. Claims only that the result is the named function
/// of the operands.
#[verifier::external_body]
pub(crate) fn double_add(a: u64, b: u64) -> (r: u64)
    ensures
        r == f64_add(a, b),
{
    (Double::from_bits(a as u128) + Double::from_bits(b as u128)).value.to_bits() as u64
}

/// Divides with `<Double as Div>::div`. Claims only that the result is the named
/// function of the operands.
#[verifier::external_body]
pub(crate) fn double_div(a: u64, b: u64) -> (r: u64)
    ensures
        r == f64_div(a, b),
{
    (Double::from_bits(a as u128) / Double::from_bits(b as u128)).value.to_bits() as u64
}

/// Narrows with `<Double as FloatConvert<Single>>::convert` (round to nearest, ties to
/// even), the rounding of Rust's `as f32`. Claims only that the result is the named
/// function of the operand.
#[verifier::external_body]
pub(crate) fn double_to_single(a: u64) -> (r: u32)
    ensures
        r == f64_to_f32(a),
{
    let mut loses_info = false;
    let x: Single = Double::from_bits(a as u128).convert(&mut loses_info).value;
    x.to_bits() as u32
}

/// Negation flips the sign bit, for every bit pattern (NaNs included).
pub fn neg(a: u32) -> (r: u32)
    ensures
        r == a ^ SIGN_BIT,
{
    a ^ SIGN_BIT
}

} // verus!
