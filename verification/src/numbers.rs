use vstd::prelude::*;

verus! {

/// The bit pattern (if any) of the IEEE-754 binary64 value that the given
/// byte text denotes as a floating-point literal.
pub uninterp spec fn parse_num(s: Seq<u8>) -> Option<u64>;

/// The bit pattern of the IEEE-754 binary64 sum of the two values whose bit
/// patterns are given (round to nearest, ties to even).
pub uninterp spec fn add_num(a: u64, b: u64) -> u64;

/// The bit pattern of the IEEE-754 binary64 difference of the two values
/// whose bit patterns are given.
pub uninterp spec fn sub_num(a: u64, b: u64) -> u64;

/// The bit pattern of the IEEE-754 binary64 product of the two values whose
/// bit patterns are given.
pub uninterp spec fn mul_num(a: u64, b: u64) -> u64;

/// The bit pattern of the IEEE-754 binary64 quotient of the two values whose
/// bit patterns are given.
pub uninterp spec fn div_num(a: u64, b: u64) -> u64;

/// Whether a bit pattern encodes an IEEE-754 binary64 zero. The format has
/// exactly two zero encodings, positive and negative zero, and a comparison
/// of a double against the literal zero holds exactly for those two.
pub open spec fn is_zero_bits(b: u64) -> bool {
    b == 0u64 || b == 0x8000_0000_0000_0000u64
}

pub fn num_is_zero(b: u64) -> (r: bool)
    ensures
        r == is_zero_bits(b),
{
    b == 0u64 || b == 0x8000_0000_0000_0000u64
}

/// Longest byte text the literal parser is asked to read. rustc_apfloat's
/// hexadecimal-literal path folds a byte distance within the token into an
/// `i32` exponent, so texts of two gibibytes or more are kept away from it.
pub const MAX_LITERAL_LEN: usize = 0x7fff_ffff;

/// The bit pattern (if any) that the byte text denotes as a floating-point
/// literal, once over-long texts are ruled out. The accepted grammar is
/// rustc_apfloat's: decimal and hexadecimal literals with optional sign and
/// exponent, and the `inf`/`INFINITY`/`nan` spellings its source lists.
pub open spec fn spec_parse_literal(s: Seq<u8>) -> Option<u64> {
    if s.len() <= MAX_LITERAL_LEN {
        parse_num(s)
    } else {
        None
    }
}

/// Reads a floating-point literal; a text too long for the parser (or one
/// that is no literal) denotes no value.
pub fn parse_literal(s: &[u8]) -> (r: Option<u64>)
    ensures
        r == spec_parse_literal(s@),
{
    if s.len() <= MAX_LITERAL_LEN {
        parse_number(s)
    } else {
        None
    }
}

/// Relies on rustc_apfloat's `Double` parsing (`Float::from_str_r` with
/// round-to-nearest): the accepted literals and the value returned depend on
/// the byte text alone. Bytes that are not UTF-8 denote no literal. The
/// length bound keeps out inputs on which the parser's hexadecimal path
/// would overflow its `i32` exponent arithmetic and panic.
#[verifier::external_body]
fn parse_number(s: &[u8]) -> (r: Option<u64>)
    requires
        s@.len() <= MAX_LITERAL_LEN,
    ensures
        r == parse_num(s@),
{
    match core::str::from_utf8(s) {
        Ok(t) => match <rustc_apfloat::ieee::Double as core::str::FromStr>::from_str(t) {
            Ok(d) => Some(rustc_apfloat::Float::to_bits(d) as u64),
            Err(_) => None,
        },
        Err(_) => None,
    }
}

/// Relies on rustc_apfloat's `Double::add_r` (IEEE-754 binary64 addition,
/// round to nearest, ties to even): the result depends on the operand bits
/// alone.
#[verifier::external_body]
pub(crate) fn add_numbers(a: u64, b: u64) -> (r: u64)
    ensures
        r == add_num(a, b),
{
    let x = <rustc_apfloat::ieee::Double as rustc_apfloat::Float>::from_bits(a as u128);
    let y = <rustc_apfloat::ieee::Double as rustc_apfloat::Float>::from_bits(b as u128);
    rustc_apfloat::Float::to_bits((x + y).value) as u64
}

/// Relies on rustc_apfloat's `Double::sub_r` (IEEE-754 binary64 subtraction,
/// round to nearest, ties to even): the result depends on the operand bits
/// alone.
#[verifier::external_body]
pub(crate) fn sub_numbers(a: u64, b: u64) -> (r: u64)
    ensures
        r == sub_num(a, b),
{
    let x = <rustc_apfloat::ieee::Double as rustc_apfloat::Float>::from_bits(a as u128);
    let y = <rustc_apfloat::ieee::Double as rustc_apfloat::Float>::from_bits(b as u128);
    rustc_apfloat::Float::to_bits((x - y).value) as u64
}

/// Relies on rustc_apfloat's `Double::mul_r` (IEEE-754 binary64
/// multiplication, round to nearest, ties to even): the result depends on
/// the operand bits alone.
#[verifier::external_body]
pub(crate) fn mul_numbers(a: u64, b: u64) -> (r: u64)
    ensures
        r == mul_num(a, b),
{
    let x = <rustc_apfloat::ieee::Double as rustc_apfloat::Float>::from_bits(a as u128);
    let y = <rustc_apfloat::ieee::Double as rustc_apfloat::Float>::from_bits(b as u128);
    rustc_apfloat::Float::to_bits((x * y).value) as u64
}

/// Relies on rustc_apfloat's `Double::div_r` (IEEE-754 binary64 division,
/// round to nearest, ties to even): the result depends on the operand bits
/// alone.
#[verifier::external_body]
pub(crate) fn div_numbers(a: u64, b: u64) -> (r: u64)
    ensures
        r == div_num(a, b),
{
    let x = <rustc_apfloat::ieee::Double as rustc_apfloat::Float>::from_bits(a as u128);
    let y = <rustc_apfloat::ieee::Double as rustc_apfloat::Float>::from_bits(b as u128);
    rustc_apfloat::Float::to_bits((x / y).value) as u64
}

} // verus!
