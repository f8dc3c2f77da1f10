//! Arbitrary-precision integers.
//!
//! Memory edges hold `rug::Integer` values.  Verus cannot look inside one, so
//! its mathematical value is named by [`int_of`], and every operation the
//! interpreter needs goes through one of the small functions below.  Their
//! contracts restate the documentation of `rug` and are not proved here.

use rug::Integer;
use std::cmp::Ordering;
use vstd::prelude::*;

verus! {

/// `rug::Integer`, made known to the verifier as a type whose values it
/// cannot look into.
#[verifier::external_type_specification]
#[verifier::external_body]
pub struct ExInteger(rug::Integer);

/// The mathematical value of an arbitrary-precision integer.  Nothing is
/// known of it but what the functions below say of their results.
pub uninterp spec fn int_of(x: Integer) -> int;

/// Absolute value of a mathematical integer.
pub open spec fn magnitude(v: int) -> int {
    if v < 0 {
        -v
    } else {
        v
    }
}

/// The decimal digits of `n` as ASCII bytes, most significant first, without
/// leading zeros.
pub open spec fn decimal_digits(n: nat) -> Seq<u8>
    decreases n,
{
    if n < 10 {
        seq![(48 + n) as u8]
    } else {
        decimal_digits(n / 10).push((48 + n % 10) as u8)
    }
}

/// The signed decimal representation of `v` as ASCII bytes: a minus sign for
/// negative values, then the digits of the magnitude.
pub open spec fn decimal(v: int) -> Seq<u8> {
    if v < 0 {
        seq![45u8] + decimal_digits((-v) as nat)
    } else {
        decimal_digits(v as nat)
    }
}

/// `Integer::new`: a fresh integer whose value is zero.
#[verifier::external_body]
pub(crate) fn big_zero() -> (r: Integer)
    ensures
        int_of(r) == 0,
{
    Integer::new()
}

/// `Integer::from(i32)`: the integer with the same value as `v`.
#[verifier::external_body]
pub(crate) fn big_from_i32(v: i32) -> (r: Integer)
    ensures
        int_of(r) == v,
{
    Integer::from(v)
}

/// `Integer::clone`: a copy with the same value.
#[verifier::external_body]
pub(crate) fn big_clone(a: &Integer) -> (r: Integer)
    ensures
        int_of(r) == int_of(*a),
{
    a.clone()
}

/// `&Integer + &Integer`: the exact sum, with no overflow.
#[verifier::external_body]
pub(crate) fn big_add(a: &Integer, b: &Integer) -> (r: Integer)
    ensures
        int_of(r) == int_of(*a) + int_of(*b),
{
    Integer::from(a + b)
}

/// `&Integer - &Integer`: the exact difference, with no overflow.
#[verifier::external_body]
pub(crate) fn big_sub(a: &Integer, b: &Integer) -> (r: Integer)
    ensures
        int_of(r) == int_of(*a) - int_of(*b),
{
    Integer::from(a - b)
}

/// `&Integer * &Integer`: the exact product, with no overflow.
#[verifier::external_body]
pub(crate) fn big_mul(a: &Integer, b: &Integer) -> (r: Integer)
    ensures
        int_of(r) == int_of(*a) * int_of(*b),
{
    Integer::from(a * b)
}

/// `Integer::div_rem_ref`: quotient and remainder of the division of `a` by
/// `b`, rounded towards zero.  The remainder is smaller in magnitude than the
/// divisor and has the sign of the dividend.  `rug` panics on a zero divisor,
/// which the precondition rules out.
#[verifier::external_body]
pub(crate) fn big_div_rem(a: &Integer, b: &Integer) -> (qr: (Integer, Integer))
    requires
        int_of(*b) != 0,
    ensures
        int_of(*a) == int_of(qr.0) * int_of(*b) + int_of(qr.1),
        magnitude(int_of(qr.1)) < magnitude(int_of(*b)),
        int_of(*a) >= 0 ==> int_of(qr.1) >= 0,
        int_of(*a) <= 0 ==> int_of(qr.1) <= 0,
{
    a.div_rem_ref(b).into()
}

/// `Integer::mod_u`: the remainder of Euclidean division by `modulo`, which is
/// never negative.  `rug` panics on a zero modulus, which the precondition
/// rules out.
#[verifier::external_body]
pub(crate) fn big_mod_u(a: &Integer, modulo: u32) -> (r: u32)
    requires
        modulo != 0,
    ensures
        r == int_of(*a) % (modulo as int),
{
    a.mod_u(modulo)
}

/// `Integer::cmp0`: how the value compares with zero.
#[verifier::external_body]
pub(crate) fn big_order_to_zero(a: &Integer) -> (o: Ordering)
    ensures
        o == Ordering::Less <==> int_of(*a) < 0,
        o == Ordering::Equal <==> int_of(*a) == 0,
        o == Ordering::Greater <==> int_of(*a) > 0,
{
    a.cmp0()
}

/// `Integer::to_string_radix(10)`: the decimal representation, as the bytes of
/// the ASCII string that `rug` produces.
#[verifier::external_body]
pub(crate) fn big_to_decimal(a: &Integer) -> (s: Vec<u8>)
    ensures
        s@ == decimal(int_of(*a)),
{
    a.to_string_radix(10).into_bytes()
}

/// Whether the value of `a` is greater than zero.
pub fn is_positive(a: &Integer) -> (b: bool)
    ensures
        b == (int_of(*a) > 0),
{
    match big_order_to_zero(a) {
        Ordering::Greater => true,
        _ => false,
    }
}

/// Whether the value of `a` is less than zero.
pub fn is_negative(a: &Integer) -> (b: bool)
    ensures
        b == (int_of(*a) < 0),
{
    match big_order_to_zero(a) {
        Ordering::Less => true,
        _ => false,
    }
}

/// Whether the value of `a` is zero.
pub fn is_zero(a: &Integer) -> (b: bool)
    ensures
        b == (int_of(*a) == 0),
{
    match big_order_to_zero(a) {
        Ordering::Equal => true,
        _ => false,
    }
}

} // verus!
