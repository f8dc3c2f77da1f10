//! Integer arithmetic of the instruction set: floored division and the
//! modulo that takes the sign of its divisor.

use crate::bigint::{
    big_add, big_div_rem, big_from_i32, big_sub, int_of, is_negative, is_zero, magnitude,
};
use rug::Integer;
use vstd::arithmetic::div_mod::lemma_fundamental_div_mod;
use vstd::arithmetic::div_mod::lemma_fundamental_div_mod_converse;
use vstd::prelude::*;

verus! {

/// The quotient of `left` by `right` rounded towards negative infinity.
pub open spec fn floor_div(left: int, right: int) -> int
    recommends
        right != 0,
{
    if right > 0 {
        left / right
    } else {
        (-left) / (-right)
    }
}

/// The remainder of `left` by `right` that is zero or has the sign of `right`.
pub open spec fn floor_mod(left: int, right: int) -> int
    recommends
        right != 0,
{
    if right > 0 {
        left % right
    } else {
        -((-left) % (-right))
    }
}

/// Floored quotient and sign-of-divisor remainder rebuild the dividend; the
/// remainder is smaller in magnitude than the divisor and is zero or has the
/// divisor's sign.
pub proof fn lemma_floor_div_mod(left: int, right: int)
    requires
        right != 0,
    ensures
        left == floor_div(left, right) * right + floor_mod(left, right),
        magnitude(floor_mod(left, right)) < magnitude(right),
        right > 0 ==> floor_mod(left, right) >= 0,
        right < 0 ==> floor_mod(left, right) <= 0,
{
    if right > 0 {
        lemma_fundamental_div_mod(left, right);
        assert(right * (left / right) == (left / right) * right) by (nonlinear_arith);
    } else {
        lemma_fundamental_div_mod(-left, -right);
        assert((-right) * ((-left) / (-right)) == -(((-left) / (-right)) * right))
            by (nonlinear_arith);
    }
}

/// A quotient and remainder with the two properties above are the floored
/// quotient and the sign-of-divisor remainder: the pair is unique.
pub proof fn lemma_floor_div_mod_unique(left: int, right: int, q: int, m: int)
    requires
        right != 0,
        left == q * right + m,
        magnitude(m) < magnitude(right),
        right > 0 ==> m >= 0,
        right < 0 ==> m <= 0,
    ensures
        q == floor_div(left, right),
        m == floor_mod(left, right),
{
    if right > 0 {
        lemma_fundamental_div_mod_converse(left, right, q, m);
    } else {
        assert(-left == q * (-right) + (-m)) by (nonlinear_arith)
            requires
                left == q * right + m,
        ;
        lemma_fundamental_div_mod_converse(-left, -right, q, -m);
    }
}

/// Divides `left` by `right`, rounding the quotient towards negative infinity,
/// and returns it with the remainder that has the sign of `right`.
pub fn floor_div_rem(left: &Integer, right: &Integer) -> (qm: (Integer, Integer))
    requires
        int_of(*right) != 0,
    ensures
        int_of(qm.0) == floor_div(int_of(*left), int_of(*right)),
        int_of(qm.1) == floor_mod(int_of(*left), int_of(*right)),
{
    let (quot, rem) = big_div_rem(left, right);
    if !is_zero(&rem) && is_negative(left) != is_negative(right) {
        let one = big_from_i32(1);
        let q = big_sub(&quot, &one);
        let m = big_add(&rem, right);
        proof {
            let (l, r) = (int_of(*left), int_of(*right));
            assert(l == int_of(q) * r + int_of(m)) by (nonlinear_arith)
                requires
                    l == int_of(quot) * r + int_of(rem),
                    int_of(q) == int_of(quot) - 1,
                    int_of(m) == int_of(rem) + r,
            ;
            lemma_floor_div_mod_unique(l, r, int_of(q), int_of(m));
        }
        (q, m)
    } else {
        proof {
            lemma_floor_div_mod_unique(
                int_of(*left),
                int_of(*right),
                int_of(quot),
                int_of(rem),
            );
        }
        (quot, rem)
    }
}

/// Divides `left` by `right` as [`floor_div_rem`] does, unless `right` is
/// zero: then there is no result.
pub fn checked_floor_div_rem(left: &Integer, right: &Integer) -> (res: Option<(Integer, Integer)>)
    ensures
        res is None <==> int_of(*right) == 0,
        res matches Some(qm) ==> int_of(qm.0) == floor_div(int_of(*left), int_of(*right))
            && int_of(qm.1) == floor_mod(int_of(*left), int_of(*right)),
{
    if is_zero(right) {
        None
    } else {
        Some(floor_div_rem(left, right))
    }
}

} // verus!
