//! Alignment arithmetic.
//!
//! This module provides the rounding helpers used by layout packing, together with the
//! facts about them that the packing proofs rely on.

use vstd::arithmetic::div_mod::lemma_basic_div_specific_divisor;
use vstd::arithmetic::div_mod::lemma_div_nonincreasing;
use vstd::arithmetic::div_mod::lemma_div_plus_one;
use vstd::arithmetic::div_mod::lemma_fundamental_div_mod;
use vstd::arithmetic::div_mod::lemma_fundamental_div_mod_converse_mod;
use vstd::arithmetic::div_mod::lemma_mod_self_0;
use vstd::arithmetic::div_mod::lemma_small_mod;
use vstd::prelude::*;

verus! {

/// `v` rounded up to the next multiple of `a`.
pub open spec fn spec_align_up(v: int, a: int) -> int
    recommends
        v >= 0,
        a >= 1,
{
    if v % a == 0 {
        v
    } else {
        v + a - v % a
    }
}

/// Basic facts: rounding up never shrinks, lands on a multiple, and moves less than `a`.
pub proof fn lemma_align_up(v: int, a: int)
    requires
        v >= 0,
        a >= 1,
    ensures
        spec_align_up(v, a) >= v,
        spec_align_up(v, a) % a == 0,
        spec_align_up(v, a) < v + a,
{
    lemma_fundamental_div_mod(v, a);
    if v % a == 0 {
    } else {
        let r = spec_align_up(v, a);
        assert(r == a * (v / a) + a) by {
            lemma_fundamental_div_mod(v, a);
        }
        assert(r == a * (v / a + 1)) by (nonlinear_arith)
            requires
                r == a * (v / a) + a,
        ;
        lemma_fundamental_div_mod_converse_mod(r, a, v / a + 1, 0);
    }
}

/// Rounding up to `a` gives the least multiple of `a` that is at least `v`.
pub proof fn lemma_align_up_least(v: int, a: int, m: int)
    requires
        v >= 0,
        a >= 1,
        m % a == 0,
        m >= v,
    ensures
        m >= spec_align_up(v, a),
{
    lemma_align_up(v, a);
    let r = spec_align_up(v, a);
    if m < r {
        // two multiples of `a` cannot differ by less than `a`
        assert(false) by (nonlinear_arith)
            requires
                m % a == 0,
                r % a == 0,
                v <= m < r,
                r < v + a,
                a >= 1,
                v >= 0,
        ;
    }
}

/// A multiple of a multiple of `a` is a multiple of `a`.
pub proof fn lemma_multiple_transitive(m: int, b: int, a: int)
    requires
        a >= 1,
        b >= 1,
        m >= 0,
        m % b == 0,
        b % a == 0,
    ensures
        m % a == 0,
{
    lemma_fundamental_div_mod(m, b);
    lemma_fundamental_div_mod(b, a);
    assert(m == a * ((b / a) * (m / b))) by (nonlinear_arith)
        requires
            m == b * (m / b),
            b == a * (b / a),
    ;
    lemma_fundamental_div_mod_converse_mod(m, a, (b / a) * (m / b), 0);
}

/// Rounding up is monotone in the value and, along divisibility, in the alignment.
pub proof fn lemma_align_up_mono(v1: int, v2: int, a1: int, a2: int)
    requires
        0 <= v1 <= v2,
        a1 >= 1,
        a2 >= 1,
        a2 % a1 == 0,
    ensures
        spec_align_up(v1, a1) <= spec_align_up(v2, a2),
{
    lemma_align_up(v1, a1);
    lemma_align_up(v2, a2);
    lemma_multiple_transitive(spec_align_up(v2, a2), a2, a1);
    lemma_align_up_least(v1, a1, spec_align_up(v2, a2));
}

/// A positive multiple of `a` is at least `a`.
pub proof fn lemma_positive_multiple(m: int, a: int)
    requires
        a >= 1,
        m >= 1,
        m % a == 0,
    ensures
        m >= a,
{
    if m < a {
        lemma_small_mod(m as nat, a as nat);
        assert(m % a == m);
    }
}

/// The quotient of `x` by `d`, rounded up.
pub open spec fn ceil_div(x: int, d: int) -> int
    recommends
        x >= 0,
        d >= 1,
{
    (x + d - 1) / d
}

/// Ceiling division of 32-bit quantities, exact in 64 bits.
pub fn ceil_div_u32(x: u32, d: u32) -> (r: u64)
    requires
        d >= 1,
    ensures
        r == ceil_div(x as int, d as int),
        r <= x,
{
    if x == 0 {
        proof {
            lemma_basic_div_specific_divisor(d as int);
        }
        0
    } else {
        let r = ((x as u64) - 1) / (d as u64) + 1;
        proof {
            lemma_div_plus_one((x - 1) as int, d as int);
            lemma_div_nonincreasing((x - 1) as int, d as int);
        }
        r
    }
}

/// `v` rounded up to the next multiple of `a`, or `None` when that exceeds `u64::MAX`.
pub fn checked_align_up(v: u64, a: u64) -> (r: Option<u64>)
    requires
        a >= 1,
    ensures
        r matches Some(x) ==> x == spec_align_up(v as int, a as int),
        r is Some <==> spec_align_up(v as int, a as int) <= u64::MAX,
{
    let rem: u64 = v % a;
    if rem == 0 {
        Some(v)
    } else {
        v.checked_add(a - rem)
    }
}

} // verus!
