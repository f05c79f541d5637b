//! Fixed-point scale, size limits, and the integer arithmetic facts used by the
//! projection code.

use vstd::prelude::*;
use vstd::arithmetic::div_mod::lemma_fundamental_div_mod_converse;

verus! {

/// Number of sub-cell units in one grid cell (and the length of a unit
/// direction vector).
pub const ONE: i64 = 65536;

/// Largest grid side, in cells (2^20). Sub-cell coordinates then stay below
/// 2^36, and the cross-multiplied travels the ray march compares below 2^56,
/// well inside `i64`.
pub const MAX_GRID: usize = 1048576;

/// Largest magnitude of a direction or camera-plane component.
pub const MAX_DIR: i64 = 131072;

/// Absolute value over the integers.
pub open spec fn abs(v: int) -> int {
    if v < 0 { -v } else { v }
}

/// Rust's truncating division (rounds toward zero), for a positive divisor.
pub open spec fn trunc_div(a: int, b: int) -> int {
    if a >= 0 { a / b } else { -((-a) / b) }
}

/// Shifting the dividend by a whole multiple shifts the floor quotient.
pub proof fn lemma_floor_shift(k: int, a: int, b: int)
    requires
        b > 0,
    ensures
        (k * b + a) / b == k + a / b,
{
    let q = a / b;
    let r = a % b;
    vstd::arithmetic::div_mod::lemma_fundamental_div_mod(a, b);
    assert(k * b + a == (k + q) * b + r) by (nonlinear_arith)
        requires a == b * q + r;
    vstd::arithmetic::div_mod::lemma_mod_bound(a, b);
    lemma_fundamental_div_mod_converse(k * b + a, b, k + q, r);
}

/// The floor of a negated quotient is the negated ceiling.
pub proof fn lemma_floor_of_negation(m: int, b: int)
    requires
        m >= 0,
        b > 0,
    ensures
        (-m) / b == -((m + b - 1) / b),
{
    let q = m / b;
    let r = m % b;
    vstd::arithmetic::div_mod::lemma_fundamental_div_mod(m, b);
    vstd::arithmetic::div_mod::lemma_mod_bound(m, b);
    if r == 0 {
        assert(-m == (-q) * b + 0) by (nonlinear_arith)
            requires m == b * q + r, r == 0;
        assert(m + b - 1 == q * b + (b - 1)) by (nonlinear_arith)
            requires m == b * q + r, r == 0;
        lemma_fundamental_div_mod_converse(-m, b, -q, 0);
        lemma_fundamental_div_mod_converse(m + b - 1, b, q, b - 1);
    } else {
        assert(-m == (-q - 1) * b + (b - r)) by (nonlinear_arith)
            requires m == b * q + r;
        assert(m + b - 1 == (q + 1) * b + (r - 1)) by (nonlinear_arith)
            requires m == b * q + r;
        lemma_fundamental_div_mod_converse(-m, b, -q - 1, b - r);
        lemma_fundamental_div_mod_converse(m + b - 1, b, q + 1, r - 1);
    }
}

/// The Euclidean remainder of a negated value.
pub proof fn lemma_mod_of_negation(m: int, b: int)
    requires
        m >= 0,
        b > 0,
    ensures
        (-m) % b == (if m % b == 0 { 0 } else { b - m % b }),
{
    let q = m / b;
    let r = m % b;
    vstd::arithmetic::div_mod::lemma_fundamental_div_mod(m, b);
    vstd::arithmetic::div_mod::lemma_mod_bound(m, b);
    if r == 0 {
        assert(-m == (-q) * b + 0) by (nonlinear_arith)
            requires m == b * q + r, r == 0;
        lemma_fundamental_div_mod_converse(-m, b, -q, 0);
    } else {
        assert(-m == (-q - 1) * b + (b - r)) by (nonlinear_arith)
            requires m == b * q + r;
        lemma_fundamental_div_mod_converse(-m, b, -q - 1, b - r);
    }
}

/// Division rounding toward zero, as Rust's `/` does, for a positive divisor.
pub fn div_toward_zero(a: i128, b: i128) -> (r: i128)
    requires
        b > 0,
        a > i128::MIN,
    ensures
        r == trunc_div(a as int, b as int),
{
    if a >= 0 {
        a / b
    } else {
        proof { vstd::arithmetic::div_mod::lemma_div_nonincreasing(-a as int, b as int); }
        -((-a) / b)
    }
}

} // verus!
