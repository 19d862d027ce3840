//! Saturating fixed-point scalars.
//!
//! A scalar is an `i64` counting billionths: the value `v` stands for
//! `v / SCALE`. Every operation rounds toward zero and saturates at
//! `±LIMIT`, so each one is total and odd-symmetric (`op(-a) == -op(a)`).

use vstd::prelude::*;

verus! {

/// Units in one.
pub const SCALE: i64 = 1_000_000_000;

/// Largest magnitude of a result; results beyond it saturate.
pub const LIMIT: i64 = 0x7fff_ffff_ffff_ffff;

/// `v` held to `[-LIMIT, LIMIT]`.
pub open spec fn clamp(v: int) -> int {
    if v > LIMIT {
        LIMIT as int
    } else if v < -LIMIT {
        -LIMIT
    } else {
        v
    }
}

/// Absolute value of an integer.
pub open spec fn magnitude(n: int) -> int {
    if n >= 0 {
        n
    } else {
        -n
    }
}

/// `n / d` rounded toward zero.
pub open spec fn quot(n: int, d: int) -> int {
    let q = magnitude(n) / magnitude(d);
    if (n >= 0) == (d > 0) {
        q
    } else {
        -q
    }
}

/// Sum of two scalars.
pub open spec fn fadd(a: int, b: int) -> int {
    clamp(a + b)
}

/// Difference of two scalars.
pub open spec fn fsub(a: int, b: int) -> int {
    clamp(a - b)
}

/// Negation of a scalar.
pub open spec fn fneg(a: int) -> int {
    clamp(-a)
}

/// Product of two scalars.
pub open spec fn fmul(a: int, b: int) -> int {
    clamp(quot(a * b, SCALE as int))
}

/// Quotient of two scalars; meaningful for `b != 0`.
pub open spec fn fdiv(a: int, b: int) -> int {
    clamp(quot(a * SCALE, b))
}

/// Whether `r` is the integer square root of `n`, rounded down.
pub open spec fn is_root(n: int, r: int) -> bool {
    0 <= r && r * r <= n < (r + 1) * (r + 1)
}

/// The integer square root of `n`, rounded down.
pub open spec fn root(n: int) -> int {
    choose|r: int| #[trigger] is_root(n, r)
}

/// Square root of a scalar; zero for values that are not positive.
pub open spec fn fsqrt(a: int) -> int {
    if a <= 0 {
        0
    } else {
        root(a * SCALE)
    }
}

/// The smaller of two scalars.
pub open spec fn fmin(a: int, b: int) -> int {
    if a <= b {
        a
    } else {
        b
    }
}

/// A root found by any means is the root.
pub proof fn lemma_root_unique(n: int, r: int)
    requires
        is_root(n, r),
    ensures
        root(n) == r,
{
    let s = root(n);
    assert(is_root(n, s));
    if s < r {
        assert((s + 1) * (s + 1) <= r * r) by (nonlinear_arith)
            requires
                0 <= s,
                s + 1 <= r,
        ;
    } else if r < s {
        assert((r + 1) * (r + 1) <= s * s) by (nonlinear_arith)
            requires
                0 <= r,
                r + 1 <= s,
        ;
    }
}

proof fn lemma_product_bound(a: int, b: int)
    requires
        -0x8000_0000_0000_0000 <= a < 0x8000_0000_0000_0000,
        -0x8000_0000_0000_0000 <= b < 0x8000_0000_0000_0000,
    ensures
        -0x4000_0000_0000_0000_0000_0000_0000_0000 <= a * b <= 0x4000_0000_0000_0000_0000_0000_0000_0000,
{
    let ma = magnitude(a);
    let mb = magnitude(b);
    assert(ma * mb <= 0x4000_0000_0000_0000_0000_0000_0000_0000) by (nonlinear_arith)
        requires
            0 <= ma <= 0x8000_0000_0000_0000,
            0 <= mb <= 0x8000_0000_0000_0000,
    ;
    assert(a * b == ma * mb || a * b == -(ma * mb)) by (nonlinear_arith)
        requires
            ma == a || ma == -a,
            mb == b || mb == -b,
    ;
}

/// Every natural number has an integer square root.
pub proof fn lemma_root_exists(n: int)
    requires
        n >= 0,
    ensures
        exists|r: int| #[trigger] is_root(n, r),
    decreases n,
{
    if n == 0 {
        assert(is_root(0, 0));
    } else {
        lemma_root_exists(n - 1);
        let r = choose|r: int| #[trigger] is_root(n - 1, r);
        if (r + 1) * (r + 1) <= n {
            assert(n < (r + 2) * (r + 2)) by (nonlinear_arith)
                requires
                    n - 1 < (r + 1) * (r + 1),
                    r >= 0,
            ;
            assert(is_root(n, r + 1));
        } else {
            assert(is_root(n, r));
        }
    }
}

/// Square roots are not negative, and stay far inside the scalar range.
pub proof fn lemma_fsqrt_range(a: int)
    requires
        a <= LIMIT,
    ensures
        0 <= fsqrt(a) < 0x8000_0000_0000,
{
    if a > 0 {
        lemma_root_exists(a * SCALE);
        let r = root(a * SCALE);
        assert(is_root(a * SCALE, r));
        if r >= 0x8000_0000_0000 {
            assert(r * r >= 0x8000_0000_0000 * 0x8000_0000_0000) by (nonlinear_arith)
                requires
                    r >= 0x8000_0000_0000,
            ;
        }
    }
}

/// Saturation keeps the order.
pub proof fn lemma_clamp_monotonic(x: int, y: int)
    requires
        x <= y,
    ensures
        clamp(x) <= clamp(y),
{
}

/// Division rounded toward zero by a positive divisor keeps the order.
pub proof fn lemma_quot_monotonic(x: int, y: int, d: int)
    requires
        x <= y,
        d > 0,
    ensures
        quot(x, d) <= quot(y, d),
{
    if x >= 0 {
        vstd::arithmetic::div_mod::lemma_div_is_ordered(x, y, d);
    } else if y < 0 {
        vstd::arithmetic::div_mod::lemma_div_is_ordered(-y, -x, d);
    } else {
        vstd::arithmetic::div_mod::lemma_div_pos_is_pos(-x, d);
        vstd::arithmetic::div_mod::lemma_div_pos_is_pos(y, d);
    }
}

/// Dividing by a positive scalar keeps the order.
pub proof fn lemma_fdiv_monotonic(x: int, y: int, d: int)
    requires
        x <= y,
        d > 0,
    ensures
        fdiv(x, d) <= fdiv(y, d),
{
    assert(x * SCALE <= y * SCALE) by (nonlinear_arith)
        requires
            x <= y,
    ;
    lemma_quot_monotonic(x * SCALE, y * SCALE, d);
}

/// `v` saturated into `[-LIMIT, LIMIT]`.
pub fn saturate(v: i128) -> (r: i64)
    ensures
        r == clamp(v as int),
{
    if v > LIMIT as i128 {
        LIMIT
    } else if v < -(LIMIT as i128) {
        -LIMIT
    } else {
        v as i64
    }
}

/// Integer square root, rounded down.
pub fn isqrt(n: u128) -> (r: u64)
    requires
        n < 0x1_0000_0000_0000_0000_0000_0000,
    ensures
        is_root(n as int, r as int),
        r < 0x1_0000_0000_0000,
{
    let mut lo: u128 = 0;
    let mut hi: u128 = 0x1_0000_0000_0000;
    assert(hi * hi == 0x1_0000_0000_0000_0000_0000_0000) by (nonlinear_arith)
        requires
            hi == 0x1_0000_0000_0000,
    ;
    while hi - lo > 1
        invariant
            lo < hi <= 0x1_0000_0000_0000,
            lo * lo <= n,
            n < hi * hi,
        decreases hi - lo,
    {
        let mid: u128 = lo + (hi - lo) / 2;
        assert(mid * mid <= 0x1_0000_0000_0000_0000_0000_0000) by (nonlinear_arith)
            requires
                mid <= 0x1_0000_0000_0000,
        ;
        if mid * mid <= n {
            lo = mid;
        } else {
            hi = mid;
        }
    }
    assert(hi == lo + 1);
    lo as u64
}

/// Sum of two scalars.
pub fn fixed_add(a: i64, b: i64) -> (r: i64)
    ensures
        r == fadd(a as int, b as int),
{
    saturate(a as i128 + b as i128)
}

/// Difference of two scalars.
pub fn fixed_sub(a: i64, b: i64) -> (r: i64)
    ensures
        r == fsub(a as int, b as int),
{
    saturate(a as i128 - b as i128)
}

/// Negation of a scalar.
pub fn fixed_neg(a: i64) -> (r: i64)
    ensures
        r == fneg(a as int),
{
    saturate(-(a as i128))
}

/// The smaller of two scalars.
pub fn fixed_min(a: i64, b: i64) -> (r: i64)
    ensures
        r == fmin(a as int, b as int),
{
    if a <= b {
        a
    } else {
        b
    }
}

/// `n / d` rounded toward zero, for `d != 0`.
fn quotient(n: i128, d: i128) -> (r: i128)
    requires
        d != 0,
        -0x4000_0000_0000_0000_0000_0000_0000_0000 <= n <= 0x4000_0000_0000_0000_0000_0000_0000_0000,
        -0x4000_0000_0000_0000_0000_0000_0000_0000 <= d <= 0x4000_0000_0000_0000_0000_0000_0000_0000,
    ensures
        r == quot(n as int, d as int),
        magnitude(r as int) <= magnitude(n as int),
{
    let nm: i128 = if n >= 0 {
        n
    } else {
        -n
    };
    let dm: i128 = if d > 0 {
        d
    } else {
        -d
    };
    let q: i128 = nm / dm;
    assert(q <= nm) by (nonlinear_arith)
        requires
            q == nm / dm,
            nm >= 0,
            dm >= 1,
    ;
    if (n >= 0) == (d > 0) {
        q
    } else {
        -q
    }
}

/// Product of two scalars.
pub fn fixed_mul(a: i64, b: i64) -> (r: i64)
    ensures
        r == fmul(a as int, b as int),
{
    proof {
        lemma_product_bound(a as int, b as int);
    }
    let p: i128 = a as i128 * b as i128;
    saturate(quotient(p, SCALE as i128))
}

/// Quotient of two scalars.
pub fn fixed_div(a: i64, b: i64) -> (r: i64)
    requires
        b != 0,
    ensures
        r == fdiv(a as int, b as int),
{
    proof {
        lemma_product_bound(a as int, SCALE as int);
    }
    let p: i128 = a as i128 * SCALE as i128;
    saturate(quotient(p, b as i128))
}

/// Square root of a scalar; zero for values that are not positive.
pub fn fixed_sqrt(a: i64) -> (r: i64)
    ensures
        r == fsqrt(a as int),
        r >= 0,
{
    if a <= 0 {
        0
    } else {
        proof {
            lemma_product_bound(a as int, SCALE as int);
        }
        let n: u128 = a as u128 * SCALE as u128;
        let s: u64 = isqrt(n);
        proof {
            lemma_root_unique(n as int, s as int);
        }
        s as i64
    }
}

} // verus!
