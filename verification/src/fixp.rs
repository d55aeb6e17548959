//! Fixed-point scalars: `i64` values counted in thousandths of a unit,
//! together with the truncating division their arithmetic uses, a
//! saturating addition, and an integer square root.

use vstd::arithmetic::div_mod::{lemma_div_is_ordered, lemma_fundamental_div_mod};
use vstd::math::abs;
use vstd::prelude::*;

verus! {

/// Sub-units per whole unit: the value `1.0` is stored as `SCALE`.
pub const SCALE: i64 = 1000;

/// Truncating (round-toward-zero) division, the rounding that executable
/// signed division performs. Meaningful for positive `d` only.
pub open spec fn tdiv(a: int, d: int) -> int {
    if a >= 0 {
        a / d
    } else {
        -((-a) / d)
    }
}

/// Truncating division of a fixed-point value by a positive divisor.
pub fn div_trunc(a: i64, d: i64) -> (r: i64)
    requires
        d > 0,
    ensures
        r == tdiv(a as int, d as int),
{
    let r = a.checked_div(d);
    proof {
        lemma_tdiv_mag(a as int, d as int, abs(a as int) as int);
    }
    r.unwrap()
}

/// The magnitude of a truncated quotient is at most the magnitude bound of
/// the dividend divided by the divisor.
pub proof fn lemma_tdiv_mag(a: int, d: int, m: int)
    requires
        d > 0,
        abs(a) <= m,
    ensures
        abs(tdiv(a, d)) <= m / d,
        abs(tdiv(a, d)) <= m,
{
    if a >= 0 {
        lemma_div_is_ordered(a, m, d);
        lemma_div_pos(a, d);
        lemma_div_is_ordered(0, a, d);
        lemma_div_le_self(a, d);
        lemma_div_le_self(m, d);
    } else {
        lemma_div_is_ordered(-a, m, d);
        lemma_div_is_ordered(0, -a, d);
        lemma_div_le_self(-a, d);
        lemma_div_le_self(m, d);
    }
}

/// A nonnegative value divided by a positive divisor is nonnegative.
proof fn lemma_div_pos(a: int, d: int)
    requires
        a >= 0,
        d > 0,
    ensures
        a / d >= 0,
{
    lemma_div_is_ordered(0, a, d);
}

/// A nonnegative value divided by a positive divisor does not grow.
proof fn lemma_div_le_self(a: int, d: int)
    requires
        a >= 0,
        d > 0,
    ensures
        a / d <= a,
{
    lemma_fundamental_div_mod(a, d);
    lemma_div_pos(a, d);
    assert(a == d * (a / d) + a % d);
    assert(d * (a / d) >= a / d) by (nonlinear_arith)
        requires
            d >= 1,
            a / d >= 0,
    ;
}

/// The defining property of truncating division: the quotient's magnitude
/// times the divisor brackets the dividend's magnitude, and the quotient
/// keeps the dividend's sign.
pub proof fn lemma_tdiv_trunc(a: int, d: int)
    requires
        d > 0,
    ensures
        abs(tdiv(a, d)) * d <= abs(a),
        abs(a) < (abs(tdiv(a, d)) + 1) * d,
        a >= 0 ==> tdiv(a, d) >= 0,
        a <= 0 ==> tdiv(a, d) <= 0,
{
    let n = if a >= 0 {
        a
    } else {
        -a
    };
    lemma_fundamental_div_mod(n, d);
    lemma_div_pos(n, d);
    assert(n == d * (n / d) + n % d);
    assert((n / d) * d == d * (n / d)) by (nonlinear_arith);
    assert((n / d + 1) * d == d * (n / d) + d) by (nonlinear_arith);
}

/// Addition on `int` clipped to the `i64` range.
pub open spec fn sat_add_spec(a: int, b: int) -> int {
    if a + b > i64::MAX {
        i64::MAX as int
    } else if a + b < i64::MIN {
        i64::MIN as int
    } else {
        a + b
    }
}

/// Saturating addition of two fixed-point values.
pub fn sat_add(a: i64, b: i64) -> (r: i64)
    ensures
        r == sat_add_spec(a as int, b as int),
{
    match a.checked_add(b) {
        Some(v) => v,
        None => {
            if b > 0 {
                i64::MAX
            } else {
                i64::MIN
            }
        },
    }
}

/// The integer square root: the largest integer whose square does not
/// exceed `n`.
pub open spec fn sqrt_floor(n: nat) -> nat
    decreases n,
{
    if n == 0 {
        0
    } else {
        let p = sqrt_floor((n - 1) as nat);
        if (p + 1) * (p + 1) <= n {
            p + 1
        } else {
            p
        }
    }
}

/// `sqrt_floor(n)` squared is at most `n`, and the next square is above it.
pub proof fn lemma_sqrt_floor_bounds(n: nat)
    ensures
        sqrt_floor(n) * sqrt_floor(n) <= n,
        n < (sqrt_floor(n) + 1) * (sqrt_floor(n) + 1),
    decreases n,
{
    if n > 0 {
        lemma_sqrt_floor_bounds((n - 1) as nat);
        let p = sqrt_floor((n - 1) as nat);
        if (p + 1) * (p + 1) <= n {
            assert(sqrt_floor(n) == p + 1);
            assert(n <= (p + 1) * (p + 1)) by (nonlinear_arith)
                requires
                    n - 1 < (p + 1) * (p + 1),
            ;
            assert((p + 1) * (p + 1) < (p + 2) * (p + 2)) by (nonlinear_arith)
                requires
                    p >= 0,
            ;
            assert(n < (sqrt_floor(n) + 1) * (sqrt_floor(n) + 1));
        } else {
            assert(sqrt_floor(n) == p);
            assert(p * p <= n - 1);
            assert(n < (p + 1) * (p + 1));
        }
    } else {
        assert(sqrt_floor(n) == 0);
        assert(n < (0 + 1) * (0 + 1)) by (nonlinear_arith)
            requires
                n == 0,
        ;
    }
}

/// Any integer whose square brackets `n` is `sqrt_floor(n)`.
pub proof fn lemma_sqrt_floor_unique(n: nat, r: nat)
    requires
        r * r <= n,
        n < (r + 1) * (r + 1),
    ensures
        r == sqrt_floor(n),
{
    lemma_sqrt_floor_bounds(n);
    let s = sqrt_floor(n);
    if r > s {
        assert((s + 1) * (s + 1) <= r * r) by (nonlinear_arith)
            requires
                s + 1 <= r,
        ;
    }
    if s > r {
        assert((r + 1) * (r + 1) <= s * s) by (nonlinear_arith)
            requires
                r + 1 <= s,
        ;
    }
}

/// The integer square root of a value that fits in 32 bits.
pub fn isqrt(n: u64) -> (r: u64)
    requires
        n <= u32::MAX as u64,
    ensures
        r as nat == sqrt_floor(n as nat),
        r * r <= n,
        n < (r + 1) * (r + 1),
{
    let mut r: u64 = 0;
    loop
        invariant
            n <= u32::MAX as u64,
            r * r <= n,
            r <= 0xFFFF,
        ensures
            r * r <= n,
            n < (r + 1) * (r + 1),
        decreases 0x10000 - r,
    {
        proof {
            assert((r + 1) * (r + 1) <= 0x1_0000_0000) by (nonlinear_arith)
                requires
                    r <= 0xFFFF,
            ;
        }
        let next = (r + 1) * (r + 1);
        if next <= n {
            r = r + 1;
            proof {
                assert(r <= 0xFFFF) by (nonlinear_arith)
                    requires
                        r * r <= n,
                        n < 0x1_0000_0000,
                        r >= 0,
                ;
            }
        } else {
            break ;
        }
    }
    proof {
        lemma_sqrt_floor_unique(n as nat, r as nat);
    }
    r
}

} // verus!
