//! Exact integer arithmetic the simulation core is built on: integer square
//! roots and division that truncates toward zero, with the lemmas that relate
//! them to the spec-level definitions.

use vstd::prelude::*;

verus! {

/// Largest integer whose square is at most `n`.
pub open spec fn sqrt_floor(n: nat) -> nat
    decreases n,
{
    if n == 0 {
        0
    } else {
        let r = sqrt_floor((n - 1) as nat);
        if (r + 1) * (r + 1) <= n {
            r + 1
        } else {
            r
        }
    }
}

/// Smallest integer whose square is at least `n`.
pub open spec fn sqrt_ceil(n: nat) -> nat {
    if sqrt_floor(n) * sqrt_floor(n) == n {
        sqrt_floor(n)
    } else {
        sqrt_floor(n) + 1
    }
}

/// Division truncating toward zero, as Rust's `/` does on signed integers;
/// only defined here for a positive divisor.
pub open spec fn div_tz(a: int, b: int) -> int {
    if a >= 0 {
        a / b
    } else {
        -((-a) / b)
    }
}

pub proof fn lemma_sqrt_floor(n: nat)
    ensures
        sqrt_floor(n) * sqrt_floor(n) <= n,
        n < (sqrt_floor(n) + 1) * (sqrt_floor(n) + 1),
    decreases n,
{
    if n == 0 {
        assert(sqrt_floor(0) == 0);
        assert(n < (sqrt_floor(n) + 1) * (sqrt_floor(n) + 1)) by (nonlinear_arith)
            requires
                n == 0,
                sqrt_floor(n) == 0,
        ;
    } else {
        let m = (n - 1) as nat;
        lemma_sqrt_floor(m);
        let r = sqrt_floor(m);
        if (r + 1) * (r + 1) <= n {
            assert(sqrt_floor(n) == r + 1);
            assert(n < ((r + 1) + 1) * ((r + 1) + 1)) by (nonlinear_arith)
                requires
                    m < (r + 1) * (r + 1),
                    n == m + 1,
                    (r + 1) * (r + 1) <= n,
            ;
        } else {
            assert(sqrt_floor(n) == r);
            assert(sqrt_floor(n) * sqrt_floor(n) <= m <= n);
            assert(n < (r + 1) * (r + 1));
        }
    }
}

pub proof fn lemma_sqrt_floor_unique(n: nat, r: nat)
    requires
        r * r <= n,
        n < (r + 1) * (r + 1),
    ensures
        r == sqrt_floor(n),
{
    lemma_sqrt_floor(n);
    let s = sqrt_floor(n);
    if r < s {
        assert((r + 1) * (r + 1) <= s * s) by (nonlinear_arith)
            requires
                r + 1 <= s,
        ;
    }
    if s < r {
        assert((s + 1) * (s + 1) <= r * r) by (nonlinear_arith)
            requires
                s + 1 <= r,
        ;
    }
}

pub proof fn lemma_sqrt_ceil(n: nat)
    ensures
        n <= sqrt_ceil(n) * sqrt_ceil(n),
        n > 0 ==> sqrt_ceil(n) >= 1,
        n > 0 ==> (sqrt_ceil(n) - 1) * (sqrt_ceil(n) - 1) < n,
{
    lemma_sqrt_floor(n);
    let f = sqrt_floor(n);
    if f * f == n {
        if n > 0 {
            assert(f >= 1);
            assert((f - 1) * (f - 1) < f * f) by (nonlinear_arith)
                requires
                    f >= 1,
            ;
        }
    }
}

/// Binary search for the integer square root, over the full `u128` range.
pub fn isqrt_u128(n: u128) -> (r: u128)
    ensures
        r == sqrt_floor(n as nat),
        r * r <= n,
        r <= 0xffff_ffff_ffff_ffff,
{
    let mut lo: u128 = 0;
    let mut hi: u128 = 0x1_0000_0000_0000_0000;
    proof {
        assert((hi as int) * (hi as int) > n as int) by (nonlinear_arith)
            requires
                hi == 0x1_0000_0000_0000_0000u128,
                n <= u128::MAX,
        ;
    }
    while lo + 1 < hi
        invariant
            lo < hi,
            hi <= 0x1_0000_0000_0000_0000,
            (lo as int) * (lo as int) <= n as int,
            (hi as int) * (hi as int) > n as int,
        decreases hi - lo,
    {
        let mid = lo + (hi - lo) / 2;
        proof {
            assert((mid as int) * (mid as int) <= u128::MAX) by (nonlinear_arith)
                requires
                    mid <= 0xffff_ffff_ffff_ffffu128,
            ;
        }
        if mid * mid <= n {
            lo = mid;
        } else {
            hi = mid;
        }
    }
    proof {
        lemma_sqrt_floor_unique(n as nat, lo as nat);
    }
    lo
}

/// Smallest integer whose square is at least `n`, over the full `u128` range.
pub fn isqrt_ceil_u128(n: u128) -> (r: u128)
    ensures
        r == sqrt_ceil(n as nat),
        n <= r * r,
        r <= 0x1_0000_0000_0000_0000,
{
    let f = isqrt_u128(n);
    proof {
        lemma_sqrt_floor(n as nat);
        lemma_sqrt_ceil(n as nat);
        assert((f as int) * (f as int) <= u128::MAX) by (nonlinear_arith)
            requires
                f <= 0xffff_ffff_ffff_ffffu128,
        ;
    }
    if f * f == n {
        f
    } else {
        f + 1
    }
}

/// Division truncating toward zero, the rounding every quotient of the
/// simulation uses when it is turned back into whole milli-pixels.
pub fn div_towards_zero(a: i64, b: i64) -> (r: i64)
    requires
        b > 0,
        a > i64::MIN,
    ensures
        r == div_tz(a as int, b as int),
        a >= 0 ==> 0 <= r <= a,
        a < 0 ==> a <= r <= 0,
{
    if a >= 0 {
        proof {
            vstd::arithmetic::div_mod::lemma_div_pos_is_pos(a as int, b as int);
            vstd::arithmetic::div_mod::lemma_div_nonincreasing(a as int, b as int);
        }
        a / b
    } else {
        let neg = -a;
        proof {
            vstd::arithmetic::div_mod::lemma_div_pos_is_pos(neg as int, b as int);
            vstd::arithmetic::div_mod::lemma_div_nonincreasing(neg as int, b as int);
        }
        -(neg / b)
    }
}

/// A symmetric bound on the numerator carries over to truncating division.
pub proof fn lemma_div_tz_bounded(a: int, b: int, bound: int)
    requires
        b >= 1,
        bound >= 0,
        -(bound * b) <= a <= bound * b,
    ensures
        -bound <= div_tz(a, b) <= bound,
{
    vstd::arithmetic::div_mod::lemma_div_multiples_vanish(bound, b);
    assert(bound * b == b * bound) by (nonlinear_arith);
    if a >= 0 {
        vstd::arithmetic::div_mod::lemma_div_pos_is_pos(a, b);
        vstd::arithmetic::div_mod::lemma_div_is_ordered(a, bound * b, b);
    } else {
        vstd::arithmetic::div_mod::lemma_div_pos_is_pos(-a, b);
        vstd::arithmetic::div_mod::lemma_div_is_ordered(-a, bound * b, b);
    }
}

/// A square bound on a value bounds the value itself.
pub proof fn lemma_abs_le_of_sq(x: int, b: int)
    requires
        x * x <= b * b,
        b >= 0,
    ensures
        -b <= x <= b,
{
    if x > b {
        assert(x * x > b * b) by (nonlinear_arith)
            requires
                x > b >= 0,
        ;
    }
    if x < -b {
        assert(x * x > b * b) by (nonlinear_arith)
            requires
                x < -b <= 0,
        ;
    }
}

} // verus!
