//! Integer helpers for reserve-scale arithmetic.

use vstd::prelude::*;

verus! {

/// `r` is the floor of the square root of `n`.
pub open spec fn is_floor_sqrt(n: int, r: int) -> bool {
    0 <= r && r * r <= n && n < (r + 1) * (r + 1)
}

/// The floor of the square root of `n`.
pub open spec fn floor_sqrt(n: nat) -> nat {
    choose|r: nat| is_floor_sqrt(n as int, r as int)
}

/// At most one number is the floor of the square root of `n`.
pub proof fn lemma_floor_sqrt_unique(n: int, r1: int, r2: int)
    requires
        is_floor_sqrt(n, r1),
        is_floor_sqrt(n, r2),
    ensures
        r1 == r2,
{
    if r1 < r2 {
        assert((r1 + 1) * (r1 + 1) <= r2 * r2) by (nonlinear_arith)
            requires
                0 <= r1,
                r1 + 1 <= r2,
        ;
    } else if r2 < r1 {
        assert((r2 + 1) * (r2 + 1) <= r1 * r1) by (nonlinear_arith)
            requires
                0 <= r2,
                r2 + 1 <= r1,
        ;
    }
}

/// Every natural number has a floor square root.
pub proof fn lemma_floor_sqrt_exists(n: nat)
    ensures
        is_floor_sqrt(n as int, floor_sqrt(n) as int),
    decreases n,
{
    if n == 0 {
        assert(is_floor_sqrt(0, 0nat as int));
    } else {
        lemma_floor_sqrt_exists((n - 1) as nat);
        let r = floor_sqrt((n - 1) as nat);
        if (r + 1) * (r + 1) <= n {
            assert((r + 2) * (r + 2) > (r + 1) * (r + 1) + 1) by (nonlinear_arith);
            assert(is_floor_sqrt(n as int, (r + 1) as nat as int));
        } else {
            assert(is_floor_sqrt(n as int, r as int));
        }
    }
}

/// Whatever satisfies the defining inequalities is `floor_sqrt(n)`.
pub proof fn lemma_floor_sqrt_is(n: nat, r: nat)
    requires
        is_floor_sqrt(n as int, r as int),
    ensures
        floor_sqrt(n) == r,
{
    lemma_floor_sqrt_exists(n);
    lemma_floor_sqrt_unique(n as int, r as int, floor_sqrt(n) as int);
}

/// The root is no larger than the number, and positive for a positive number.
pub proof fn lemma_floor_sqrt_bounds(n: nat)
    ensures
        floor_sqrt(n) <= n,
        n >= 1 ==> floor_sqrt(n) >= 1,
{
    lemma_floor_sqrt_exists(n);
    let root = floor_sqrt(n) as int;
    assert(root <= n && (n >= 1 ==> root >= 1)) by (nonlinear_arith)
        requires
            root >= 0,
            root * root <= n,
            n < (root + 1) * (root + 1),
    ;
}

/// The square root of a perfect square is its root, and one less than a
/// perfect square has the root below it.
pub proof fn lemma_floor_sqrt_of_square(n: nat)
    requires
        n >= 1,
    ensures
        floor_sqrt(n * n) == n,
        floor_sqrt((n * n - 1) as nat) == n - 1,
{
    assert(n * n >= 1 && (n + 1) * (n + 1) > n * n && (n - 1) * (n - 1) <= n * n - 1)
        by (nonlinear_arith)
        requires
            n >= 1,
    ;
    lemma_floor_sqrt_is(n * n, n);
    lemma_floor_sqrt_is((n * n - 1) as nat, (n - 1) as nat);
}

/// One Newton step from any positive `x` stays at or above the root.
proof fn lemma_newton_step_above(n: int, x: int, q: int, y: int)
    requires
        n >= 1,
        x >= 1,
        q == n / x,
        y == (x + q) / 2,
    ensures
        n < (y + 1) * (y + 1),
        y >= 1,
{
    assert(q >= 0 && x * (q + 1) > n) by (nonlinear_arith)
        requires
            n >= 1,
            x >= 1,
            q == n / x,
    ;
    assert(2 * (y + 1) >= x + q + 1);
    assert((x + q + 1) * (x + q + 1) >= 4 * (x * (q + 1))) by (nonlinear_arith);
    assert(4 * ((y + 1) * (y + 1)) >= (x + q + 1) * (x + q + 1)) by (nonlinear_arith)
        requires
            2 * (y + 1) >= x + q + 1,
            x + q + 1 >= 0,
    ;
    if y < 1 {
        assert((y + 1) * (y + 1) <= 1) by (nonlinear_arith)
            requires
                0 <= y + 1 <= 1,
        ;
    }
}

/// A Newton step that does not descend means `x` is at or below the root.
proof fn lemma_newton_stop(n: int, x: int, q: int, y: int)
    requires
        n >= 1,
        x >= 1,
        q == n / x,
        y == (x + q) / 2,
        y >= x,
    ensures
        x * x <= n,
{
    assert(q >= x);
    assert(x * x <= n) by (nonlinear_arith)
        requires
            x >= 1,
            q == n / x,
            q >= x,
            n >= 1,
    ;
}

/// Floor of the square root of `n`, by Newton's iteration from `n` downwards.
pub fn integer_sqrt(n: u64) -> (r: u64)
    ensures
        r * r <= n < (r + 1) * (r + 1),
        r == floor_sqrt(n as nat),
{
    if n == 0 {
        proof {
            lemma_floor_sqrt_is(0, 0);
        }
        return 0;
    }
    let mut x: u64 = n;
    // The first step from `x = n` is `(n + n / n) / 2`, the half of `n`
    // rounded up; written so that `n + 1` is never formed.
    let mut y: u64 = n / 2 + n % 2;
    proof {
        assert(n as int / n as int == 1) by (nonlinear_arith)
            requires
                n >= 1,
        ;
        assert((n + 1) * (n + 1) > n) by (nonlinear_arith);
    }
    while y < x
        invariant
            n >= 1,
            x >= 1,
            n < (x + 1) * (x + 1),
            y == (x + n / x) / 2,
        decreases x,
    {
        proof {
            lemma_newton_step_above(n as int, x as int, n as int / x as int, y as int);
        }
        x = y;
        let q: u64 = n / x;
        // Widened, so that the sum needs no bound of its own.
        y = ((x as u128 + q as u128) / 2) as u64;
    }
    proof {
        lemma_newton_stop(n as int, x as int, n as int / x as int, y as int);
        lemma_floor_sqrt_is(n as nat, x as nat);
    }
    x
}

} // verus!
