//! Integer square root, the building block of the zap split and of the
//! safe-emission cap.
use vstd::prelude::*;

verus! {

/// `r` is the floor of the square root of `x`.
pub open spec fn is_isqrt(x: int, r: int) -> bool {
    &&& 0 <= r
    &&& r * r <= x
    &&& x < (r + 1) * (r + 1)
}

/// The floor of the square root of `n`, counted up from zero.
pub open spec fn isqrt(n: nat) -> nat
    decreases n,
{
    if n == 0 {
        0
    } else {
        let r = isqrt((n - 1) as nat);
        if (r + 1) * (r + 1) <= n {
            r + 1
        } else {
            r
        }
    }
}

/// `isqrt` meets the floor-square-root property.
pub proof fn lemma_isqrt(n: nat)
    ensures
        is_isqrt(n as int, isqrt(n) as int),
    decreases n,
{
    if n > 0 {
        lemma_isqrt((n - 1) as nat);
        let r = isqrt((n - 1) as nat);
        assert((r + 2) * (r + 2) == (r + 1) * (r + 1) + 2 * r + 3) by (nonlinear_arith);
    }
}

/// The floor square root is unique.
pub proof fn lemma_isqrt_unique(n: nat, r: int)
    requires
        is_isqrt(n as int, r),
    ensures
        r == isqrt(n),
{
    lemma_isqrt(n);
    let s = isqrt(n) as int;
    if r < s {
        assert((r + 1) * (r + 1) <= s * s) by (nonlinear_arith) requires 0 <= r, r + 1 <= s;
    } else if r > s {
        assert((s + 1) * (s + 1) <= r * r) by (nonlinear_arith) requires 0 <= s, s + 1 <= r;
    }
}

/// One Newton step never falls below a number whose square is at most `x`.
proof fn lemma_newton_step_above(x: int, z: int, t: int)
    requires
        0 <= x,
        1 <= z,
        0 <= t,
        t * t <= x,
    ensures
        t <= (x / z + z) / 2,
{
    let q = x / z;
    assert(x < (q + 1) * z) by (nonlinear_arith)
        requires q == x / z, 1 <= z, 0 <= x;
    if q + z < 2 * t {
        // (q + 1) + z <= 2t, so (q + 1) * z <= t * t <= x
        assert((q + 1) * z <= t * t) by (nonlinear_arith)
            requires q + 1 + z <= 2 * t, 0 <= q, 1 <= z;
    }
}

/// Floor of the square root of `x`, by Newton's iteration.
pub fn int_sqrt(x: u128) -> (r: u128)
    ensures
        is_isqrt(x as int, r as int),
        r == isqrt(x as nat),
{
    if x <= 1 {
        assert(x * x <= x < (x + 1) * (x + 1)) by (nonlinear_arith) requires x <= 1;
        proof { lemma_isqrt_unique(x as nat, x as int); }
        return x;
    }
    let mut z: u128 = x;
    let mut y: u128 = x / 2 + x % 2;
    assert(y == (x / z + z) / 2) by (nonlinear_arith) requires z == x, y == x / 2 + x % 2, x >= 2;
    proof {
        assert forall|t: int| 0 <= t && #[trigger] (t * t) <= x implies t <= y by {
            lemma_newton_step_above(x as int, z as int, t);
        }
        assert forall|t: int| 0 <= t && #[trigger] (t * t) <= x implies t <= z by {
            assert(t <= t * t) by (nonlinear_arith) requires 0 <= t;
        }
    }
    while y < z
        invariant
            2 <= x,
            1 <= z <= x,
            y == (x / z + z) / 2,
            y * 2 <= x + 1,
            forall|t: int| 0 <= t && #[trigger] (t * t) <= x ==> t <= y,
            forall|t: int| 0 <= t && #[trigger] (t * t) <= x ==> t <= z,
        decreases z,
    {
        assert(1 <= y) by {
            assert(1int * 1 <= x);
        }
        assert(x / y + y <= x + 1 && x / y + y <= u128::MAX) by {
            if y >= 2 {
                assert(x / y <= x / 2) by (nonlinear_arith) requires y >= 2, x >= 0;
            } else {
                assert(2int * 2 > x);
            }
        }
        z = y;
        y = (x / y + y) / 2;
        proof {
            assert forall|t: int| 0 <= t && #[trigger] (t * t) <= x implies t <= y by {
                lemma_newton_step_above(x as int, z as int, t);
            }
        }
    }
    assert(z * z <= x) by (nonlinear_arith)
        requires y == (x / z + z) / 2, z <= y, 1 <= z, x >= 0;
    assert(x < (z + 1) * (z + 1)) by {
        let t = z as int + 1;
        if t * t <= x {
            assert(t <= z);
        }
    }
    proof { lemma_isqrt_unique(x as nat, z as int); }
    z
}

} // verus!
