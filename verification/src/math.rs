//! Integer arithmetic underlying the simulation: absolute value, saturating
//! coordinate addition, and an exact integer square root.

use vstd::prelude::*;

verus! {

/// Greatest coordinate the world holds on either axis. Motion saturates
/// here so that every tick is total; gameplay never comes near it.
pub const WORLD_MAX: i64 = 1_000_000_000_000;

/// Absolute value of a mathematical integer.
pub open spec fn iabs(x: int) -> int {
    if x < 0 {
        -x
    } else {
        x
    }
}

/// `x + d`, clamped to the world coordinate range.
pub open spec fn clamp_coord(x: int) -> int {
    if x < -WORLD_MAX {
        -WORLD_MAX as int
    } else if x > WORLD_MAX {
        WORLD_MAX as int
    } else {
        x
    }
}

/// Clamps any machine integer to the world coordinate range.
pub fn clamp_coord_exec(x: i64) -> (r: i64)
    ensures
        r as int == clamp_coord(x as int),
        iabs(r as int) <= WORLD_MAX,
{
    if x < -WORLD_MAX {
        -WORLD_MAX
    } else if x > WORLD_MAX {
        WORLD_MAX
    } else {
        x
    }
}

/// Adds a bounded delta to a coordinate, saturating at the world boundary.
pub fn clamp_add(x: i64, d: i64) -> (r: i64)
    requires
        iabs(x as int) <= WORLD_MAX,
        iabs(d as int) <= WORLD_MAX,
    ensures
        r as int == clamp_coord(x + d),
        iabs(r as int) <= WORLD_MAX,
{
    let s: i64 = x + d;
    if s < -WORLD_MAX {
        -WORLD_MAX
    } else if s > WORLD_MAX {
        WORLD_MAX
    } else {
        s
    }
}

/// `r` is the integer square root of `n`.
pub open spec fn is_sqrt(n: nat, r: nat) -> bool {
    r * r <= n < (r + 1) * (r + 1)
}

/// The integer square root, defined by counting up.
pub open spec fn sqrt_floor(n: nat) -> nat
    decreases n,
{
    if n == 0 {
        0
    } else {
        let r = sqrt_floor((n - 1) as nat);
        if (r + 1) * (r + 1) <= n {
            r + 1
        } else {
            r
        }
    }
}

/// `sqrt_floor` satisfies the square-root bounds.
pub proof fn lemma_sqrt_floor_is_sqrt(n: nat)
    ensures
        is_sqrt(n, sqrt_floor(n)),
    decreases n,
{
    if n == 0 {
        assert(0nat * 0nat <= 0) by (nonlinear_arith);
        assert((0nat + 1) * (0nat + 1) > 0) by (nonlinear_arith);
        assert(is_sqrt(0, 0));
    } else {
        lemma_sqrt_floor_is_sqrt((n - 1) as nat);
        let r = sqrt_floor((n - 1) as nat);
        assert(is_sqrt((n - 1) as nat, r));
        let s = sqrt_floor(n);
        assert(s == if (r + 1) * (r + 1) <= n {
            r + 1
        } else {
            r
        });
        if (r + 1) * (r + 1) <= n {
            assert(s == r + 1);
            assert(s * s <= n);
            assert(n < (s + 1) * (s + 1)) by (nonlinear_arith)
                requires
                    n - 1 < (r + 1) * (r + 1),
                    s == r + 1,
            ;
        } else {
            assert(s == r);
            assert(s * s <= n);
            assert(n < (s + 1) * (s + 1));
        }
        assert(is_sqrt(n, s));
    }
}

/// Any two integer square roots of the same number are equal.
pub proof fn lemma_sqrt_unique(n: nat, r1: nat, r2: nat)
    requires
        is_sqrt(n, r1),
        is_sqrt(n, r2),
    ensures
        r1 == r2,
{
    assert(r1 == r2) by (nonlinear_arith)
        requires
            r1 * r1 <= n < (r1 + 1) * (r1 + 1),
            r2 * r2 <= n < (r2 + 1) * (r2 + 1),
    ;
}

/// The integer square root is monotone.
pub proof fn lemma_sqrt_mono(a: nat, b: nat)
    requires
        a <= b,
    ensures
        sqrt_floor(a) <= sqrt_floor(b),
{
    lemma_sqrt_floor_is_sqrt(a);
    lemma_sqrt_floor_is_sqrt(b);
    let sa = sqrt_floor(a);
    let sb = sqrt_floor(b);
    assert(sa <= sb) by (nonlinear_arith)
        requires
            sa * sa <= a < (sa + 1) * (sa + 1),
            sb * sb <= b < (sb + 1) * (sb + 1),
            a <= b,
    ;
}

/// The integer square root of an exact square.
pub proof fn lemma_sqrt_square(k: nat)
    ensures
        sqrt_floor(k * k) == k,
{
    lemma_sqrt_floor_is_sqrt(k * k);
    assert(is_sqrt(k * k, k)) by (nonlinear_arith);
    lemma_sqrt_unique(k * k, sqrt_floor(k * k), k);
}

/// Integer square root by binary search.
pub fn isqrt(n: u128) -> (r: u128)
    ensures
        r as nat == sqrt_floor(n as nat),
{
    let mut lo: u128 = 0;
    let mut hi: u128 = 18_446_744_073_709_551_616;
    while lo + 1 < hi
        invariant
            lo < hi <= 18_446_744_073_709_551_616u128,
            (lo as nat) * (lo as nat) <= n as nat,
            (n as nat) < (hi as nat) * (hi as nat),
        decreases hi - lo,
    {
        let mid: u128 = lo + (hi - lo) / 2;
        proof {
            assert(mid * mid <= 340_282_366_920_938_463_463_374_607_431_768_211_455u128)
                by (nonlinear_arith)
                requires
                    mid <= 18_446_744_073_709_551_615u128,
            ;
        }
        if mid * mid <= n {
            lo = mid;
        } else {
            hi = mid;
        }
    }
    proof {
        assert(is_sqrt(n as nat, lo as nat));
        lemma_sqrt_floor_is_sqrt(n as nat);
        lemma_sqrt_unique(n as nat, lo as nat, sqrt_floor(n as nat));
    }
    lo
}

} // verus!
