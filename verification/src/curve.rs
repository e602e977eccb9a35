//! Santa's patrol curve: a deterministic closed curve sampled from the
//! elapsed time. The angle walks a circle once every 6.282 simulated
//! seconds, and the radius is modulated by a deterministic integer
//! pseudo-noise of the point on the circle, so the position is a pure
//! function of the elapsed time modulo the wrap period.

use vstd::prelude::*;

use crate::math::iabs;
use crate::vec2::{in_world, IVec2};
use vstd::arithmetic::div_mod::{lemma_div_is_ordered, lemma_div_multiples_vanish};

verus! {

/// Elapsed time wraps after an hour, so long sessions keep full precision.
pub const WRAP_MS: u64 = 3_600_000;

/// One sine half-wave on `[0, 3141]` milliradians, in thousandths:
/// a rational approximation that is `0` at the ends and about `1000`
/// at the top.
pub open spec fn half_sin(x: int) -> int {
    (16000 * (x * (3141 - x))) / (49331405 - 4 * (x * (3141 - x)))
}

/// Sine of an angle in `[0, 6282)` milliradians, in thousandths.
pub open spec fn sin_milli(a: int) -> int {
    if a < 3141 {
        half_sin(a)
    } else {
        -half_sin(a - 3141)
    }
}

/// Cosine: the sine a quarter turn further along.
pub open spec fn cos_milli(a: int) -> int {
    sin_milli((a + 1570) % 6282)
}

/// Deterministic pseudo-noise of a curve point, in thousandths:
/// a fixed mix of the two coordinates reduced to `[-1000, 1000]`.
pub open spec fn noise_milli(s: int, c: int) -> int {
    (((s + 1000) * 2001 + (c + 1000)) * 2654435761) % 2001 - 1000
}

/// One world-unit component of the curve: a milli-unit coordinate times
/// the milli-unit noise, scaled down to world units, rounded toward zero.
pub open spec fn swing(a: int, n: int) -> int {
    if a * n < 0 {
        -((-(a * n)) / 5600)
    } else {
        (a * n) / 5600
    }
}

/// Santa's position after `t` elapsed milliseconds.
pub open spec fn santa_pos_spec(t: nat) -> (int, int) {
    let a = ((t % 3_600_000) % 6282) as int;
    let s = sin_milli(a);
    let c = cos_milli(a);
    let n = noise_milli(s, c);
    (swing(s, n), swing(c, n))
}

/// The half-wave stays within `[0, 1000]` thousandths.
pub proof fn lemma_half_sin_bounds(x: int)
    requires
        0 <= x <= 3141,
    ensures
        0 <= half_sin(x) <= 1000,
        0 <= x * (3141 - x) <= 2_466_470,
{
    let q = x * (3141 - x);
    assert(0 <= q <= 2_466_470) by (nonlinear_arith)
        requires
            0 <= x <= 3141,
            q == x * (3141 - x),
    ;
    let num = 16000 * q;
    let den = 49331405 - 4 * q;
    assert(0 <= num <= 1000 * den) by (nonlinear_arith)
        requires
            0 <= q <= 2_466_470,
            num == 16000 * q,
            den == 49331405 - 4 * q,
    ;
    lemma_div_is_ordered(num, 1000 * den, den);
    lemma_div_multiples_vanish(1000, den);
    assert(den * 1000 == 1000 * den) by (nonlinear_arith);
    lemma_div_is_ordered(0, num, den);
}

/// The sine and cosine stay within a thousandth of a unit.
pub proof fn lemma_sin_milli_bounds(a: int)
    requires
        0 <= a < 6282,
    ensures
        -1000 <= sin_milli(a) <= 1000,
{
    if a < 3141 {
        lemma_half_sin_bounds(a);
    } else {
        lemma_half_sin_bounds(a - 3141);
    }
}

/// The pseudo-noise stays within a thousandth of a unit.
pub proof fn lemma_noise_milli_bounds(s: int, c: int)
    ensures
        -1000 <= noise_milli(s, c) <= 1000,
{
    let h = (s + 1000) * 2001 + (c + 1000);
    vstd::arithmetic::div_mod::lemma_mod_bound(h * 2654435761, 2001);
}

/// Each curve component stays well inside the world.
pub proof fn lemma_swing_bounds(a: int, n: int)
    requires
        -1000 <= a <= 1000,
        -1000 <= n <= 1000,
    ensures
        -179 <= swing(a, n) <= 179,
{
    let p = a * n;
    assert(-1_000_000 <= p <= 1_000_000) by (nonlinear_arith)
        requires
            -1000 <= a <= 1000,
            -1000 <= n <= 1000,
            p == a * n,
    ;
    if p < 0 {
        lemma_div_is_ordered(-p, 1_002_400, 5600);
        lemma_div_multiples_vanish(179, 5600);
        lemma_div_is_ordered(0, -p, 5600);
    } else {
        lemma_div_is_ordered(p, 1_002_400, 5600);
        lemma_div_multiples_vanish(179, 5600);
        lemma_div_is_ordered(0, p, 5600);
    }
}

/// Santa's position is always well inside the world.
pub proof fn lemma_santa_pos_in_world(t: nat)
    ensures
        in_world(santa_pos_spec(t)),
        iabs(santa_pos_spec(t).0) <= 179,
        iabs(santa_pos_spec(t).1) <= 179,
{
    let a = ((t % 3_600_000) % 6282) as int;
    vstd::arithmetic::div_mod::lemma_mod_bound((t % 3_600_000) as int, 6282);
    lemma_sin_milli_bounds(a);
    vstd::arithmetic::div_mod::lemma_mod_bound(a + 1570, 6282);
    lemma_sin_milli_bounds((a + 1570) % 6282);
    let s = sin_milli(a);
    let c = cos_milli(a);
    lemma_noise_milli_bounds(s, c);
    lemma_swing_bounds(s, noise_milli(s, c));
    lemma_swing_bounds(c, noise_milli(s, c));
}

/// Computes `half_sin`.
fn half_sin_exec(x: i64) -> (r: i64)
    requires
        0 <= x <= 3141,
    ensures
        r == half_sin(x as int),
        0 <= r <= 1000,
{
    proof {
        lemma_half_sin_bounds(x as int);
    }
    let q: i64 = x * (3141 - x);
    let num: i64 = 16000 * q;
    let den: i64 = 49331405 - 4 * q;
    num / den
}

/// Computes `sin_milli`.
fn sin_milli_exec(a: i64) -> (r: i64)
    requires
        0 <= a < 6282,
    ensures
        r == sin_milli(a as int),
        -1000 <= r <= 1000,
{
    if a < 3141 {
        half_sin_exec(a)
    } else {
        -half_sin_exec(a - 3141)
    }
}

/// Computes `santa_pos_spec`: where Santa stands after `t` elapsed
/// milliseconds.
pub fn santa_pos(t: u64) -> (r: IVec2)
    ensures
        r@ == santa_pos_spec(t as nat),
        in_world(r@),
        iabs(r@.0) <= 179,
        iabs(r@.1) <= 179,
{
    let a: i64 = ((t % WRAP_MS) % 6282) as i64;
    let s: i64 = sin_milli_exec(a);
    let ca: i64 = (a + 1570) % 6282;
    let c: i64 = sin_milli_exec(ca);
    let h: i64 = (s + 1000) * 2001 + (c + 1000);
    proof {
        assert(h * 2654435761 <= 4_004_000 * 2654435761 && h * 2654435761 >= 0)
            by (nonlinear_arith)
            requires
                0 <= h <= 4_004_000,
        ;
    }
    let n: i64 = (h * 2654435761) % 2001 - 1000;
    let x: i64 = swing_exec(s, n);
    let y: i64 = swing_exec(c, n);
    proof {
        lemma_santa_pos_in_world(t as nat);
    }
    IVec2 { x, y }
}

/// Computes `swing`.
fn swing_exec(a: i64, n: i64) -> (r: i64)
    requires
        -1000 <= a <= 1000,
        -1000 <= n <= 1000,
    ensures
        r == swing(a as int, n as int),
        -179 <= r <= 179,
{
    proof {
        assert(-1_000_000 <= a * n <= 1_000_000) by (nonlinear_arith)
            requires
                -1000 <= a <= 1000,
                -1000 <= n <= 1000,
        ;
        lemma_swing_bounds(a as int, n as int);
    }
    let p: i64 = a * n;
    if p < 0 {
        -((-p) / 5600)
    } else {
        p / 5600
    }
}

} // verus!
