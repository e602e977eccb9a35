//! Plane vectors with integer coordinates, and the shared
//! direction-and-speed routine: `scaled_dir(v, s)` points the way `v` points
//! and has magnitude close to `s` (exactly `s` on the axes), with the zero
//! vector mapped to zero rather than to an undefined direction.

use vstd::prelude::*;

use crate::math::{iabs, is_sqrt, isqrt, lemma_sqrt_floor_is_sqrt, lemma_sqrt_mono,
    lemma_sqrt_square, lemma_sqrt_unique, sqrt_floor, WORLD_MAX};
use vstd::arithmetic::div_mod::{lemma_div_is_ordered, lemma_div_multiples_vanish};
use vstd::arithmetic::mul::lemma_mul_inequality;

verus! {

/// A point or displacement in the world plane, in whole world units.
#[derive(Clone, Copy, PartialEq, Eq, Structural, Debug)]
pub struct IVec2 {
    pub x: i64,
    pub y: i64,
}

impl View for IVec2 {
    type V = (int, int);

    open spec fn view(&self) -> (int, int) {
        (self.x as int, self.y as int)
    }
}

impl IVec2 {
    pub fn new(x: i64, y: i64) -> (r: IVec2)
        ensures
            r@ == (x as int, y as int),
    {
        IVec2 { x, y }
    }
}

/// Both coordinates lie in the world range.
pub open spec fn in_world(v: (int, int)) -> bool {
    iabs(v.0) <= WORLD_MAX && iabs(v.1) <= WORLD_MAX
}

/// Squared length of `v`, with each coordinate carried in thousandths of a
/// unit for sub-unit precision.
pub open spec fn dir_len_sq(v: (int, int)) -> int {
    (v.0 * 1000) * (v.0 * 1000) + (v.1 * 1000) * (v.1 * 1000)
}

/// Length of `v`, rounded down, in thousandths of a unit.
pub open spec fn dir_len(v: (int, int)) -> nat {
    sqrt_floor(dir_len_sq(v) as nat)
}

/// Magnitude of one component of `scaled_dir`: `a` thousandths out of a
/// vector of length `len` thousandths, scaled to `speed` world units.
pub open spec fn dir_mag(a: nat, len: nat, speed: nat) -> nat {
    ((a * 1000) * speed) / len
}

/// One signed component of `scaled_dir`.
pub open spec fn dir_comp(c: int, len: nat, speed: nat) -> int {
    if c < 0 {
        -(dir_mag(iabs(c) as nat, len, speed) as int)
    } else {
        dir_mag(c as nat, len, speed) as int
    }
}

/// The vector of magnitude (about) `speed` pointing the way `v` points;
/// the zero vector stays zero.
pub open spec fn scaled_dir_spec(v: (int, int), speed: nat) -> (int, int) {
    if v == (0int, 0int) {
        (0int, 0int)
    } else {
        (dir_comp(v.0, dir_len(v), speed), dir_comp(v.1, dir_len(v), speed))
    }
}

/// Nonnegative products of bounded factors stay bounded.
proof fn lemma_mul_bound(a: nat, b: nat, ca: nat, cb: nat)
    requires
        a <= ca,
        b <= cb,
    ensures
        a * b <= ca * cb,
{
    lemma_mul_inequality(a as int, ca as int, b as int);
    lemma_mul_inequality(b as int, cb as int, ca as int);
    assert(ca * b == b * ca) by (nonlinear_arith);
    assert(ca * cb == cb * ca) by (nonlinear_arith);
}

/// No component of a scaled direction exceeds the requested speed.
pub proof fn lemma_scaled_dir_spec_bounds(v: (int, int), speed: nat)
    ensures
        iabs(scaled_dir_spec(v, speed).0) <= speed,
        iabs(scaled_dir_spec(v, speed).1) <= speed,
{
    if v == (0int, 0int) {
    } else {
        let a0 = iabs(v.0) as nat;
        let a1 = iabs(v.1) as nat;
        assert((v.0 * 1000) * (v.0 * 1000) == ((a0 * 1000) as int) * ((a0 * 1000) as int))
            by (nonlinear_arith)
            requires
                a0 == v.0 || a0 == -v.0,
        ;
        assert((v.1 * 1000) * (v.1 * 1000) == ((a1 * 1000) as int) * ((a1 * 1000) as int))
            by (nonlinear_arith)
            requires
                a1 == v.1 || a1 == -v.1,
        ;
        let sq = dir_len_sq(v) as nat;
        let len = dir_len(v);
        lemma_sqrt_floor_is_sqrt(sq);
        lemma_sqrt_square((a0 * 1000) as nat);
        lemma_sqrt_square((a1 * 1000) as nat);
        assert(((a0 * 1000) * (a0 * 1000)) <= sq && ((a1 * 1000) * (a1 * 1000)) <= sq)
            by (nonlinear_arith)
            requires
                sq == ((a0 * 1000) as int) * ((a0 * 1000) as int) + ((a1 * 1000) as int) * ((
                a1 * 1000) as int),
        ;
        lemma_sqrt_mono(((a0 * 1000) * (a0 * 1000)) as nat, sq);
        lemma_sqrt_mono(((a1 * 1000) * (a1 * 1000)) as nat, sq);
        assert(len >= a0 * 1000 && len >= a1 * 1000);
        assert(a0 >= 1 || a1 >= 1);
        assert(len >= 1000) by (nonlinear_arith)
            requires
                len >= a0 * 1000 && len >= a1 * 1000,
                a0 >= 1 || a1 >= 1,
        ;
        lemma_mul_inequality((a0 * 1000) as int, len as int, speed as int);
        lemma_div_is_ordered(((a0 * 1000) * speed) as int, (len * speed) as int, len as int);
        lemma_div_multiples_vanish(speed as int, len as int);
        assert((len * speed) as int == (len as int) * (speed as int)) by (nonlinear_arith);
        assert(dir_mag(a0, len, speed) <= speed);
        lemma_mul_inequality((a1 * 1000) as int, len as int, speed as int);
        lemma_div_is_ordered(((a1 * 1000) * speed) as int, (len * speed) as int, len as int);
        assert(dir_mag(a1, len, speed) <= speed);
    }
}

/// Computes `scaled_dir_spec`: the throw and walk velocity of the game.
pub fn scaled_dir(v: IVec2, speed: i64) -> (r: IVec2)
    requires
        iabs(v@.0) <= 2 * WORLD_MAX,
        iabs(v@.1) <= 2 * WORLD_MAX,
        0 <= speed <= 1000,
    ensures
        r@ == scaled_dir_spec(v@, speed as nat),
        iabs(r@.0) <= speed,
        iabs(r@.1) <= speed,
{
    if v.x == 0 && v.y == 0 {
        return IVec2 { x: 0, y: 0 };
    }
    let ax: i64 = if v.x < 0 {
        -v.x
    } else {
        v.x
    };
    let ay: i64 = if v.y < 0 {
        -v.y
    } else {
        v.y
    };
    let axs: u128 = (ax as u128) * 1000;
    let ays: u128 = (ay as u128) * 1000;
    proof {
        lemma_mul_bound(ax as nat, 1000, 2_000_000_000_000, 1000);
        lemma_mul_bound(ay as nat, 1000, 2_000_000_000_000, 1000);
        lemma_mul_bound(axs as nat, axs as nat, 2_000_000_000_000_000, 2_000_000_000_000_000);
        lemma_mul_bound(ays as nat, ays as nat, 2_000_000_000_000_000, 2_000_000_000_000_000);
    }
    let sq: u128 = axs * axs + ays * ays;
    let len: u128 = isqrt(sq);
    proof {
        lemma_sqrt_floor_is_sqrt(sq as nat);
        // the longer scaled component is a lower bound for the length
        lemma_sqrt_square(axs as nat);
        lemma_sqrt_square(ays as nat);
        lemma_mul_bound(axs as nat, axs as nat, axs as nat, axs as nat);
        lemma_sqrt_mono((axs * axs) as nat, sq as nat);
        lemma_sqrt_mono((ays * ays) as nat, sq as nat);
        assert(len >= axs && len >= ays);
        // a nonzero input has a nonzero scaled length
        assert(axs >= 1000 || ays >= 1000);
        assert(len >= 1000);
        lemma_mul_bound(axs as nat, speed as nat, 2_000_000_000_000_000, 1000);
        lemma_mul_bound(ays as nat, speed as nat, 2_000_000_000_000_000, 1000);
    }
    let mx: u128 = axs * (speed as u128) / len;
    let my: u128 = ays * (speed as u128) / len;
    proof {
        // each component magnitude is at most the requested speed
        lemma_mul_inequality(axs as int, len as int, speed as int);
        lemma_div_is_ordered((axs * speed) as int, (len * speed) as int, len as int);
        lemma_div_multiples_vanish(speed as int, len as int);
        assert((len * speed) as int == (len as int) * (speed as int)) by (nonlinear_arith);
        assert(mx <= speed);
        lemma_mul_inequality(ays as int, len as int, speed as int);
        lemma_div_is_ordered((ays * speed) as int, (len * speed) as int, len as int);
        assert(my <= speed);
        // the unsigned computation matches the specification components
        assert(axs as int == iabs(v@.0) * 1000);
        assert(ays as int == iabs(v@.1) * 1000);
        assert((v@.0 * 1000) * (v@.0 * 1000) == (iabs(v@.0) * 1000) * (iabs(v@.0) * 1000))
            by (nonlinear_arith);
        assert((v@.1 * 1000) * (v@.1 * 1000) == (iabs(v@.1) * 1000) * (iabs(v@.1) * 1000))
            by (nonlinear_arith);
        assert(sq as int == dir_len_sq(v@));
        assert(len as nat == dir_len(v@));
        assert(mx as nat == dir_mag(iabs(v@.0) as nat, len as nat, speed as nat));
        assert(my as nat == dir_mag(iabs(v@.1) as nat, len as nat, speed as nat));
    }
    let rx: i64 = if v.x < 0 {
        -(mx as i64)
    } else {
        mx as i64
    };
    let ry: i64 = if v.y < 0 {
        -(my as i64)
    } else {
        my as i64
    };
    IVec2 { x: rx, y: ry }
}

} // verus!
