//! Axis-aligned bounding boxes: the overlap test, the half-extents derived
//! from sprite pixel sizes, and the rectangles handed out for the debug
//! overlay.

use vstd::prelude::*;

use crate::math::{iabs, WORLD_MAX};
use crate::vec2::{in_world, IVec2};

verus! {

/// An axis-aligned box: a center and nonnegative half-extents per axis.
#[derive(Clone, Copy, PartialEq, Eq, Structural, Debug)]
pub struct Aabb {
    pub center: IVec2,
    pub half: IVec2,
}

/// Two boxes overlap when their extents meet on both axes.
pub open spec fn boxes_overlap(
    ca: (int, int),
    ha: (int, int),
    cb: (int, int),
    hb: (int, int),
) -> bool {
    iabs(ca.0 - cb.0) <= ha.0 + hb.0 && iabs(ca.1 - cb.1) <= ha.1 + hb.1
}

/// A half-extent is usable when it is nonnegative and no wider than a
/// sprite could be.
pub open spec fn half_ok(h: (int, int)) -> bool {
    0 <= h.0 <= 0x8000_0000 && 0 <= h.1 <= 0x8000_0000
}

impl Aabb {
    /// A box from its center and half-extents.
    pub fn new(center: IVec2, half: IVec2) -> (r: Aabb)
        ensures
            r.center == center,
            r.half == half,
    {
        Aabb { center, half }
    }

    /// Decides the overlap test against another box.
    pub fn intersects(&self, other: &Aabb) -> (r: bool)
        requires
            in_world(self.center@),
            in_world(other.center@),
            half_ok(self.half@),
            half_ok(other.half@),
        ensures
            r == boxes_overlap(self.center@, self.half@, other.center@, other.half@),
    {
        let dx: i64 = self.center.x - other.center.x;
        let adx: i64 = if dx < 0 {
            -dx
        } else {
            dx
        };
        let dy: i64 = self.center.y - other.center.y;
        let ady: i64 = if dy < 0 {
            -dy
        } else {
            dy
        };
        adx <= self.half.x + other.half.x && ady <= self.half.y + other.half.y
    }
}

/// Santa's half-extents: half the sprite's pixel size, unscaled.
pub open spec fn santa_half(px: (nat, nat)) -> (int, int) {
    ((px.0 / 2) as int, (px.1 / 2) as int)
}

/// A Present's half-extents: half the sprite's pixel size times the fixed
/// one-tenth Present scale, rounded down.
pub open spec fn present_half(px: (nat, nat)) -> (int, int) {
    ((px.0 / 20) as int, (px.1 / 20) as int)
}

/// Computes `santa_half`.
pub fn santa_half_exec(w: u32, h: u32) -> (r: IVec2)
    ensures
        r@ == santa_half((w as nat, h as nat)),
        half_ok(r@),
{
    IVec2 { x: (w / 2) as i64, y: (h / 2) as i64 }
}

/// Computes `present_half`.
pub fn present_half_exec(w: u32, h: u32) -> (r: IVec2)
    ensures
        r@ == present_half((w as nat, h as nat)),
        half_ok(r@),
{
    IVec2 { x: (w / 20) as i64, y: (h / 20) as i64 }
}

/// The color a debug rectangle is drawn in.
#[derive(Clone, Copy, PartialEq, Eq, Structural, Debug)]
pub enum DebugColor {
    /// Santa's bounding box.
    Red,
    /// A Present's bounding box.
    Green,
}

/// A rectangle outline for the debug overlay: a center and a full size.
#[derive(Clone, Copy, PartialEq, Eq, Structural, Debug)]
pub struct DebugRect {
    pub center: IVec2,
    pub size: IVec2,
    pub color: DebugColor,
}

/// The mathematical value of a debug rectangle.
#[verifier::ext_equal]
pub struct RectM {
    pub center: (int, int),
    pub size: (int, int),
    pub color: DebugColor,
}

impl View for DebugRect {
    type V = RectM;

    open spec fn view(&self) -> RectM {
        RectM { center: self.center@, size: self.size@, color: self.color }
    }
}

/// The overlay rectangle of a box: its center and twice its half-extents.
pub open spec fn rect_of(c: (int, int), h: (int, int), color: DebugColor) -> RectM {
    RectM { center: c, size: (2 * h.0, 2 * h.1), color }
}

/// Builds the overlay rectangle of a box.
pub fn rect_of_exec(c: IVec2, h: IVec2, color: DebugColor) -> (r: DebugRect)
    requires
        half_ok(h@),
    ensures
        r@ == rect_of(c@, h@, color),
{
    DebugRect { center: c, size: IVec2 { x: 2 * h.x, y: 2 * h.y }, color }
}

} // verus!
