//! The raw input levels the simulation samples each tick, and the intents
//! derived from them. The input provider merges equivalent physical keys
//! (an arrow key or its letter twin both raise the same flag; one physical
//! key may raise several flags, as with a movement key that also serves as
//! the debug chord key). Edge-triggered intents compare this tick's levels
//! with the levels recorded on the previous tick.

use vstd::prelude::*;

verus! {

/// Key and button levels for one tick: `true` means held.
#[derive(Clone, Copy, PartialEq, Eq, Structural, Debug)]
pub struct RawInput {
    /// Move left is held.
    pub left: bool,
    /// Move right is held.
    pub right: bool,
    /// Move up is held.
    pub up: bool,
    /// Move down is held.
    pub down: bool,
    /// The throw key is held.
    pub throw_key: bool,
    /// The primary mouse button is held.
    pub mouse: bool,
    /// The debug key is held.
    pub debug_key: bool,
    /// The chord modifier is held.
    pub modifier: bool,
}

impl RawInput {
    /// An input with nothing held.
    pub fn released() -> (r: RawInput)
        ensures
            !r.left,
            !r.right,
            !r.up,
            !r.down,
            !r.throw_key,
            !r.mouse,
            !r.debug_key,
            !r.modifier,
    {
        RawInput {
            left: false,
            right: false,
            up: false,
            down: false,
            throw_key: false,
            mouse: false,
            debug_key: false,
            modifier: false,
        }
    }
}

/// The unnormalized movement intent: each axis is `-1`, `0` or `1`.
pub open spec fn move_delta(i: RawInput) -> (int, int) {
    (
        (if i.right {
            1int
        } else {
            0int
        }) - (if i.left {
            1int
        } else {
            0int
        }),
        (if i.up {
            1int
        } else {
            0int
        }) - (if i.down {
            1int
        } else {
            0int
        }),
    )
}

/// The throw intent fires on the tick the throw key or the mouse button
/// goes down, never while one merely stays down.
pub open spec fn throw_fires(prev_throw: bool, prev_mouse: bool, i: RawInput) -> bool {
    (i.throw_key && !prev_throw) || (i.mouse && !prev_mouse)
}

/// The debug toggle fires on the tick the debug key goes down while the
/// modifier is held; the key alone never fires it.
pub open spec fn debug_toggle_fires(prev_debug: bool, i: RawInput) -> bool {
    i.debug_key && !prev_debug && i.modifier
}

} // verus!
