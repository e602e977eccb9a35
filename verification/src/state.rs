//! The entity store: one optional Santa and Elf, the live Presents, the
//! score, the debug mode, the sticky cursor, the sprite sizes the collision
//! system needs, and the rendered score line — together with the
//! mathematical model of a store and its well-formedness invariant.

use vstd::prelude::*;

use crate::math::{clamp_coord, clamp_coord_exec, iabs, WORLD_MAX};
use crate::vec2::{in_world, IVec2};

verus! {

/// World units an entity moves per tick when walking or thrown.
pub const SPEED: i64 = 10;

/// Whether the debug overlay is active.
#[derive(Clone, Copy, PartialEq, Eq, Structural, Debug, Hash)]
pub enum DebugMode {
    On,
    Off,
}

impl DebugMode {
    /// The other mode.
    pub open spec fn toggled(self) -> DebugMode {
        match self {
            DebugMode::On => DebugMode::Off,
            DebugMode::Off => DebugMode::On,
        }
    }

    /// Flips between `On` and `Off`.
    pub fn toggle(&self) -> (r: DebugMode)
        ensures
            r == self.toggled(),
    {
        match self {
            DebugMode::On => DebugMode::Off,
            DebugMode::Off => DebugMode::On,
        }
    }

    /// Whether this is `On`.
    pub open spec fn spec_is_on(self) -> bool {
        self is On
    }

    /// Decides whether this is `On`.
    pub fn is_on(&self) -> (r: bool)
        ensures
            r == self.spec_is_on(),
    {
        match self {
            DebugMode::On => true,
            DebugMode::Off => false,
        }
    }
}

impl Default for DebugMode {
    /// The overlay starts `Off`.
    fn default() -> (r: DebugMode)
        ensures
            r == DebugMode::Off,
    {
        DebugMode::Off
    }
}

/// The last known world-space cursor position. It is not updated while the
/// cursor is outside the window: it keeps its last value.
pub struct CursorPosition(pub IVec2);

impl View for CursorPosition {
    type V = (int, int);

    open spec fn view(&self) -> (int, int) {
        self.0@
    }
}

/// A thrown Present: a stable identity, a position, and the fixed velocity
/// it got when thrown.
#[derive(Clone, Copy)]
pub struct Present {
    pub id: u64,
    pub pos: IVec2,
    pub vel: IVec2,
}

/// The mathematical value of a Present.
#[verifier::ext_equal]
pub struct PresentM {
    pub id: nat,
    pub pos: (int, int),
    pub vel: (int, int),
}

impl View for Present {
    type V = PresentM;

    open spec fn view(&self) -> PresentM {
        PresentM { id: self.id as nat, pos: self.pos@, vel: self.vel@ }
    }
}

/// The mathematical value of the whole store.
#[verifier::ext_equal]
pub struct Model {
    pub santa: Option<(int, int)>,
    pub elf: Option<(int, int)>,
    pub cursor: (int, int),
    pub presents: Seq<PresentM>,
    pub next_id: nat,
    pub score: nat,
    pub debug_on: bool,
    pub prev_throw: bool,
    pub prev_mouse: bool,
    pub prev_debug: bool,
    pub santa_px: Option<(nat, nat)>,
    pub present_px: Option<(nat, nat)>,
    pub text: Seq<u8>,
}

/// The entity store.
pub struct GameState {
    pub santa: Option<IVec2>,
    pub elf: Option<IVec2>,
    pub cursor: CursorPosition,
    pub presents: Vec<Present>,
    pub next_id: u64,
    pub score: u32,
    pub debug: DebugMode,
    pub prev_throw: bool,
    pub prev_mouse: bool,
    pub prev_debug: bool,
    pub santa_px: Option<(u32, u32)>,
    pub present_px: Option<(u32, u32)>,
    pub score_line: Vec<u8>,
}

/// The mathematical value of an optional position.
pub open spec fn opt_pos_view(p: Option<IVec2>) -> Option<(int, int)> {
    match p {
        Some(v) => Some(v@),
        None => None,
    }
}

/// The mathematical value of an optional pixel size.
pub open spec fn opt_px_view(p: Option<(u32, u32)>) -> Option<(nat, nat)> {
    match p {
        Some(v) => Some((v.0 as nat, v.1 as nat)),
        None => None,
    }
}

impl View for GameState {
    type V = Model;

    open spec fn view(&self) -> Model {
        Model {
            santa: opt_pos_view(self.santa),
            elf: opt_pos_view(self.elf),
            cursor: self.cursor@,
            presents: self.presents@.map_values(|p: Present| p@),
            next_id: self.next_id as nat,
            score: self.score as nat,
            debug_on: self.debug.spec_is_on(),
            prev_throw: self.prev_throw,
            prev_mouse: self.prev_mouse,
            prev_debug: self.prev_debug,
            santa_px: opt_px_view(self.santa_px),
            present_px: opt_px_view(self.present_px),
            text: self.score_line@,
        }
    }
}

/// An optional position lies in the world.
pub open spec fn opt_in_world(p: Option<(int, int)>) -> bool {
    match p {
        Some(q) => in_world(q),
        None => true,
    }
}

/// A well-formed Present: in the world, no faster than the throw speed.
pub open spec fn present_m_wf(p: PresentM) -> bool {
    in_world(p.pos) && iabs(p.vel.0) <= SPEED && iabs(p.vel.1) <= SPEED
}

/// The store invariant: positions in the world, Present identities unique
/// and below the next free identity, counters within their machine range.
pub open spec fn wf_model(m: Model) -> bool {
    &&& opt_in_world(m.santa)
    &&& opt_in_world(m.elf)
    &&& in_world(m.cursor)
    &&& (forall|i: int|
        0 <= i < m.presents.len() ==> present_m_wf(#[trigger] m.presents[i]))
    &&& (forall|i: int|
        0 <= i < m.presents.len() ==> (#[trigger] m.presents[i]).id < m.next_id)
    &&& (forall|i: int, j: int|
        0 <= i < j < m.presents.len() ==> (#[trigger] m.presents[i]).id != (
        #[trigger] m.presents[j]).id)
    &&& m.next_id <= u64::MAX
    &&& m.score <= u32::MAX
}

/// The store a session starts from: nothing spawned, score zero, overlay
/// off, cursor at the origin.
pub open spec fn init_model() -> Model {
    Model {
        santa: None,
        elf: None,
        cursor: (0, 0),
        presents: Seq::empty(),
        next_id: 0,
        score: 0,
        debug_on: false,
        prev_throw: false,
        prev_mouse: false,
        prev_debug: false,
        santa_px: None,
        present_px: None,
        text: Seq::empty(),
    }
}

/// The store after Santa is placed at the origin.
pub open spec fn spawn_santa_model(m: Model) -> Model {
    Model { santa: Some((0int, 0int)), ..m }
}

/// The store after the Elf is placed at its start.
pub open spec fn spawn_elf_model(m: Model) -> Model {
    Model { elf: Some((100int, 100int)), ..m }
}

/// The store after the cursor sample `c` is taken: a reported position is
/// clamped to the world and kept; an absent one leaves the cursor alone.
pub open spec fn cursor_model(m: Model, c: Option<(int, int)>) -> Model {
    match c {
        Some(p) => Model { cursor: (clamp_coord(p.0), clamp_coord(p.1)), ..m },
        None => m,
    }
}

impl GameState {
    /// The store invariant.
    pub open spec fn wf(&self) -> bool {
        wf_model(self@)
    }

    /// A fresh store.
    pub fn new() -> (r: GameState)
        ensures
            r@ =~= init_model(),
            r.wf(),
    {
        GameState {
            santa: None,
            elf: None,
            cursor: CursorPosition(IVec2 { x: 0, y: 0 }),
            presents: Vec::new(),
            next_id: 0,
            score: 0,
            debug: DebugMode::Off,
            prev_throw: false,
            prev_mouse: false,
            prev_debug: false,
            santa_px: None,
            present_px: None,
            score_line: Vec::new(),
        }
    }

    /// Places Santa at the origin.
    pub fn spawn_santa(&mut self)
        requires
            old(self).wf(),
        ensures
            final(self).wf(),
            final(self)@ =~= spawn_santa_model(old(self)@),
    {
        self.santa = Some(IVec2 { x: 0, y: 0 });
    }

    /// Places the Elf at its starting corner.
    pub fn spawn_elf(&mut self)
        requires
            old(self).wf(),
        ensures
            final(self).wf(),
            final(self)@ =~= spawn_elf_model(old(self)@),
    {
        self.elf = Some(IVec2 { x: 100, y: 100 });
    }

    /// Records the pixel size of Santa's sprite once the asset resolves.
    pub fn set_santa_sprite_size(&mut self, w: u32, h: u32)
        requires
            old(self).wf(),
        ensures
            final(self).wf(),
            final(self)@ =~= (Model { santa_px: Some((w as nat, h as nat)), ..old(self)@ }),
    {
        self.santa_px = Some((w, h));
    }

    /// Records the pixel size of the Present sprite once the asset resolves.
    pub fn set_present_sprite_size(&mut self, w: u32, h: u32)
        requires
            old(self).wf(),
        ensures
            final(self).wf(),
            final(self)@ =~= (Model { present_px: Some((w as nat, h as nat)), ..old(self)@ }),
    {
        self.present_px = Some((w, h));
    }

    /// Takes a cursor sample: a reported world position is clamped and
    /// stored; when none is reported the last value stays.
    pub fn update_cursor_position(&mut self, c: Option<IVec2>)
        requires
            old(self).wf(),
        ensures
            final(self).wf(),
            final(self)@ =~= cursor_model(old(self)@, opt_pos_view(c)),
    {
        match c {
            Some(p) => {
                let x = clamp_coord_exec(p.x);
                let y = clamp_coord_exec(p.y);
                self.cursor = CursorPosition(IVec2 { x, y });
            },
            None => {},
        }
    }

    /// The current score.
    pub fn get_score(&self) -> (r: u32)
        ensures
            r as nat == self@.score,
    {
        self.score
    }

    /// Whether the inspector overlay is active: it mirrors the debug mode.
    pub fn inspector_overlay_enabled(&self) -> (r: bool)
        ensures
            r == self@.debug_on,
    {
        self.debug.is_on()
    }

    /// Whether the frame-rate overlay is visible: it mirrors the debug mode.
    pub fn fps_overlay_enabled(&self) -> (r: bool)
        ensures
            r == self@.debug_on,
    {
        self.debug.is_on()
    }
}

} // verus!
