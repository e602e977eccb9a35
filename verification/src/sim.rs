//! The per-tick pipeline. Each system is a function from the store model to
//! the store model; the executable methods are proved to compute exactly
//! those functions, in the fixed order `tick` runs them: debug toggle,
//! Santa's patrol, Elf walk, Present integration, throw spawning, collision
//! scoring, score line refresh, input recording.
//!
//! Two ordering choices are fixed here: a Present spawned this tick does
//! not move this tick (integration runs before spawning), and it is
//! eligible for collision with Santa this tick (collision runs after
//! spawning).

use vstd::prelude::*;

use crate::collision::{boxes_overlap, present_half, present_half_exec, rect_of, rect_of_exec,
    santa_half, santa_half_exec, Aabb, DebugColor, DebugRect, RectM};
use crate::curve::{santa_pos, santa_pos_spec};
use crate::input::{debug_toggle_fires, move_delta, throw_fires, RawInput};
use crate::math::{clamp_add, clamp_coord};
use crate::state::{GameState, Model, Present, PresentM, SPEED};
use crate::text::{score_line, score_line_spec};
use crate::vec2::{scaled_dir, scaled_dir_spec, IVec2};

verus! {

/// The store after the debug toggle system: the chord flips the mode,
/// anything else leaves it.
pub open spec fn toggle_model(m: Model, i: RawInput) -> Model {
    if debug_toggle_fires(m.prev_debug, i) {
        Model { debug_on: !m.debug_on, ..m }
    } else {
        m
    }
}

/// The store after Santa's patrol system: Santa, if spawned, stands at the
/// curve point for the elapsed time.
pub open spec fn santa_model(m: Model, t: nat) -> Model {
    match m.santa {
        Some(_) => Model { santa: Some(santa_pos_spec(t)), ..m },
        None => m,
    }
}

/// The Elf's step for this tick's input.
pub open spec fn elf_step(i: RawInput) -> (int, int) {
    scaled_dir_spec(move_delta(i), SPEED as nat)
}

/// The store after the Elf walk system.
pub open spec fn elf_model(m: Model, i: RawInput) -> Model {
    match m.elf {
        Some(e) => Model {
            elf: Some(
                (clamp_coord(e.0 + elf_step(i).0), clamp_coord(e.1 + elf_step(i).1)),
            ),
            ..m
        },
        None => m,
    }
}

/// One Present a tick later: its velocity added to its position.
pub open spec fn moved_present(p: PresentM) -> PresentM {
    PresentM {
        pos: (clamp_coord(p.pos.0 + p.vel.0), clamp_coord(p.pos.1 + p.vel.1)),
        ..p
    }
}

/// The store after the Present integration system.
pub open spec fn move_presents_model(m: Model) -> Model {
    Model { presents: m.presents.map_values(|p: PresentM| moved_present(p)), ..m }
}

/// The velocity of a throw from `elf` toward `cursor`: the throw speed
/// along the line between them, and zero when they coincide.
pub open spec fn throw_velocity(elf: (int, int), cursor: (int, int)) -> (int, int) {
    scaled_dir_spec((cursor.0 - elf.0, cursor.1 - elf.1), SPEED as nat)
}

/// The store after the throw system: on a fresh press, one new Present at
/// the Elf, aimed at the cursor, under the next free identity.
pub open spec fn spawn_model(m: Model, i: RawInput) -> Model {
    match m.elf {
        Some(e) => if throw_fires(m.prev_throw, m.prev_mouse, i) && m.next_id < u64::MAX {
            Model {
                presents: m.presents.push(
                    PresentM { id: m.next_id, pos: e, vel: throw_velocity(e, m.cursor) },
                ),
                next_id: m.next_id + 1,
                ..m
            }
        } else {
            m
        },
        None => m,
    }
}

/// The collision system runs only when Santa stands, both sprite sizes are
/// known, and a Present is live; otherwise it leaves the store alone.
pub open spec fn collision_active(m: Model) -> bool {
    m.santa is Some && m.santa_px is Some && m.present_px is Some && m.presents.len() > 0
}

/// Santa's position, where the collision pass is active.
pub open spec fn santa_pos_of(m: Model) -> (int, int) {
    match m.santa {
        Some(s) => s,
        None => (0int, 0int),
    }
}

/// Santa's sprite pixel size, where the collision pass is active.
pub open spec fn santa_px_of(m: Model) -> (nat, nat) {
    match m.santa_px {
        Some(p) => p,
        None => (0nat, 0nat),
    }
}

/// The Present sprite pixel size, where the collision pass is active.
pub open spec fn present_px_of(m: Model) -> (nat, nat) {
    match m.present_px {
        Some(p) => p,
        None => (0nat, 0nat),
    }
}

/// Whether a Present's box overlaps Santa's box.
pub open spec fn present_hit(m: Model, p: PresentM) -> bool {
    boxes_overlap(
        santa_pos_of(m),
        santa_half(santa_px_of(m)),
        p.pos,
        present_half(present_px_of(m)),
    )
}

/// The Presents among the first `i` that the collision pass keeps.
pub open spec fn kept_upto(m: Model, i: int) -> Seq<PresentM> {
    m.presents.take(i).filter(|p: PresentM| !present_hit(m, p))
}

/// Score addition, saturating at the counter's machine limit.
pub open spec fn score_add(s: nat, k: nat) -> nat {
    if s + k > u32::MAX {
        u32::MAX as nat
    } else {
        (s + k) as nat
    }
}

/// The store after the collision system: overlapping Presents leave the
/// store, and the score grows by one for each.
pub open spec fn collide_model(m: Model) -> Model {
    if collision_active(m) {
        let kept = kept_upto(m, m.presents.len() as int);
        Model {
            presents: kept,
            score: score_add(m.score, (m.presents.len() - kept.len()) as nat),
            ..m
        }
    } else {
        m
    }
}

/// Santa's overlay rectangle.
pub open spec fn santa_rect(m: Model) -> RectM {
    rect_of(santa_pos_of(m), santa_half(santa_px_of(m)), DebugColor::Red)
}

/// A Present's overlay rectangle.
pub open spec fn green_rect(m: Model, p: PresentM) -> RectM {
    rect_of(p.pos, present_half(present_px_of(m)), DebugColor::Green)
}

/// The overlay rectangles of the first `i` Presents, in store order.
pub open spec fn green_rects_upto(m: Model, i: int) -> Seq<RectM> {
    m.presents.take(i).map_values(|p: PresentM| green_rect(m, p))
}

/// The debug rectangles the collision pass draws: nothing with the overlay
/// off or the pass inactive; otherwise Santa's box in red, then every
/// Present's box in green, in store order.
pub open spec fn gizmos_model(m: Model) -> Seq<RectM> {
    if collision_active(m) && m.debug_on {
        seq![santa_rect(m)] + green_rects_upto(m, m.presents.len() as int)
    } else {
        Seq::empty()
    }
}

/// Taking one more Present keeps it exactly when its box misses Santa's.
pub proof fn lemma_kept_upto_step(m: Model, i: int)
    requires
        0 <= i < m.presents.len(),
    ensures
        kept_upto(m, i + 1) == (if present_hit(m, m.presents[i]) {
            kept_upto(m, i)
        } else {
            kept_upto(m, i).push(m.presents[i])
        }),
{
    reveal(Seq::filter);
    let pred = |p: PresentM| !present_hit(m, p);
    assert(m.presents.take(i + 1) =~= m.presents.take(i).push(m.presents[i]));
    assert(m.presents.take(i + 1).drop_last() =~= m.presents.take(i));
    assert(m.presents.take(i + 1).last() == m.presents[i]);
}

/// What the collision pass keeps is well formed: every kept Present is one
/// of the old ones, so positions, velocity bounds, identity bounds and
/// identity distinctness carry over; and no more are kept than were there.
pub proof fn lemma_kept_wf(m: Model, i: int)
    requires
        0 <= i <= m.presents.len(),
        forall|k: int|
            0 <= k < m.presents.len() ==> crate::state::present_m_wf(#[trigger] m.presents[k]),
        forall|k: int| 0 <= k < m.presents.len() ==> (#[trigger] m.presents[k]).id < m.next_id,
        forall|k: int, j: int|
            0 <= k < j < m.presents.len() ==> (#[trigger] m.presents[k]).id != (
            #[trigger] m.presents[j]).id,
    ensures
        forall|k: int|
            0 <= k < kept_upto(m, i).len() ==> crate::state::present_m_wf(
                #[trigger] kept_upto(m, i)[k]),
        forall|k: int|
            0 <= k < kept_upto(m, i).len() ==> (#[trigger] kept_upto(m, i)[k]).id < m.next_id,
        forall|k: int, j: int|
            0 <= k < j < kept_upto(m, i).len() ==> (#[trigger] kept_upto(m, i)[k]).id != (
            #[trigger] kept_upto(m, i)[j]).id,
        kept_upto(m, i).len() <= i,
        forall|k: int|
            0 <= k < kept_upto(m, i).len() ==> exists|j: int|
                0 <= j < i && #[trigger] kept_upto(m, i)[k] == m.presents[j],
        forall|k: int|
            0 <= k < kept_upto(m, i).len() ==> !present_hit(m, #[trigger] kept_upto(m, i)[k]),
    decreases i,
{
    if i == 0 {
        reveal(Seq::filter);
        assert(m.presents.take(0) =~= Seq::<PresentM>::empty());
        assert(kept_upto(m, 0) =~= Seq::<PresentM>::empty());
    } else {
        lemma_kept_wf(m, i - 1);
        lemma_kept_upto_step(m, i - 1);
        let prev = kept_upto(m, i - 1);
        let cur = kept_upto(m, i);
        if !present_hit(m, m.presents[i - 1]) {
            assert(cur == prev.push(m.presents[i - 1]));
            assert forall|k: int| 0 <= k < cur.len() implies exists|j: int|
                0 <= j < i && #[trigger] cur[k] == m.presents[j] by {
                if k < prev.len() {
                    assert(cur[k] == prev[k]);
                } else {
                    assert(cur[k] == m.presents[i - 1]);
                }
            }
            assert forall|k: int, j: int| 0 <= k < j < cur.len() implies (#[trigger] cur[k]).id
                != (#[trigger] cur[j]).id by {
                if j < prev.len() {
                } else {
                    let jj = choose|jj: int| 0 <= jj < i - 1 && #[trigger] prev[k] == m.presents[
                        jj];
                    assert(m.presents[jj].id != m.presents[i - 1].id);
                }
            }
        }
    }
}

/// The store after the score line refresh.
pub open spec fn draw_score_model(m: Model) -> Model {
    Model { text: score_line_spec(m.score), ..m }
}

/// The store after this tick's levels are recorded for edge detection.
pub open spec fn record_input_model(m: Model, i: RawInput) -> Model {
    Model { prev_throw: i.throw_key, prev_mouse: i.mouse, prev_debug: i.debug_key, ..m }
}

/// The store as the collision system finds it.
pub open spec fn pre_collision_model(m: Model, i: RawInput, t: nat) -> Model {
    spawn_model(move_presents_model(elf_model(santa_model(toggle_model(m, i), t), i)), i)
}

/// One whole simulation tick.
pub open spec fn tick_model(m: Model, i: RawInput, t: nat) -> Model {
    record_input_model(draw_score_model(collide_model(pre_collision_model(m, i, t))), i)
}

impl GameState {
    /// Flips the debug mode when the chord fires: the debug key freshly
    /// pressed while the modifier is held.
    pub fn toggle_debug_mode(&mut self, input: &RawInput)
        requires
            old(self).wf(),
        ensures
            final(self).wf(),
            final(self)@ =~= toggle_model(old(self)@, *input),
    {
        if input.debug_key && !self.prev_debug && input.modifier {
            self.debug = self.debug.toggle();
        }
    }

    /// Moves Santa to the patrol curve point for the elapsed time.
    pub fn move_santa(&mut self, elapsed_ms: u64)
        requires
            old(self).wf(),
        ensures
            final(self).wf(),
            final(self)@ =~= santa_model(old(self)@, elapsed_ms as nat),
    {
        match self.santa {
            Some(_) => {
                self.santa = Some(santa_pos(elapsed_ms));
            },
            None => {},
        }
    }

    /// Walks the Elf by the normalized movement intent times the walk
    /// speed.
    pub fn move_elf(&mut self, input: &RawInput)
        requires
            old(self).wf(),
        ensures
            final(self).wf(),
            final(self)@ =~= elf_model(old(self)@, *input),
    {
        match self.elf {
            Some(e) => {
                let dx: i64 = (if input.right {
                    1
                } else {
                    0
                }) - (if input.left {
                    1
                } else {
                    0
                });
                let dy: i64 = (if input.up {
                    1
                } else {
                    0
                }) - (if input.down {
                    1
                } else {
                    0
                });
                let step = scaled_dir(IVec2 { x: dx, y: dy }, SPEED);
                let nx = clamp_add(e.x, step.x);
                let ny = clamp_add(e.y, step.y);
                self.elf = Some(IVec2 { x: nx, y: ny });
            },
            None => {},
        }
    }

    /// Adds each live Present's velocity to its position.
    pub fn move_present(&mut self)
        requires
            old(self).wf(),
        ensures
            final(self).wf(),
            final(self)@ =~= move_presents_model(old(self)@),
    {
        let ghost target: Seq<PresentM> = self@.presents.map_values(
            |p: PresentM| moved_present(p),
        );
        let n = self.presents.len();
        let mut out: Vec<Present> = Vec::new();
        let mut i: usize = 0;
        while i < n
            invariant
                *self == *old(self),
                old(self).wf(),
                n == self.presents.len(),
                i <= n,
                target == self@.presents.map_values(|p: PresentM| moved_present(p)),
                out@.map_values(|p: Present| p@) =~= target.take(i as int),
            decreases n - i,
        {
            let p = self.presents[i];
            assert(p@ == self@.presents[i as int]);
            assert(crate::state::present_m_wf(self@.presents[i as int]));
            let moved = Present {
                id: p.id,
                pos: IVec2 { x: clamp_add(p.pos.x, p.vel.x), y: clamp_add(p.pos.y, p.vel.y) },
                vel: p.vel,
            };
            out.push(moved);
            proof {
                assert(moved@ =~= moved_present(self@.presents[i as int]));
                assert(target.take(i + 1) =~= target.take(i as int).push(target[i as int]));
                assert(out@.map_values(|p: Present| p@) =~= target.take(i + 1));
            }
            i = i + 1;
        }
        proof {
            assert(target.take(n as int) =~= target);
        }
        self.presents = out;
        assert(self@ =~= move_presents_model(old(self)@));
    }

    /// Spawns one Present at the Elf, aimed at the cursor, when the throw
    /// intent fires.
    pub fn throw_present(&mut self, input: &RawInput)
        requires
            old(self).wf(),
        ensures
            final(self).wf(),
            final(self)@ =~= spawn_model(old(self)@, *input),
    {
        match self.elf {
            Some(e) => {
                let fires = (input.throw_key && !self.prev_throw) || (input.mouse
                    && !self.prev_mouse);
                if fires && self.next_id < u64::MAX {
                    let dx: i64 = self.cursor.0.x - e.x;
                    let dy: i64 = self.cursor.0.y - e.y;
                    let vel = scaled_dir(IVec2 { x: dx, y: dy }, SPEED);
                    let p = Present { id: self.next_id, pos: e, vel };
                    proof {
                        assert(p@ =~= PresentM {
                            id: old(self)@.next_id,
                            pos: old(self)@.elf.unwrap(),
                            vel: throw_velocity(old(self)@.elf.unwrap(), old(self)@.cursor),
                        });
                    }
                    self.presents.push(p);
                    self.next_id = self.next_id + 1;
                    assert(self@.presents =~= spawn_model(old(self)@, *input).presents);
                }
            },
            None => {},
        }
    }

    /// Removes every Present whose box overlaps Santa's and scores one
    /// point for each; hands back the debug rectangles of the pass.
    pub fn handle_santa_present_collisions(&mut self) -> (gizmos: Vec<DebugRect>)
        requires
            old(self).wf(),
        ensures
            final(self).wf(),
            final(self)@ =~= collide_model(old(self)@),
            gizmos@.map_values(|r: DebugRect| r@) =~= gizmos_model(old(self)@),
    {
        let mut gizmos: Vec<DebugRect> = Vec::new();
        if self.presents.len() == 0 {
            return gizmos;
        }
        let s_pos = match self.santa {
            Some(s) => s,
            None => {
                return gizmos;
            },
        };
        let (sw, sh) = match self.santa_px {
            Some(p) => p,
            None => {
                return gizmos;
            },
        };
        let (pw, ph) = match self.present_px {
            Some(p) => p,
            None => {
                return gizmos;
            },
        };
        let ghost m: Model = self@;
        let shalf = santa_half_exec(sw, sh);
        let phalf = present_half_exec(pw, ph);
        let sbox = Aabb::new(s_pos, shalf);
        let debug_on = self.debug.is_on();
        if debug_on {
            gizmos.push(rect_of_exec(s_pos, shalf, DebugColor::Red));
        }
        let n = self.presents.len();
        let mut kept: Vec<Present> = Vec::new();
        let mut score: u32 = self.score;
        let mut i: usize = 0;
        while i < n
            invariant
                *self == *old(self),
                old(self).wf(),
                m == self@,
                collision_active(m),
                m.santa == Some(s_pos@),
                m.santa_px == Some((sw as nat, sh as nat)),
                m.present_px == Some((pw as nat, ph as nat)),
                shalf@ == santa_half(santa_px_of(m)),
                phalf@ == present_half(present_px_of(m)),
                sbox.center == s_pos && sbox.half == shalf,
                debug_on == m.debug_on,
                n == self.presents.len(),
                i <= n,
                kept@.map_values(|p: Present| p@) =~= kept_upto(m, i as int),
                kept@.len() <= i,
                score as nat == score_add(m.score, (i - kept@.len()) as nat),
                m.debug_on ==> gizmos@.map_values(|r: DebugRect| r@) =~= seq![santa_rect(m)]
                    + green_rects_upto(m, i as int),
                !m.debug_on ==> gizmos@.len() == 0,
            decreases n - i,
        {
            let p = self.presents[i];
            assert(p@ == m.presents[i as int]);
            assert(crate::state::present_m_wf(m.presents[i as int]));
            let pbox = Aabb::new(p.pos, phalf);
            proof {
                assert(m.presents.take(i + 1) =~= m.presents.take(i as int).push(
                    m.presents[i as int]));
            }
            if debug_on {
                let ghost gprev = gizmos@;
                let grect = rect_of_exec(p.pos, phalf, DebugColor::Green);
                gizmos.push(grect);
                proof {
                    assert(grect@ == green_rect(m, m.presents[i as int]));
                    assert(gizmos@ =~= gprev.push(grect));
                    assert(gizmos@.map_values(|r: DebugRect| r@) =~= gprev.map_values(
                        |r: DebugRect| r@).push(grect@));
                    assert(green_rects_upto(m, i + 1) =~= green_rects_upto(m, i as int).push(
                        green_rect(m, m.presents[i as int])));
                    assert(gizmos@.map_values(|r: DebugRect| r@) =~= seq![santa_rect(m)]
                        + green_rects_upto(m, i + 1));
                }
            }
            let is_hit = sbox.intersects(&pbox);
            assert(is_hit == present_hit(m, m.presents[i as int]));
            proof {
                lemma_kept_upto_step(m, i as int);
            }
            if is_hit {
                score = if score < u32::MAX {
                    score + 1
                } else {
                    score
                };
            } else {
                kept.push(p);
                assert(kept@.map_values(|q: Present| q@) =~= kept_upto(m, i + 1));
            }
            i = i + 1;
        }
        proof {
            lemma_kept_wf(m, n as int);
            if m.debug_on {
                assert(m.presents.take(n as int) =~= m.presents);
            }
        }
        self.presents = kept;
        self.score = score;
        assert(self@ =~= collide_model(old(self)@));
        assert(gizmos@.map_values(|r: DebugRect| r@) =~= gizmos_model(old(self)@));
        gizmos
    }

    /// Creates the score line when the session starts, from the score the
    /// store already holds.
    pub fn spawn_score_text(&mut self)
        requires
            old(self).wf(),
        ensures
            final(self).wf(),
            final(self)@ =~= draw_score_model(old(self)@),
    {
        self.score_line = score_line(self.score);
    }

    /// Refreshes the rendered score line.
    pub fn draw_score(&mut self)
        requires
            old(self).wf(),
        ensures
            final(self).wf(),
            final(self)@ =~= draw_score_model(old(self)@),
    {
        self.score_line = score_line(self.score);
    }

    /// Records this tick's levels for next tick's edge detection.
    pub fn record_input(&mut self, input: &RawInput)
        requires
            old(self).wf(),
        ensures
            final(self).wf(),
            final(self)@ =~= record_input_model(old(self)@, *input),
    {
        self.prev_throw = input.throw_key;
        self.prev_mouse = input.mouse;
        self.prev_debug = input.debug_key;
    }

    /// Runs one simulation tick: debug toggle, Santa patrol, Elf walk,
    /// Present integration, throw spawning, collision scoring, score line
    /// refresh, input recording. Hands back the debug rectangles the
    /// collision pass drew.
    pub fn tick(&mut self, input: &RawInput, elapsed_ms: u64) -> (gizmos: Vec<DebugRect>)
        requires
            old(self).wf(),
        ensures
            final(self).wf(),
            final(self)@ =~= tick_model(old(self)@, *input, elapsed_ms as nat),
            gizmos@.map_values(|r: DebugRect| r@) =~= gizmos_model(
                pre_collision_model(old(self)@, *input, elapsed_ms as nat)),
    {
        self.toggle_debug_mode(input);
        self.move_santa(elapsed_ms);
        self.move_elf(input);
        self.move_present();
        self.throw_present(input);
        let gizmos = self.handle_santa_present_collisions();
        self.draw_score();
        self.record_input(input);
        gizmos
    }
}

} // verus!
