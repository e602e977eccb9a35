//! The laws of the simulation, each proved once and for all: wrap-correct
//! patrol, bounded walk intents, edge-triggered throwing, removal without
//! return, monotone score, and the chord-gated debug toggle.

use vstd::prelude::*;

use crate::curve::{lemma_santa_pos_in_world, santa_pos_spec, WRAP_MS};
use crate::input::{debug_toggle_fires, move_delta, throw_fires, RawInput};
use crate::math::{iabs, is_sqrt, lemma_sqrt_floor_is_sqrt, lemma_sqrt_unique, sqrt_floor};
use crate::sim::{collide_model, collision_active, draw_score_model, elf_model, elf_step,
    kept_upto, lemma_kept_upto_step, lemma_kept_wf, move_presents_model, moved_present,
    pre_collision_model, present_hit, record_input_model, santa_model, spawn_model,
    tick_model, toggle_model};
use crate::state::{present_m_wf, wf_model, Model, PresentM, SPEED};
use crate::vec2::{dir_len, dir_len_sq, dir_mag, lemma_scaled_dir_spec_bounds};

verus! {

/// The store after a whole sequence of ticks.
pub open spec fn run_model(m: Model, steps: Seq<(RawInput, nat)>) -> Model
    decreases steps.len(),
{
    if steps.len() == 0 {
        m
    } else {
        run_model(tick_model(m, steps[0].0, steps[0].1), steps.drop_first())
    }
}

/// A square root value is pinned by its bounds.
proof fn sqrt_exact(n: nat, r: nat)
    requires
        is_sqrt(n, r),
    ensures
        sqrt_floor(n) == r,
{
    lemma_sqrt_floor_is_sqrt(n);
    lemma_sqrt_unique(n, sqrt_floor(n), r);
}

/// Every tick keeps the store well formed, and already keeps it well
/// formed at the moment the collision pass sees it.
pub proof fn lemma_tick_model_wf(m: Model, i: RawInput, t: nat)
    requires
        wf_model(m),
    ensures
        wf_model(pre_collision_model(m, i, t)),
        wf_model(tick_model(m, i, t)),
{
    let m1 = toggle_model(m, i);
    assert(wf_model(m1));
    let m2 = santa_model(m1, t);
    lemma_santa_pos_in_world(t);
    assert(wf_model(m2));
    let m3 = elf_model(m2, i);
    assert(wf_model(m3));
    let m4 = move_presents_model(m3);
    assert forall|k: int| 0 <= k < m4.presents.len() implies present_m_wf(
        #[trigger] m4.presents[k]) by {
        assert(m4.presents[k] == moved_present(m3.presents[k]));
        assert(present_m_wf(m3.presents[k]));
    }
    assert forall|k: int| 0 <= k < m4.presents.len() implies (#[trigger] m4.presents[k]).id
        < m4.next_id by {
        assert(m4.presents[k] == moved_present(m3.presents[k]));
    }
    assert forall|k: int, j: int| 0 <= k < j < m4.presents.len() implies (
    #[trigger] m4.presents[k]).id != (#[trigger] m4.presents[j]).id by {
        assert(m4.presents[k] == moved_present(m3.presents[k]));
        assert(m4.presents[j] == moved_present(m3.presents[j]));
    }
    assert(wf_model(m4));
    let m5 = spawn_model(m4, i);
    match m4.elf {
        Some(e) => {
            if throw_fires(m4.prev_throw, m4.prev_mouse, i) && m4.next_id < u64::MAX {
                lemma_scaled_dir_spec_bounds(
                    (m4.cursor.0 - e.0, m4.cursor.1 - e.1),
                    SPEED as nat,
                );
                let newp = PresentM {
                    id: m4.next_id,
                    pos: e,
                    vel: crate::sim::throw_velocity(e, m4.cursor),
                };
                assert(m5.presents == m4.presents.push(newp));
                assert forall|k: int| 0 <= k < m5.presents.len() implies present_m_wf(
                    #[trigger] m5.presents[k]) && m5.presents[k].id < m5.next_id by {
                    if k < m4.presents.len() {
                        assert(m5.presents[k] == m4.presents[k]);
                    } else {
                        assert(m5.presents[k] == newp);
                    }
                }
                assert forall|k: int, j: int| 0 <= k < j < m5.presents.len() implies (
                #[trigger] m5.presents[k]).id != (#[trigger] m5.presents[j]).id by {
                    if j < m4.presents.len() {
                    } else {
                        assert(m5.presents[j] == newp);
                        assert(m5.presents[k] == m4.presents[k]);
                        assert(m4.presents[k].id < m4.next_id);
                    }
                }
            }
        },
        None => {},
    }
    assert(wf_model(m5));
    let m6 = collide_model(m5);
    if collision_active(m5) {
        lemma_kept_wf(m5, m5.presents.len() as int);
    }
    assert(wf_model(m6));
    assert(wf_model(draw_score_model(m6)));
    assert(wf_model(record_input_model(draw_score_model(m6), i)));
}

/// Elapsed times congruent modulo the wrap period put Santa at the same
/// point of the patrol curve.
pub proof fn lemma_santa_wrap(t1: nat, t2: nat)
    requires
        t1 % (WRAP_MS as nat) == t2 % (WRAP_MS as nat),
    ensures
        santa_pos_spec(t1) == santa_pos_spec(t2),
{
}

/// The raw movement intent lies in `{-1, 0, 1}` on each axis; the walk
/// step is zero exactly when nothing is pressed, and otherwise its squared
/// length is `98` (a diagonal) or `100` (an axis): never an undefined
/// direction.
pub proof fn lemma_elf_step(i: RawInput)
    ensures
        -1 <= move_delta(i).0 <= 1,
        -1 <= move_delta(i).1 <= 1,
        (move_delta(i) == (0int, 0int)) <==> (elf_step(i) == (0int, 0int)),
        move_delta(i) != (0int, 0int) ==> elf_step(i).0 * elf_step(i).0 + elf_step(i).1
            * elf_step(i).1 == (if move_delta(i).0 != 0 && move_delta(i).1 != 0 {
            98int
        } else {
            100int
        }),
{
    let d = move_delta(i);
    let s = elf_step(i);
    if d == (0int, 0int) {
        assert(s == (0int, 0int));
    } else {
        assert(is_sqrt(1_000_000, 1000)) by (nonlinear_arith);
        assert(is_sqrt(2_000_000, 1414)) by (nonlinear_arith);
        assert((d.0 * 1000) * (d.0 * 1000) == (if d.0 == 0 {
            0int
        } else {
            1_000_000int
        })) by (nonlinear_arith)
            requires
                d.0 == -1 || d.0 == 0 || d.0 == 1,
        ;
        assert((d.1 * 1000) * (d.1 * 1000) == (if d.1 == 0 {
            0int
        } else {
            1_000_000int
        })) by (nonlinear_arith)
            requires
                d.1 == -1 || d.1 == 0 || d.1 == 1,
        ;
        if d.0 != 0 && d.1 != 0 {
            assert(dir_len_sq(d) == 2_000_000);
            sqrt_exact(2_000_000, 1414);
            assert(dir_len(d) == 1414);
            assert((1nat * 1000) * 10 == 10000) by (nonlinear_arith);
            assert(dir_mag(1, 1414, 10) == 10000nat / 1414);
            assert(dir_mag(1, 1414, 10) == 7);
            assert(iabs(s.0) == 7 && iabs(s.1) == 7);
            assert(s.0 * s.0 + s.1 * s.1 == 98) by (nonlinear_arith)
                requires
                    (s.0 == 7 || s.0 == -7) && (s.1 == 7 || s.1 == -7),
            ;
        } else {
            assert(dir_len_sq(d) == 1_000_000);
            sqrt_exact(1_000_000, 1000);
            assert(dir_len(d) == 1000);
            assert((1nat * 1000) * 10 == 10000) by (nonlinear_arith);
            assert((0nat * 1000) * 10 == 0) by (nonlinear_arith);
            assert(dir_mag(1, 1000, 10) == 10000nat / 1000);
            assert(dir_mag(1, 1000, 10) == 10);
            assert(dir_mag(0, 1000, 10) == 0nat / 1000);
            assert(dir_mag(0, 1000, 10) == 0);
            assert(s.0 * s.0 + s.1 * s.1 == 100) by (nonlinear_arith)
                requires
                    (s.0 == 0 && (s.1 == 10 || s.1 == -10)) || (s.1 == 0 && (s.0 == 10 || s.0
                        == -10)),
            ;
        }
    }
}

/// A fresh press spawns exactly one Present, at the Elf, under the next
/// free identity, before the collision pass runs.
pub proof fn lemma_press_spawns_one(m: Model, i: RawInput, t: nat)
    requires
        throw_fires(m.prev_throw, m.prev_mouse, i),
        m.elf is Some,
        m.next_id < u64::MAX,
    ensures
        pre_collision_model(m, i, t).presents.len() == m.presents.len() + 1,
        pre_collision_model(m, i, t).presents.last().id == m.next_id,
        pre_collision_model(m, i, t).next_id == m.next_id + 1,
{
}

/// Holding the throw key keeps the throw intent from firing again: after a
/// tick whose input held the key, a next tick that still holds it (and
/// whose mouse press, if any, was already down) spawns nothing, so the
/// Present count cannot grow.
pub proof fn lemma_throw_edge(m: Model, i1: RawInput, i2: RawInput, t1: nat, t2: nat)
    requires
        i1.throw_key,
        i2.throw_key,
        i2.mouse ==> i1.mouse,
    ensures
        !throw_fires(
            tick_model(m, i1, t1).prev_throw,
            tick_model(m, i1, t1).prev_mouse,
            i2,
        ),
        tick_model(tick_model(m, i1, t1), i2, t2).presents.len() <= tick_model(
            m,
            i1,
            t1,
        ).presents.len(),
{
    let m1 = tick_model(m, i1, t1);
    let m5 = pre_collision_model(m1, i2, t2);
    assert(m5.presents.len() == m1.presents.len());
    if collision_active(m5) {
        lemma_kept_len(m5, m5.presents.len() as int);
    }
}

/// The number of kept Presents never exceeds the number looked at.
proof fn lemma_kept_len(m: Model, i: int)
    requires
        0 <= i <= m.presents.len(),
    ensures
        kept_upto(m, i).len() <= i,
    decreases i,
{
    if i == 0 {
        reveal(Seq::filter);
        assert(m.presents.take(0) =~= Seq::<PresentM>::empty());
    } else {
        lemma_kept_len(m, i - 1);
        lemma_kept_upto_step(m, i - 1);
    }
}

/// Once one Present among the first `i` overlaps Santa, fewer than `i` are
/// kept.
proof fn lemma_kept_len_after_hit(m: Model, k: int, i: int)
    requires
        0 <= k < i <= m.presents.len(),
        present_hit(m, m.presents[k]),
    ensures
        kept_upto(m, i).len() <= i - 1,
    decreases i,
{
    lemma_kept_upto_step(m, i - 1);
    if i - 1 == k {
        lemma_kept_len(m, i - 1);
    } else {
        lemma_kept_len_after_hit(m, k, i - 1);
    }
}

/// A Present that overlaps Santa leaves the store in the collision pass:
/// its identity is gone from the store, and a point is scored for it.
pub proof fn lemma_hit_removed(m: Model, k: int)
    requires
        wf_model(m),
        collision_active(m),
        0 <= k < m.presents.len(),
        present_hit(m, m.presents[k]),
    ensures
        forall|j: int|
            0 <= j < collide_model(m).presents.len() ==> (
            #[trigger] collide_model(m).presents[j]).id != m.presents[k].id,
        m.score < u32::MAX ==> collide_model(m).score > m.score,
{
    let n = m.presents.len() as int;
    lemma_kept_wf(m, n);
    let kept = kept_upto(m, n);
    assert forall|j: int| 0 <= j < kept.len() implies (#[trigger] kept[j]).id
        != m.presents[k].id by {
        let jj = choose|jj: int| 0 <= jj < n && #[trigger] kept[j] == m.presents[jj];
        if jj == k {
            assert(!present_hit(m, kept[j]));
        } else {
            assert(m.presents[jj].id != m.presents[k].id);
        }
    }
    lemma_kept_len_after_hit(m, k, n);
}

/// An identity that is absent from the store, and below the next fresh
/// identity, never returns: no later tick can hold a Present with it.
pub proof fn lemma_gone_stays_gone(m: Model, i: RawInput, t: nat, id: nat)
    requires
        wf_model(m),
        id < m.next_id,
        forall|j: int| 0 <= j < m.presents.len() ==> (#[trigger] m.presents[j]).id != id,
    ensures
        tick_model(m, i, t).next_id >= m.next_id,
        forall|j: int|
            0 <= j < tick_model(m, i, t).presents.len() ==> (
            #[trigger] tick_model(m, i, t).presents[j]).id != id,
{
    let m1 = toggle_model(m, i);
    let m2 = santa_model(m1, t);
    let m3 = elf_model(m2, i);
    let m4 = move_presents_model(m3);
    assert forall|j: int| 0 <= j < m4.presents.len() implies (#[trigger] m4.presents[j]).id
        != id by {
        assert(m4.presents[j] == moved_present(m3.presents[j]));
    }
    let m5 = spawn_model(m4, i);
    assert forall|j: int| 0 <= j < m5.presents.len() implies (#[trigger] m5.presents[j]).id
        != id by {
        if j < m4.presents.len() {
            assert(m5.presents[j] == m4.presents[j]);
        }
    }
    lemma_tick_model_wf(m, i, t);
    let m6 = collide_model(m5);
    if collision_active(m5) {
        lemma_kept_wf(m5, m5.presents.len() as int);
        assert forall|j: int| 0 <= j < m6.presents.len() implies (#[trigger] m6.presents[j]).id
            != id by {
            let jj = choose|jj: int|
                0 <= jj < m5.presents.len() && #[trigger] m6.presents[j] == m5.presents[jj];
            assert(m5.presents[jj].id != id);
        }
    }
}

/// A tick never creates or destroys the singletons: Santa and the Elf are
/// present after a tick exactly when they were present before it.
pub proof fn lemma_singletons_persist(m: Model, i: RawInput, t: nat)
    ensures
        tick_model(m, i, t).santa is Some <==> m.santa is Some,
        tick_model(m, i, t).elf is Some <==> m.elf is Some,
{
}

/// The score never goes down: one tick can only keep or raise it.
pub proof fn lemma_score_monotone(m: Model, i: RawInput, t: nat)
    requires
        wf_model(m),
    ensures
        tick_model(m, i, t).score >= m.score,
{
    let m5 = pre_collision_model(m, i, t);
    lemma_tick_model_wf(m, i, t);
    assert(m5.score == m.score);
}

/// The score never goes down over any sequence of ticks.
pub proof fn lemma_score_monotone_run(m: Model, steps: Seq<(RawInput, nat)>)
    requires
        wf_model(m),
    ensures
        run_model(m, steps).score >= m.score,
        wf_model(run_model(m, steps)),
    decreases steps.len(),
{
    if steps.len() == 0 {
    } else {
        lemma_score_monotone(m, steps[0].0, steps[0].1);
        lemma_tick_model_wf(m, steps[0].0, steps[0].1);
        lemma_score_monotone_run(tick_model(m, steps[0].0, steps[0].1), steps.drop_first());
    }
}

/// The debug chord flips the mode within its own tick.
pub proof fn lemma_debug_chord_toggles(m: Model, i: RawInput, t: nat)
    requires
        debug_toggle_fires(m.prev_debug, i),
    ensures
        tick_model(m, i, t).debug_on == !m.debug_on,
{
}

/// Without the modifier — or without a fresh press of the debug key — the
/// mode never changes.
pub proof fn lemma_unmodified_key_never_toggles(m: Model, i: RawInput, t: nat)
    requires
        !debug_toggle_fires(m.prev_debug, i),
    ensures
        tick_model(m, i, t).debug_on == m.debug_on,
{
}

/// Starting anywhere, the chord flips the mode on; releasing the key keeps
/// it; the same chord flips it back.
pub proof fn lemma_debug_toggle_round_trip(
    m: Model,
    i1: RawInput,
    i2: RawInput,
    i3: RawInput,
    t1: nat,
    t2: nat,
    t3: nat,
)
    requires
        debug_toggle_fires(m.prev_debug, i1),
        !i2.debug_key,
        i3.debug_key,
        i3.modifier,
    ensures
        tick_model(m, i1, t1).debug_on == !m.debug_on,
        tick_model(tick_model(m, i1, t1), i2, t2).debug_on == !m.debug_on,
        tick_model(tick_model(tick_model(m, i1, t1), i2, t2), i3, t3).debug_on == m.debug_on,
{
    let m1 = tick_model(m, i1, t1);
    let m2 = tick_model(m1, i2, t2);
    assert(m1.prev_debug == i1.debug_key);
    assert(!debug_toggle_fires(m1.prev_debug, i2));
    assert(m2.prev_debug == i2.debug_key);
    assert(debug_toggle_fires(m2.prev_debug, i3));
}

} // verus!
