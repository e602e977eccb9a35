use santa_catch::collision::{Aabb, DebugColor};
use santa_catch::curve::santa_pos;
use santa_catch::input::RawInput;
use santa_catch::state::{DebugMode, GameState, Present};
use santa_catch::vec2::IVec2;

fn released() -> RawInput {
    RawInput::released()
}

fn throw_held() -> RawInput {
    let mut i = released();
    i.throw_key = true;
    i
}

#[test]
fn santa_wrap_hour() {
    // positions repeat with the hour-long wrap period
    assert_eq!(santa_pos(5), santa_pos(5 + 3_600_000));
    assert_eq!(santa_pos(123_456), santa_pos(123_456 + 2 * 3_600_000));
}

#[test]
fn santa_stays_in_reach() {
    for t in [0u64, 1_000, 777_777, 3_599_999, 10_000_000] {
        let p = santa_pos(t);
        assert!(p.x.abs() <= 179 && p.y.abs() <= 179);
    }
}

#[test]
fn santa_motion_is_deterministic() {
    assert_eq!(santa_pos(424_242), santa_pos(424_242));
}

#[test]
fn aabb_overlap_boundary() {
    // Santa half (10,10) at the origin; a Present half (6,0) at (15,0)
    let santa = Aabb::new(IVec2::new(0, 0), IVec2::new(10, 10));
    let hit = Aabb::new(IVec2::new(15, 0), IVec2::new(6, 0));
    assert!(santa.intersects(&hit));
    let miss = Aabb::new(IVec2::new(17, 0), IVec2::new(6, 0));
    assert!(!santa.intersects(&miss));
}

#[test]
fn aabb_overlap_needs_both_axes() {
    let a = Aabb::new(IVec2::new(0, 0), IVec2::new(10, 10));
    let off_y = Aabb::new(IVec2::new(0, 25), IVec2::new(6, 6));
    assert!(!a.intersects(&off_y));
    let corner = Aabb::new(IVec2::new(16, 16), IVec2::new(6, 6));
    assert!(a.intersects(&corner));
}

#[test]
fn throw_spawns_at_elf_toward_cursor() {
    // Elf at the origin, cursor at (10,0): one Present at the origin with
    // velocity (10,0); one integration tick later it stands at (10,0).
    let mut g = GameState::new();
    g.elf = Some(IVec2::new(0, 0));
    g.update_cursor_position(Some(IVec2::new(10, 0)));
    g.tick(&throw_held(), 0);
    assert_eq!(g.presents.len(), 1);
    assert_eq!(g.presents[0].pos, IVec2::new(0, 0));
    assert_eq!(g.presents[0].vel, IVec2::new(10, 0));
    g.tick(&released(), 0);
    assert_eq!(g.presents.len(), 1);
    assert_eq!(g.presents[0].pos, IVec2::new(10, 0));
}

#[test]
fn throw_diagonal_velocity() {
    let mut g = GameState::new();
    g.elf = Some(IVec2::new(0, 0));
    g.update_cursor_position(Some(IVec2::new(30, 40)));
    g.tick(&throw_held(), 0);
    // direction (3,4)/5 at speed 10
    assert_eq!(g.presents[0].vel, IVec2::new(6, 8));
}

#[test]
fn throw_at_own_feet_is_zero_velocity() {
    // cursor on the Elf: the degenerate direction falls back to zero
    let mut g = GameState::new();
    g.elf = Some(IVec2::new(7, 7));
    g.update_cursor_position(Some(IVec2::new(7, 7)));
    g.tick(&throw_held(), 0);
    assert_eq!(g.presents.len(), 1);
    assert_eq!(g.presents[0].vel, IVec2::new(0, 0));
}

#[test]
fn holding_throw_ten_ticks_spawns_once() {
    let mut g = GameState::new();
    g.elf = Some(IVec2::new(0, 0));
    g.update_cursor_position(Some(IVec2::new(10, 0)));
    for _ in 0..10 {
        g.tick(&throw_held(), 0);
    }
    assert_eq!(g.presents.len(), 1);
}

#[test]
fn release_and_press_spawns_again_with_fresh_identity() {
    let mut g = GameState::new();
    g.elf = Some(IVec2::new(0, 0));
    g.update_cursor_position(Some(IVec2::new(10, 0)));
    g.tick(&throw_held(), 0);
    g.tick(&released(), 0);
    g.tick(&throw_held(), 0);
    assert_eq!(g.presents.len(), 2);
    assert_ne!(g.presents[0].id, g.presents[1].id);
}

#[test]
fn mouse_press_also_throws_once() {
    let mut g = GameState::new();
    g.elf = Some(IVec2::new(0, 0));
    g.update_cursor_position(Some(IVec2::new(10, 0)));
    let mut i = released();
    i.mouse = true;
    g.tick(&i, 0);
    g.tick(&i, 0);
    assert_eq!(g.presents.len(), 1);
}

#[test]
fn overlapping_present_scored_once_and_gone() {
    // a Present overlapping Santa is removed on the first overlapping tick
    // and cannot be found or scored again afterward
    let mut g = GameState::new();
    g.spawn_santa();
    g.set_santa_sprite_size(20, 20);
    g.set_present_sprite_size(120, 0);
    let s = santa_pos(0);
    g.presents.push(Present {
        id: 0,
        pos: IVec2::new(s.x + 15, s.y),
        vel: IVec2::new(0, 0),
    });
    g.next_id = 1;
    g.tick(&released(), 0);
    assert_eq!(g.get_score(), 1);
    assert_eq!(g.presents.len(), 0);
    assert_eq!(g.score_line, b"Score: 1".to_vec());
    g.tick(&released(), 0);
    assert_eq!(g.get_score(), 1);
    assert_eq!(g.presents.len(), 0);
}

#[test]
fn present_out_of_reach_is_kept() {
    let mut g = GameState::new();
    g.spawn_santa();
    g.set_santa_sprite_size(20, 20);
    g.set_present_sprite_size(120, 0);
    let s = santa_pos(0);
    g.presents.push(Present {
        id: 0,
        pos: IVec2::new(s.x + 17, s.y),
        vel: IVec2::new(0, 0),
    });
    g.next_id = 1;
    g.tick(&released(), 0);
    assert_eq!(g.get_score(), 0);
    assert_eq!(g.presents.len(), 1);
}

#[test]
fn score_never_decreases_over_ticks() {
    let mut g = GameState::new();
    g.spawn_santa();
    g.spawn_elf();
    g.set_santa_sprite_size(20, 20);
    g.set_present_sprite_size(120, 120);
    g.update_cursor_position(Some(IVec2::new(0, 0)));
    let mut last = 0u32;
    for k in 0..50u64 {
        let input = if k % 7 == 0 { throw_held() } else { released() };
        g.tick(&input, k * 16);
        let s = g.get_score();
        assert!(s >= last);
        last = s;
    }
}

#[test]
fn missing_sprite_size_skips_collision() {
    let mut g = GameState::new();
    g.spawn_santa();
    g.set_santa_sprite_size(20, 20);
    // Present sprite not resolved yet: the pass must no-op, not fail
    let s = santa_pos(0);
    g.presents.push(Present {
        id: 0,
        pos: IVec2::new(s.x, s.y),
        vel: IVec2::new(0, 0),
    });
    g.next_id = 1;
    g.tick(&released(), 0);
    assert_eq!(g.get_score(), 0);
    assert_eq!(g.presents.len(), 1);
}

#[test]
fn missing_santa_skips_collision() {
    let mut g = GameState::new();
    g.set_santa_sprite_size(20, 20);
    g.set_present_sprite_size(120, 120);
    g.presents.push(Present {
        id: 0,
        pos: IVec2::new(0, 0),
        vel: IVec2::new(0, 0),
    });
    g.next_id = 1;
    g.tick(&released(), 0);
    assert_eq!(g.get_score(), 0);
    assert_eq!(g.presents.len(), 1);
}

#[test]
fn score_saturates_at_the_counter_limit() {
    let mut g = GameState::new();
    g.spawn_santa();
    g.set_santa_sprite_size(20, 20);
    g.set_present_sprite_size(120, 0);
    g.score = u32::MAX;
    let s = santa_pos(0);
    g.presents.push(Present {
        id: 0,
        pos: IVec2::new(s.x, s.y),
        vel: IVec2::new(0, 0),
    });
    g.next_id = 1;
    g.tick(&released(), 0);
    assert_eq!(g.get_score(), u32::MAX);
    assert_eq!(g.presents.len(), 0);
}

#[test]
fn debug_chord_round_trip() {
    let mut g = GameState::new();
    assert!(!g.inspector_overlay_enabled());
    let mut chord = released();
    chord.debug_key = true;
    chord.modifier = true;
    g.tick(&chord, 0);
    assert!(g.inspector_overlay_enabled());
    assert!(g.fps_overlay_enabled());
    g.tick(&released(), 0);
    assert!(g.inspector_overlay_enabled());
    g.tick(&chord, 0);
    assert!(!g.inspector_overlay_enabled());
    assert!(!g.fps_overlay_enabled());
}

#[test]
fn unmodified_key_never_toggles() {
    let mut g = GameState::new();
    let mut key_only = released();
    key_only.debug_key = true;
    g.tick(&key_only, 0);
    assert!(!g.inspector_overlay_enabled());
}

#[test]
fn held_chord_toggles_once() {
    let mut g = GameState::new();
    let mut chord = released();
    chord.debug_key = true;
    chord.modifier = true;
    g.tick(&chord, 0);
    g.tick(&chord, 0);
    g.tick(&chord, 0);
    assert!(g.inspector_overlay_enabled());
}

#[test]
fn debug_mode_toggle_values() {
    assert_eq!(DebugMode::On.toggle(), DebugMode::Off);
    assert_eq!(DebugMode::Off.toggle(), DebugMode::On);
    assert_eq!(DebugMode::default(), DebugMode::Off);
}

#[test]
fn gizmos_drawn_only_in_debug_mode() {
    let mut g = GameState::new();
    g.spawn_santa();
    g.set_santa_sprite_size(20, 20);
    g.set_present_sprite_size(120, 120);
    g.presents.push(Present {
        id: 0,
        pos: IVec2::new(500, 500),
        vel: IVec2::new(0, 0),
    });
    g.presents.push(Present {
        id: 1,
        pos: IVec2::new(600, 600),
        vel: IVec2::new(0, 0),
    });
    g.next_id = 2;
    let off = g.tick(&released(), 0);
    assert!(off.is_empty());
    let mut chord = released();
    chord.debug_key = true;
    chord.modifier = true;
    let on = g.tick(&chord, 0);
    assert_eq!(on.len(), 3);
    assert_eq!(on[0].color, DebugColor::Red);
    assert_eq!(on[0].center, santa_pos(0));
    assert_eq!(on[0].size, IVec2::new(20, 20));
    assert_eq!(on[1].color, DebugColor::Green);
    assert_eq!(on[1].size, IVec2::new(12, 12));
    assert_eq!(on[2].color, DebugColor::Green);
}
