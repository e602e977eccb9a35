use santa_catch::input::RawInput;
use santa_catch::state::GameState;
use santa_catch::text::score_line;
use santa_catch::vec2::{scaled_dir, IVec2};

fn released() -> RawInput {
    RawInput::released()
}

#[test]
fn scaled_dir_axis_cases() {
    assert_eq!(scaled_dir(IVec2::new(1, 0), 10), IVec2::new(10, 0));
    assert_eq!(scaled_dir(IVec2::new(-1, 0), 10), IVec2::new(-10, 0));
    assert_eq!(scaled_dir(IVec2::new(0, 5), 10), IVec2::new(0, 10));
    assert_eq!(scaled_dir(IVec2::new(0, -3), 10), IVec2::new(0, -10));
}

#[test]
fn scaled_dir_diagonal_and_zero() {
    assert_eq!(scaled_dir(IVec2::new(1, 1), 10), IVec2::new(7, 7));
    assert_eq!(scaled_dir(IVec2::new(-2, -2), 10), IVec2::new(-7, -7));
    assert_eq!(scaled_dir(IVec2::new(3, 4), 10), IVec2::new(6, 8));
    assert_eq!(scaled_dir(IVec2::new(0, 0), 10), IVec2::new(0, 0));
}

#[test]
fn elf_walks_at_fixed_speed() {
    let mut g = GameState::new();
    g.spawn_elf();
    assert_eq!(g.elf, Some(IVec2::new(100, 100)));
    let mut right = released();
    right.right = true;
    g.tick(&right, 0);
    assert_eq!(g.elf, Some(IVec2::new(110, 100)));
    let mut up_right = released();
    up_right.up = true;
    up_right.right = true;
    g.tick(&up_right, 0);
    assert_eq!(g.elf, Some(IVec2::new(117, 107)));
}

#[test]
fn opposed_keys_cancel() {
    let mut g = GameState::new();
    g.spawn_elf();
    let mut i = released();
    i.left = true;
    i.right = true;
    g.tick(&i, 0);
    assert_eq!(g.elf, Some(IVec2::new(100, 100)));
    i.up = true;
    g.tick(&i, 0);
    assert_eq!(g.elf, Some(IVec2::new(100, 110)));
}

#[test]
fn elf_walks_down_left() {
    let mut g = GameState::new();
    g.spawn_elf();
    let mut i = released();
    i.down = true;
    i.left = true;
    g.tick(&i, 0);
    assert_eq!(g.elf, Some(IVec2::new(93, 93)));
}

#[test]
fn absent_elf_is_a_safe_no_op() {
    let mut g = GameState::new();
    let mut i = released();
    i.right = true;
    i.throw_key = true;
    g.tick(&i, 0);
    assert_eq!(g.elf, None);
    assert_eq!(g.presents.len(), 0);
}

#[test]
fn cursor_keeps_last_value_when_absent() {
    let mut g = GameState::new();
    g.update_cursor_position(Some(IVec2::new(5, 6)));
    g.update_cursor_position(None);
    assert_eq!(g.cursor.0, IVec2::new(5, 6));
}

#[test]
fn score_line_formats_decimal() {
    assert_eq!(score_line(0), b"Score: 0".to_vec());
    assert_eq!(score_line(7), b"Score: 7".to_vec());
    assert_eq!(score_line(12345), b"Score: 12345".to_vec());
    assert_eq!(score_line(u32::MAX), b"Score: 4294967295".to_vec());
}

#[test]
fn score_text_spawns_at_zero() {
    let mut g = GameState::new();
    g.spawn_score_text();
    assert_eq!(g.score_line, b"Score: 0".to_vec());
}

#[test]
fn fresh_store_is_empty() {
    let g = GameState::new();
    assert_eq!(g.santa, None);
    assert_eq!(g.elf, None);
    assert_eq!(g.get_score(), 0);
    assert_eq!(g.presents.len(), 0);
    assert!(!g.inspector_overlay_enabled());
}
