//! Simulation core of a small arcade game: a patrolling Santa, a
//! player-controlled Elf that throws Presents at the cursor, axis-aligned
//! bounding-box collisions that score a point and remove the caught Present,
//! and a chord-toggled debug overlay state.
//!
//! Every quantity is an integer: world coordinates are plain units in
//! `[-WORLD_MAX, WORLD_MAX]`, and sub-unit precision (for direction vectors
//! and the patrol curve) is carried in thousandths. Rendering, windowing,
//! asset decoding and raw device input live outside this crate; the library
//! consumes plain values (key levels, cursor coordinates, sprite pixel sizes,
//! elapsed milliseconds) and produces plain values (positions, score, the
//! score line, debug rectangles).

pub mod curve;
pub mod collision;
pub mod input;
pub mod laws;
pub mod math;
pub mod sim;
pub mod state;
pub mod text;
pub mod vec2;
