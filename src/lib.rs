//! A tile-grid raycasting maze game: level data, a column raycaster with a
//! per-column depth buffer, a billboard compositor, and the gameplay state
//! machine with its simulation.
//!
//! All continuous quantities are fixed point: positions and vectors are in
//! units of `1 / ONE` of a tile, times are in microseconds and angles are
//! binary angles of `TURN` units per full turn.

mod draw;
mod fixed;
mod game;
mod level;
mod player;
mod populate;
mod raycaster;
mod rng;
mod screen;
mod sine_table;
mod sprites;
mod steering;

pub use draw::{draw_ceiling_floor, draw_line, fill, rect_fill, wall_color};
pub use fixed::{add_angle, div_trunc, isqrt, unit_cos, unit_sin, ONE, TURN};
pub use game::{Game, Key, Mode, Sound, HIT_COOLDOWN, HIT_R2, KEY_COUNT, PICKUP_R2, START_LIVES};
pub use level::{get_level, level1, level2, level3, Level};
pub use player::{is_wall_level, Player, START_ANGLE};
pub use populate::try_place;
pub use screen::{Label, Text};
pub use raycaster::{
    cast_ray, render_scene, render_sprites, sort_far_to_near, DepthBuffer, RayHit, MAX_SCREEN, MIN_DEPTH,
    NO_HIT_DEPTH,
};
pub use sprites::{Sprite, SpriteKind};
pub use steering::{normalize, steer};
