use vstd::prelude::*;

verus! {

/// Width of the playing field.
pub const DISPLAY_WIDTH: i32 = 800;

/// Height of the playing field.
pub const DISPLAY_HEIGHT: i32 = 600;

/// Vertical coordinate of the ocean surface.
pub const WATER_LEVEL: i32 = 70;

/// Submarines are created at this depth or lower.
pub const MIN_SUB_DEPTH: i32 = 90;

/// Frames per second of the fixed-timestep loop.
pub const FPS: u32 = 30;

/// Target duration of one frame, in milliseconds.
pub const MS_PER_FRAME: u32 = 33;

/// A new submarine appears every this many ticks.
pub const ADD_SUB_FREQUENCY: u32 = 450;

/// Ticks between two missiles of one submarine.
pub const MISSILE_PERIOD: u32 = 300;

/// Lifetime of a bomb, in ticks.
pub const BOMB_MAX_AGE: u32 = 150;

/// Lifetime of the explosion of a submarine or a bomb, in ticks.
pub const HEAVY_BLAST_AGE: u32 = 60;

/// Lifetime of the explosion of a missile, in ticks.
pub const LIGHT_BLAST_AGE: u32 = 30;

/// Number of wake bubbles made by one move of the destroyer.
pub const WAKE_BUBBLES: usize = 100;

/// Number of bubbles scattered by a new explosion.
pub const BLAST_BUBBLES: usize = 25;

} // verus!
