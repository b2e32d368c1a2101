//! Simulation core of a small naval arcade game: a destroyer on the surface
//! drops bombs while submarines patrol below and fire missiles upward.
//! Every entity is an axis-aligned rectangle plus a little state; one call of
//! `World::tick` advances the whole scene by one frame.

mod chance;
pub mod config;
pub mod cull;
pub mod entities;
pub mod geometry;
pub mod render;
pub mod world;
