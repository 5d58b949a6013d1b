//! Conway's Game of Life on a square torus.

pub mod cell;
pub mod coord;
pub mod grid;
pub mod pattern;
pub mod community;
pub mod population;
pub mod world;
pub mod sdl;
pub mod classic;
pub mod oscillator;
