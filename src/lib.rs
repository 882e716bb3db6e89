//! The per-frame instance kernel of a grid of animated, colored cubes.
//!
//! A grid of `S³` cells is laid out in linear cell order (`grid`), each cell gets a
//! color (`color`) and an exact integer placement from which a renderer builds its
//! transform (`placement`), and the transforms and colors are kept together in an
//! instance set that can be rebuilt in place every frame (`instances`).

pub mod color;
pub mod grid;
pub mod instances;
pub mod placement;
