//! Simulation core of a gallery of complex systems.
//!
//! The grid automata (life-like rules, elementary and cyclic automata, Langton's
//! ant, the abelian sandpile, falling sand and diffusion-limited aggregation), the
//! raster mapping from grid cells to canvas pixels, line drawing, and the bounded
//! point trail that attractor and particle kernels keep, each with its contract.

pub mod cellular_automaton;
pub mod color;
pub mod cyclic_ca;
pub mod dla;
pub mod falling_sand;
pub mod game_of_life;
pub mod grid;
pub mod langtons_ant;
pub mod modes;
mod random;
pub mod raster;
pub mod sandpile;
pub mod trail;
