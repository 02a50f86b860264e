//! A verified Minesweeper game engine.
//!
//! The library holds the game's logic: the cell and grid model, field
//! generation with random mine placement, adjacency counting, the
//! flood-reveal algorithm, flag toggling, cursor movement and command
//! dispatch.  Rendering and input capture are left to the surrounding
//! program; the engine exposes a queryable grid and takes coordinate
//! commands.

pub mod cell;
pub mod counting;
pub mod grid;
pub mod engine;
pub mod render;
mod rng;
pub mod session;
