//! A small ecological simulation: gatherers, resources and predators that
//! move, feed, hunt, spawn and die on a bounded integer grid, with a pixel
//! renderer for the resulting world.
//!
//! Time is measured in whole microseconds and speeds in tenths of a grid
//! unit, so every rule of the simulation is stated over integers.

pub mod chance;
pub mod entity;
pub mod interaction;
pub mod population;
pub mod position;
pub mod pursuit;
pub mod renderer;
pub mod simulation;
