//! A terminal cell-reveal animation engine.
//!
//! A rectangular grid of cells is revealed one cell at a time in a uniformly
//! shuffled order, held for a pause, and then (optionally) erased again in the
//! exact reverse order, for a configured number of cycles.  This crate holds
//! the whole of that logic — grid generation, shuffling, color policy, cycle
//! accounting, and the exact sequence of screen commands a cycle consists of —
//! as verified code.  Randomness comes from the `rand` crate behind a few
//! trusted wrappers; actually painting the commands onto a terminal is left to
//! the caller.

pub mod color;
pub mod config;
pub mod engine;
pub mod grid;
pub mod plan;
pub mod rng;
