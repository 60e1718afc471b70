//! A one-dimensional elementary cellular automaton engine.
//!
//! The engine keeps a rolling history of boolean rows, applies an 8-bit
//! transition rule each tick, and exposes detectors (uniform row, periodic
//! history, age) that a driver loop uses to decide when to start over with a
//! fresh random rule and seed row.

pub mod automaton;
pub mod policy;
mod rng;
