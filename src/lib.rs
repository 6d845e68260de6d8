//! A gravitational N-body engine, verified apart from its arithmetic.
//!
//! The library owns one step of the simulation: which bodies act on which,
//! that every acceleration is summed from the start-of-step state before any
//! body is committed, and that no body is added or removed. It also decides
//! whether a list of bodies may start a simulation. The arithmetic on
//! positions, velocities and masses is floating point and is handed in by
//! the caller as closures.

pub mod schedule;
pub mod step;
pub mod validate;
