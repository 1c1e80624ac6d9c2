//! A toroidal Game-of-Life (B3/S23) engine with a decaying heat channel for
//! rendering, double-buffered generations, and a partitioned update pass.

pub mod cell;
pub mod universe;
mod rng;

pub use cell::Cell;
pub use universe::Universe;
