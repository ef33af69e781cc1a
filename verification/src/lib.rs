//! Conway's Game of Life on a toroidal (wrap-around) grid.
//!
//! The [`universe::Universe`] type owns a fixed-size, row-major grid of
//! [`universe::Cell`] values and advances it one generation at a time under
//! the standard B3/S23 rule.  Neighbor coordinates wrap around the grid
//! edges, so the grid behaves like a torus.  A `Universe` must be exclusively
//! owned by one logical thread of control at a time; none of its operations
//! use interior mutability or locking.

#![allow(unused_imports)]

pub mod torus;
pub mod universe;
pub mod laws;

pub use universe::Cell;
pub use universe::Universe;
