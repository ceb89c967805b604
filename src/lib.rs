//! Conway's Game of Life on a square board with hard edges: the board and its
//! generations, a clock that turns frame time into generations, and a
//! controller that applies pointer edits, pause and speed changes.
use vstd::prelude::*;

pub mod clock;
pub mod controller;
pub mod grid;
pub mod laws;
pub mod model;

verus! {

} // verus!
