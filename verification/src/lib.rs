//! A fixed-shape grid of bits packed into 32-bit words.

use vstd::prelude::*;

pub mod bits;
pub mod grid;

pub use grid::{BitGrid, GridError, GridModel};

verus! {

/// Greets nobody in particular: the answer does not depend on `name`.
pub fn greet(name: &str) -> (code: u8)
    ensures
        code == 33,
{
    33
}

} // verus!
