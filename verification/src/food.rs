//! Food pellets lying in the world.

use vstd::prelude::*;

verus! {

/// A food pellet: its position, size and color.
#[derive(Debug, Clone, Copy, PartialEq, Eq, Structural)]
pub struct Food {
    pub x: u16,
    pub y: u16,
    pub size: u8,
    pub color: u8,
}

impl Food {
    /// A pellet at `(x, y)` of the given size and color.
    pub fn new(x: u16, y: u16, size: u8, color: u8) -> (f: Self)
        ensures
            f.x == x,
            f.y == y,
            f.size == size,
            f.color == color,
    {
        Food { x, y, size, color }
    }
}

/// A list of food pellets.
pub type FoodSeq = Vec<Food>;

} // verus!
