//! Walls.
use vstd::prelude::*;

verus! {

/// A wall: a straight line between two points of the arena.
#[derive(Clone, Copy, Debug)]
pub struct Wall {
    pub first: (i64, i64),
    pub second: (i64, i64),
}

impl Wall {
    pub fn new(first: (i64, i64), second: (i64, i64)) -> (wall: Self)
        ensures
            wall == (Wall { first, second }),
    {
        Wall { first, second }
    }
}

} // verus!
