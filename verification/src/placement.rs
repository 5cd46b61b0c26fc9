//! Bodies to be put into the arena.
use vstd::prelude::*;

use crate::groups::Group;

verus! {

/// The shape of a body.
#[derive(Clone, Copy, Debug)]
pub enum Shape {
    /// A disc.
    Ball { radius: i64 },
    /// The four-cornered body of an agent.
    Polygon { size: i64 },
    /// A straight line.
    Segment { first: (i64, i64), second: (i64, i64) },
}

/// A body to be put into the arena.
#[derive(Clone, Copy, Debug)]
pub struct Placement {
    pub handle: usize,
    pub group: Group,
    pub shape: Shape,
    pub x: i64,
    pub y: i64,
}

} // verus!
