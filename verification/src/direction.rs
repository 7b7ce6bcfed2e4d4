//! Travel direction of a train relative to a section's own orientation.
use vstd::prelude::*;

verus! {

/// The direction a train travels, relative to the orientation of the
/// section it is currently on.
#[derive(Debug, Copy, Clone, PartialEq, Eq, Structural, Hash)]
pub enum Direction {
    Forward,
    Backward,
}

impl Direction {
    /// The reverse of this direction.
    pub fn opposite(&self) -> (r: Direction)
        ensures
            r == (match self {
                Direction::Forward => Direction::Backward,
                Direction::Backward => Direction::Forward,
            }),
    {
        match self {
            Direction::Forward => Direction::Backward,
            Direction::Backward => Direction::Forward,
        }
    }
}

} // verus!
