//! Movement headings and their unit vectors.

use vstd::prelude::*;

verus! {

/// A heading held by a body segment.  `Idle` marks a segment that has not
/// yet received a real heading from the propagation of the head's history.
#[derive(Clone, Copy, PartialEq, Eq, Structural, Debug)]
pub enum Direction {
    Idle,
    Up,
    Down,
    Left,
    Right,
}

impl Direction {
    /// The heading pointing the opposite way; `Idle` is its own opposite.
    pub open spec fn inv_spec(self) -> Direction {
        match self {
            Direction::Idle => Direction::Idle,
            Direction::Up => Direction::Down,
            Direction::Down => Direction::Up,
            Direction::Left => Direction::Right,
            Direction::Right => Direction::Left,
        }
    }

    /// Returns the opposite heading.
    pub fn inv(&self) -> (r: Direction)
        ensures
            r == self.inv_spec(),
    {
        match self {
            Direction::Idle => Direction::Idle,
            Direction::Up => Direction::Down,
            Direction::Down => Direction::Up,
            Direction::Left => Direction::Right,
            Direction::Right => Direction::Left,
        }
    }

    /// Horizontal component of the unit vector, in tiles.
    pub open spec fn dx(self) -> int {
        match self {
            Direction::Left => -1,
            Direction::Right => 1,
            _ => 0,
        }
    }

    /// Vertical component of the unit vector, in tiles; `Up` decreases the
    /// row index.
    pub open spec fn dy(self) -> int {
        match self {
            Direction::Up => -1,
            Direction::Down => 1,
            _ => 0,
        }
    }

    /// Returns the unit vector of the heading.
    pub fn delta(&self) -> (r: (i64, i64))
        ensures
            r.0 == self.dx(),
            r.1 == self.dy(),
    {
        match self {
            Direction::Idle => (0, 0),
            Direction::Up => (0, -1),
            Direction::Down => (0, 1),
            Direction::Left => (-1, 0),
            Direction::Right => (1, 0),
        }
    }
}

/// Taking the opposite heading twice gives the original heading back, for
/// every heading other than `Idle`.
pub proof fn lemma_inv_involutive(d: Direction)
    requires
        d != Direction::Idle,
    ensures
        d.inv_spec().inv_spec() == d,
{
}

} // verus!
