//! The four headings of the snake.

use vstd::prelude::*;

verus! {

/// A heading on the grid. Rows grow downwards and columns grow to the right.
#[derive(Copy, Debug, Clone, Eq, PartialEq, Structural)]
pub enum Direction {
    Up,
    Down,
    Left,
    Right,
}

impl Direction {
    /// The heading that points the other way.
    pub open spec fn reversed(self) -> Direction {
        match self {
            Direction::Up => Direction::Down,
            Direction::Down => Direction::Up,
            Direction::Left => Direction::Right,
            Direction::Right => Direction::Left,
        }
    }

    /// Returns the heading that points the other way.
    pub fn opposite(&self) -> (d: Direction)
        ensures
            d == self.reversed(),
    {
        match self {
            Direction::Up => Direction::Down,
            Direction::Down => Direction::Up,
            Direction::Left => Direction::Right,
            Direction::Right => Direction::Left,
        }
    }
}

/// Turning round twice gives the first heading back, and turning round once
/// never keeps it.
pub proof fn lemma_reversed_twice(d: Direction)
    ensures
        d.reversed().reversed() == d,
        d.reversed() != d,
{
}

} // verus!
