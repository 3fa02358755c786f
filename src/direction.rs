use vstd::prelude::*;

verus! {

/// A compass heading on the board.
#[derive(Clone, Copy, Debug, PartialEq, Eq, Structural)]
pub enum Direction {
    Up,
    Down,
    Left,
    Right,
}

impl Direction {
    /// The heading that points the other way.
    pub open spec fn spec_opposite(self) -> Direction {
        match self {
            Direction::Up => Direction::Down,
            Direction::Down => Direction::Up,
            Direction::Left => Direction::Right,
            Direction::Right => Direction::Left,
        }
    }

    /// Whether the heading moves along rows (Up or Down).
    pub open spec fn is_vertical(self) -> bool {
        self == Direction::Up || self == Direction::Down
    }

    /// Two headings are orthogonal when one is vertical and the other is not.
    pub open spec fn orthogonal(self, other: Direction) -> bool {
        self.is_vertical() != other.is_vertical()
    }

    #[verifier::when_used_as_spec(spec_opposite)]
    pub fn opposite(self) -> (r: Direction)
        ensures
            r == self.spec_opposite(),
    {
        match self {
            Direction::Up => Direction::Down,
            Direction::Down => Direction::Up,
            Direction::Left => Direction::Right,
            Direction::Right => Direction::Left,
        }
    }

    /// Opposition is symmetric, and a heading is never its own opposite.
    pub proof fn lemma_opposite_symmetric(self)
        ensures
            self.spec_opposite().spec_opposite() == self,
            self.spec_opposite() != self,
            !self.orthogonal(self.spec_opposite()),
    {
    }
}

} // verus!
