use vstd::prelude::*;

verus! {

/// How a transform is run: forward, or inverted.
#[derive(Clone, Copy, Debug, PartialEq, Eq, Structural)]
pub enum Direction {
    Forward,
    Inverse,
}

impl Direction {
    /// The opposite direction.
    pub open spec fn flipped(self) -> Direction {
        match self {
            Direction::Forward => Direction::Inverse,
            Direction::Inverse => Direction::Forward,
        }
    }

    /// The direction asked for by an `inverse` flag.
    pub fn from_inverse(inverse: bool) -> (r: Direction)
        ensures
            r == (if inverse { Direction::Inverse } else { Direction::Forward }),
    {
        if inverse {
            Direction::Inverse
        } else {
            Direction::Forward
        }
    }

    /// Whether this direction is `Inverse`.
    pub fn is_inverse(&self) -> (r: bool)
        ensures
            r == (*self == Direction::Inverse),
    {
        match self {
            Direction::Forward => false,
            Direction::Inverse => true,
        }
    }

    /// The opposite direction.
    pub fn flip(&self) -> (r: Direction)
        ensures
            r == self.flipped(),
            r != *self,
    {
        match self {
            Direction::Forward => Direction::Inverse,
            Direction::Inverse => Direction::Forward,
        }
    }
}

/// Flipping a direction twice gives it back.
pub proof fn lemma_flip_twice(d: Direction)
    ensures
        d.flipped().flipped() == d,
{
}

} // verus!
