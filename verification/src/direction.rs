use vstd::prelude::*;

use crate::rng::random_below;

verus! {

/// One of the four headings an ant can hold, in the fixed rotational order
/// Up -> Right -> Down -> Left -> Up.
#[derive(Clone, Copy, Debug, PartialEq, Eq, Structural)]
pub enum Direction {
    Up,
    Right,
    Down,
    Left,
}

impl Direction {
    /// Position of the heading in the rotation cycle.
    pub open spec fn ordinal(self) -> int {
        match self {
            Direction::Up => 0,
            Direction::Right => 1,
            Direction::Down => 2,
            Direction::Left => 3,
        }
    }

    /// The heading one clockwise step after `self`.
    pub open spec fn spec_next(self) -> Direction {
        match self {
            Direction::Up => Direction::Right,
            Direction::Right => Direction::Down,
            Direction::Down => Direction::Left,
            Direction::Left => Direction::Up,
        }
    }

    /// The heading one counter-clockwise step before `self`.
    pub open spec fn spec_prev(self) -> Direction {
        match self {
            Direction::Up => Direction::Left,
            Direction::Right => Direction::Up,
            Direction::Down => Direction::Right,
            Direction::Left => Direction::Down,
        }
    }

    /// Rotates one step clockwise in the cycle.
    pub fn next(self) -> (r: Direction)
        ensures
            r == self.spec_next(),
    {
        match self {
            Direction::Up => Direction::Right,
            Direction::Right => Direction::Down,
            Direction::Down => Direction::Left,
            Direction::Left => Direction::Up,
        }
    }

    /// Rotates one step counter-clockwise in the cycle.
    pub fn prev(self) -> (r: Direction)
        ensures
            r == self.spec_prev(),
    {
        match self {
            Direction::Up => Direction::Left,
            Direction::Right => Direction::Up,
            Direction::Down => Direction::Right,
            Direction::Left => Direction::Down,
        }
    }

    /// The heading whose cycle position is `n`.
    pub fn from_ordinal(n: u8) -> (r: Direction)
        requires
            n < 4,
        ensures
            r.ordinal() == n as int,
    {
        if n == 0 {
            Direction::Up
        } else if n == 1 {
            Direction::Right
        } else if n == 2 {
            Direction::Down
        } else {
            Direction::Left
        }
    }

    /// Draws a heading at random; any of the four may come back.
    pub fn random() -> Direction {
        let n = random_below(4);
        Direction::from_ordinal(n as u8)
    }
}

/// The four-cycle laws of the rotation order: four clockwise steps (and four
/// counter-clockwise steps) return to the original heading, and the two
/// rotations are mutual inverses.
pub proof fn lemma_rotation_cycle(d: Direction)
    ensures
        d.spec_next().spec_next().spec_next().spec_next() == d,
        d.spec_prev().spec_prev().spec_prev().spec_prev() == d,
        d.spec_next().spec_prev() == d,
        d.spec_prev().spec_next() == d,
{
}

} // verus!
