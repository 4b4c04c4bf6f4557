//! Headings and body segments.

use vstd::prelude::*;

verus! {

/// One of the four headings a snake can travel in.
#[derive(Clone, Copy, Debug, PartialEq, Eq, Structural)]
pub enum Direction {
    Up,
    Right,
    Down,
    Left,
}

impl Direction {
    /// The heading that points the other way.
    pub open spec fn reversed(self) -> Direction {
        match self {
            Direction::Up => Direction::Down,
            Direction::Right => Direction::Left,
            Direction::Down => Direction::Up,
            Direction::Left => Direction::Right,
        }
    }

    /// The number a heading is known by: clockwise from `Up` = 0.
    pub open spec fn index(self) -> int {
        match self {
            Direction::Up => 0,
            Direction::Right => 1,
            Direction::Down => 2,
            Direction::Left => 3,
        }
    }

    /// The heading after the player asks for `candidate`: a request to turn
    /// straight back is dropped, any other request is taken.
    pub open spec fn steered(self, candidate: Direction) -> Direction {
        if candidate == self.reversed() {
            self
        } else {
            candidate
        }
    }

    pub fn opposite(self) -> (r: Direction)
        ensures
            r == self.reversed(),
    {
        match self {
            Direction::Up => Direction::Down,
            Direction::Right => Direction::Left,
            Direction::Down => Direction::Up,
            Direction::Left => Direction::Right,
        }
    }

    pub fn code(self) -> (r: i32)
        ensures
            r == self.index(),
    {
        match self {
            Direction::Up => 0,
            Direction::Right => 1,
            Direction::Down => 2,
            Direction::Left => 3,
        }
    }

    pub fn steer(self, candidate: Direction) -> (r: Direction)
        ensures
            r == self.steered(candidate),
    {
        if candidate == self.opposite() {
            self
        } else {
            candidate
        }
    }
}

/// One cell of the body, with the heading the snake had when it entered it.
#[derive(Clone, Copy, Debug, PartialEq, Eq, Structural)]
pub struct Segment {
    pub x: i32,
    pub y: i32,
    pub dir: Direction,
}

/// Asking for the exact opposite of the current heading leaves the heading
/// as it is.
pub proof fn reversal_is_ignored(d: Direction)
    ensures
        d.steered(d.reversed()) == d,
{
}

/// The opposite of a heading is two quarter turns away, and reversing twice
/// gives the heading back.
pub proof fn reversed_is_half_turn(d: Direction)
    ensures
        d.reversed().index() == (d.index() + 2) % 4,
        d.reversed().reversed() == d,
{
}

} // verus!
