//! The eight compass directions.

use vstd::prelude::*;
use crate::position::Position;

verus! {

/// A unit step on the grid. The first four are the moves an agent can make;
/// all eight are the rays it looks along.
#[derive(Clone, Copy, Debug, PartialEq, Eq, Structural, Hash)]
pub enum Direction {
    Up,
    Down,
    Left,
    Right,
    UpLeft,
    UpRight,
    DownLeft,
    DownRight,
}

/// Number of directions an agent looks along.
pub const DIRECTION_COUNT: usize = 8;

/// Number of directions an agent can move in.
pub const MOVE_COUNT: usize = 4;

impl Direction {
    /// The direction with the given position in declaration order.
    pub open spec fn nth(index: int) -> Direction {
        if index == 0 {
            Direction::Up
        } else if index == 1 {
            Direction::Down
        } else if index == 2 {
            Direction::Left
        } else if index == 3 {
            Direction::Right
        } else if index == 4 {
            Direction::UpLeft
        } else if index == 5 {
            Direction::UpRight
        } else if index == 6 {
            Direction::DownLeft
        } else {
            Direction::DownRight
        }
    }

    /// The position of `self` in declaration order.
    pub open spec fn ordinal(self) -> int {
        match self {
            Direction::Up => 0,
            Direction::Down => 1,
            Direction::Left => 2,
            Direction::Right => 3,
            Direction::UpLeft => 4,
            Direction::UpRight => 5,
            Direction::DownLeft => 6,
            Direction::DownRight => 7,
        }
    }

    /// Horizontal component of the unit step.
    pub open spec fn dx(self) -> int {
        match self {
            Direction::Up | Direction::Down => 0,
            Direction::Left | Direction::UpLeft | Direction::DownLeft => -1,
            Direction::Right | Direction::UpRight | Direction::DownRight => 1,
        }
    }

    /// Vertical component of the unit step. Rows grow downwards.
    pub open spec fn dy(self) -> int {
        match self {
            Direction::Left | Direction::Right => 0,
            Direction::Up | Direction::UpLeft | Direction::UpRight => -1,
            Direction::Down | Direction::DownLeft | Direction::DownRight => 1,
        }
    }

    /// The move that an action index stands for.
    pub fn from_index(index: usize) -> (d: Direction)
        requires
            index < MOVE_COUNT,
        ensures
            d == Direction::nth(index as int),
            d.ordinal() == index,
    {
        if index == 0 {
            Direction::Up
        } else if index == 1 {
            Direction::Down
        } else if index == 2 {
            Direction::Left
        } else {
            Direction::Right
        }
    }

    /// The direction at `index` of the eight, in declaration order.
    pub fn from_ordinal(index: usize) -> (d: Direction)
        requires
            index < DIRECTION_COUNT,
        ensures
            d == Direction::nth(index as int),
            d.ordinal() == index,
    {
        if index < MOVE_COUNT {
            Direction::from_index(index)
        } else if index == 4 {
            Direction::UpLeft
        } else if index == 5 {
            Direction::UpRight
        } else if index == 6 {
            Direction::DownLeft
        } else {
            Direction::DownRight
        }
    }

    /// The unit step as an offset.
    pub fn value(&self) -> (p: Position)
        ensures
            p.x == self.dx(),
            p.y == self.dy(),
    {
        match *self {
            Direction::Up => Position { x: 0, y: -1 },
            Direction::Down => Position { x: 0, y: 1 },
            Direction::Left => Position { x: -1, y: 0 },
            Direction::Right => Position { x: 1, y: 0 },
            Direction::UpLeft => Position { x: -1, y: -1 },
            Direction::UpRight => Position { x: 1, y: -1 },
            Direction::DownLeft => Position { x: -1, y: 1 },
            Direction::DownRight => Position { x: 1, y: 1 },
        }
    }
}

} // verus!
