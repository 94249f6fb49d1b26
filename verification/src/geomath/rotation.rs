//! The eight compass directions and how a displacement maps onto them.

use super::Point;
use vstd::prelude::*;
use vstd::std_specs::convert::FromSpecImpl;

verus! {

/// One of the eight compass directions, clockwise from `Up`.
#[derive(Clone, Copy, Debug, PartialEq, Eq, Structural, Hash)]
pub enum Direction {
    /// Towards increasing `y`.
    Up,
    /// Towards increasing `x` and `y`.
    UpRight,
    /// Towards increasing `x`.
    Right,
    /// Towards increasing `x` and decreasing `y`.
    DownRight,
    /// Towards decreasing `y`.
    Down,
    /// Towards decreasing `x` and `y`.
    DownLeft,
    /// Towards decreasing `x`.
    Left,
    /// Towards decreasing `x` and increasing `y`.
    UpLeft,
}

/// The direction in which the displacement `v` points: vertical when `x` is zero,
/// horizontal when `y` is zero, diagonal when both have the same magnitude.
/// The zero vector and every other vector (a knight's jump) have none.
pub open spec fn direction_of(v: Point) -> Option<Direction> {
    direction_toward(v.x as int, v.y as int)
}

/// The direction in which the displacement `(dx, dy)` points, if it has one.
pub open spec fn direction_toward(dx: int, dy: int) -> Option<Direction> {
    if dx == 0 && dy == 0 {
        None
    } else if dx == 0 {
        Some(if dy < 0 { Direction::Down } else { Direction::Up })
    } else if dy == 0 {
        Some(if dx < 0 { Direction::Left } else { Direction::Right })
    } else if dx == dy {
        Some(if dx < 0 { Direction::DownLeft } else { Direction::UpRight })
    } else if dx == -dy {
        Some(if dx < 0 { Direction::UpLeft } else { Direction::DownRight })
    } else {
        None
    }
}

impl Direction {
    /// The direction that points the other way.
    pub open spec fn spec_opposite(self) -> Direction {
        match self {
            Direction::Up => Direction::Down,
            Direction::UpRight => Direction::DownLeft,
            Direction::Right => Direction::Left,
            Direction::DownRight => Direction::UpLeft,
            Direction::Down => Direction::Up,
            Direction::DownLeft => Direction::UpRight,
            Direction::Left => Direction::Right,
            Direction::UpLeft => Direction::DownRight,
        }
    }

    /// Returns the opposite direction.
    pub fn opposite(&self) -> (d: Direction)
        ensures
            d == self.spec_opposite(),
    {
        match self {
            Direction::Up => Direction::Down,
            Direction::UpRight => Direction::DownLeft,
            Direction::Right => Direction::Left,
            Direction::DownRight => Direction::UpLeft,
            Direction::Down => Direction::Up,
            Direction::DownLeft => Direction::UpRight,
            Direction::Left => Direction::Right,
            Direction::UpLeft => Direction::DownRight,
        }
    }

    /// Returns the opposite direction only if the condition is true.
    pub fn opposite_if(&self, cond: bool) -> (d: Direction)
        ensures
            d == if cond { self.spec_opposite() } else { *self },
    {
        if cond {
            self.opposite()
        } else {
            *self
        }
    }
}

impl From<Point> for Option<Direction> {
    fn from(value: Point) -> (d: Option<Direction>) {
        let Point { x, y } = value;
        if x == 0 && y == 0 {
            None
        } else if x == 0 {
            Some(Direction::Up.opposite_if(y < 0))
        } else if y == 0 {
            Some(Direction::Right.opposite_if(x < 0))
        } else if x == y {
            Some(Direction::UpRight.opposite_if(x < 0))
        } else if y > isize::MIN && x == -y {
            Some(Direction::DownRight.opposite_if(x < 0))
        } else {
            None
        }
    }
}

impl FromSpecImpl<Point> for Option<Direction> {
    open spec fn obeys_from_spec() -> bool {
        true
    }

    open spec fn from_spec(value: Point) -> Option<Direction> {
        direction_of(value)
    }
}

} // verus!
