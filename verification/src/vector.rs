//! Plain 2D value types on a fixed-point grid.
//!
//! Coordinates are whole numbers of grid units; `UNITS_PER_PIXEL` of them make
//! one pixel, so that sub-pixel speeds are exact and addition never rounds.

use vstd::prelude::*;

verus! {

/// How many grid units make one pixel.
pub const UNITS_PER_PIXEL: i64 = 10;

/// A displacement per tick, in grid units.
#[derive(Clone, Copy, Debug, PartialEq, Eq, Structural)]
pub struct Velocity {
    pub dx: i64,
    pub dy: i64,
}

/// A point, in grid units.
#[derive(Clone, Copy, Debug, PartialEq, Eq, Structural)]
pub struct Position {
    pub x: i64,
    pub y: i64,
}

impl Velocity {
    pub fn new(dx: i64, dy: i64) -> (v: Velocity)
        ensures
            v == (Velocity { dx, dy }),
    {
        Velocity { dx, dy }
    }

    /// Whether the component-wise sum with `other` is representable.
    pub open spec fn can_add(self, other: Velocity) -> bool {
        &&& i64::MIN <= self.dx + other.dx <= i64::MAX
        &&& i64::MIN <= self.dy + other.dy <= i64::MAX
    }

    /// The component-wise sum, where it is representable.
    pub open spec fn sum(self, other: Velocity) -> Velocity
        recommends
            self.can_add(other),
    {
        Velocity { dx: (self.dx + other.dx) as i64, dy: (self.dy + other.dy) as i64 }
    }

    /// Vector addition; `None` exactly when a component would leave the grid.
    pub fn checked_add(self, other: Velocity) -> (r: Option<Velocity>)
        ensures
            r == if self.can_add(other) {
                Some(self.sum(other))
            } else {
                None
            },
    {
        match (self.dx.checked_add(other.dx), self.dy.checked_add(other.dy)) {
            (Some(dx), Some(dy)) => Some(Velocity { dx, dy }),
            _ => None,
        }
    }
}

impl Position {
    pub fn new(x: i64, y: i64) -> (p: Position)
        ensures
            p == (Position { x, y }),
    {
        Position { x, y }
    }

    pub fn x(self) -> (r: i64)
        ensures
            r == self.x,
    {
        self.x
    }

    pub fn y(self) -> (r: i64)
        ensures
            r == self.y,
    {
        self.y
    }

    /// Whether moving by `v` stays on the grid.
    pub open spec fn can_advance(self, v: Velocity) -> bool {
        &&& i64::MIN <= self.x + v.dx <= i64::MAX
        &&& i64::MIN <= self.y + v.dy <= i64::MAX
    }

    /// The point reached by moving by `v`, where that stays on the grid.
    pub open spec fn advanced(self, v: Velocity) -> Position
        recommends
            self.can_advance(v),
    {
        Position { x: (self.x + v.dx) as i64, y: (self.y + v.dy) as i64 }
    }

    /// Position plus velocity; `None` exactly when the result would leave the grid.
    pub fn checked_add(self, v: Velocity) -> (r: Option<Position>)
        ensures
            r == if self.can_advance(v) {
                Some(self.advanced(v))
            } else {
                None
            },
    {
        match (self.x.checked_add(v.dx), self.y.checked_add(v.dy)) {
            (Some(x), Some(y)) => Some(Position { x, y }),
            _ => None,
        }
    }
}

} // verus!
