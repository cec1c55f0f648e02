//! One piece of the puzzle and the cells it covers.

use vstd::prelude::*;

verus! {

/// The axis along which a car extends from its anchor cell.
#[derive(Clone, Copy, Debug, PartialEq, Eq, Structural)]
pub enum Plan {
    /// The car extends towards larger `x`.
    Horizontal,
    /// The car extends towards larger `y`.
    Vertical,
}

/// A car: an anchor cell, a length and an axis.
///
/// The car covers `length` consecutive cells, starting at `(x, y)` and
/// running along the axis given by `plan`. A car of length zero covers
/// nothing.
#[derive(Clone, Copy, Debug, PartialEq, Eq, Structural)]
pub struct Car {
    pub x: u8,
    pub y: u8,
    pub length: u8,
    pub plan: Plan,
}

impl Car {
    /// Whether the cell `(x, y)` lies on this car.
    pub open spec fn covers(&self, x: int, y: int) -> bool {
        match self.plan {
            Plan::Horizontal => y == self.y && self.x <= x < self.x + self.length,
            Plan::Vertical => x == self.x && self.y <= y < self.y + self.length,
        }
    }

    /// Tests whether the cell `(x, y)` lies on this car.
    ///
    /// The end of the run, `x + length` or `y + length`, is never computed
    /// in `u8`, so cars that reach past 255 are handled like any other.
    pub fn parked_on(&self, x: u8, y: u8) -> (hit: bool)
        ensures
            hit == self.covers(x as int, y as int),
            self.plan == Plan::Horizontal ==> (hit <==> y == self.y && self.x <= x < self.x
                + self.length),
            self.plan == Plan::Vertical ==> (hit <==> x == self.x && self.y <= y < self.y
                + self.length),
    {
        match self.plan {
            Plan::Horizontal => y == self.y && self.x <= x && x - self.x < self.length,
            Plan::Vertical => x == self.x && self.y <= y && y - self.y < self.length,
        }
    }
}

/// A car of length one covers its anchor cell and no other, whatever its
/// axis.
pub proof fn lemma_unit_car_covers_anchor_only(car: Car, x: int, y: int)
    requires
        car.length == 1,
    ensures
        car.covers(x, y) <==> (x == car.x && y == car.y),
{
}

} // verus!
