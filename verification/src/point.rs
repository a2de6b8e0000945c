//! A position on the screen, in the server's 16-bit coordinates.

use vstd::prelude::*;
use vstd::std_specs::convert::FromSpecImpl;
use vstd::std_specs::ops::{AddSpecImpl, SubSpecImpl};

verus! {

/// A point in root-window coordinates.
#[derive(Debug, Clone, Copy, PartialEq, Eq, Structural)]
pub struct Point {
    pub x: i16,
    pub y: i16,
}

impl Point {
    pub fn new(x: i16, y: i16) -> (p: Point)
        ensures
            p == (Point { x, y }),
    {
        Point { x, y }
    }

    /// Whether both coordinates of the sum `self + rhs` fit the coordinate type.
    pub open spec fn can_add(self, rhs: Point) -> bool {
        &&& i16::MIN <= self.x + rhs.x <= i16::MAX
        &&& i16::MIN <= self.y + rhs.y <= i16::MAX
    }

    /// Whether both coordinates of the difference `self - rhs` fit the coordinate type.
    pub open spec fn can_sub(self, rhs: Point) -> bool {
        &&& i16::MIN <= self.x - rhs.x <= i16::MAX
        &&& i16::MIN <= self.y - rhs.y <= i16::MAX
    }

    /// The offset from `origin` to `self` on both axes, in a type wide enough
    /// to hold the difference of any two points.
    pub fn delta_from(&self, origin: &Point) -> (d: (i32, i32))
        ensures
            d.0 == self.x - origin.x,
            d.1 == self.y - origin.y,
    {
        let dx: i32 = self.x as i32 - origin.x as i32;
        let dy: i32 = self.y as i32 - origin.y as i32;
        (dx, dy)
    }
}

impl From<(i16, i16)> for Point {
    fn from(pair: (i16, i16)) -> (p: Point) {
        Point::new(pair.0, pair.1)
    }
}

impl FromSpecImpl<(i16, i16)> for Point {
    open spec fn obeys_from_spec() -> bool {
        true
    }

    open spec fn from_spec(pair: (i16, i16)) -> Point {
        Point { x: pair.0, y: pair.1 }
    }
}

impl std::ops::Add<Point> for Point {
    type Output = Point;

    fn add(self, rhs: Point) -> (sum: Point) {
        Point::new(self.x + rhs.x, self.y + rhs.y)
    }
}

impl AddSpecImpl<Point> for Point {
    open spec fn obeys_add_spec() -> bool {
        true
    }

    open spec fn add_req(self, rhs: Point) -> bool {
        self.can_add(rhs)
    }

    open spec fn add_spec(self, rhs: Point) -> Point {
        Point { x: (self.x + rhs.x) as i16, y: (self.y + rhs.y) as i16 }
    }
}

impl std::ops::Sub<Point> for Point {
    type Output = Point;

    fn sub(self, rhs: Point) -> (diff: Point) {
        Point::new(self.x - rhs.x, self.y - rhs.y)
    }
}

impl SubSpecImpl<Point> for Point {
    open spec fn obeys_sub_spec() -> bool {
        true
    }

    open spec fn sub_req(self, rhs: Point) -> bool {
        self.can_sub(rhs)
    }

    open spec fn sub_spec(self, rhs: Point) -> Point {
        Point { x: (self.x - rhs.x) as i16, y: (self.y - rhs.y) as i16 }
    }
}

} // verus!
