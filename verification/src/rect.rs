//! A rectangle without a border.

use vstd::prelude::*;
use vstd::std_specs::convert::FromSpecImpl;
use crate::point::Point;
pub use crate::window_geometry::Quadrant;

verus! {

/// Position and size of a rectangle.
#[derive(Debug, Clone, Copy, PartialEq, Eq, Structural)]
pub struct Rect {
    pub x: i16,
    pub y: i16,
    pub w: u16,
    pub h: u16,
}

impl Rect {
    /// The vertical line that separates the left half from the right half.
    pub open spec fn mid_x(self) -> int {
        self.x + self.w / 2
    }

    /// The horizontal line that separates the top half from the bottom half.
    pub open spec fn mid_y(self) -> int {
        self.y + self.h / 2
    }

    /// Whether the point lies on the rectangle, both far edges included.
    pub open spec fn covers(self, point: Point) -> bool {
        &&& self.x <= point.x <= self.x + self.w
        &&& self.y <= point.y <= self.y + self.h
    }

    /// The quadrant of a point on the rectangle; nothing for a point off it.
    /// A point on a dividing line belongs to the left or upper side.
    pub open spec fn quadrant_of(self, point: Point) -> Option<Quadrant> {
        if !self.covers(point) {
            None
        } else if point.x > self.mid_x() {
            if point.y > self.mid_y() {
                Some(Quadrant::BottomRight)
            } else {
                Some(Quadrant::TopRight)
            }
        } else {
            if point.y > self.mid_y() {
                Some(Quadrant::BottomLeft)
            } else {
                Some(Quadrant::TopLeft)
            }
        }
    }

    pub fn new(x: i16, y: i16, width: u16, height: u16) -> (r: Rect)
        ensures
            r == (Rect { x, y, w: width, h: height }),
    {
        Rect { x, y, w: width, h: height }
    }

    /// Does the rectangle contain the point?
    pub fn contains(&self, point: &Point) -> (inside: bool)
        ensures
            inside == self.covers(*point),
    {
        let end_x: i32 = self.x as i32 + self.w as i32;
        let end_y: i32 = self.y as i32 + self.h as i32;
        (self.x <= point.x && point.x as i32 <= end_x) && (self.y <= point.y && point.y as i32
            <= end_y)
    }

    /// The quadrant of the rectangle that holds the point, if the rectangle
    /// contains it.
    pub fn quadrant(&self, point: &Point) -> (q: Option<Quadrant>)
        ensures
            q == self.quadrant_of(*point),
    {
        let horizontal_bound: i32 = self.x as i32 + (self.w / 2) as i32;
        let vertical_bound: i32 = self.y as i32 + (self.h / 2) as i32;
        if !self.contains(point) {
            None
        } else if point.x as i32 > horizontal_bound && point.y as i32 > vertical_bound {
            Some(Quadrant::BottomRight)
        } else if point.x as i32 > horizontal_bound {
            Some(Quadrant::TopRight)
        } else if point.y as i32 > vertical_bound {
            Some(Quadrant::BottomLeft)
        } else {
            Some(Quadrant::TopLeft)
        }
    }
}

impl From<(i16, i16, u16, u16)> for Rect {
    fn from(t: (i16, i16, u16, u16)) -> (r: Rect) {
        Rect::new(t.0, t.1, t.2, t.3)
    }
}

impl FromSpecImpl<(i16, i16, u16, u16)> for Rect {
    open spec fn obeys_from_spec() -> bool {
        true
    }

    open spec fn from_spec(t: (i16, i16, u16, u16)) -> Rect {
        Rect { x: t.0, y: t.1, w: t.2, h: t.3 }
    }
}

} // verus!
