//! The geometry of a window as the server reports it, and the quadrants of it
//! that decide which corner a resize holds still.

use vstd::prelude::*;
use vstd::std_specs::convert::FromSpecImpl;
use crate::point::Point;

verus! {

/// One of the four quarters of a rectangle, split at its midpoint on each axis.
#[derive(Debug, Clone, Copy, PartialEq, Eq, Structural)]
pub enum Quadrant {
    TopLeft,
    TopRight,
    BottomLeft,
    BottomRight,
}

/// Position, size and border of a window, relative to its parent.
#[derive(Debug, Clone, Copy, PartialEq, Eq, Structural)]
pub struct WindowGeometry {
    /// X coordinate relative to the parent.
    pub x: i16,
    /// Y coordinate relative to the parent.
    pub y: i16,
    /// Width of the interior.
    pub w: u16,
    /// Height of the interior.
    pub h: u16,
    /// Width of the border on each side.
    pub bw: u16,
}

impl WindowGeometry {
    /// Width with the border on both sides.
    pub open spec fn outer_width(self) -> int {
        self.w + 2 * self.bw
    }

    /// Height with the border on both sides.
    pub open spec fn outer_height(self) -> int {
        self.h + 2 * self.bw
    }

    /// The vertical line that separates the left half from the right half.
    /// A point on the line belongs to the left half.
    pub open spec fn mid_x(self) -> int {
        self.x + self.outer_width() / 2
    }

    /// The horizontal line that separates the top half from the bottom half.
    /// A point on the line belongs to the top half.
    pub open spec fn mid_y(self) -> int {
        self.y + self.outer_height() / 2
    }

    /// Whether the point lies on the window, border and both far edges included.
    pub open spec fn covers(self, point: Point) -> bool {
        &&& self.x <= point.x <= self.x + self.outer_width()
        &&& self.y <= point.y <= self.y + self.outer_height()
    }

    /// The quadrant of a point on the window; nothing for a point off it.
    pub open spec fn quadrant_of(self, point: Point) -> Option<Quadrant> {
        if !self.covers(point) {
            None
        } else if point.x > self.mid_x() {
            if point.y > self.mid_y() {
                Some(Quadrant::BottomRight)
            } else {
                Some(Quadrant::TopRight)
            }
        } else {
            if point.y > self.mid_y() {
                Some(Quadrant::BottomLeft)
            } else {
                Some(Quadrant::TopLeft)
            }
        }
    }

    pub fn new(x: i16, y: i16, width: u16, height: u16, border_width: u16) -> (g: WindowGeometry)
        ensures
            g == (WindowGeometry { x, y, w: width, h: height, bw: border_width }),
    {
        WindowGeometry { x, y, w: width, h: height, bw: border_width }
    }

    /// Full width, including the border.
    pub fn full_width(&self) -> (width: u16)
        requires
            self.outer_width() <= u16::MAX,
        ensures
            width == self.outer_width(),
    {
        self.w + (self.bw * 2)
    }

    /// Full height, including the border.
    pub fn full_height(&self) -> (height: u16)
        requires
            self.outer_height() <= u16::MAX,
        ensures
            height == self.outer_height(),
    {
        self.h + (self.bw * 2)
    }

    /// Does this window (including border) contain the point?
    pub fn contains(&self, point: &Point) -> (inside: bool)
        ensures
            inside == self.covers(*point),
    {
        let end_x: i32 = self.x as i32 + self.w as i32 + 2 * (self.bw as i32);
        let end_y: i32 = self.y as i32 + self.h as i32 + 2 * (self.bw as i32);
        (self.x <= point.x && point.x as i32 <= end_x) && (self.y <= point.y && point.y as i32
            <= end_y)
    }

    /// The quadrant of the window that holds the point, if the window contains it.
    pub fn quadrant(&self, point: &Point) -> (q: Option<Quadrant>)
        ensures
            q == self.quadrant_of(*point),
    {
        let horizontal_bound: i32 = self.x as i32 + (self.w as i32 + 2 * (self.bw as i32)) / 2;
        let vertical_bound: i32 = self.y as i32 + (self.h as i32 + 2 * (self.bw as i32)) / 2;
        if !self.contains(point) {
            None
        } else if point.x as i32 > horizontal_bound && point.y as i32 > vertical_bound {
            Some(Quadrant::BottomRight)
        } else if point.x as i32 > horizontal_bound {
            Some(Quadrant::TopRight)
        } else if point.y as i32 > vertical_bound {
            Some(Quadrant::BottomLeft)
        } else {
            Some(Quadrant::TopLeft)
        }
    }
}

impl From<(i16, i16, u16, u16)> for WindowGeometry {
    fn from(t: (i16, i16, u16, u16)) -> (g: WindowGeometry) {
        WindowGeometry::new(t.0, t.1, t.2, t.3, 0)
    }
}

impl FromSpecImpl<(i16, i16, u16, u16)> for WindowGeometry {
    open spec fn obeys_from_spec() -> bool {
        true
    }

    open spec fn from_spec(t: (i16, i16, u16, u16)) -> WindowGeometry {
        WindowGeometry { x: t.0, y: t.1, w: t.2, h: t.3, bw: 0 }
    }
}

impl From<(i16, i16, u16, u16, u16)> for WindowGeometry {
    fn from(t: (i16, i16, u16, u16, u16)) -> (g: WindowGeometry) {
        WindowGeometry::new(t.0, t.1, t.2, t.3, t.4)
    }
}

impl FromSpecImpl<(i16, i16, u16, u16, u16)> for WindowGeometry {
    open spec fn obeys_from_spec() -> bool {
        true
    }

    open spec fn from_spec(t: (i16, i16, u16, u16, u16)) -> WindowGeometry {
        WindowGeometry { x: t.0, y: t.1, w: t.2, h: t.3, bw: t.4 }
    }
}

/// Around the midpoint of a window that is at least two pixels wide and high,
/// the four points one pixel off on both axes fall into the four quadrants:
/// up and left of the midpoint is the top left quadrant, and so on.
pub proof fn lemma_quadrants_around_center(g: WindowGeometry, up_left: Point, down_right: Point)
    requires
        g.outer_width() >= 2,
        g.outer_height() >= 2,
        up_left.x == g.mid_x() - 1,
        up_left.y == g.mid_y() - 1,
        down_right.x == g.mid_x() + 1,
        down_right.y == g.mid_y() + 1,
    ensures
        g.quadrant_of(up_left) == Some(Quadrant::TopLeft),
        g.quadrant_of(Point { x: down_right.x, y: up_left.y }) == Some(Quadrant::TopRight),
        g.quadrant_of(Point { x: up_left.x, y: down_right.y }) == Some(Quadrant::BottomLeft),
        g.quadrant_of(down_right) == Some(Quadrant::BottomRight),
{
}

/// A point exactly on the midpoint of both axes belongs to the top left quadrant.
pub proof fn lemma_midpoint_is_top_left(g: WindowGeometry, center: Point)
    requires
        center.x == g.mid_x(),
        center.y == g.mid_y(),
    ensures
        g.quadrant_of(center) == Some(Quadrant::TopLeft),
{
}

} // verus!
