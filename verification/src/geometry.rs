//! Points, sizes and rectangles on the pixel grid, and the rectangle
//! operations that the fills rest on.
//!
//! The origin is the top left corner; x grows to the right and y downwards.

use vstd::prelude::*;

verus! {

/// A coordinate on the pixel grid. It may lie outside any panel.
#[derive(Clone, Copy, Debug, PartialEq, Eq, Structural)]
pub struct Point {
    pub x: i32,
    pub y: i32,
}

/// A width and a height, in pixels.
#[derive(Clone, Copy, Debug, PartialEq, Eq, Structural)]
pub struct Size {
    pub width: u32,
    pub height: u32,
}

/// A rectangle, given by its top left corner and its size.
#[derive(Clone, Copy, Debug, PartialEq, Eq, Structural)]
pub struct Rectangle {
    pub top_left: Point,
    pub size: Size,
}

impl Point {
    /// The origin of the grid.
    pub open spec fn spec_zero() -> Point {
        Point { x: 0, y: 0 }
    }

    /// The point in column `x` of row `y`.
    pub fn new(x: i32, y: i32) -> (p: Point)
        ensures
            p == (Point { x, y }),
    {
        Point { x, y }
    }

    /// The origin of the grid.
    pub fn zero() -> (p: Point)
        ensures
            p == Point::spec_zero(),
    {
        Point { x: 0, y: 0 }
    }
}

impl Size {
    /// The size with no width and no height.
    pub open spec fn spec_zero() -> Size {
        Size { width: 0, height: 0 }
    }

    /// The size of the given width and height.
    pub fn new(width: u32, height: u32) -> (s: Size)
        ensures
            s == (Size { width, height }),
    {
        Size { width, height }
    }

    /// The size with no width and no height.
    pub fn zero() -> (s: Size)
        ensures
            s == Size::spec_zero(),
    {
        Size { width: 0, height: 0 }
    }
}

impl Rectangle {
    /// The rectangle holds no point: its width or its height is zero.
    pub open spec fn zero_sized(self) -> bool {
        self.size.width == 0 || self.size.height == 0
    }

    /// Every point of the rectangle is a coordinate: a rectangle that holds
    /// points ends, to the right and at the bottom, within the `i32` range.
    pub open spec fn valid(self) -> bool {
        self.zero_sized() || {
            &&& self.size.width <= i32::MAX
            &&& self.size.height <= i32::MAX
            &&& self.top_left.x + self.size.width <= i32::MAX
            &&& self.top_left.y + self.size.height <= i32::MAX
        }
    }

    /// `p` lies inside the rectangle.
    pub open spec fn spec_contains(self, p: Point) -> bool {
        &&& !self.zero_sized()
        &&& self.top_left.x <= p.x < self.top_left.x + self.size.width
        &&& self.top_left.y <= p.y < self.top_left.y + self.size.height
    }

    /// The number of points inside the rectangle.
    pub open spec fn area(self) -> nat {
        (self.size.width * self.size.height) as nat
    }

    /// The `k`-th point of the rectangle in row-major order.
    pub open spec fn point_at(self, k: int) -> Point {
        Point {
            x: (self.top_left.x + k % (self.size.width as int)) as i32,
            y: (self.top_left.y + k / (self.size.width as int)) as i32,
        }
    }

    /// The points of the rectangle in row-major order: the top row from left
    /// to right, then the row below it, down to the bottom row.
    pub open spec fn spec_points(self) -> Seq<Point> {
        Seq::new(self.area(), |k: int| self.point_at(k))
    }

    /// The place of `p` in the row-major order of the rectangle's points.
    pub open spec fn offset_of(self, p: Point) -> int {
        (p.y - self.top_left.y) * self.size.width + (p.x - self.top_left.x)
    }

    /// The rectangle that starts at the greater of the two left edges and
    /// the greater of the two top edges, and ends at the lesser of the two
    /// right edges and the lesser of the two bottom edges. It is the common
    /// part of two rectangles that share a point.
    pub open spec fn common_part(self, other: Rectangle) -> Rectangle {
        let left = if self.top_left.x >= other.top_left.x {
            self.top_left.x
        } else {
            other.top_left.x
        };
        let top = if self.top_left.y >= other.top_left.y {
            self.top_left.y
        } else {
            other.top_left.y
        };
        let right = if self.top_left.x + self.size.width <= other.top_left.x + other.size.width {
            self.top_left.x + self.size.width
        } else {
            other.top_left.x + other.size.width
        };
        let bottom = if self.top_left.y + self.size.height <= other.top_left.y
            + other.size.height {
            self.top_left.y + self.size.height
        } else {
            other.top_left.y + other.size.height
        };
        Rectangle {
            top_left: Point { x: left, y: top },
            size: Size { width: (right - left) as u32, height: (bottom - top) as u32 },
        }
    }

    /// Two rectangles share a point.
    pub open spec fn overlaps(self, other: Rectangle) -> bool {
        exists|p: Point| self.spec_contains(p) && other.spec_contains(p)
    }

    /// `self` lies wholly inside `other`.
    pub open spec fn within(self, other: Rectangle) -> bool {
        forall|p: Point| self.spec_contains(p) ==> other.spec_contains(p)
    }

    /// The rectangle of the given size whose top left corner is `top_left`.
    pub fn new(top_left: Point, size: Size) -> (r: Rectangle)
        ensures
            r == (Rectangle { top_left, size }),
    {
        Rectangle { top_left, size }
    }

    /// Whether the rectangle holds no point.
    pub fn is_zero_sized(&self) -> (b: bool)
        ensures
            b == self.zero_sized(),
    {
        self.size.width == 0 || self.size.height == 0
    }

    /// The part of the rectangle that lies in `other` too. Where the two
    /// share no point, the result is zero sized.
    pub fn intersection(&self, other: &Rectangle) -> (r: Rectangle)
        requires
            self.valid(),
            other.valid(),
        ensures
            r.valid(),
            forall|p: Point|
                r.spec_contains(p) == (self.spec_contains(p) && other.spec_contains(p)),
            r.zero_sized() == !self.overlaps(*other),
            self.overlaps(*other) ==> r == self.common_part(*other),
    {
        let r = eg_intersection(self, other);
        proof {
            if !r.zero_sized() {
                assert(r.spec_contains(r.top_left));
                assert(self.spec_contains(r.top_left) && other.spec_contains(r.top_left));
            }
            if self.overlaps(*other) {
                let p = choose|p: Point| self.spec_contains(p) && other.spec_contains(p);
                assert(r.spec_contains(p));
                let c = self.common_part(*other);
                let first = c.top_left;
                let last = Point {
                    x: (c.top_left.x + c.size.width - 1) as i32,
                    y: (c.top_left.y + c.size.height - 1) as i32,
                };
                let r_last = Point {
                    x: (r.top_left.x + r.size.width - 1) as i32,
                    y: (r.top_left.y + r.size.height - 1) as i32,
                };
                assert(self.spec_contains(first) && other.spec_contains(first));
                assert(self.spec_contains(last) && other.spec_contains(last));
                assert(r.spec_contains(first) && r.spec_contains(last));
                assert(r.spec_contains(r.top_left) && r.spec_contains(r_last));
                assert(self.spec_contains(r_last) && other.spec_contains(r_last));
            }
        }
        r
    }

    /// Whether `p` lies inside the rectangle.
    pub fn contains(&self, p: Point) -> (b: bool)
        requires
            self.valid(),
        ensures
            b == self.spec_contains(p),
    {
        eg_contains(self, p)
    }

    /// Whether every point of the rectangle is a coordinate.
    pub fn is_valid(&self) -> (b: bool)
        ensures
            b == self.valid(),
    {
        if self.size.width == 0 || self.size.height == 0 {
            true
        } else {
            let right: i64 = self.top_left.x as i64 + self.size.width as i64;
            let bottom: i64 = self.top_left.y as i64 + self.size.height as i64;
            self.size.width <= i32::MAX as u32 && self.size.height <= i32::MAX as u32 && right
                <= i32::MAX as i64 && bottom <= i32::MAX as i64
        }
    }
}

/// The `k`-th point of a valid rectangle lies inside it, at offset `k`.
pub proof fn lemma_point_at_inside(r: Rectangle, k: int)
    requires
        r.valid(),
        0 <= k < r.area(),
    ensures
        r.spec_contains(r.point_at(k)),
        r.offset_of(r.point_at(k)) == k,
        r.point_at(k).x == r.top_left.x + k % (r.size.width as int),
        r.point_at(k).y == r.top_left.y + k / (r.size.width as int),
{
    let w = r.size.width as int;
    let h = r.size.height as int;
    assert(w > 0 && h > 0) by (nonlinear_arith)
        requires
            0 <= k < w * h,
            w >= 0,
            h >= 0,
    ;
    assert(0 <= k % w < w && 0 <= k / w < h && (k / w) * w + k % w == k) by (nonlinear_arith)
        requires
            0 <= k < w * h,
            w > 0,
            h > 0,
    ;
}

/// A point inside a valid rectangle is the one at its own offset.
pub proof fn lemma_offset_of_inside(r: Rectangle, p: Point)
    requires
        r.valid(),
        r.spec_contains(p),
    ensures
        0 <= r.offset_of(p) < r.area(),
        r.point_at(r.offset_of(p)) == p,
        r.spec_points()[r.offset_of(p)] == p,
{
    let w = r.size.width as int;
    let h = r.size.height as int;
    let dx = p.x - r.top_left.x;
    let dy = p.y - r.top_left.y;
    let k = dy * w + dx;
    assert(0 <= k < w * h && k % w == dx && k / w == dy) by (nonlinear_arith)
        requires
            0 <= dx < w,
            0 <= dy < h,
            k == dy * w + dx,
    ;
}

/// The points that a rectangle's point iterator has yet to yield, in the
/// order in which it will yield them.
pub uninterp spec fn remaining_points(it: embedded_graphics::primitives::rectangle::Points) -> Seq<
    Point,
>;

/// The iterator over a rectangle's points, of `embedded_graphics`.
#[verifier::external_type_specification]
#[verifier::external_body]
pub struct ExPoints(embedded_graphics::primitives::rectangle::Points);

/// `Rectangle::intersection` of `embedded_graphics`. Of two valid
/// rectangles it returns a valid rectangle that holds exactly the points
/// that lie in both; where they share none, that rectangle is zero sized.
#[verifier::external_body]
pub(crate) fn eg_intersection(a: &Rectangle, b: &Rectangle) -> (r: Rectangle)
    requires
        a.valid(),
        b.valid(),
    ensures
        r.valid(),
        forall|p: Point| r.spec_contains(p) == (a.spec_contains(p) && b.spec_contains(p)),
{
    let ea = embedded_graphics::primitives::Rectangle::new(
        embedded_graphics::geometry::Point::new(a.top_left.x, a.top_left.y),
        embedded_graphics::geometry::Size::new(a.size.width, a.size.height),
    );
    let eb = embedded_graphics::primitives::Rectangle::new(
        embedded_graphics::geometry::Point::new(b.top_left.x, b.top_left.y),
        embedded_graphics::geometry::Size::new(b.size.width, b.size.height),
    );
    let er = ea.intersection(&eb);
    Rectangle {
        top_left: Point { x: er.top_left.x, y: er.top_left.y },
        size: Size { width: er.size.width, height: er.size.height },
    }
}

/// `Rectangle::contains` of `embedded_graphics`: whether a point lies
/// between the top left and the bottom right corner of a valid rectangle,
/// both included.
#[verifier::external_body]
pub(crate) fn eg_contains(r: &Rectangle, p: Point) -> (b: bool)
    requires
        r.valid(),
    ensures
        b == r.spec_contains(p),
{
    embedded_graphics::primitives::Rectangle::new(
        embedded_graphics::geometry::Point::new(r.top_left.x, r.top_left.y),
        embedded_graphics::geometry::Size::new(r.size.width, r.size.height),
    ).contains(embedded_graphics::geometry::Point::new(p.x, p.y))
}

/// `PointsIter::points` of `embedded_graphics`, on a rectangle: the iterator
/// that will yield the points of a valid rectangle in row-major order.
#[verifier::external_body]
pub(crate) fn eg_points(r: &Rectangle) -> (it: embedded_graphics::primitives::rectangle::Points)
    requires
        r.valid(),
    ensures
        remaining_points(it) == r.spec_points(),
{
    embedded_graphics::primitives::PointsIter::points(
        &embedded_graphics::primitives::Rectangle::new(
            embedded_graphics::geometry::Point::new(r.top_left.x, r.top_left.y),
            embedded_graphics::geometry::Size::new(r.size.width, r.size.height),
        ),
    )
}

/// `Iterator::next` of the point iterator of `embedded_graphics`: it yields
/// the first of the remaining points and keeps the rest, or yields nothing
/// once none remains.
#[verifier::external_body]
pub(crate) fn eg_next_point(it: &mut embedded_graphics::primitives::rectangle::Points) -> (p:
    Option<Point>)
    ensures
        remaining_points(*old(it)).len() == 0 ==> p is None && remaining_points(*final(it))
            == remaining_points(*old(it)),
        remaining_points(*old(it)).len() > 0 ==> p == Some(remaining_points(*old(it))[0])
            && remaining_points(*final(it)) == remaining_points(*old(it)).drop_first(),
    no_unwind
{
    match it.next() {
        Some(q) => Some(Point { x: q.x, y: q.y }),
        None => None,
    }
}

} // verus!
