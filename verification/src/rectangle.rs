//! Positions, sizes and rectangles in the compositor's logical coordinate
//! space, with the intersection algebra used to clip capture regions.
//!
//! A rectangle with a non-positive width or height is "empty": it contains
//! no point and intersects nothing. An overlap must have strictly positive
//! width and height to count; rectangles that merely touch along an edge do
//! not intersect.

use vstd::prelude::*;

verus! {

/// A point in compositor space, in pixels.
#[derive(Debug, PartialEq, Eq, Structural, Copy, Clone)]
pub struct Position {
    pub x: i32,
    pub y: i32,
}

impl Position {
    pub fn new(x: i32, y: i32) -> (r: Self)
        ensures
            r == (Position { x, y }),
    {
        Position { x, y }
    }

    /// Component-wise sum.
    pub fn add(self, rhs: Self) -> (r: Self)
        requires
            i32::MIN <= self.x + rhs.x <= i32::MAX,
            i32::MIN <= self.y + rhs.y <= i32::MAX,
        ensures
            r.x == self.x + rhs.x,
            r.y == self.y + rhs.y,
    {
        Position { x: self.x + rhs.x, y: self.y + rhs.y }
    }

    /// Component-wise difference.
    pub fn sub(self, rhs: Self) -> (r: Self)
        requires
            i32::MIN <= self.x - rhs.x <= i32::MAX,
            i32::MIN <= self.y - rhs.y <= i32::MAX,
        ensures
            r.x == self.x - rhs.x,
            r.y == self.y - rhs.y,
    {
        Position { x: self.x - rhs.x, y: self.y - rhs.y }
    }
}

/// A width and height in pixels. Only strictly positive sizes are
/// meaningful; non-positive sizes mark an empty rectangle.
#[derive(Debug, PartialEq, Eq, Structural, Copy, Clone)]
pub struct Size {
    pub width: i32,
    pub height: i32,
}

impl Size {
    pub fn new(width: i32, height: i32) -> (r: Self)
        ensures
            r == (Size { width, height }),
    {
        Size { width, height }
    }

    /// Component-wise sum.
    pub fn add(self, rhs: Self) -> (r: Self)
        requires
            i32::MIN <= self.width + rhs.width <= i32::MAX,
            i32::MIN <= self.height + rhs.height <= i32::MAX,
        ensures
            r.width == self.width + rhs.width,
            r.height == self.height + rhs.height,
    {
        Size { width: self.width + rhs.width, height: self.height + rhs.height }
    }

    /// Component-wise difference.
    pub fn sub(self, rhs: Self) -> (r: Self)
        requires
            i32::MIN <= self.width - rhs.width <= i32::MAX,
            i32::MIN <= self.height - rhs.height <= i32::MAX,
        ensures
            r.width == self.width - rhs.width,
            r.height == self.height - rhs.height,
    {
        Size { width: self.width - rhs.width, height: self.height - rhs.height }
    }
}

/// An axis-aligned rectangle: `position` is its top-left corner and `size`
/// extends right and down from there.
#[derive(Debug, PartialEq, Eq, Structural, Copy, Clone)]
pub struct Rectangle {
    pub position: Position,
    pub size: Size,
}

impl Rectangle {
    pub open spec fn left(self) -> int {
        self.position.x as int
    }

    pub open spec fn top(self) -> int {
        self.position.y as int
    }

    pub open spec fn right(self) -> int {
        self.position.x + self.size.width
    }

    pub open spec fn bottom(self) -> int {
        self.position.y + self.size.height
    }

    /// An empty rectangle contains no point and intersects nothing.
    pub open spec fn is_empty(self) -> bool {
        self.size.width <= 0 || self.size.height <= 0
    }

    /// The right and bottom edges stay within the machine's coordinate
    /// range, so edge positions can be computed without overflow.
    pub open spec fn well_formed(self) -> bool {
        &&& self.position.x + self.size.width <= i32::MAX
        &&& self.position.y + self.size.height <= i32::MAX
    }

    /// Half-open containment: the left and top edges are inside, the right
    /// and bottom edges are not.
    pub open spec fn spec_contains_point(self, x: int, y: int) -> bool {
        &&& self.left() <= x < self.right()
        &&& self.top() <= y < self.bottom()
    }

    /// Every point of `other` lies in `self` (edge algebra form).
    pub open spec fn spec_contains_rect(self, other: Rectangle) -> bool {
        &&& self.left() <= other.left()
        &&& other.right() <= self.right()
        &&& self.top() <= other.top()
        &&& other.bottom() <= self.bottom()
    }

    /// The maximal rectangle contained in both arguments, or `None` when
    /// either is empty or the overlap is degenerate (zero width or height).
    pub open spec fn spec_intersection(self, other: Rectangle) -> Option<Rectangle> {
        if self.is_empty() || other.is_empty() {
            None
        } else {
            let l = vstd::math::max(self.left(), other.left());
            let t = vstd::math::max(self.top(), other.top());
            let r = vstd::math::min(self.right(), other.right());
            let b = vstd::math::min(self.bottom(), other.bottom());
            if l < r && t < b {
                Some(
                    Rectangle {
                        position: Position { x: l as i32, y: t as i32 },
                        size: Size { width: (r - l) as i32, height: (b - t) as i32 },
                    },
                )
            } else {
                None
            }
        }
    }

    pub fn new(position: Position, size: Size) -> (r: Self)
        ensures
            r == (Rectangle { position, size }),
    {
        Rectangle { position, size }
    }

    /// Whether the half-open rectangle contains the point `(x, y)`.
    pub fn contains_point(self, x: i32, y: i32) -> (r: bool)
        requires
            self.well_formed(),
        ensures
            r == self.spec_contains_point(x as int, y as int),
    {
        if self.size.width <= 0 || self.size.height <= 0 {
            return false;
        }
        self.position.x <= x && x < self.position.x + self.size.width && self.position.y <= y && y
            < self.position.y + self.size.height
    }

    /// The intersection of two rectangles, `None` when they do not overlap
    /// in an area of positive width and height.
    pub fn get_intersection(self, rectangle: Rectangle) -> (r: Option<Rectangle>)
        requires
            self.well_formed(),
            rectangle.well_formed(),
        ensures
            r == self.spec_intersection(rectangle),
    {
        if self.size.width <= 0 || self.size.height <= 0 || rectangle.size.width <= 0
            || rectangle.size.height <= 0 {
            return None;
        }
        let left = if self.position.x >= rectangle.position.x {
            self.position.x
        } else {
            rectangle.position.x
        };
        let top = if self.position.y >= rectangle.position.y {
            self.position.y
        } else {
            rectangle.position.y
        };
        let self_right = self.position.x + self.size.width;
        let other_right = rectangle.position.x + rectangle.size.width;
        let right = if self_right <= other_right {
            self_right
        } else {
            other_right
        };
        let self_bottom = self.position.y + self.size.height;
        let other_bottom = rectangle.position.y + rectangle.size.height;
        let bottom = if self_bottom <= other_bottom {
            self_bottom
        } else {
            other_bottom
        };
        if left < right && top < bottom {
            Some(
                Rectangle {
                    position: Position { x: left, y: top },
                    size: Size { width: right - left, height: bottom - top },
                },
            )
        } else {
            None
        }
    }
}

/// Intersection is commutative: `intersect(a, b)` equals `intersect(b, a)`
/// for all rectangles.
pub proof fn lemma_intersection_commutative(a: Rectangle, b: Rectangle)
    ensures
        a.spec_intersection(b) == b.spec_intersection(a),
{
}

/// An intersection, when present, is a non-empty rectangle contained in
/// both arguments.
pub proof fn lemma_intersection_contained(a: Rectangle, b: Rectangle)
    ensures
        a.spec_intersection(b) matches Some(r) ==> {
            &&& !r.is_empty()
            &&& a.spec_contains_rect(r)
            &&& b.spec_contains_rect(r)
        },
{
}

/// A point lies in the intersection exactly when it lies in both
/// rectangles; in particular, when the intersection is `None`, no point
/// lies in both.
pub proof fn lemma_intersection_pointwise(a: Rectangle, b: Rectangle, x: int, y: int)
    ensures
        match a.spec_intersection(b) {
            Some(r) => r.spec_contains_point(x, y) == (a.spec_contains_point(x, y)
                && b.spec_contains_point(x, y)),
            None => !(a.spec_contains_point(x, y) && b.spec_contains_point(x, y)),
        },
{
}

} // verus!
