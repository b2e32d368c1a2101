use vstd::prelude::*;

verus! {

/// Coordinates of every rectangle in the scene stay within this magnitude.
pub const WORLD_BOUND: i32 = 100_000;

/// An axis-aligned rectangle: top-left corner `(x, y)`, width `w`, height `h`.
#[derive(Clone, Copy, Debug, PartialEq, Eq, Structural)]
pub struct Rect {
    pub x: i32,
    pub y: i32,
    pub w: i32,
    pub h: i32,
}

/// Whether two rectangles share an area greater than zero. Rectangles that
/// only touch along an edge, and empty rectangles, do not intersect.
pub open spec fn intersects(a: Rect, b: Rect) -> bool {
    &&& a.w > 0 && a.h > 0 && b.w > 0 && b.h > 0
    &&& a.x < b.x + b.w && b.x < a.x + a.w
    &&& a.y < b.y + b.h && b.y < a.y + a.h
}

impl Rect {
    /// All four fields are small enough for edge arithmetic to stay exact.
    pub open spec fn in_world(self) -> bool {
        &&& -WORLD_BOUND <= self.x <= WORLD_BOUND
        &&& -WORLD_BOUND <= self.y <= WORLD_BOUND
        &&& 0 <= self.w <= WORLD_BOUND
        &&& 0 <= self.h <= WORLD_BOUND
    }

    pub open spec fn right_spec(self) -> int {
        self.x + self.w
    }

    pub open spec fn bottom_spec(self) -> int {
        self.y + self.h
    }

    pub open spec fn center_x_spec(self) -> int {
        self.x + self.w / 2
    }

    pub open spec fn center_y_spec(self) -> int {
        self.y + self.h / 2
    }

    pub fn new(x: i32, y: i32, w: i32, h: i32) -> (r: Rect)
        ensures
            r == (Rect { x, y, w, h }),
    {
        Rect { x, y, w, h }
    }

    pub fn right(&self) -> (r: i32)
        requires
            self.in_world(),
        ensures
            r == self.right_spec(),
    {
        self.x + self.w
    }

    pub fn bottom(&self) -> (r: i32)
        requires
            self.in_world(),
        ensures
            r == self.bottom_spec(),
    {
        self.y + self.h
    }

    pub fn center_x(&self) -> (r: i32)
        requires
            self.in_world(),
        ensures
            r == self.center_x_spec(),
    {
        self.x + self.w / 2
    }

    pub fn center_y(&self) -> (r: i32)
        requires
            self.in_world(),
        ensures
            r == self.center_y_spec(),
    {
        self.y + self.h / 2
    }

    /// Moves the rectangle horizontally so that its right edge is at `right`.
    pub fn set_right(&mut self, right: i32)
        requires
            old(self).in_world(),
            -WORLD_BOUND <= right <= WORLD_BOUND,
        ensures
            *final(self) == (Rect { x: (right - old(self).w) as i32, ..*old(self) }),
            final(self).right_spec() == right,
    {
        self.x = right - self.w;
    }

    /// Whether this rectangle and `other` overlap with a positive area.
    pub fn has_intersection(&self, other: &Rect) -> (r: bool)
        requires
            self.in_world(),
            other.in_world(),
        ensures
            r == intersects(*self, *other),
    {
        self.w > 0 && self.h > 0 && other.w > 0 && other.h > 0
            && self.x < other.x + other.w && other.x < self.x + self.w
            && self.y < other.y + other.h && other.y < self.y + self.h
    }
}

/// Anything drawn as one rectangle.
pub trait Shape: Sized {
    spec fn rect_spec(&self) -> Rect;

    fn rect(&self) -> (r: Rect)
        ensures
            r == self.rect_spec(),
    ;
}

} // verus!
