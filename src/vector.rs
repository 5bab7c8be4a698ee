use vstd::prelude::*;

verus! {

/// A point of the grid, or a step between two points.
#[derive(Clone, Copy, Debug, Hash, Default, PartialEq, Eq, Structural)]
pub struct Vector2d {
    pub x: i32,
    pub y: i32,
}

/// The sum of two vectors fits in `i32` on both axes.
pub open spec fn add_fits(a: Vector2d, b: Vector2d) -> bool {
    i32::MIN <= a.x + b.x <= i32::MAX && i32::MIN <= a.y + b.y <= i32::MAX
}

impl Vector2d {
    pub fn new(x: i32, y: i32) -> (r: Vector2d)
        ensures
            r.x == x,
            r.y == y,
    {
        Vector2d { x, y }
    }

    /// Componentwise sum.
    pub fn add(self, other: Vector2d) -> (r: Vector2d)
        requires
            add_fits(self, other),
        ensures
            r.x == self.x + other.x,
            r.y == self.y + other.y,
    {
        Vector2d { x: self.x + other.x, y: self.y + other.y }
    }

    /// Moves `self` by `other`.
    pub fn add_assign(&mut self, other: Vector2d)
        requires
            add_fits(*old(self), other),
        ensures
            final(self).x == old(self).x + other.x,
            final(self).y == old(self).y + other.y,
    {
        *self = self.add(other);
    }
}

} // verus!
