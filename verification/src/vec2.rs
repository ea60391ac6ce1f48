//! An integer 2D point/size value type, the foundation of the layout math.

use vstd::prelude::*;

verus! {

/// A 2D point or size in terminal cells: `x` is the column axis,
/// `y` is the row axis.
#[derive(Clone, Copy, Debug, PartialEq, Eq, Structural)]
pub struct Vec2 {
    pub x: i32,
    pub y: i32,
}

impl Vec2 {
    pub fn new(x: i32, y: i32) -> (r: Self)
        ensures
            r.x == x,
            r.y == y,
    {
        Self { x, y }
    }

    /// Component-wise sum.
    pub fn add(self, rhs: Vec2) -> (r: Vec2)
        requires
            i32::MIN <= self.x + rhs.x <= i32::MAX,
            i32::MIN <= self.y + rhs.y <= i32::MAX,
        ensures
            r.x == self.x + rhs.x,
            r.y == self.y + rhs.y,
    {
        Vec2 { x: self.x + rhs.x, y: self.y + rhs.y }
    }

    /// Component-wise product; used to project a size onto one axis
    /// by multiplying with `{1, 0}` or `{0, 1}`.
    pub fn mul(self, rhs: Vec2) -> (r: Vec2)
        requires
            i32::MIN <= self.x * rhs.x <= i32::MAX,
            i32::MIN <= self.y * rhs.y <= i32::MAX,
        ensures
            r.x == self.x * rhs.x,
            r.y == self.y * rhs.y,
    {
        Vec2 { x: self.x * rhs.x, y: self.y * rhs.y }
    }
}

} // verus!
