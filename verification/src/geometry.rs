use vstd::prelude::*;

verus! {

/// Whether an integer is representable as an `i32`.
pub open spec fn fits_i32(x: int) -> bool {
    i32::MIN <= x <= i32::MAX
}

/// Rust's `/ 2` on signed integers: the quotient rounded toward zero.
pub open spec fn half_toward_zero(x: int) -> int {
    if x >= 0 {
        x / 2
    } else {
        -((-x) / 2)
    }
}

/// A screen rectangle given by its four edges, as the desktop reports it.
#[derive(Clone, Copy, Debug, PartialEq, Eq, Structural)]
pub struct Rect {
    pub left: i32,
    pub top: i32,
    pub right: i32,
    pub bottom: i32,
}

impl Rect {
    /// The rectangle with top-left corner `(x, y)` and the given size.
    pub fn from_origin_size(x: i32, y: i32, width: i32, height: i32) -> (r: Rect)
        requires
            fits_i32(x + width),
            fits_i32(y + height),
        ensures
            r.left == x,
            r.top == y,
            r.right == x + width,
            r.bottom == y + height,
    {
        Rect { left: x, top: y, right: x + width, bottom: y + height }
    }

    /// The all-zero rectangle.
    pub fn zero() -> (r: Rect)
        ensures
            r == (Rect { left: 0, top: 0, right: 0, bottom: 0 }),
    {
        Rect { left: 0, top: 0, right: 0, bottom: 0 }
    }
}

} // verus!
