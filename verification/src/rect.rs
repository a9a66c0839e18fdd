//! Rectangles measured in whole pixels.

use vstd::prelude::*;

verus! {

/// A rectangle, with width and height in pixels.
#[derive(Debug)]
pub struct Rectangle {
    pub width: u32,
    pub height: u32,
}

impl Rectangle {
    /// A square: both sides have the given size.
    pub fn square(size: u32) -> (r: Rectangle)
        ensures
            r.width == size,
            r.height == size,
    {
        Rectangle { width: size, height: size }
    }

    /// The area of the rectangle, which must fit in a `u32`.
    pub fn area(&self) -> (a: u32)
        requires
            self.width * self.height <= u32::MAX,
        ensures
            a == self.width * self.height,
    {
        self.width * self.height
    }

    /// Whether the rectangle has a nonzero width.
    pub fn width(&self) -> (nonzero: bool)
        ensures
            nonzero == (self.width > 0),
    {
        self.width > 0
    }
}

} // verus!
