//! Areas of rectangles, computed from bare sides, from a pair, and from a
//! struct.

use vstd::prelude::*;

verus! {

/// A rectangle given by its side lengths in pixels.
#[derive(Debug)]
pub struct Rectangle {
    pub width: u32,
    pub height: u32,
}

/// The area of a rectangle from its two sides.
pub fn area(width: u32, height: u32) -> (pixels: u32)
    requires
        width * height <= u32::MAX,
    ensures
        pixels == width * height,
{
    width * height
}

/// The area of a rectangle from a pair of sides.
pub fn area_with_tuple(dimensions: (u32, u32)) -> (pixels: u32)
    requires
        dimensions.0 * dimensions.1 <= u32::MAX,
    ensures
        pixels == dimensions.0 * dimensions.1,
{
    dimensions.0 * dimensions.1
}

/// The area of a rectangle from its struct.
pub fn area_with_structs(rectangle: &Rectangle) -> (pixels: u32)
    requires
        rectangle.width * rectangle.height <= u32::MAX,
    ensures
        pixels == rectangle.width * rectangle.height,
{
    rectangle.width * rectangle.height
}

} // verus!
