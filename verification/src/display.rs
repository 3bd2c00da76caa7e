//! The display model shared by every backend.

use vstd::prelude::*;

verus! {

/// One monitor, by the rectangle it covers on the desktop.
///
/// `width` and `height` are the dimensions as seen on screen: a backend that
/// learns of a rotated panel stores them already swapped.
#[derive(Debug, Copy, Clone, PartialEq, Eq, Structural)]
pub struct Display {
    pub top: i32,
    pub left: i32,
    pub width: u32,
    pub height: u32,
}

impl Display {
    /// The width of the display, in the unit of its backend.
    pub fn width(&self) -> (width: u32)
        ensures
            width == self.width,
    {
        self.width
    }

    /// The height of the display, in the unit of its backend.
    pub fn height(&self) -> (height: u32)
        ensures
            height == self.height,
    {
        self.height
    }

    /// How many pixels the display shows.
    pub open spec fn area(self) -> nat {
        (self.width * self.height) as nat
    }
}

} // verus!
