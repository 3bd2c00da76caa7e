//! Monitors as the enumeration reports them.

use crate::display::Display;
use vstd::prelude::*;
use vstd::std_specs::convert::FromSpecImpl;

verus! {

/// The rectangle of a monitor, by its edges.
#[derive(Debug, Copy, Clone, PartialEq, Eq, Structural)]
pub struct Rect {
    pub left: i32,
    pub top: i32,
    pub right: i32,
    pub bottom: i32,
}

/// The distance between two edges, whichever comes first.
pub open spec fn span(one: int, other: int) -> int {
    if one <= other {
        other - one
    } else {
        one - other
    }
}

/// The display that a monitor rectangle describes: it starts at the left and
/// top edge and is as wide and as high as the edges are apart.
pub open spec fn display_of(rect: Rect) -> Display {
    Display {
        top: rect.top,
        left: rect.left,
        width: span(rect.left as int, rect.right as int) as u32,
        height: span(rect.top as int, rect.bottom as int) as u32,
    }
}

fn span_between(one: i32, other: i32) -> (length: u32)
    ensures
        length == span(one as int, other as int),
{
    if one <= other {
        (other as i64 - one as i64) as u32
    } else {
        (one as i64 - other as i64) as u32
    }
}

impl From<Rect> for Display {
    fn from(rect: Rect) -> (display: Display) {
        Display {
            top: rect.top,
            left: rect.left,
            width: span_between(rect.left, rect.right),
            height: span_between(rect.top, rect.bottom),
        }
    }
}

impl FromSpecImpl<Rect> for Display {
    open spec fn obeys_from_spec() -> bool {
        true
    }

    open spec fn from_spec(rect: Rect) -> Display {
        display_of(rect)
    }
}

/// Takes note of one monitor during enumeration, and asks for the next.
pub fn enum_display_callback(displays: &mut Vec<Display>, rect: Rect) -> (go_on: bool)
    ensures
        go_on,
        final(displays)@ == old(displays)@.push(display_of(rect)),
{
    displays.push(Display::from(rect));
    true
}

} // verus!
