//! Integer rectangles.
use vstd::prelude::*;

verus! {

/// Integer rectangle.
#[derive(Debug, PartialEq, Eq, Structural, Clone, Copy)]
pub struct Rect {
    /// Rectangle left-up x-coordinate value.
    pub x: i32,
    /// Rectangle left-up y-coordinate value.
    pub y: i32,
    /// Rectangle width.
    pub w: u32,
    /// Rectangle height.
    pub h: u32,
}

} // verus!
