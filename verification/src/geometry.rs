//! Rectangles in physical pixels, and the client area of the target window.
use vstd::prelude::*;

verus! {

/// A rectangle in physical pixels: its top-left corner and its size.
#[derive(Clone, Copy, Debug, PartialEq, Eq, Structural)]
pub struct PhysicalRect {
    /// Left edge.
    pub x: i32,
    /// Top edge.
    pub y: i32,
    /// Width.
    pub width: u32,
    /// Height.
    pub height: u32,
}

/// Length of the span from `low` to `high`, or 0 when `high` is not beyond
/// `low`.
pub open spec fn extent(low: i32, high: i32) -> int {
    if high - low > 0 {
        high - low
    } else {
        0
    }
}

/// Size of a window's client area from the rectangle that `GetClientRect`
/// reports: each side is the difference of the edges, or 0 when negative; an
/// area with a zero side is unusable and gives `None`.
pub fn client_size(left: i32, top: i32, right: i32, bottom: i32) -> (size: Option<(u32, u32)>)
    requires
        i32::MIN <= right - left <= i32::MAX,
        i32::MIN <= bottom - top <= i32::MAX,
    ensures
        size is None <==> (extent(left, right) == 0 || extent(top, bottom) == 0),
        size matches Some((width, height)) ==> width == extent(left, right) && height == extent(
            top,
            bottom,
        ),
{
    let dx = right - left;
    let dy = bottom - top;
    let width: u32 = if dx > 0 {
        dx as u32
    } else {
        0
    };
    let height: u32 = if dy > 0 {
        dy as u32
    } else {
        0
    };
    if width == 0 || height == 0 {
        None
    } else {
        Some((width, height))
    }
}

/// The whole of a `width` x `height` surface: origin at (0, 0).
pub fn full_rect(width: u32, height: u32) -> (rect: PhysicalRect)
    ensures
        rect == (PhysicalRect { x: 0, y: 0, width, height }),
{
    PhysicalRect { x: 0, y: 0, width, height }
}

} // verus!
