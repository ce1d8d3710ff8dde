//! The numbers of a request as the display protocol carries them.
//!
//! The protocol holds a position in a signed and an extent in an unsigned 16
//! bit integer. A request whose numbers do not fit cannot be sent; the
//! conversions here say so instead of truncating.

use crate::setup::{CopyArea, FillPoly, FillRect, Rectangle};
use vstd::prelude::*;

verus! {

/// A rectangle as the protocol carries it.
#[derive(Clone, Copy, Debug, PartialEq, Eq, Structural)]
pub struct WireRectangle {
    pub x: i16,
    pub y: i16,
    pub width: u16,
    pub height: u16,
}

/// The four numbers fit the protocol.
pub open spec fn fits_wire(x: int, y: int, width: int, height: int) -> bool {
    x <= i16::MAX && y <= i16::MAX && width <= u16::MAX && height <= u16::MAX
}

/// Every point fits the protocol.
pub open spec fn points_fit_wire(points: Seq<(u32, u32)>) -> bool {
    forall|j: int| 0 <= j < points.len() ==> (#[trigger] points[j]).0 <= i16::MAX && points[j].1
        <= i16::MAX
}

/// A position as the protocol carries it; `None` if it does not fit.
pub fn wire_position(v: u32) -> (wire: Option<i16>)
    ensures
        wire is Some <==> v <= i16::MAX,
        wire matches Some(p) ==> p == v,
{
    if v <= 0x7fff {
        Some(v as i16)
    } else {
        None
    }
}

/// An extent as the protocol carries it; `None` if it does not fit.
pub fn wire_extent(v: u32) -> (wire: Option<u16>)
    ensures
        wire is Some <==> v <= u16::MAX,
        wire matches Some(e) ==> e == v,
{
    if v <= 0xffff {
        Some(v as u16)
    } else {
        None
    }
}

/// A rectangle as the protocol carries it; `None` if one of its numbers does
/// not fit.
pub fn wire_rectangle(x: u32, y: u32, width: u32, height: u32) -> (wire: Option<WireRectangle>)
    ensures
        wire is Some <==> fits_wire(x as int, y as int, width as int, height as int),
        wire matches Some(r) ==> r.x == x && r.y == y && r.width == width && r.height == height,
{
    match (wire_position(x), wire_position(y), wire_extent(width), wire_extent(height)) {
        (Some(x), Some(y), Some(width), Some(height)) => Some(
            WireRectangle { x, y, width, height },
        ),
        _ => None,
    }
}

impl FillRect {
    /// The rectangle to fill, as the protocol carries it.
    pub fn wire(&self) -> (wire: Option<WireRectangle>)
        ensures
            wire is Some <==> fits_wire(self@.x, self@.y, self@.w, self@.h),
            wire matches Some(r) ==> r.x == self.x && r.y == self.y && r.width == self.w
                && r.height == self.h,
    {
        wire_rectangle(self.x, self.y, self.w, self.h)
    }
}

impl CopyArea {
    /// Width and height of the area to copy, as the protocol carries them.
    pub fn wire_size(&self) -> (wire: Option<(u16, u16)>)
        ensures
            wire is Some <==> self.w <= u16::MAX && self.h <= u16::MAX,
            wire matches Some(size) ==> size.0 == self.w && size.1 == self.h,
    {
        match (wire_extent(self.w), wire_extent(self.h)) {
            (Some(width), Some(height)) => Some((width, height)),
            _ => None,
        }
    }
}

impl FillPoly {
    /// The points of the polygon, as the protocol carries them.
    pub fn wire_points(&self) -> (wire: Option<Vec<(i16, i16)>>)
        ensures
            wire is Some <==> points_fit_wire(self.points@),
            wire matches Some(points) ==> points.len() == self.points.len() && forall|j: int|
                0 <= j < points.len() ==> (#[trigger] points@[j]).0 == self.points@[j].0
                    && points@[j].1 == self.points@[j].1,
    {
        let mut points: Vec<(i16, i16)> = Vec::new();
        let mut j: usize = 0;
        while j < self.points.len()
            invariant
                j <= self.points.len(),
                points.len() == j,
                points_fit_wire(self.points@.take(j as int)),
                forall|k: int|
                    0 <= k < j ==> (#[trigger] points@[k]).0 == self.points@[k].0 && points@[k].1
                        == self.points@[k].1,
            decreases self.points.len() - j,
        {
            let point: (u32, u32) = self.points[j];
            match (wire_position(point.0), wire_position(point.1)) {
                (Some(x), Some(y)) => points.push((x, y)),
                _ => {
                    return None;
                },
            }
            j += 1;
            proof {
                let done = self.points@.take(j as int);
                assert forall|k: int| 0 <= k < done.len() implies (#[trigger] done[k]).0
                    <= i16::MAX && done[k].1 <= i16::MAX by {
                    if k < j - 1 {
                        assert(done[k] == self.points@.take(j - 1)[k]);
                    }
                }
            }
        }
        proof {
            assert(self.points@.take(self.points.len() as int) =~= self.points@);
        }
        Some(points)
    }
}

/// The position and size of the window of a bar of the given height on a
/// region, as the protocol carries them: the region's place and width.
pub fn window_geometry(region: &Rectangle, height: u32) -> (wire: Option<WireRectangle>)
    ensures
        wire is Some <==> fits_wire(
            region.x as int,
            region.y as int,
            region.w as int,
            height as int,
        ),
        wire matches Some(r) ==> r.x == region.x && r.y == region.y && r.width == region.w
            && r.height == height,
{
    wire_rectangle(region.x, region.y, region.w, height)
}

} // verus!
