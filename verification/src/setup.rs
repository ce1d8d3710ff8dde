//! Display regions and the requests that a bar sends to the display server.
//!
//! Resources of the display server (windows, pixmaps, drawing contexts) are
//! known here by their ids.

use std::cmp::Ordering;
use vstd::prelude::*;

verus! {

/// A display region in device pixels. A region that a display reports has
/// `w > 0` and `h > 0`.
#[derive(Clone, Copy, Debug, PartialEq, Eq, Structural)]
pub struct Rectangle {
    pub x: u32,
    pub y: u32,
    pub w: u32,
    pub h: u32,
}

impl Rectangle {
    /// The x coordinate just past the right edge.
    pub open spec fn right(self) -> int {
        self.x + self.w
    }

    /// The y coordinate just past the bottom edge.
    pub open spec fn bottom(self) -> int {
        self.y + self.h
    }

    /// A region has a positive extent in both directions.
    pub open spec fn well_formed(self) -> bool {
        self.w > 0 && self.h > 0
    }

    /// `self` lies fully within `other`; every rectangle is inside itself.
    pub open spec fn inside(self, other: Rectangle) -> bool {
        &&& self.x >= other.x
        &&& self.right() <= other.right()
        &&& self.y >= other.y
        &&& self.bottom() <= other.bottom()
    }

    /// `self` comes no later than `other`: further left, or at the same `x`
    /// with a bottom edge that is no lower.
    pub open spec fn precedes(self, other: Rectangle) -> bool {
        self.x < other.x || (self.x == other.x && self.bottom() <= other.bottom())
    }

    /// The region of a display controller, from its position and size as the
    /// display server reports them; `None` for a position off the screen or
    /// an empty region.
    pub fn from_crtc(x: i16, y: i16, width: u16, height: u16) -> (region: Option<Rectangle>)
        ensures
            region is Some <==> x >= 0 && y >= 0 && width > 0 && height > 0,
            region matches Some(r) ==> r.x == x && r.y == y && r.w == width && r.h == height
                && r.well_formed(),
    {
        if x >= 0 && y >= 0 && width > 0 && height > 0 {
            Some(Rectangle { x: x as u32, y: y as u32, w: width as u32, h: height as u32 })
        } else {
            None
        }
    }

    /// The right edge, computed without overflow.
    pub fn right_edge(&self) -> (r: u64)
        ensures
            r == self.right(),
    {
        self.x as u64 + self.w as u64
    }

    /// The bottom edge, computed without overflow.
    pub fn bottom_edge(&self) -> (r: u64)
        ensures
            r == self.bottom(),
    {
        self.y as u64 + self.h as u64
    }

    /// Containment test used to drop mirrored or cloned outputs.
    pub fn is_inside(&self, rect: &Rectangle) -> (r: bool)
        ensures
            r == self.inside(*rect),
    {
        self.x >= rect.x && self.right_edge() <= rect.right_edge() && self.y >= rect.y
            && self.bottom_edge() <= rect.bottom_edge()
    }

    /// Executable form of [`Rectangle::precedes`]: `self` does not compare
    /// greater than `other`.
    pub fn comes_before(&self, other: &Rectangle) -> (r: bool)
        ensures
            r == self.precedes(*other),
    {
        match compare_rectangles(self, other) {
            Ordering::Greater => false,
            _ => true,
        }
    }
}

/// The pixel value of the drawing context that clears a bar: opaque black.
pub const CLEAR_PIXEL: u32 = 0xFF00_0000;

/// The clear pixel is the pixel value of black at full alpha.
pub proof fn lemma_clear_pixel()
    ensures
        CLEAR_PIXEL == crate::cache::packed((0u8, 0u8, 0u8, 255u8)),
{
}

/// Whether an output shows a region: it is connected and has a display
/// controller, whose id is then not zero.
pub fn output_is_active(crtc: u32, connected: bool) -> (active: bool)
    ensures
        active == (crtc != 0 && connected),
{
    crtc != 0 && connected
}

/// Orders regions from left to right, and regions at the same `x` by their
/// bottom edge, top to bottom.
pub fn compare_rectangles(a: &Rectangle, b: &Rectangle) -> (o: Ordering)
    ensures
        o == Ordering::Less <==> (a.x < b.x || (a.x == b.x && a.bottom() < b.bottom())),
        o == Ordering::Equal <==> (a.x == b.x && a.bottom() == b.bottom()),
        o == Ordering::Greater <==> (a.x > b.x || (a.x == b.x && a.bottom() > b.bottom())),
        o != Ordering::Greater <==> a.precedes(*b),
{
    if a.x < b.x {
        Ordering::Less
    } else if a.x > b.x {
        Ordering::Greater
    } else {
        let bottom_a: u64 = a.bottom_edge();
        let bottom_b: u64 = b.bottom_edge();
        if bottom_a < bottom_b {
            Ordering::Less
        } else if bottom_a > bottom_b {
            Ordering::Greater
        } else {
            Ordering::Equal
        }
    }
}

/// Request to fill a rectangle of a drawable with the color of a drawing
/// context.
#[derive(Clone, Copy, Debug, PartialEq, Eq, Structural)]
pub struct FillRect {
    pub drawable: u32,
    pub gc: u32,
    pub x: u32,
    pub y: u32,
    pub w: u32,
    pub h: u32,
}

/// What a [`FillRect`] asks for.
pub struct FillRectView {
    pub drawable: u32,
    pub gc: u32,
    pub x: int,
    pub y: int,
    pub w: int,
    pub h: int,
}

impl View for FillRect {
    type V = FillRectView;

    open spec fn view(&self) -> FillRectView {
        FillRectView {
            drawable: self.drawable,
            gc: self.gc,
            x: self.x as int,
            y: self.y as int,
            w: self.w as int,
            h: self.h as int,
        }
    }
}

/// Request to fill a polygon of a drawable with the color of a drawing
/// context.
#[derive(Debug, PartialEq, Eq)]
pub struct FillPoly {
    pub drawable: u32,
    pub gc: u32,
    pub points: Vec<(u32, u32)>,
}

/// What a [`FillPoly`] asks for.
pub struct FillPolyView {
    pub drawable: u32,
    pub gc: u32,
    pub points: Seq<(int, int)>,
}

impl View for FillPoly {
    type V = FillPolyView;

    open spec fn view(&self) -> FillPolyView {
        FillPolyView {
            drawable: self.drawable,
            gc: self.gc,
            points: crate::shape::polygon_view(self.points@),
        }
    }
}

/// Request to copy the top-left `w` by `h` pixels of a pixmap onto a window,
/// unscaled.
#[derive(Clone, Copy, Debug, PartialEq, Eq, Structural)]
pub struct CopyArea {
    pub pixmap: u32,
    pub window: u32,
    pub gc: u32,
    pub w: u32,
    pub h: u32,
}

/// Request to make a window visible.
#[derive(Clone, Copy, Debug, PartialEq, Eq, Structural)]
pub struct MapWindow {
    pub window: u32,
}

} // verus!
