//! Colors and font metrics of the text renderer.
//!
//! The renderer itself lives outside this crate. What the layout needs of it
//! are plain values: the four channels of a color, the ascent and descent of
//! the loaded font, and the advance width of a run of text.

use vstd::prelude::*;

verus! {

/// A color as red, green, blue and alpha, eight bits each.
pub type RGBA = (u8, u8, u8, u8);

/// A color as red, green, blue and alpha, sixteen bits each.
pub type RGBA16 = (u16, u16, u16, u16);

/// The channel of a render color that stands for an eight bit channel: the
/// channel in the high byte, the low byte zero.
pub open spec fn wide_channel(c: u8) -> int {
    c * 256
}

/// The render color of `rgba`: each channel widened to sixteen bits.
pub open spec fn wide_color(rgba: RGBA) -> (int, int, int, int) {
    (wide_channel(rgba.0), wide_channel(rgba.1), wide_channel(rgba.2), wide_channel(rgba.3))
}

/// The eight bit color that a sixteen bit color truncates to: of each
/// channel the high byte.
pub open spec fn narrow_color(rgba: RGBA16) -> RGBA {
    ((rgba.0 / 256) as u8, (rgba.1 / 256) as u8, (rgba.2 / 256) as u8, (rgba.3 / 256) as u8)
}

/// Widening and then truncating a color gives it back.
pub proof fn lemma_narrow_wide(rgba: RGBA)
    ensures
        narrow_color(
            (
                wide_channel(rgba.0) as u16,
                wide_channel(rgba.1) as u16,
                wide_channel(rgba.2) as u16,
                wide_channel(rgba.3) as u16,
            ),
        ) == rgba,
{
}

fn widen_channel(c: u8) -> (wide: u16)
    ensures
        wide == wide_channel(c),
{
    let c16: u16 = c as u16;
    assert(c16 << 8 == c16 * 256) by (bit_vector)
        requires
            c16 < 256,
    ;
    c16 << 8
}

fn narrow_channel(c: u16) -> (narrow: u8)
    ensures
        narrow == c / 256,
{
    assert(c >> 8 == c / 256) by (bit_vector);
    (c >> 8) as u8
}

/// Widens a color to the sixteen bit channels of a render color, in the
/// order red, green, blue, alpha.
pub fn render_color(rgba: RGBA) -> (wide: RGBA16)
    ensures
        (wide.0 as int, wide.1 as int, wide.2 as int, wide.3 as int) == wide_color(rgba),
{
    (
        widen_channel(rgba.0),
        widen_channel(rgba.1),
        widen_channel(rgba.2),
        widen_channel(rgba.3),
    )
}

/// Truncates a sixteen bit color to eight bits per channel.
pub fn truncate_color(rgba: RGBA16) -> (narrow: RGBA)
    ensures
        narrow == narrow_color(rgba),
{
    (
        narrow_channel(rgba.0),
        narrow_channel(rgba.1),
        narrow_channel(rgba.2),
        narrow_channel(rgba.3),
    )
}

/// Ascent and descent of a loaded font, in pixels. Both fit a signed 32 bit
/// integer, so their sum fits `u32`.
#[derive(Clone, Copy, Debug, PartialEq, Eq)]
pub struct Font {
    ascent: u32,
    descent: u32,
}

impl Font {
    #[verifier::type_invariant]
    spec fn fits(self) -> bool {
        self.ascent <= i32::MAX && self.descent <= i32::MAX
    }

    /// Pixels above the baseline.
    pub closed spec fn ascent(self) -> int {
        self.ascent as int
    }

    /// Pixels below the baseline.
    pub closed spec fn descent(self) -> int {
        self.descent as int
    }

    /// The baseline for text in a canvas of the given height: the font's own
    /// height is centered, and the baseline lies `ascent` below its top.
    pub open spec fn baseline(self, canvas_height: int) -> int {
        (canvas_height - (self.ascent() + self.descent())) / 2 + self.ascent()
    }

    /// The metrics of a font as the renderer reports them; `None` if one of
    /// them is negative.
    pub fn new(ascent: i32, descent: i32) -> (font: Option<Font>)
        ensures
            font is Some <==> ascent >= 0 && descent >= 0,
            font matches Some(f) ==> f.ascent() == ascent && f.descent() == descent,
    {
        if ascent >= 0 && descent >= 0 {
            Some(Font { ascent: ascent as u32, descent: descent as u32 })
        } else {
            None
        }
    }

    /// Height of the font: ascent and descent together.
    pub fn asc_and_desc(&self) -> (height: u32)
        ensures
            height == self.ascent() + self.descent(),
    {
        proof {
            use_type_invariant(self);
        }
        self.ascent + self.descent
    }

    /// Executable form of [`Font::baseline`]. A canvas that is as high as the
    /// font has its baseline at the ascent.
    pub fn baseline_offset(&self, canvas_height: u32) -> (offset: u32)
        requires
            canvas_height >= self.ascent() + self.descent(),
        ensures
            offset == self.baseline(canvas_height as int),
            canvas_height == self.ascent() + self.descent() ==> offset == self.ascent(),
            offset <= canvas_height,
    {
        proof {
            use_type_invariant(self);
        }
        (canvas_height - self.asc_and_desc()) / 2 + self.ascent
    }
}

/// Request to draw a run of text onto a pixmap: in `color`, its left end at
/// `x` and its baseline at `baseline`.
#[derive(Debug, PartialEq, Eq)]
pub struct DrawString {
    pub pixmap: u32,
    pub text: String,
    pub color: RGBA,
    pub x: u32,
    pub baseline: u32,
}

/// What a [`DrawString`] asks for.
pub struct DrawStringView {
    pub pixmap: u32,
    pub text: Seq<char>,
    pub color: RGBA,
    pub x: int,
    pub baseline: int,
}

impl View for DrawString {
    type V = DrawStringView;

    open spec fn view(&self) -> DrawStringView {
        DrawStringView {
            pixmap: self.pixmap,
            text: self.text@,
            color: self.color,
            x: self.x as int,
            baseline: self.baseline as int,
        }
    }
}

/// The advance width of a run of text as the renderer reports it; `None` if
/// it is negative.
pub fn advance_width(x_off: i16) -> (width: Option<u32>)
    ensures
        width is Some <==> x_off >= 0,
        width matches Some(w) ==> w == x_off,
{
    if x_off >= 0 {
        Some(x_off as u32)
    } else {
        None
    }
}

} // verus!
