//! Shape generator: the polygons of the separator glyphs.
//!
//! A glyph stands in a cell that starts at the horizontal offset `xl`, is as
//! wide as its style demands and as high as the bar. Coordinates are pixel
//! offsets from the top-left corner of the bar, `y` growing downwards. The
//! polygons are stated over mathematical integers; the executable functions
//! return them as `u32` pairs.

use crate::bar::{PowerlineDirection, PowerlineFill, PowerlineStyle};
use vstd::prelude::*;

verus! {

/// Width of a powerline wedge: half the bar height, rounded up.
pub open spec fn powerline_width(height: int) -> int {
    (height + 1) / 2
}

/// Width of an octagon edge: the depth of its cut corners and one more pixel.
pub open spec fn octagon_width(height: int) -> int {
    height / 4 + 1
}

/// Width of the cell of a glyph. It depends on the style and the bar height
/// alone, never on fill or direction.
pub open spec fn shape_width(style: PowerlineStyle, height: int) -> int {
    match style {
        PowerlineStyle::Powerline => powerline_width(height),
        PowerlineStyle::Octagon => octagon_width(height),
    }
}

/// Number of polygons that make up a glyph.
pub open spec fn polygon_count(style: PowerlineStyle, fill: PowerlineFill) -> nat {
    match (style, fill) {
        (_, PowerlineFill::Full) => 1,
        (PowerlineStyle::Powerline, PowerlineFill::No) => 2,
        (PowerlineStyle::Octagon, PowerlineFill::No) => 3,
    }
}

/// The polygons of a powerline wedge in a bar of the given height, with its
/// cell starting at `xl`.
///
/// The slanted edges meet the vertical edge at `height / 2` from the top and
/// at `height / 2 + 1` from the bottom: with an odd height the upper half is
/// one unit taller, and the strokes at top and bottom are equally wide.
pub open spec fn powerline_polygons(
    height: int,
    xl: int,
    direction: PowerlineDirection,
    fill: PowerlineFill,
) -> Seq<Seq<(int, int)>> {
    let half = height / 2;
    let xr = xl + powerline_width(height);
    let yb = height;
    match (direction, fill) {
        (PowerlineDirection::Left, PowerlineFill::Full) => seq![
            seq![(xl, half), (xl, yb - half - 1), (xr, yb), (xr, 0int), (xr - 1, 0int)],
        ],
        (PowerlineDirection::Right, PowerlineFill::Full) => seq![
            seq![(xl, yb), (xr, yb - half - 1), (xr, half), (xl + 1, 0int), (xl, 0int)],
        ],
        (PowerlineDirection::Left, PowerlineFill::No) => seq![
            seq![(xl, half), (xl, half + 1), (xr, 0int), (xr - 1, 0int)],
            seq![(xl, yb - half - 1), (xr, yb), (xr, yb - 1), (xl + 1, yb - half - 1)],
        ],
        (PowerlineDirection::Right, PowerlineFill::No) => seq![
            seq![(xl, 0int), (xr, half + 1), (xr, half), (xl + 1, 0int)],
            seq![(xl, yb), (xr, yb - half - 1), (xr - 1, yb - half - 1), (xl, yb - 1)],
        ],
    }
}

/// The polygons of an octagon edge in a bar of the given height, with its
/// cell starting at `xl`. The corners are cut `height / 4` deep.
pub open spec fn octagon_polygons(
    height: int,
    xl: int,
    direction: PowerlineDirection,
    fill: PowerlineFill,
) -> Seq<Seq<(int, int)>> {
    let cut = height / 4;
    let xr = xl + octagon_width(height);
    let yb = height;
    match (direction, fill) {
        (PowerlineDirection::Right, PowerlineFill::Full) => seq![
            seq![(xl, yb), (xr, yb - cut - 1), (xr, cut), (xl + 1, 0int), (xl, 0int)],
        ],
        (PowerlineDirection::Right, PowerlineFill::No) => seq![
            seq![(xl, 0int), (xr, cut + 1), (xr, cut), (xl + 1, 0int)],
            seq![(xr - 1, cut), (xr - 1, yb - cut), (xr, yb - cut), (xr, cut)],
            seq![(xl, yb), (xr, yb - cut - 1), (xr - 1, yb - cut - 1), (xl, yb - 1)],
        ],
        (PowerlineDirection::Left, PowerlineFill::Full) => seq![
            seq![(xl, cut), (xl, yb - cut - 1), (xr, yb), (xr, 0int), (xr - 1, 0int)],
        ],
        (PowerlineDirection::Left, PowerlineFill::No) => seq![
            seq![(xl, cut), (xl, cut + 1), (xr, 0int), (xr - 1, 0int)],
            seq![(xl, cut), (xl, yb - cut), (xl + 1, yb - cut), (xl + 1, cut)],
            seq![(xl, yb - cut - 1), (xr, yb), (xr, yb - 1), (xl + 1, yb - cut - 1)],
        ],
    }
}

/// The polygons of a glyph of either style.
pub open spec fn shape_polygons(
    height: int,
    xl: int,
    style: PowerlineStyle,
    direction: PowerlineDirection,
    fill: PowerlineFill,
) -> Seq<Seq<(int, int)>> {
    match style {
        PowerlineStyle::Powerline => powerline_polygons(height, xl, direction, fill),
        PowerlineStyle::Octagon => octagon_polygons(height, xl, direction, fill),
    }
}

/// `polygons`, every point moved by `k` along the x axis.
pub open spec fn translate(polygons: Seq<Seq<(int, int)>>, k: int) -> Seq<Seq<(int, int)>> {
    Seq::new(
        polygons.len(),
        |i: int| Seq::new(polygons[i].len(), |j: int| (polygons[i][j].0 + k, polygons[i][j].1)),
    )
}

/// Every point of `polygons` lies in the cell that starts at `xl` and is
/// `width` wide and `height` high, borders included.
pub open spec fn within_cell(
    polygons: Seq<Seq<(int, int)>>,
    xl: int,
    width: int,
    height: int,
) -> bool {
    forall|i: int, j: int|
        0 <= i < polygons.len() && 0 <= j < polygons[i].len() ==> {
            let p = #[trigger] polygons[i][j];
            xl <= p.0 <= xl + width && 0 <= p.1 <= height
        }
}

/// The points of an executable polygon as mathematical integers.
pub open spec fn polygon_view(points: Seq<(u32, u32)>) -> Seq<(int, int)> {
    Seq::new(points.len(), |j: int| (points[j].0 as int, points[j].1 as int))
}

/// The polygons of an executable glyph as mathematical integers.
pub open spec fn polygons_view(polygons: Seq<Vec<(u32, u32)>>) -> Seq<Seq<(int, int)>> {
    Seq::new(polygons.len(), |i: int| polygon_view(polygons[i]@))
}

/// A filled glyph is one polygon, of five vertices; an outlined wedge is two
/// polygons and an outlined octagon edge three, of four vertices each.
pub proof fn lemma_polygon_counts(
    height: int,
    xl: int,
    style: PowerlineStyle,
    direction: PowerlineDirection,
    fill: PowerlineFill,
)
    ensures
        shape_polygons(height, xl, style, direction, fill).len() == polygon_count(style, fill),
        fill == PowerlineFill::Full ==> shape_polygons(height, xl, style, direction, fill).len()
            == 1 && shape_polygons(height, xl, style, direction, fill)[0].len() == 5,
        fill == PowerlineFill::No && style == PowerlineStyle::Powerline ==> shape_polygons(
            height,
            xl,
            style,
            direction,
            fill,
        ).len() == 2,
        fill == PowerlineFill::No && style == PowerlineStyle::Octagon ==> shape_polygons(
            height,
            xl,
            style,
            direction,
            fill,
        ).len() == 3,
        fill == PowerlineFill::No ==> forall|i: int|
            0 <= i < polygon_count(style, fill) ==> (#[trigger] shape_polygons(
                height,
                xl,
                style,
                direction,
                fill,
            )[i]).len() == 4,
{
}

/// Moving the cell moves the glyph: the polygons at `xl + k` are the
/// polygons at `xl`, every point moved by `k` along the x axis.
pub proof fn lemma_shape_translation(
    height: int,
    xl: int,
    k: int,
    style: PowerlineStyle,
    direction: PowerlineDirection,
    fill: PowerlineFill,
)
    ensures
        shape_polygons(height, xl + k, style, direction, fill) == translate(
            shape_polygons(height, xl, style, direction, fill),
            k,
        ),
{
    let moved = shape_polygons(height, xl + k, style, direction, fill);
    let base = shape_polygons(height, xl, style, direction, fill);
    lemma_polygon_counts(height, xl, style, direction, fill);
    lemma_polygon_counts(height, xl + k, style, direction, fill);
    assert(moved.len() == translate(base, k).len());
    assert forall|i: int| 0 <= i < moved.len() implies moved[i] =~= translate(base, k)[i] by {
        assert(moved[i].len() == base[i].len());
    }
    assert(moved =~= translate(base, k));
}

/// A glyph stays within its cell: no point lies left of `xl`, right of
/// `xl + shape_width`, above the bar or below it.
pub proof fn lemma_shape_within_cell(
    height: int,
    xl: int,
    style: PowerlineStyle,
    direction: PowerlineDirection,
    fill: PowerlineFill,
)
    requires
        height >= 1,
    ensures
        within_cell(
            shape_polygons(height, xl, style, direction, fill),
            xl,
            shape_width(style, height),
            height,
        ),
{
}

/// Width of the cell of a glyph in a bar of the given height.
pub fn shape_width_px(style: PowerlineStyle, height: u32) -> (width: u32)
    ensures
        width == shape_width(style, height as int),
        1 <= width || height == 0,
        width <= height || height <= 1,
{
    match style {
        PowerlineStyle::Powerline => height / 2 + height % 2,
        PowerlineStyle::Octagon => height / 4 + 1,
    }
}

/// The polygons of a powerline wedge whose cell starts at `xl`.
pub fn shape_powerline(
    height: u32,
    xl: u32,
    direction: PowerlineDirection,
    fill: PowerlineFill,
) -> (polys: Vec<Vec<(u32, u32)>>)
    requires
        height >= 1,
        xl + powerline_width(height as int) <= u32::MAX,
    ensures
        polygons_view(polys@) == powerline_polygons(height as int, xl as int, direction, fill),
        polys.len() == polygon_count(PowerlineStyle::Powerline, fill),
{
    let w: u32 = shape_width_px(PowerlineStyle::Powerline, height);
    let xr: u32 = xl + w;
    let xl_in: u32 = xl + 1;
    let xr_in: u32 = xr - 1;
    let yt: u32 = 0;
    let yb: u32 = height;
    let yb_in: u32 = yb - 1;
    // where the slanted edges meet the vertical one
    let upper: u32 = height / 2;
    let upper_in: u32 = upper + 1;
    let lower: u32 = yb - upper - 1;
    let polys = match (direction, fill) {
        (PowerlineDirection::Left, PowerlineFill::Full) => {
            vec![vec![(xl, upper), (xl, lower), (xr, yb), (xr, yt), (xr_in, yt)]]
        },
        (PowerlineDirection::Right, PowerlineFill::Full) => {
            vec![vec![(xl, yb), (xr, lower), (xr, upper), (xl_in, yt), (xl, yt)]]
        },
        (PowerlineDirection::Left, PowerlineFill::No) => {
            vec![
                vec![(xl, upper), (xl, upper_in), (xr, yt), (xr_in, yt)],
                vec![(xl, lower), (xr, yb), (xr, yb_in), (xl_in, lower)],
            ]
        },
        (PowerlineDirection::Right, PowerlineFill::No) => {
            vec![
                vec![(xl, yt), (xr, upper_in), (xr, upper), (xl_in, yt)],
                vec![(xl, yb), (xr, lower), (xr_in, lower), (xl, yb_in)],
            ]
        },
    };
    proof {
        let expected = powerline_polygons(height as int, xl as int, direction, fill);
        assert(polygons_view(polys@).len() == expected.len());
        assert forall|i: int| 0 <= i < expected.len() implies polygons_view(polys@)[i]
            =~= expected[i] by {}
        assert(polygons_view(polys@) =~= expected);
    }
    polys
}

/// The polygons of an octagon edge whose cell starts at `xl`.
pub fn shape_octagon(
    height: u32,
    xl: u32,
    direction: PowerlineDirection,
    fill: PowerlineFill,
) -> (polys: Vec<Vec<(u32, u32)>>)
    requires
        height >= 1,
        xl + octagon_width(height as int) <= u32::MAX,
    ensures
        polygons_view(polys@) == octagon_polygons(height as int, xl as int, direction, fill),
        polys.len() == polygon_count(PowerlineStyle::Octagon, fill),
{
    let xr: u32 = xl + shape_width_px(PowerlineStyle::Octagon, height);
    let xl_in: u32 = xl + 1;
    let xr_in: u32 = xr - 1;
    let yt: u32 = 0;
    let yb: u32 = height;
    let yb_in: u32 = yb - 1;
    // where the cut corners meet the vertical edge
    let upper: u32 = height / 4;
    let upper_in: u32 = upper + 1;
    let lower: u32 = yb - upper;
    let lower_in: u32 = lower - 1;
    let polys = match direction {
        PowerlineDirection::Right => match fill {
            PowerlineFill::Full => {
                vec![vec![(xl, yb), (xr, lower_in), (xr, upper), (xl_in, yt), (xl, yt)]]
            },
            PowerlineFill::No => {
                vec![
                    vec![(xl, yt), (xr, upper_in), (xr, upper), (xl_in, yt)],
                    vec![(xr_in, upper), (xr_in, lower), (xr, lower), (xr, upper)],
                    vec![(xl, yb), (xr, lower_in), (xr_in, lower_in), (xl, yb_in)],
                ]
            },
        },
        PowerlineDirection::Left => match fill {
            PowerlineFill::Full => {
                vec![vec![(xl, upper), (xl, lower_in), (xr, yb), (xr, yt), (xr_in, yt)]]
            },
            PowerlineFill::No => {
                vec![
                    vec![(xl, upper), (xl, upper_in), (xr, yt), (xr_in, yt)],
                    vec![(xl, upper), (xl, lower), (xl_in, lower), (xl_in, upper)],
                    vec![(xl, lower_in), (xr, yb), (xr, yb_in), (xl_in, lower_in)],
                ]
            },
        },
    };
    proof {
        let expected = octagon_polygons(height as int, xl as int, direction, fill);
        assert(polygons_view(polys@).len() == expected.len());
        assert forall|i: int| 0 <= i < expected.len() implies polygons_view(polys@)[i]
            =~= expected[i] by {}
        assert(polygons_view(polys@) =~= expected);
    }
    polys
}

/// The polygons of a glyph whose cell starts at `xl`, for a bar of the given
/// height. A filled glyph is one polygon; an outlined wedge is two and an
/// outlined octagon edge three. No point leaves the cell.
pub fn shape_polys(
    height: u32,
    xl: u32,
    style: PowerlineStyle,
    direction: PowerlineDirection,
    fill: PowerlineFill,
) -> (polys: Vec<Vec<(u32, u32)>>)
    requires
        height >= 1,
        xl + shape_width(style, height as int) <= u32::MAX,
    ensures
        polygons_view(polys@) == shape_polygons(height as int, xl as int, style, direction, fill),
        polys.len() == polygon_count(style, fill),
        within_cell(
            polygons_view(polys@),
            xl as int,
            shape_width(style, height as int),
            height as int,
        ),
{
    proof {
        lemma_shape_within_cell(height as int, xl as int, style, direction, fill);
    }
    match style {
        PowerlineStyle::Powerline => shape_powerline(height, xl, direction, fill),
        PowerlineStyle::Octagon => shape_octagon(height, xl, direction, fill),
    }
}

} // verus!
