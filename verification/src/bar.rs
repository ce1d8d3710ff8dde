//! The bar: its content items, and the requests that clear, draw and
//! present it.

use crate::analyse::{text_items, texts_view, ColoredText};
use crate::cache::ColorCache;
use crate::layout::{as_ints, cursor_at, fits, start_offset, sum, widths_of};
use crate::layout::{item_widths, lemma_cells_adjacent, non_negative, starting_cursor};
use crate::setup::{CopyArea, FillPoly, FillPolyView, FillRect, FillRectView, Rectangle};
use crate::shape::{polygons_view, shape_polygons, shape_polys};
use crate::xft::{DrawString, DrawStringView, Font, RGBA};
use vstd::pervasive::unreached;
use vstd::prelude::*;

verus! {

/// Where a run of content items is placed on a monitor.
#[derive(Clone, Copy, Debug, PartialEq, Eq, Structural)]
pub enum Alignment {
    Left,
    Center,
    Right,
}

/// The outline of a separator glyph.
#[derive(Clone, Copy, Debug, PartialEq, Eq, Structural)]
pub enum PowerlineStyle {
    /// A triangular wedge over the full height of the bar.
    Powerline,
    /// A vertical edge whose two corners are cut at 45 degrees.
    Octagon,
}

/// Whether a separator glyph is filled or only outlined.
#[derive(Clone, Copy, Debug, PartialEq, Eq, Structural)]
pub enum PowerlineFill {
    Full,
    No,
}

/// The side to which a separator glyph points.
#[derive(Clone, Copy, Debug, PartialEq, Eq, Structural)]
pub enum PowerlineDirection {
    Left,
    Right,
}

/// What a content item shows: a run of text or a separator glyph.
#[derive(Debug, PartialEq, Eq)]
pub enum ContentShape {
    Text(String),
    Powerline(PowerlineStyle, PowerlineFill, PowerlineDirection),
}

/// A [`ContentShape`] with its text as a sequence of characters.
pub enum ContentShapeView {
    Text(Seq<char>),
    Powerline(PowerlineStyle, PowerlineFill, PowerlineDirection),
}

impl View for ContentShape {
    type V = ContentShapeView;

    open spec fn view(&self) -> ContentShapeView {
        match *self {
            ContentShape::Text(text) => ContentShapeView::Text(text@),
            ContentShape::Powerline(style, fill, direction) => ContentShapeView::Powerline(
                style,
                fill,
                direction,
            ),
        }
    }
}

impl Clone for ContentShape {
    fn clone(&self) -> (copy: Self)
        ensures
            copy@ == self@,
    {
        match self {
            ContentShape::Text(text) => ContentShape::Text(text.clone()),
            ContentShape::Powerline(style, fill, direction) => ContentShape::Powerline(
                *style,
                *fill,
                *direction,
            ),
        }
    }
}

/// One item of a bar: a shape in a foreground color on a background color.
#[derive(Debug, PartialEq, Eq)]
pub struct ContentItem {
    pub fg: RGBA,
    pub bg: RGBA,
    pub shape: ContentShape,
}

/// A [`ContentItem`] with its text as a sequence of characters.
pub struct ContentItemView {
    pub fg: RGBA,
    pub bg: RGBA,
    pub shape: ContentShapeView,
}

impl View for ContentItem {
    type V = ContentItemView;

    open spec fn view(&self) -> ContentItemView {
        ContentItemView { fg: self.fg, bg: self.bg, shape: self.shape@ }
    }
}

impl Clone for ContentItem {
    fn clone(&self) -> (copy: Self)
        ensures
            copy@ == self@,
    {
        ContentItem { fg: self.fg, bg: self.bg, shape: self.shape.clone() }
    }
}

/// The items of a run, each by its view.
pub open spec fn items_view(items: Seq<ContentItem>) -> Seq<ContentItemView> {
    Seq::new(items.len(), |i: int| items[i]@)
}

/// One request of a draw pass.
#[derive(Debug, PartialEq, Eq)]
pub enum DrawCall {
    FillRect(FillRect),
    DrawString(DrawString),
    FillPoly(FillPoly),
}

/// What a [`DrawCall`] asks for.
pub enum DrawCallView {
    FillRect(FillRectView),
    DrawString(DrawStringView),
    FillPoly(FillPolyView),
}

impl View for DrawCall {
    type V = DrawCallView;

    open spec fn view(&self) -> DrawCallView {
        match *self {
            DrawCall::FillRect(rect) => DrawCallView::FillRect(rect@),
            DrawCall::DrawString(text) => DrawCallView::DrawString(text@),
            DrawCall::FillPoly(poly) => DrawCallView::FillPoly(poly@),
        }
    }
}

/// The requests of a draw pass, each by its view.
pub open spec fn calls_view(calls: Seq<DrawCall>) -> Seq<DrawCallView> {
    Seq::new(calls.len(), |i: int| calls[i]@)
}

/// One monitor of a bar: the horizontal strip that its region spans, the
/// off-screen pixmap that is drawn on and the window that shows it.
#[derive(Clone, Copy, Debug, PartialEq, Eq, Structural)]
pub struct Monitor {
    pub x: u32,
    pub w: u32,
    pub pixmap: u32,
    pub window: u32,
}

/// The space that a bar of the given height reserves at the top of the
/// screen over the strip from `x` to `x + w`, in the twelve numbers of a
/// partial strut: its height in the third, the start of the strip in the
/// ninth and its end in the tenth, zero elsewhere.
pub open spec fn strut_numbers(height: u32, x: u32, w: u32) -> Seq<u32> {
    seq![0u32, 0u32, height, 0u32, 0u32, 0u32, 0u32, 0u32, x, (x + w) as u32, 0u32, 0u32]
}

impl Monitor {
    /// The monitor on a region, shown by `window` and drawn on `pixmap`.
    pub fn new(region: &Rectangle, window: u32, pixmap: u32) -> (monitor: Monitor)
        ensures
            monitor == (Monitor { x: region.x, w: region.w, pixmap, window }),
    {
        Monitor { x: region.x, w: region.w, pixmap, window }
    }

    /// The partial strut of the monitor for a bar of the given height;
    /// `None` if the end of its strip does not fit `u32`. Its first four
    /// numbers are the plain strut.
    pub fn strut_partial(&self, height: u32) -> (strut: Option<[u32; 12]>)
        ensures
            strut is Some <==> self.x + self.w <= u32::MAX,
            strut matches Some(numbers) ==> numbers@ == strut_numbers(height, self.x, self.w),
    {
        if self.w > u32::MAX - self.x {
            return None;
        }
        let sx: u32 = self.x;
        let ex: u32 = sx + self.w;
        let numbers: [u32; 12] = [0, 0, height, 0, 0, 0, 0, 0, sx, ex, 0, 0];
        proof {
            assert(numbers@ =~= strut_numbers(height, self.x, self.w));
        }
        Some(numbers)
    }
}

/// Why a run cannot be drawn.
#[derive(Clone, Copy, Debug, PartialEq, Eq, Structural)]
pub enum DrawError {
    /// The bar has no monitor of that index.
    UnknownMonitor,
    /// There is not one measure for each item.
    MeasureMismatch,
    /// A background color, or the foreground color of a glyph, has no
    /// drawing context yet.
    ColorNotCached,
    /// The run is wider than the monitor and not aligned left, or wider
    /// than `u32` holds.
    TooWide,
}

/// The font of a bar and the height that follows from it: the height of the
/// font, and at least one pixel.
struct Canvas {
    height: u32,
    font: Font,
}

impl Canvas {
    #[verifier::type_invariant]
    spec fn well_formed(self) -> bool {
        self.height >= 1 && self.height == self.font.ascent() + self.font.descent()
    }
}

/// A status bar over a list of monitors. All monitors share the height of
/// the bar.
pub struct Bar {
    canvas: Canvas,
    color_gcs: ColorCache,
    clear_gc: u32,
    monitors: Vec<Monitor>,
}

/// The state of a [`Bar`].
pub struct BarView {
    pub height: u32,
    pub color_gcs: Map<RGBA, u32>,
    pub clear_gc: u32,
    pub font: Font,
    pub monitors: Seq<Monitor>,
}

impl BarView {
    /// Every color that drawing `items` looks up has a drawing context: the
    /// background of each item and the foreground of each glyph.
    pub open spec fn colors_cached(self, items: Seq<ContentItemView>) -> bool {
        forall|i: int|
            0 <= i < items.len() ==> {
                let item = #[trigger] items[i];
                &&& self.color_gcs.contains_key(item.bg)
                &&& item.shape is Powerline ==> self.color_gcs.contains_key(item.fg)
            }
    }

    /// The run can be drawn on the monitor.
    pub open spec fn draw_ready(
        self,
        monitor_index: int,
        alignment: Alignment,
        items: Seq<ContentItemView>,
        measures: Seq<u32>,
    ) -> bool {
        &&& 0 <= monitor_index < self.monitors.len()
        &&& items.len() == measures.len()
        &&& self.colors_cached(items)
        &&& fits(
            alignment,
            self.monitors[monitor_index].w as int,
            sum(widths_of(self.height as int, items, measures)),
        )
    }

    /// The requests that fill the polygons of a glyph.
    pub open spec fn poly_calls(drawable: u32, gc: u32, polygons: Seq<Seq<(int, int)>>) -> Seq<
        DrawCallView,
    > {
        Seq::new(
            polygons.len(),
            |k: int|
                DrawCallView::FillPoly(FillPolyView { drawable, gc, points: polygons[k] }),
        )
    }

    /// The requests that draw one item in the cell that starts at `cursor`
    /// and is `width` wide: its background over the whole cell, then its
    /// text at the cursor or the polygons of its glyph, moved to the cursor.
    pub open spec fn item_calls(
        self,
        pixmap: u32,
        item: ContentItemView,
        cursor: int,
        width: int,
    ) -> Seq<DrawCallView> {
        let background = DrawCallView::FillRect(
            FillRectView {
                drawable: pixmap,
                gc: self.color_gcs[item.bg],
                x: cursor,
                y: 0,
                w: width,
                h: self.height as int,
            },
        );
        match item.shape {
            ContentShapeView::Text(text) => seq![
                background,
                DrawCallView::DrawString(
                    DrawStringView {
                        pixmap,
                        text,
                        color: item.fg,
                        x: cursor,
                        baseline: self.font.baseline(self.height as int),
                    },
                ),
            ],
            ContentShapeView::Powerline(style, fill, direction) => seq![background]
                + Self::poly_calls(
                pixmap,
                self.color_gcs[item.fg],
                shape_polygons(self.height as int, cursor, style, direction, fill),
            ),
        }
    }

    /// The requests that draw the first `n` items of a run that starts at
    /// `start`, item by item from left to right.
    pub open spec fn calls_upto(
        self,
        pixmap: u32,
        items: Seq<ContentItemView>,
        widths: Seq<int>,
        start: int,
        n: int,
    ) -> Seq<DrawCallView>
        decreases n,
    {
        if n <= 0 {
            Seq::empty()
        } else {
            self.calls_upto(pixmap, items, widths, start, n - 1) + self.item_calls(
                pixmap,
                items[n - 1],
                cursor_at(start, widths, n - 1),
                widths[n - 1],
            )
        }
    }

    /// The requests of a draw pass, in the order in which they are sent.
    pub open spec fn draw_calls(
        self,
        monitor_index: int,
        alignment: Alignment,
        items: Seq<ContentItemView>,
        measures: Seq<u32>,
    ) -> Seq<DrawCallView> {
        let monitor = self.monitors[monitor_index];
        let widths = widths_of(self.height as int, items, measures);
        let start = start_offset(alignment, monitor.w as int, sum(widths));
        self.calls_upto(monitor.pixmap, items, widths, start, items.len() as int)
    }

    /// The background colors among the first `n` items that have no drawing
    /// context yet, each once, in the order in which they first occur.
    pub open spec fn uncached_upto(self, items: Seq<ContentItemView>, n: int) -> Seq<RGBA>
        decreases n,
    {
        if n <= 0 {
            Seq::empty()
        } else {
            let prior = self.uncached_upto(items, n - 1);
            let color = items[n - 1].bg;
            if self.color_gcs.contains_key(color) || prior.contains(color) {
                prior
            } else {
                prior.push(color)
            }
        }
    }

    /// The background colors of `items` that have no drawing context yet,
    /// each once, in the order in which they first occur.
    pub open spec fn uncached_colors(self, items: Seq<ContentItemView>) -> Seq<RGBA> {
        self.uncached_upto(items, items.len() as int)
    }

    /// One request per monitor that fills its pixmap, over the full width
    /// of the monitor and the height of the bar, with the clear context.
    pub open spec fn clear_calls(self) -> Seq<FillRect> {
        Seq::new(
            self.monitors.len(),
            |i: int|
                FillRect {
                    drawable: self.monitors[i].pixmap,
                    gc: self.clear_gc,
                    x: 0,
                    y: 0,
                    w: self.monitors[i].w,
                    h: self.height,
                },
        )
    }

    /// One request per monitor that copies its pixmap onto its window.
    pub open spec fn present_calls(self) -> Seq<CopyArea> {
        Seq::new(
            self.monitors.len(),
            |i: int|
                CopyArea {
                    pixmap: self.monitors[i].pixmap,
                    window: self.monitors[i].window,
                    gc: self.clear_gc,
                    w: self.monitors[i].w,
                    h: self.height,
                },
        )
    }
}

/// The cache after the first `n` of `colors` were given the contexts `gcs`,
/// one by one: a color that has a context keeps it.
pub open spec fn cached_all(
    color_gcs: Map<RGBA, u32>,
    colors: Seq<RGBA>,
    gcs: Seq<u32>,
    n: int,
) -> Map<RGBA, u32>
    decreases n,
{
    if n <= 0 {
        color_gcs
    } else {
        let prior = cached_all(color_gcs, colors, gcs, n - 1);
        if prior.contains_key(colors[n - 1]) {
            prior
        } else {
            prior.insert(colors[n - 1], gcs[n - 1])
        }
    }
}

/// Caching contexts only adds: every color that had a context keeps it, and
/// each of the first `n` colors has one afterwards.
pub proof fn lemma_cached_all(color_gcs: Map<RGBA, u32>, colors: Seq<RGBA>, gcs: Seq<u32>, n: int)
    requires
        0 <= n <= colors.len(),
    ensures
        color_gcs.submap_of(cached_all(color_gcs, colors, gcs, n)),
        forall|i: int|
            0 <= i < n ==> cached_all(color_gcs, colors, gcs, n).contains_key(#[trigger] colors[i]),
        forall|color: RGBA| #[trigger]
            cached_all(color_gcs, colors, gcs, n).contains_key(color) ==> color_gcs.contains_key(
                color,
            ) || exists|i: int| 0 <= i < n && colors[i] == color,
    decreases n,
{
    if n > 0 {
        lemma_cached_all(color_gcs, colors, gcs, n - 1);
        let prior = cached_all(color_gcs, colors, gcs, n - 1);
        let after = cached_all(color_gcs, colors, gcs, n);
        assert forall|color: RGBA| #[trigger] after.contains_key(color) implies color_gcs.contains_key(
            color,
        ) || exists|i: int| 0 <= i < n && colors[i] == color by {
            if !prior.contains_key(color) {
                assert(colors[n - 1] == color);
            } else if !color_gcs.contains_key(color) {
                let i = choose|i: int| 0 <= i < n - 1 && colors[i] == color;
                assert(0 <= i < n && colors[i] == color);
            }
        }
    }
}

/// What [`BarView::uncached_upto`] holds: no color twice, and exactly the
/// backgrounds of the first `n` items that have no drawing context.
pub proof fn lemma_uncached_upto(bar: BarView, items: Seq<ContentItemView>, n: int)
    requires
        0 <= n <= items.len(),
    ensures
        bar.uncached_upto(items, n).no_duplicates(),
        bar.uncached_upto(items, n).len() <= n,
        forall|color: RGBA| #[trigger]
            bar.uncached_upto(items, n).contains(color) <==> !bar.color_gcs.contains_key(color)
                && exists|i: int| 0 <= i < n && items[i].bg == color,
    decreases n,
{
    if n > 0 {
        lemma_uncached_upto(bar, items, n - 1);
        let prior = bar.uncached_upto(items, n - 1);
        let after = bar.uncached_upto(items, n);
        let last = items[n - 1].bg;
        assert forall|color: RGBA| #[trigger] after.contains(color) implies !bar.color_gcs.contains_key(
            color,
        ) && exists|i: int| 0 <= i < n && items[i].bg == color by {
            if prior.contains(color) {
                let i = choose|i: int| 0 <= i < n - 1 && items[i].bg == color;
                assert(0 <= i < n && items[i].bg == color);
            } else {
                let k = choose|k: int| 0 <= k < after.len() && after[k] == color;
                if k < prior.len() {
                    assert(prior[k] == color);
                }
                assert(items[n - 1].bg == color);
            }
        }
        assert forall|color: RGBA|
            !bar.color_gcs.contains_key(color) && (exists|i: int|
                0 <= i < n && items[i].bg == color) implies #[trigger] after.contains(color) by {
            let i = choose|i: int| 0 <= i < n && items[i].bg == color;
            if i < n - 1 {
                assert(prior.contains(color));
                let k = choose|k: int| 0 <= k < prior.len() && prior[k] == color;
                assert(after[k] == color);
            } else if prior.contains(color) {
                let k = choose|k: int| 0 <= k < prior.len() && prior[k] == color;
                assert(after[k] == color);
            } else {
                assert(after[after.len() - 1] == color);
            }
        }
    }
}

/// Once the colors that [`BarView::uncached_colors`] names have contexts,
/// whichever they are, the background of every item has one, and no other
/// color was touched.
pub proof fn lemma_backgrounds_cached(bar: BarView, items: Seq<ContentItemView>, gcs: Seq<u32>)
    requires
        gcs.len() == bar.uncached_colors(items).len(),
    ensures
        ({
            let after = cached_all(
                bar.color_gcs,
                bar.uncached_colors(items),
                gcs,
                gcs.len() as int,
            );
            &&& bar.color_gcs.submap_of(after)
            &&& forall|i: int| 0 <= i < items.len() ==> after.contains_key(#[trigger] items[i].bg)
        }),
{
    let colors = bar.uncached_colors(items);
    let after = cached_all(bar.color_gcs, colors, gcs, gcs.len() as int);
    lemma_uncached_upto(bar, items, items.len() as int);
    lemma_cached_all(bar.color_gcs, colors, gcs, gcs.len() as int);
    assert forall|i: int| 0 <= i < items.len() implies after.contains_key(
        #[trigger] items[i].bg,
    ) by {
        let color = items[i].bg;
        if !bar.color_gcs.contains_key(color) {
            assert(colors.contains(color));
            let k = choose|k: int| 0 <= k < colors.len() && colors[k] == color;
            assert(after.contains_key(colors[k]));
        } else {
            assert(bar.color_gcs.dom().contains(color));
        }
    }
}

/// The requests of a draw pass do not depend on contexts that were cached
/// for other colors: a cache that has grown draws the same.
pub proof fn lemma_draw_ignores_growth(
    bar: BarView,
    grown: BarView,
    monitor_index: int,
    alignment: Alignment,
    items: Seq<ContentItemView>,
    measures: Seq<u32>,
)
    requires
        bar.draw_ready(monitor_index, alignment, items, measures),
        bar.color_gcs.submap_of(grown.color_gcs),
        grown == (BarView { color_gcs: grown.color_gcs, ..bar }),
    ensures
        grown.draw_ready(monitor_index, alignment, items, measures),
        grown.draw_calls(monitor_index, alignment, items, measures) == bar.draw_calls(
            monitor_index,
            alignment,
            items,
            measures,
        ),
{
    let widths = widths_of(bar.height as int, items, measures);
    let start = start_offset(alignment, bar.monitors[monitor_index].w as int, sum(widths));
    let pixmap = bar.monitors[monitor_index].pixmap;
    assert forall|i: int| 0 <= i < items.len() implies {
        let item = #[trigger] items[i];
        &&& grown.color_gcs.contains_key(item.bg)
        &&& bar.color_gcs.contains_key(item.bg)
        &&& grown.color_gcs[item.bg] == bar.color_gcs[item.bg]
        &&& item.shape is Powerline ==> grown.color_gcs.contains_key(item.fg)
            && grown.color_gcs[item.fg] == bar.color_gcs[item.fg]
    } by {
        let item = items[i];
        assert(bar.color_gcs.dom().contains(item.bg));
        if item.shape is Powerline {
            assert(bar.color_gcs.dom().contains(item.fg));
        }
    }
    lemma_calls_upto_ignore_growth(bar, grown, pixmap, items, widths, start, items.len() as int);
}

proof fn lemma_calls_upto_ignore_growth(
    bar: BarView,
    grown: BarView,
    pixmap: u32,
    items: Seq<ContentItemView>,
    widths: Seq<int>,
    start: int,
    n: int,
)
    requires
        0 <= n <= items.len(),
        grown == (BarView { color_gcs: grown.color_gcs, ..bar }),
        forall|i: int|
            0 <= i < items.len() ==> {
                let item = #[trigger] items[i];
                &&& grown.color_gcs[item.bg] == bar.color_gcs[item.bg]
                &&& item.shape is Powerline ==> grown.color_gcs[item.fg] == bar.color_gcs[item.fg]
            },
    ensures
        grown.calls_upto(pixmap, items, widths, start, n) == bar.calls_upto(
            pixmap,
            items,
            widths,
            start,
            n,
        ),
    decreases n,
{
    if n > 0 {
        lemma_calls_upto_ignore_growth(bar, grown, pixmap, items, widths, start, n - 1);
        let item = items[n - 1];
        assert(grown.item_calls(pixmap, item, cursor_at(start, widths, n - 1), widths[n - 1])
            == bar.item_calls(pixmap, item, cursor_at(start, widths, n - 1), widths[n - 1]));
    }
}

/// Drawing is a function of its inputs: two draw passes with the same run on
/// the same monitor of a bar whose cache did not change in between send the
/// same requests in the same order.
pub proof fn lemma_draw_idempotent(
    bar: BarView,
    monitor_index: int,
    alignment: Alignment,
    items: Seq<ContentItemView>,
    measures: Seq<u32>,
    first: Seq<DrawCall>,
    second: Seq<DrawCall>,
)
    requires
        calls_view(first) == bar.draw_calls(monitor_index, alignment, items, measures),
        calls_view(second) == bar.draw_calls(monitor_index, alignment, items, measures),
    ensures
        calls_view(first) == calls_view(second),
        first.len() == second.len(),
        forall|i: int| 0 <= i < first.len() ==> (#[trigger] first[i])@ == second[i]@,
{
    assert(calls_view(first).len() == first.len());
    assert(calls_view(second).len() == second.len());
    assert forall|i: int| 0 <= i < first.len() implies (#[trigger] first[i])@ == second[i]@ by {
        assert(calls_view(first)[i] == first[i]@);
        assert(calls_view(second)[i] == second[i]@);
    }
}

impl View for Bar {
    type V = BarView;

    closed spec fn view(&self) -> BarView {
        BarView {
            height: self.canvas.height,
            color_gcs: self.color_gcs@,
            clear_gc: self.clear_gc,
            font: self.canvas.font,
            monitors: self.monitors@,
        }
    }
}

/// Appends the requests that fill `polys`, in their order.
fn push_polys(calls: &mut Vec<DrawCall>, drawable: u32, gc: u32, polys: Vec<Vec<(u32, u32)>>)
    ensures
        calls_view(final(calls)@) == calls_view(old(calls)@) + BarView::poly_calls(
            drawable,
            gc,
            polygons_view(polys@),
        ),
{
    let ghost all = polygons_view(polys@);
    let ghost before = calls_view(calls@);
    let mut polys = polys;
    let mut k: usize = 0;
    let count: usize = polys.len();
    while k < count
        invariant
            k <= count,
            all.len() == count,
            polys@.len() == count - k,
            forall|j: int| 0 <= j < polys@.len() ==> polygons_view(polys@)[j] == all[k + j],
            calls_view(calls@) == before + BarView::poly_calls(drawable, gc, all).take(k as int),
        decreases count - k,
    {
        let ghost rest = polys@;
        let points = polys.remove(0);
        proof {
            assert(polygons_view(rest)[0] == all[k as int]);
            assert forall|j: int| 0 <= j < polys@.len() implies polygons_view(polys@)[j] == all[k
                + 1 + j] by {
                assert(polygons_view(rest)[j + 1] == all[k + (j + 1)]);
            }
        }
        let ghost sent = calls@;
        calls.push(DrawCall::FillPoly(FillPoly { drawable, gc, points }));
        k += 1;
        proof {
            assert(calls_view(calls@) =~= calls_view(sent).push(calls@.last()@));
            assert(calls_view(calls@) =~= before + BarView::poly_calls(drawable, gc, all).take(
                k as int,
            ));
        }
    }
    proof {
        assert(BarView::poly_calls(drawable, gc, all).take(count as int)
            =~= BarView::poly_calls(drawable, gc, all));
    }
}

impl Bar {
    /// A bar over `monitors`, as high as `font`, with `clear_gc` as the
    /// context that clears it. No color has a drawing context yet.
    pub fn new(font: Font, monitors: Vec<Monitor>, clear_gc: u32) -> (bar: Bar)
        requires
            font.ascent() + font.descent() >= 1,
        ensures
            bar@ == (BarView {
                height: (font.ascent() + font.descent()) as u32,
                color_gcs: Map::empty(),
                clear_gc,
                font,
                monitors: monitors@,
            }),
    {
        let canvas = Canvas { height: font.asc_and_desc(), font };
        Bar { canvas, color_gcs: ColorCache::new(), clear_gc, monitors }
    }

    /// Height of the bar in pixels.
    pub fn height(&self) -> (height: u32)
        ensures
            height == self@.height,
            height >= 1,
    {
        proof {
            use_type_invariant(&self.canvas);
        }
        self.canvas.height
    }

    /// Number of monitors.
    pub fn monitor_count(&self) -> (count: usize)
        ensures
            count == self@.monitors.len(),
    {
        self.monitors.len()
    }

    /// The monitor of the given index, if the bar has one.
    pub fn monitor(&self, monitor_index: usize) -> (monitor: Option<Monitor>)
        ensures
            monitor == if monitor_index < self@.monitors.len() {
                Some(self@.monitors[monitor_index as int])
            } else {
                None
            },
    {
        if monitor_index < self.monitors.len() {
            Some(self.monitors[monitor_index])
        } else {
            None
        }
    }

    /// Whether `rgba` has a drawing context.
    pub fn is_cached(&self, rgba: RGBA) -> (cached: bool)
        ensures
            cached == self@.color_gcs.contains_key(rgba),
    {
        self.color_gcs.contains(rgba)
    }

    /// Caches `gc` as the drawing context of `rgba`, unless the color has
    /// one already; says whether `gc` was taken. Nothing else changes.
    pub fn cache_color(&mut self, rgba: RGBA, gc: u32) -> (taken: bool)
        ensures
            taken == !old(self)@.color_gcs.contains_key(rgba),
            final(self)@ == (BarView {
                color_gcs: if taken {
                    old(self)@.color_gcs.insert(rgba, gc)
                } else {
                    old(self)@.color_gcs
                },
                ..old(self)@
            }),
    {
        self.color_gcs.cache_color(rgba, gc)
    }

    /// The drawing context of a color that was cached before.
    pub fn get_color(&self, rgba: RGBA) -> (gc: u32)
        requires
            self@.color_gcs.contains_key(rgba),
        ensures
            gc == self@.color_gcs[rgba],
    {
        self.color_gcs.get_color(rgba)
    }

    /// The background colors of `items` for which a drawing context has to
    /// be created before the items can be drawn: those without a context,
    /// each once, in the order in which they first occur.
    pub fn uncached_colors(&self, items: &[ContentItem]) -> (colors: Vec<RGBA>)
        ensures
            colors@ == self@.uncached_colors(items_view(items@)),
            colors@.no_duplicates(),
            forall|color: RGBA| #[trigger]
                colors@.contains(color) <==> !self@.color_gcs.contains_key(color) && exists|
                    i: int,
                |
                    0 <= i < items.len() && items_view(items@)[i].bg == color,
    {
        let ghost entries = items_view(items@);
        let mut colors: Vec<RGBA> = Vec::new();
        let mut i: usize = 0;
        while i < items.len()
            invariant
                i <= items.len(),
                entries == items_view(items@),
                colors@ == self@.uncached_upto(entries, i as int),
            decreases items.len() - i,
        {
            let color: RGBA = items[i].bg;
            proof {
                assert(entries[i as int].bg == color);
            }
            if !self.color_gcs.contains(color) && !contains_color(&colors, color) {
                colors.push(color);
            }
            i += 1;
        }
        proof {
            lemma_uncached_upto(self@, entries, items.len() as int);
        }
        colors
    }

    /// Caches `gcs[i]` as the drawing context of `colors[i]`, for each `i` in
    /// turn. A color that has a context keeps it.
    pub fn cache_colors(&mut self, colors: &[RGBA], gcs: &[u32])
        requires
            colors.len() == gcs.len(),
        ensures
            final(self)@ == (BarView {
                color_gcs: cached_all(
                    old(self)@.color_gcs,
                    colors@,
                    gcs@,
                    colors.len() as int,
                ),
                ..old(self)@
            }),
            old(self)@.color_gcs.submap_of(final(self)@.color_gcs),
            forall|i: int|
                0 <= i < colors.len() ==> final(self)@.color_gcs.contains_key(
                    #[trigger] colors@[i],
                ),
    {
        let mut i: usize = 0;
        while i < colors.len()
            invariant
                i <= colors.len(),
                colors.len() == gcs.len(),
                self@ == (BarView {
                    color_gcs: cached_all(old(self)@.color_gcs, colors@, gcs@, i as int),
                    ..old(self)@
                }),
            decreases colors.len() - i,
        {
            self.cache_color(colors[i], gcs[i]);
            i += 1;
        }
        proof {
            lemma_cached_all(old(self)@.color_gcs, colors@, gcs@, colors.len() as int);
        }
    }

    /// The requests that clear every monitor.
    pub fn clear_monitors(&self) -> (calls: Vec<FillRect>)
        ensures
            calls@ == self@.clear_calls(),
    {
        let mut calls: Vec<FillRect> = Vec::new();
        let mut i: usize = 0;
        while i < self.monitors.len()
            invariant
                i <= self.monitors.len(),
                calls@ == self@.clear_calls().take(i as int),
            decreases self.monitors.len() - i,
        {
            let monitor = self.monitors[i];
            calls.push(
                FillRect {
                    drawable: monitor.pixmap,
                    gc: self.clear_gc,
                    x: 0,
                    y: 0,
                    w: monitor.w,
                    h: self.canvas.height,
                },
            );
            i += 1;
        }
        calls
    }

    /// The requests that copy every monitor's pixmap onto its window.
    pub fn present(&self) -> (calls: Vec<CopyArea>)
        ensures
            calls@ == self@.present_calls(),
    {
        let mut calls: Vec<CopyArea> = Vec::new();
        let mut i: usize = 0;
        while i < self.monitors.len()
            invariant
                i <= self.monitors.len(),
                calls@ == self@.present_calls().take(i as int),
            decreases self.monitors.len() - i,
        {
            let monitor = self.monitors[i];
            calls.push(
                CopyArea {
                    pixmap: monitor.pixmap,
                    window: monitor.window,
                    gc: self.clear_gc,
                    w: monitor.w,
                    h: self.canvas.height,
                },
            );
            i += 1;
        }
        calls
    }

    /// Whether every color that drawing `items` looks up has a context.
    pub fn colors_cached(&self, items: &[ContentItem]) -> (cached: bool)
        ensures
            cached == self@.colors_cached(items_view(items@)),
    {
        let mut i: usize = 0;
        while i < items.len()
            invariant
                i <= items.len(),
                self@.colors_cached(items_view(items@).take(i as int)),
            decreases items.len() - i,
        {
            let item = &items[i];
            let glyph = match &item.shape {
                ContentShape::Text(_) => false,
                ContentShape::Powerline(_, _, _) => true,
            };
            if !self.color_gcs.contains(item.bg) || (glyph && !self.color_gcs.contains(item.fg)) {
                proof {
                    assert(items_view(items@)[i as int] == item@);
                }
                return false;
            }
            i += 1;
            proof {
                let done = items_view(items@).take(i as int);
                assert forall|j: int| 0 <= j < done.len() implies {
                    let entry = #[trigger] done[j];
                    &&& self@.color_gcs.contains_key(entry.bg)
                    &&& entry.shape is Powerline ==> self@.color_gcs.contains_key(entry.fg)
                } by {
                    if j < i - 1 {
                        assert(done[j] == items_view(items@).take(i - 1)[j]);
                    }
                }
            }
        }
        proof {
            assert(items_view(items@).take(items.len() as int) =~= items_view(items@));
        }
        true
    }

    /// Says whether the run can be drawn on the monitor, and if not, what
    /// stands against it first.
    pub fn check_draw(
        &self,
        monitor_index: usize,
        alignment: Alignment,
        items: &[ContentItem],
        measures: &[u32],
    ) -> (result: Result<(), DrawError>)
        ensures
            result is Ok <==> self@.draw_ready(
                monitor_index as int,
                alignment,
                items_view(items@),
                measures@,
            ),
            result == Err::<(), DrawError>(DrawError::UnknownMonitor) <==> monitor_index
                >= self@.monitors.len(),
            result == Err::<(), DrawError>(DrawError::MeasureMismatch) <==> monitor_index
                < self@.monitors.len() && items.len() != measures.len(),
            result == Err::<(), DrawError>(DrawError::ColorNotCached) <==> monitor_index
                < self@.monitors.len() && items.len() == measures.len() && !self@.colors_cached(
                items_view(items@),
            ),
            result == Err::<(), DrawError>(DrawError::TooWide) <==> monitor_index
                < self@.monitors.len() && items.len() == measures.len() && self@.colors_cached(
                items_view(items@),
            ) && !fits(
                alignment,
                self@.monitors[monitor_index as int].w as int,
                sum(widths_of(self@.height as int, items_view(items@), measures@)),
            ),
    {
        if monitor_index >= self.monitors.len() {
            return Err(DrawError::UnknownMonitor);
        }
        if items.len() != measures.len() {
            return Err(DrawError::MeasureMismatch);
        }
        if !self.colors_cached(items) {
            return Err(DrawError::ColorNotCached);
        }
        let monitor_width: u32 = self.monitors[monitor_index].w;
        match item_widths(self.canvas.height, items, measures) {
            None => Err(DrawError::TooWide),
            Some((_, total)) => {
                let left = match alignment {
                    Alignment::Left => true,
                    _ => false,
                };
                if left || total <= monitor_width {
                    Ok(())
                } else {
                    Err(DrawError::TooWide)
                }
            },
        }
    }

    /// Draws a run of items on a monitor: the requests to send, in order.
    ///
    /// Every item gets a cell as wide as the item and as high as the bar.
    /// The cells stand side by side from the starting cursor that the
    /// alignment gives. For each item in turn its cell is filled with its
    /// background color, then its text is drawn at the cursor, or the
    /// polygons of its glyph are filled with its foreground color.
    pub fn draw(
        &self,
        monitor_index: usize,
        alignment: Alignment,
        items: &[ContentItem],
        measures: &[u32],
    ) -> (calls: Vec<DrawCall>)
        requires
            self@.draw_ready(monitor_index as int, alignment, items_view(items@), measures@),
        ensures
            calls_view(calls@) == self@.draw_calls(
                monitor_index as int,
                alignment,
                items_view(items@),
                measures@,
            ),
    {
        proof {
            use_type_invariant(&self.canvas);
        }
        let monitor = self.monitors[monitor_index];
        let ghost entries = items_view(items@);
        let ghost expected = widths_of(self.canvas.height as int, entries, measures@);
        let (widths, total) = match item_widths(self.canvas.height, items, measures) {
            Some(measured) => measured,
            None => unreached(),
        };
        let start: u32 = starting_cursor(alignment, monitor.w, total);
        let baseline: u32 = self.canvas.font.baseline_offset(self.canvas.height);
        let mut calls: Vec<DrawCall> = Vec::new();
        let mut cursor: u32 = start;
        let mut i: usize = 0;
        proof {
            assert(expected.take(0) =~= Seq::<int>::empty());
            assert(as_ints(widths@).len() == expected.len());
        }
        while i < items.len()
            invariant
                i <= items.len(),
                items.len() == measures.len(),
                widths.len() == items.len(),
                entries == items_view(items@),
                expected == widths_of(self.canvas.height as int, entries, measures@),
                as_ints(widths@) == expected,
                non_negative(expected),
                self@.colors_cached(entries),
                self.canvas.height >= 1,
                self.canvas.height == self@.height,
                baseline == self@.font.baseline(self@.height as int),
                start + sum(expected) <= u32::MAX,
                cursor == cursor_at(start as int, expected, i as int),
                calls_view(calls@) == self@.calls_upto(
                    monitor.pixmap,
                    entries,
                    expected,
                    start as int,
                    i as int,
                ),
            decreases items.len() - i,
        {
            let item = &items[i];
            let width: u32 = widths[i];
            let ghost sent = calls_view(calls@);
            proof {
                lemma_cells_adjacent(start as int, expected, i as int);
                assert(entries[i as int] == item@);
                assert(as_ints(widths@)[i as int] == width);
            }
            let bg_gc: u32 = self.color_gcs.get_color(item.bg);
            let ghost unfilled = calls@;
            calls.push(
                DrawCall::FillRect(
                    FillRect {
                        drawable: monitor.pixmap,
                        gc: bg_gc,
                        x: cursor,
                        y: 0,
                        w: width,
                        h: self.canvas.height,
                    },
                ),
            );
            proof {
                assert(calls_view(calls@) =~= sent.push(calls@.last()@));
            }
            match &item.shape {
                ContentShape::Text(text) => {
                    let ghost filled = calls_view(calls@);
                    calls.push(
                        DrawCall::DrawString(
                            DrawString {
                                pixmap: monitor.pixmap,
                                text: text.clone(),
                                color: item.fg,
                                x: cursor,
                                baseline,
                            },
                        ),
                    );
                    proof {
                        assert(calls_view(calls@) =~= filled.push(calls@.last()@));
                        assert(calls_view(calls@) =~= sent + self@.item_calls(
                            monitor.pixmap,
                            entries[i as int],
                            cursor as int,
                            width as int,
                        ));
                    }
                },
                ContentShape::Powerline(style, fill, direction) => {
                    let fg_gc: u32 = self.color_gcs.get_color(item.fg);
                    let polys = shape_polys(self.canvas.height, cursor, *style, *direction, *fill);
                    push_polys(&mut calls, monitor.pixmap, fg_gc, polys);
                    proof {
                        assert(calls_view(calls@) =~= sent + self@.item_calls(
                            monitor.pixmap,
                            entries[i as int],
                            cursor as int,
                            width as int,
                        ));
                    }
                },
            }
            cursor = cursor + width;
            i += 1;
        }
        calls
    }

    /// Draws a run of colored text on a monitor: the requests that drawing
    /// the corresponding text items sends.
    pub fn render_string(
        &self,
        monitor_index: usize,
        alignment: Alignment,
        texts: &[ColoredText],
        measures: &[u32],
    ) -> (calls: Vec<DrawCall>)
        requires
            self@.draw_ready(
                monitor_index as int,
                alignment,
                text_items(texts_view(texts@)),
                measures@,
            ),
        ensures
            calls_view(calls@) == self@.draw_calls(
                monitor_index as int,
                alignment,
                text_items(texts_view(texts@)),
                measures@,
            ),
    {
        let mut items: Vec<ContentItem> = Vec::new();
        let mut i: usize = 0;
        while i < texts.len()
            invariant
                i <= texts.len(),
                items_view(items@) == text_items(texts_view(texts@)).take(i as int),
            decreases texts.len() - i,
        {
            let ghost converted = items_view(items@);
            items.push(texts[i].to_item());
            i += 1;
            proof {
                assert(items_view(items@) =~= converted.push(texts@[i - 1]@.item()));
                assert(items_view(items@) =~= text_items(texts_view(texts@)).take(i as int));
            }
        }
        proof {
            assert(items_view(items@) =~= text_items(texts_view(texts@)));
        }
        self.draw(monitor_index, alignment, items.as_slice(), measures)
    }
}

/// Whether `color` is among `colors`.
fn contains_color(colors: &Vec<RGBA>, color: RGBA) -> (found: bool)
    ensures
        found == colors@.contains(color),
{
    let mut j: usize = 0;
    while j < colors.len()
        invariant
            j <= colors.len(),
            forall|k: int| 0 <= k < j ==> colors@[k] != color,
        decreases colors.len() - j,
    {
        let other: RGBA = colors[j];
        if other.0 == color.0 && other.1 == color.1 && other.2 == color.2 && other.3 == color.3 {
            return true;
        }
        j += 1;
    }
    false
}

} // verus!
