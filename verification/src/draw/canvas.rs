//! The canvas: the committed strokes, the stroke being drawn, and the
//! window through which both are seen.

use crate::draw::stroke::{all_in_range, segments_in_range, stroke_views, StrokeView};
use crate::geometry::{Point, Rect, Size};
use vstd::prelude::*;

pub use crate::draw::action::Action;
pub use crate::draw::stroke::{Segment, SingleStroke};

verus! {

/// The zoom value at which one canvas unit fills one viewport unit. Zoom
/// is counted in thousandths.
pub const ZOOM_ONE: u64 = 1000;

/// The zoom of a fresh canvas: 0.85, so that the whole sheet is in view
/// with a margin around it.
pub const INITIAL_ZOOM: u64 = 850;

/// Least zoom that the controls give: 0.01.
pub const MIN_ZOOM: u64 = 10;

/// Greatest zoom that the controls give: 10.
pub const MAX_ZOOM: u64 = 10000;

/// Steps of the viewport's grid in one canvas unit. The viewport is held
/// this much finer than the ink, so that a zoom up to `MAX_ZOOM` can be
/// read back from the viewport it made, whatever the sheet.
pub const VIEW_GRAIN: u64 = 1_048_576;

/// A sheet of fixed extent with the ink on it.
#[derive(Debug, PartialEq, Eq)]
pub struct Canvas {
    /// The part of the logical plane that is on screen, in steps of the
    /// viewport's grid: `VIEW_GRAIN` to a canvas unit.
    pub canvas_viewport: Rect,
    /// The sheet itself; fixed when the canvas is made.
    pub canvas_area: Rect,
    /// Committed strokes, oldest first.
    pub strokes: Vec<SingleStroke>,
    /// Segments of the stroke being drawn.
    pub segments: Vec<Segment>,
    /// Where the pointer was at the last frame of the drag under way.
    pub last_cursor_pos: Option<Point>,
    /// Width of the sheet over width of the viewport, in thousandths.
    pub zoom: u64,
}

/// What a canvas is, apart from how it is stored.
pub struct CanvasView {
    pub canvas_viewport: Rect,
    pub canvas_area: Rect,
    pub strokes: Seq<StrokeView>,
    pub segments: Seq<Segment>,
    pub last_cursor_pos: Option<Point>,
    pub zoom: u64,
}

impl View for Canvas {
    type V = CanvasView;

    open spec fn view(&self) -> CanvasView {
        CanvasView {
            canvas_viewport: self.canvas_viewport,
            canvas_area: self.canvas_area,
            strokes: stroke_views(self.strokes@),
            segments: self.segments@,
            last_cursor_pos: self.last_cursor_pos,
            zoom: self.zoom,
        }
    }
}

/// Every segment of every stroke can take part in hit-testing.
pub open spec fn strokes_in_range(strokes: Seq<StrokeView>) -> bool {
    forall|i: int| 0 <= i < strokes.len() ==> all_in_range((#[trigger] strokes[i]).points)
}

impl CanvasView {
    /// All ink, committed or under way, and the remembered pointer
    /// position can take part in hit-testing.
    pub open spec fn in_range(self) -> bool {
        &&& strokes_in_range(self.strokes)
        &&& all_in_range(self.segments)
        &&& self.last_cursor_pos matches Some(p) ==> p.in_range()
    }

    /// The viewport has a width, and `zoom` is the zoom of the sheet's
    /// width to it.
    pub open spec fn zoom_in_line(self) -> bool {
        &&& self.canvas_viewport.width() > 0
        &&& self.zoom == zoom_of(self.canvas_area.width(), self.canvas_viewport.width())
    }
}

/// Extent of the viewport along one axis, in steps of its grid, for a
/// sheet of `len` canvas units.
pub open spec fn view_extent(len: int, zoom: int) -> int {
    len * VIEW_GRAIN * ZOOM_ONE / zoom
}

/// Least coordinate of the viewport along one axis, in steps of its
/// grid: the viewport is centred on the middle of the sheet.
pub open spec fn view_start(len: int, zoom: int) -> int {
    len * VIEW_GRAIN / 2 - view_extent(len, zoom) / 2
}

/// The zoom at which a sheet of `len` canvas units fills a viewport of
/// `extent` steps: their ratio in thousandths, to the nearest, and never
/// less than one thousandth.
pub open spec fn zoom_of(len: int, extent: int) -> int {
    let nearest = (2 * (len * VIEW_GRAIN * ZOOM_ONE) + extent) / (2 * extent);
    if nearest < 1 {
        1
    } else {
        nearest
    }
}

/// The window onto a sheet of extent `size` at `zoom`: centred on the
/// middle of the sheet, and `ZOOM_ONE / zoom` times its extent.
pub open spec fn viewport_of(size: Size, zoom: u64) -> Rect {
    Rect {
        min: Point {
            x: view_start(size.width as int, zoom as int) as i64,
            y: view_start(size.height as int, zoom as int) as i64,
        },
        max: Point {
            x: (view_start(size.width as int, zoom as int) + view_extent(
                size.width as int,
                zoom as int,
            )) as i64,
            y: (view_start(size.height as int, zoom as int) + view_extent(
                size.height as int,
                zoom as int,
            )) as i64,
        },
    }
}

proof fn lemma_quotient_bound(x: int, d: int)
    by (nonlinear_arith)
    requires
        0 <= x,
        0 < d,
    ensures
        0 <= x / d <= x,
{
}

proof fn lemma_nearest_bound(q: int, w: int)
    requires
        0 <= q,
        0 < w,
    ensures
        0 <= (2 * q + w) / (2 * w) <= q + 1,
{
    lemma_quotient_bound(2 * q + w, 2 * w);
    assert(2 * q + w <= (q + 1) * (2 * w)) by (nonlinear_arith)
        requires
            0 <= q,
            1 <= w,
    ;
    vstd::arithmetic::div_mod::lemma_div_is_ordered(2 * q + w, (q + 1) * (2 * w), 2 * w);
    vstd::arithmetic::div_mod::lemma_div_multiples_vanish(q + 1, 2 * w);
}

/// The corners of a viewport are what the formulas say, with no
/// wrap-around: it starts at `view_start` and is `view_extent` wide and
/// high.
pub proof fn viewport_is_exact(size: Size, zoom: u64)
    requires
        zoom > 0,
    ensures
        viewport_of(size, zoom).min.x == view_start(size.width as int, zoom as int),
        viewport_of(size, zoom).min.y == view_start(size.height as int, zoom as int),
        viewport_of(size, zoom).width() == view_extent(size.width as int, zoom as int),
        viewport_of(size, zoom).height() == view_extent(size.height as int, zoom as int),
        viewport_of(size, zoom).width() >= 0,
        viewport_of(size, zoom).height() >= 0,
{
    lemma_quotient_bound(size.width * VIEW_GRAIN * ZOOM_ONE, zoom as int);
    lemma_quotient_bound(size.height * VIEW_GRAIN * ZOOM_ONE, zoom as int);
}

/// A viewport built for a zoom up to `MAX_ZOOM` is at least twice as
/// many steps wide as the zoom has thousandths, and the zoom is read
/// back from it exactly.
proof fn lemma_zoom_round_trip(len: int, zoom: int)
    requires
        1 <= len,
        1 <= zoom <= MAX_ZOOM,
    ensures
        view_extent(len, zoom) >= 2 * zoom,
        zoom_of(len, view_extent(len, zoom)) == zoom,
{
    let q = len * VIEW_GRAIN * ZOOM_ONE;
    let e = q / zoom;
    let r = q % zoom;
    vstd::arithmetic::div_mod::lemma_fundamental_div_mod(q, zoom);
    vstd::arithmetic::div_mod::lemma_mod_pos_bound(q, zoom);
    assert(e >= 20000) by (nonlinear_arith)
        requires
            q == zoom * e + r,
            0 <= r < zoom,
            1 <= zoom <= 10000,
            q >= 1_048_576_000,
    ;
    assert(2 * q + e == zoom * (2 * e) + (2 * r + e)) by (nonlinear_arith)
        requires
            q == zoom * e + r,
    ;
    vstd::arithmetic::div_mod::lemma_fundamental_div_mod_converse(
        2 * q + e,
        2 * e,
        zoom,
        2 * r + e,
    );
}

/// Zoom is recovered from the viewport it made. On a sheet of positive
/// width seen through the viewport built for a zoom up to `MAX_ZOOM`,
/// the viewport has a width, and the zoom of the sheet's width to the
/// viewport's, which is what `update_zoom` sets, is that zoom.
pub proof fn zoom_is_recovered(size: Size, zoom: u64)
    requires
        size.width > 0,
        0 < zoom <= MAX_ZOOM,
    ensures
        viewport_of(size, zoom).width() > 0,
        zoom_of(Rect::at_origin(size).width(), viewport_of(size, zoom).width()) == zoom,
{
    viewport_is_exact(size, zoom);
    lemma_zoom_round_trip(size.width as int, zoom as int);
}

/// The window onto a sheet of extent `canvas_size` at `zoom`.
pub fn build_viewport(canvas_size: Size, zoom: u64) -> (r: Rect)
    requires
        zoom > 0,
    ensures
        r == viewport_of(canvas_size, zoom),
{
    proof {
        lemma_quotient_bound(canvas_size.width * VIEW_GRAIN * ZOOM_ONE, zoom as int);
        lemma_quotient_bound(canvas_size.height * VIEW_GRAIN * ZOOM_ONE, zoom as int);
    }
    let view_w: u64 = canvas_size.width as u64 * VIEW_GRAIN * ZOOM_ONE / zoom;
    let view_h: u64 = canvas_size.height as u64 * VIEW_GRAIN * ZOOM_ONE / zoom;
    let min_x: i64 = (canvas_size.width as u64 * VIEW_GRAIN / 2) as i64 - (view_w / 2) as i64;
    let min_y: i64 = (canvas_size.height as u64 * VIEW_GRAIN / 2) as i64 - (view_h / 2) as i64;
    Rect {
        min: Point { x: min_x, y: min_y },
        max: Point { x: min_x + view_w as i64, y: min_y + view_h as i64 },
    }
}

impl Canvas {
    /// An empty canvas on a sheet of extent `canvas_size`, seen at
    /// `INITIAL_ZOOM`. On a sheet of positive width the zoom is that of
    /// the sheet's width to the viewport's from the start.
    pub fn new(canvas_size: Size) -> (c: Canvas)
        ensures
            c@ == (CanvasView {
                canvas_viewport: viewport_of(canvas_size, INITIAL_ZOOM),
                canvas_area: Rect::at_origin(canvas_size),
                strokes: Seq::empty(),
                segments: Seq::empty(),
                last_cursor_pos: None,
                zoom: INITIAL_ZOOM,
            }),
            canvas_size.width > 0 ==> c@.zoom_in_line(),
    {
        proof {
            if canvas_size.width > 0 {
                zoom_is_recovered(canvas_size, INITIAL_ZOOM);
            }
        }
        let canvas_viewport = build_viewport(canvas_size, INITIAL_ZOOM);
        let c = Canvas {
            canvas_viewport,
            canvas_area: Rect::from_min_max(
                Point::new(0, 0),
                Point::new(canvas_size.width as i64, canvas_size.height as i64),
            ),
            strokes: Vec::new(),
            segments: Vec::new(),
            last_cursor_pos: None,
            zoom: INITIAL_ZOOM,
        };
        assert(c@.strokes =~= Seq::<StrokeView>::empty());
        c
    }

    /// Tells whether the canvas can be worked on: its sheet starts at
    /// the origin with an extent that fits a `Size`, and all its ink and
    /// the remembered pointer position are in range.
    pub fn is_usable(&self) -> (ok: bool)
        ensures
            ok == (self.canvas_area.is_area() && self@.in_range()),
    {
        let area = &self.canvas_area;
        if area.min.x != 0 || area.min.y != 0 || area.max.x < 0 || area.max.x > 0xffff_ffff
            || area.max.y < 0 || area.max.y > 0xffff_ffff {
            return false;
        }
        if let Some(p) = self.last_cursor_pos {
            if !p.is_in_range() {
                return false;
            }
        }
        if !segments_in_range(&self.segments) {
            return false;
        }
        let mut i: usize = 0;
        while i < self.strokes.len()
            invariant
                i <= self.strokes.len(),
                strokes_in_range(self@.strokes.take(i as int)),
            decreases self.strokes.len() - i,
        {
            if !segments_in_range(&self.strokes[i].points) {
                assert(!all_in_range(self@.strokes[i as int].points));
                return false;
            }
            assert(self@.strokes.take(i + 1) =~= self@.strokes.take(i as int).push(
                self@.strokes[i as int],
            ));
            i += 1;
        }
        assert(self@.strokes.take(i as int) =~= self@.strokes);
        true
    }

    /// Sets `zoom` to the zoom of the sheet's width to the viewport's:
    /// their ratio in thousandths, to the nearest, and above 0.
    pub fn update_zoom(&mut self)
        requires
            old(self).canvas_area.is_area(),
            old(self).canvas_viewport.width() > 0,
        ensures
            final(self)@.zoom_in_line(),
            final(self).zoom > 0,
            final(self)@ == (CanvasView { zoom: final(self).zoom, ..old(self)@ }),
    {
        let canvas_w: i128 = self.canvas_area.max.x as i128 - self.canvas_area.min.x as i128;
        let viewport_w: i128 = self.canvas_viewport.max.x as i128 - self.canvas_viewport.min.x as i128;
        let ratio: i128 = canvas_w * 1_048_576 * 1000;
        proof {
            lemma_nearest_bound(ratio as int, viewport_w as int);
        }
        let nearest: i128 = (2 * ratio + viewport_w) / (2 * viewport_w);
        self.zoom = if nearest < 1 {
            1
        } else {
            nearest as u64
        };
    }
}

} // verus!
