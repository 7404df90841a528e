//! Ink: segments, and the styled strokes made of them.

use crate::geometry::Point;
use vstd::prelude::*;

verus! {

/// One drawn micro-segment, from `a` to `b`. The unit of erasure.
#[derive(Clone, Copy, Debug, PartialEq, Eq, Structural)]
pub struct Segment {
    pub a: Point,
    pub b: Point,
}

impl Segment {
    /// Both endpoints can take part in hit-testing.
    pub open spec fn in_range(self) -> bool {
        self.a.in_range() && self.b.in_range()
    }

    pub fn new(a: Point, b: Point) -> (s: Segment)
        ensures
            s == (Segment { a, b }),
    {
        Segment { a, b }
    }

    /// Tells whether the segment can take part in hit-testing.
    pub fn is_in_range(&self) -> (ok: bool)
        ensures
            ok == self.in_range(),
    {
        self.a.is_in_range() && self.b.is_in_range()
    }
}

/// Every segment of `points` can take part in hit-testing.
pub open spec fn all_in_range(points: Seq<Segment>) -> bool {
    forall|i: int| 0 <= i < points.len() ==> (#[trigger] points[i]).in_range()
}

/// Tells whether every segment of `points` can take part in hit-testing.
pub fn segments_in_range(points: &Vec<Segment>) -> (ok: bool)
    ensures
        ok == all_in_range(points@),
{
    let mut i: usize = 0;
    while i < points.len()
        invariant
            i <= points.len(),
            all_in_range(points@.take(i as int)),
        decreases points.len() - i,
    {
        if !points[i].is_in_range() {
            return false;
        }
        assert(points@.take(i + 1) =~= points@.take(i as int).push(points@[i as int]));
        i += 1;
    }
    assert(points@.take(i as int) =~= points@);
    true
}

/// An ink colour, as four channel values.
#[derive(Clone, Copy, Debug, PartialEq, Eq, Structural)]
pub struct Color {
    pub r: u8,
    pub g: u8,
    pub b: u8,
    pub a: u8,
}

/// How a stroke is painted. `width` is in canvas units; it is also the
/// radius of the eraser.
#[derive(Clone, Copy, Debug, PartialEq, Eq, Structural)]
pub struct StrokeStyle {
    pub width: u32,
    pub color: Color,
}

/// A styled run of segments, in the order they were drawn.
#[derive(Debug, PartialEq, Eq)]
pub struct SingleStroke {
    pub stroke: StrokeStyle,
    pub points: Vec<Segment>,
}

/// What a stroke is, apart from how it is stored.
pub struct StrokeView {
    pub stroke: StrokeStyle,
    pub points: Seq<Segment>,
}

impl View for SingleStroke {
    type V = StrokeView;

    open spec fn view(&self) -> StrokeView {
        StrokeView { stroke: self.stroke, points: self.points@ }
    }
}

impl Clone for SingleStroke {
    fn clone(&self) -> (copy: Self)
        ensures
            copy@ == self@,
    {
        SingleStroke { stroke: self.stroke, points: self.points.clone() }
    }
}

/// The strokes of a list, each by its view.
pub open spec fn stroke_views(strokes: Seq<SingleStroke>) -> Seq<StrokeView> {
    strokes.map_values(|s: SingleStroke| s@)
}

/// The view of an optional stroke.
pub open spec fn optional_stroke_view(stroke: Option<SingleStroke>) -> Option<StrokeView> {
    match stroke {
        Some(s) => Some(s@),
        None => None,
    }
}

} // verus!
