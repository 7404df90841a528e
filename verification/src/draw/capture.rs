//! The two tools: the pen, which turns pointer motion into a stroke,
//! and the eraser, which removes the segments it passes over.

use crate::draw::action::{fresh_actions_fit, Action, ActionView};
use crate::draw::canvas::{strokes_in_range, Canvas, CanvasView};
use crate::draw::history::{action_views, run_keeps_linear, Timeline};
use crate::draw::stroke::{all_in_range, Segment, SingleStroke, StrokeStyle, StrokeView};
use crate::geometry::Point;
use crate::utils::{cursor_to_segment_distance, exceeds, segment_dist_sq};
use vstd::prelude::*;

verus! {

/// The segments under way after the pointer part of a pen frame: one
/// more, from the last position to `pointer_pos`, where the drag is on,
/// a last position is known and the pointer has left it.
pub open spec fn pen_segments(c: CanvasView, pointer_pos: Option<Point>, dragging: bool) -> Seq<
    Segment,
> {
    if dragging && pointer_pos is Some && c.last_cursor_pos is Some && c.last_cursor_pos
        != pointer_pos {
        c.segments.push(Segment { a: c.last_cursor_pos->0, b: pointer_pos->0 })
    } else {
        c.segments
    }
}

/// The canvas after a pen frame. While the drag is on, the pointer
/// position is remembered. When the drag stops, the segments under way
/// leave the canvas and the remembered position is dropped.
pub open spec fn pen_canvas(
    c: CanvasView,
    pointer_pos: Option<Point>,
    dragging: bool,
    drag_stopped: bool,
) -> CanvasView {
    if drag_stopped {
        CanvasView { segments: Seq::empty(), last_cursor_pos: None, ..c }
    } else {
        CanvasView {
            segments: pen_segments(c, pointer_pos, dragging),
            last_cursor_pos: if dragging && pointer_pos is Some {
                pointer_pos
            } else {
                c.last_cursor_pos
            },
            ..c
        }
    }
}

/// What a pen frame hands to the history: when the drag stops with at
/// least one segment under way, the addition of a stroke made of those
/// segments in the style given; otherwise nothing.
pub open spec fn pen_action(
    c: CanvasView,
    pointer_pos: Option<Point>,
    dragging: bool,
    drag_stopped: bool,
    style: StrokeStyle,
) -> Option<ActionView> {
    if drag_stopped && pen_segments(c, pointer_pos, dragging).len() > 0 {
        Some(
            ActionView::AddStroke {
                stroke: StrokeView {
                    stroke: style,
                    points: pen_segments(c, pointer_pos, dragging),
                },
            },
        )
    } else {
        None
    }
}

/// The view of an optional action.
pub open spec fn optional_action_view(action: Option<Action>) -> Option<ActionView> {
    match action {
        Some(a) => Some(a@),
        None => None,
    }
}

/// The canvas after `frames` pen frames in a row with the drag on and
/// the pointer at `p`.
pub open spec fn pen_held(c: CanvasView, p: Point, frames: nat) -> CanvasView
    decreases frames,
{
    if frames == 0 {
        c
    } else {
        pen_canvas(pen_held(c, p, (frames - 1) as nat), Some(p), true, false)
    }
}

/// A drag that never moves draws nothing: from a canvas with no segment
/// under way and no remembered position, any number of frames at one
/// point leave no segment under way, and the stop that follows hands
/// nothing to the history and leaves the canvas as it was.
pub proof fn still_drag_draws_nothing(c: CanvasView, p: Point, frames: nat, style: StrokeStyle)
    requires
        c.segments.len() == 0,
        c.last_cursor_pos is None,
    ensures
        pen_held(c, p, frames).segments.len() == 0,
        pen_action(pen_held(c, p, frames), Some(p), false, true, style) is None,
        pen_action(pen_held(c, p, frames), Some(p), true, true, style) is None,
        pen_canvas(pen_held(c, p, frames), Some(p), false, true) == c,
{
    lemma_pen_held(c, p, frames);
    assert(pen_canvas(pen_held(c, p, frames), Some(p), false, true).segments =~= c.segments);
}

proof fn lemma_pen_held(c: CanvasView, p: Point, frames: nat)
    requires
        c.segments.len() == 0,
        c.last_cursor_pos is None,
    ensures
        pen_held(c, p, frames) == (CanvasView {
            last_cursor_pos: if frames == 0 {
                None
            } else {
                Some(p)
            },
            ..c
        }),
    decreases frames,
{
    if frames > 0 {
        lemma_pen_held(c, p, (frames - 1) as nat);
    }
}

/// A pen frame keeps every segment in range, as long as the pointer is.
pub proof fn pen_keeps_range(
    c: CanvasView,
    pointer_pos: Option<Point>,
    dragging: bool,
    drag_stopped: bool,
    style: StrokeStyle,
)
    requires
        c.in_range(),
        pointer_pos matches Some(p) ==> p.in_range(),
    ensures
        pen_canvas(c, pointer_pos, dragging, drag_stopped).in_range(),
        pen_action(c, pointer_pos, dragging, drag_stopped, style) matches Some(a) ==> a.in_range(),
{
}

impl Canvas {
    /// One frame of the pen.
    ///
    /// While `dragging`, a pointer that has moved since the last frame
    /// adds the segment from there to here to the stroke under way.
    /// When `drag_stopped`, a stroke under way that has at least one
    /// segment is moved out of the canvas and returned as an addition in
    /// `style`, for the history to apply; an empty one yields nothing.
    pub fn capture_pen(
        &mut self,
        pointer_pos: Option<Point>,
        dragging: bool,
        drag_stopped: bool,
        style: StrokeStyle,
    ) -> (action: Option<Action>)
        ensures
            final(self)@ == pen_canvas(old(self)@, pointer_pos, dragging, drag_stopped),
            optional_action_view(action) == pen_action(
                old(self)@,
                pointer_pos,
                dragging,
                drag_stopped,
                style,
            ),
    {
        if dragging {
            if let Some(pos) = pointer_pos {
                if let Some(prev) = self.last_cursor_pos {
                    if prev != pos {
                        self.segments.push(Segment::new(prev, pos));
                    }
                }
                self.last_cursor_pos = Some(pos);
            }
        }
        if drag_stopped {
            self.last_cursor_pos = None;
            if !self.segments.is_empty() {
                let mut points: Vec<Segment> = Vec::new();
                std::mem::swap(&mut points, &mut self.segments);
                return Some(Action::AddStroke { stroke: SingleStroke { stroke: style, points } });
            }
            assert(self.segments@ =~= Seq::<Segment>::empty());
        }
        None
    }
}

/// The test that a segment passes when the eraser at `eraser` leaves it
/// alone: it lies strictly farther than `radius` from the eraser.
pub open spec fn survives(eraser: Point, radius: u32) -> spec_fn(Segment) -> bool {
    |s: Segment| exceeds(segment_dist_sq(eraser, s), radius as int)
}

/// The stroke without the segments that the eraser reaches. Style and
/// order are kept.
pub open spec fn erased(stroke: StrokeView, eraser: Point, radius: u32) -> StrokeView {
    StrokeView { stroke: stroke.stroke, points: stroke.points.filter(survives(eraser, radius)) }
}

/// The eraser reaches at least one segment of the stroke.
pub open spec fn touched(stroke: StrokeView, eraser: Point, radius: u32) -> bool {
    exists|i: int| 0 <= i < stroke.points.len() && !survives(eraser, radius)(stroke.points[i])
}

/// The test that an index passes when the eraser reaches the stroke
/// there.
pub open spec fn touches(strokes: Seq<StrokeView>, eraser: Point, radius: u32) -> spec_fn(
    int,
) -> bool {
    |i: int| touched(strokes[i], eraser, radius)
}

/// For an index, the replacement of the stroke there by what the eraser
/// leaves of it.
pub open spec fn erase_action(strokes: Seq<StrokeView>, eraser: Point, radius: u32) -> spec_fn(
    int,
) -> ActionView {
    |i: int|
        ActionView::ModifyStroke {
            before: Some(strokes[i]),
            after: Some(erased(strokes[i], eraser, radius)),
            index: i,
        }
}

/// The indexes below `n`, in order.
pub open spec fn indexes(n: int) -> Seq<int> {
    Seq::new(n as nat, |i: int| i)
}

/// What one pass of the eraser over the first `n` strokes hands to the
/// history: one replacement for each stroke that it reaches, in the
/// order of the strokes.
pub open spec fn erase_actions(strokes: Seq<StrokeView>, eraser: Point, radius: u32, n: int) -> Seq<
    ActionView,
> {
    indexes(n).filter(touches(strokes, eraser, radius)).map_values(
        erase_action(strokes, eraser, radius),
    )
}

/// What an eraser frame hands to the history: the replacements of one
/// pass over all strokes where the drag is on and the pointer is known,
/// and nothing otherwise.
pub open spec fn eraser_actions(
    c: CanvasView,
    pointer_pos: Option<Point>,
    dragging: bool,
    radius: u32,
) -> Seq<ActionView> {
    if dragging && pointer_pos is Some {
        erase_actions(c.strokes, pointer_pos->0, radius, c.strokes.len() as int)
    } else {
        Seq::empty()
    }
}

/// A filter keeps the length of a sequence exactly when every element
/// passes, and then it keeps the sequence.
pub proof fn filter_keeps_all<A>(s: Seq<A>, pred: spec_fn(A) -> bool)
    ensures
        s.filter(pred).len() == s.len() <==> (forall|i: int| 0 <= i < s.len() ==> pred(s[i])),
        s.filter(pred).len() == s.len() ==> s.filter(pred) == s,
    decreases s.len(),
{
    reveal(Seq::filter);
    if s.len() > 0 {
        let front = s.drop_last();
        filter_keeps_all(front, pred);
        front.lemma_filter_len(pred);
        if s.filter(pred).len() == s.len() {
            assert forall|i: int| 0 <= i < s.len() implies pred(s[i]) by {
                if i < front.len() {
                    assert(front[i] == s[i]);
                }
            }
        }
    }
}

/// One more stroke adds one replacement to a pass if the eraser reaches
/// it, and none otherwise.
pub proof fn erase_actions_step(strokes: Seq<StrokeView>, eraser: Point, radius: u32, n: int)
    requires
        0 <= n,
    ensures
        erase_actions(strokes, eraser, radius, n + 1) == if touched(strokes[n], eraser, radius) {
            erase_actions(strokes, eraser, radius, n).push(
                erase_action(strokes, eraser, radius)(n),
            )
        } else {
            erase_actions(strokes, eraser, radius, n)
        },
{
    let hit = touches(strokes, eraser, radius);
    assert(indexes(n + 1) =~= indexes(n).push(n));
    indexes(n).lemma_filter_push(n, hit);
}

/// After a pass, every segment that is left lies strictly farther than
/// the radius from the eraser; every segment that lay so is left; and so
/// a segment that is gone lay within the radius.
pub proof fn erased_segments_were_in_reach(stroke: StrokeView, eraser: Point, radius: u32)
    ensures
        forall|i: int|
            0 <= i < erased(stroke, eraser, radius).points.len() ==> exceeds(
                segment_dist_sq(eraser, #[trigger] erased(stroke, eraser, radius).points[i]),
                radius as int,
            ),
        forall|i: int|
            0 <= i < stroke.points.len() && exceeds(
                segment_dist_sq(eraser, #[trigger] stroke.points[i]),
                radius as int,
            ) ==> erased(stroke, eraser, radius).points.contains(stroke.points[i]),
        forall|i: int|
            0 <= i < stroke.points.len() && !erased(stroke, eraser, radius).points.contains(
                #[trigger] stroke.points[i],
            ) ==> !exceeds(segment_dist_sq(eraser, stroke.points[i]), radius as int),
        forall|i: int|
            0 <= i < erased(stroke, eraser, radius).points.len() ==> stroke.points.contains(
                #[trigger] erased(stroke, eraser, radius).points[i],
            ),
        !touched(stroke, eraser, radius) <==> erased(stroke, eraser, radius) == stroke,
{
    let keep = survives(eraser, radius);
    let left = stroke.points.filter(keep);
    assert forall|i: int| 0 <= i < left.len() implies keep(#[trigger] left[i])
        && stroke.points.contains(left[i]) by {
        stroke.points.lemma_filter_pred(keep, i);
        stroke.points.lemma_filter_contains_rev(keep, left[i]);
    }
    assert forall|i: int| 0 <= i < stroke.points.len() && keep(#[trigger] stroke.points[i])
        implies left.contains(stroke.points[i]) by {
        stroke.points.lemma_filter_contains(keep, i);
    }
    filter_keeps_all(stroke.points, keep);
}

/// The strokes after one pass of the eraser over the first `n` of them:
/// each of those without the segments in reach, the others as they were.
pub open spec fn erased_strokes(strokes: Seq<StrokeView>, eraser: Point, radius: u32, n: int) -> Seq<
    StrokeView,
> {
    Seq::new(
        strokes.len(),
        |i: int|
            if i < n {
                erased(strokes[i], eraser, radius)
            } else {
                strokes[i]
            },
    )
}

/// Running what a pass of the eraser hands over does what the pass is
/// for. Every replacement can be applied in its turn. Afterwards each
/// stroke in the pass is without the segments in reach and no stroke has
/// left the list; the replacements lie on the undo stack in the order of
/// the strokes; the redo stack is empty if there was any replacement and
/// untouched if not; and a linear history is linear still.
pub proof fn erase_pass(t: Timeline, eraser: Point, radius: u32, n: int)
    requires
        0 <= n <= t.strokes.len(),
    ensures
        t.can_run_all(erase_actions(t.strokes, eraser, radius, n)),
        t.run_all(erase_actions(t.strokes, eraser, radius, n)).strokes == erased_strokes(
            t.strokes,
            eraser,
            radius,
            n,
        ),
        t.run_all(erase_actions(t.strokes, eraser, radius, n)).undo == t.undo + erase_actions(
            t.strokes,
            eraser,
            radius,
            n,
        ),
        t.run_all(erase_actions(t.strokes, eraser, radius, n)).redo == if erase_actions(
            t.strokes,
            eraser,
            radius,
            n,
        ).len() == 0 {
            t.redo
        } else {
            Seq::empty()
        },
        t.linear() ==> t.run_all(erase_actions(t.strokes, eraser, radius, n)).linear(),
        t.in_range() ==> t.run_all(erase_actions(t.strokes, eraser, radius, n)).in_range(),
    decreases n,
{
    let actions = erase_actions(t.strokes, eraser, radius, n);
    if n == 0 {
        reveal(Seq::filter);
    } else {
        let m = n - 1;
        let earlier = erase_actions(t.strokes, eraser, radius, m);
        let mid = t.run_all(earlier);
        erase_pass(t, eraser, radius, m);
        erase_actions_step(t.strokes, eraser, radius, m);
        erased_segments_were_in_reach(t.strokes[m], eraser, radius);
        if touched(t.strokes[m], eraser, radius) {
            let a = erase_action(t.strokes, eraser, radius)(m);
            assert(actions.drop_last() =~= earlier);
            if t.linear() {
                fresh_actions_fit(a, mid.strokes);
                run_keeps_linear(mid, a);
            }
            if t.in_range() {
                assert(all_in_range(erased(t.strokes[m], eraser, radius).points));
            }
        }
    }
}

impl SingleStroke {
    /// The segments of the stroke that lie strictly farther than
    /// `radius` from `eraser`, in their order.
    pub fn segments_out_of_reach(&self, eraser: Point, radius: u32) -> (kept: Vec<Segment>)
        requires
            eraser.in_range(),
            all_in_range(self@.points),
        ensures
            kept@ == erased(self@, eraser, radius).points,
    {
        let mut kept: Vec<Segment> = Vec::new();
        let mut i: usize = 0;
        proof {
            reveal(Seq::filter);
        }
        while i < self.points.len()
            invariant
                i <= self.points.len(),
                eraser.in_range(),
                all_in_range(self@.points),
                kept@ == self.points@.take(i as int).filter(survives(eraser, radius)),
            decreases self.points.len() - i,
        {
            let segment = self.points[i];
            proof {
                assert(self.points@.take(i + 1) =~= self.points@.take(i as int).push(segment));
                self.points@.take(i as int).lemma_filter_push(segment, survives(eraser, radius));
            }
            if cursor_to_segment_distance(eraser, &segment).exceeds(radius) {
                kept.push(segment);
            }
            i += 1;
        }
        assert(self.points@.take(i as int) =~= self.points@);
        kept
    }
}

impl Canvas {
    /// One frame of the eraser.
    ///
    /// While `dragging` with the pointer at a known position, every
    /// stroke that has a segment within `radius` of the pointer yields
    /// one replacement: the stroke as it stands, by the stroke without
    /// the segments in reach. The replacements come in the order of the
    /// strokes, for the history to apply; the canvas itself is not
    /// changed here. A stroke that loses all its segments stays in the
    /// list, empty.
    pub fn capture_erase(&self, pointer_pos: Option<Point>, dragging: bool, radius: u32) -> (actions:
        Vec<Action>)
        requires
            strokes_in_range(self@.strokes),
            pointer_pos matches Some(p) ==> p.in_range(),
        ensures
            action_views(actions@) == eraser_actions(self@, pointer_pos, dragging, radius),
    {
        let mut actions: Vec<Action> = Vec::new();
        if !dragging {
            return actions;
        }
        let Some(eraser) = pointer_pos else {
            return actions;
        };
        let ghost strokes = self@.strokes;
        proof {
            reveal(Seq::filter);
        }
        let mut i: usize = 0;
        while i < self.strokes.len()
            invariant
                i <= self.strokes.len(),
                strokes == self@.strokes,
                strokes.len() == self.strokes.len(),
                eraser.in_range(),
                strokes_in_range(strokes),
                action_views(actions@) == erase_actions(strokes, eraser, radius, i as int),
            decreases self.strokes.len() - i,
        {
            let stroke = &self.strokes[i];
            assert(stroke@ == strokes[i as int]);
            let kept = stroke.segments_out_of_reach(eraser, radius);
            proof {
                erase_actions_step(strokes, eraser, radius, i as int);
                filter_keeps_all(stroke@.points, survives(eraser, radius));
                stroke@.points.lemma_filter_len(survives(eraser, radius));
            }
            if kept.len() < stroke.points.len() {
                let action = Action::ModifyStroke {
                    before: Some(stroke.clone()),
                    after: Some(SingleStroke { stroke: stroke.stroke, points: kept }),
                    index: i,
                };
                actions.push(action);
            }
            i += 1;
        }
        actions
    }
}

} // verus!
