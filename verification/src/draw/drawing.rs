//! A canvas together with its history, kept as one.
//!
//! Both can be looked at from outside, but only the functions here
//! change them, and each leaves them well-formed: ink in range and a
//! history that is one line through the strokes. Whoever holds a
//! `Drawing` holds a well-formed one.

use crate::draw::action::{fresh_actions_fit, ActionView};
use crate::draw::canvas::{
    build_viewport, viewport_of, zoom_is_recovered, zoom_of, Canvas, CanvasView, INITIAL_ZOOM,
    MAX_ZOOM,
};
use crate::draw::capture::{
    erase_pass, erased_strokes, eraser_actions, pen_action, pen_canvas, pen_keeps_range,
};
use crate::draw::history::{
    action_views, run_keeps_linear, run_keeps_range, steps_keep_linear, steps_keep_range,
    History, Timeline,
};
use crate::draw::stroke::StrokeStyle;
use crate::geometry::{Point, Rect, Size};
use vstd::prelude::*;

verus! {

/// A canvas and the history of its strokes.
#[derive(Debug)]
pub struct Drawing {
    canvas: Canvas,
    history: History,
}

/// What a drawing is: the canvas and both stacks of its history, by
/// their views.
pub struct Sheet {
    pub canvas: CanvasView,
    pub undo: Seq<ActionView>,
    pub redo: Seq<ActionView>,
}

impl Sheet {
    pub open spec fn timeline(self) -> Timeline {
        Timeline { undo: self.undo, redo: self.redo, strokes: self.canvas.strokes }
    }

    /// The sheet with stacks and strokes taken from `t`.
    pub open spec fn at(self, t: Timeline) -> Sheet {
        Sheet {
            canvas: CanvasView { strokes: t.strokes, ..self.canvas },
            undo: t.undo,
            redo: t.redo,
        }
    }

    /// An empty sheet of extent `size`, seen at the initial zoom, with
    /// an empty history.
    pub open spec fn blank(size: Size) -> Sheet {
        Sheet {
            canvas: CanvasView {
                canvas_viewport: viewport_of(size, INITIAL_ZOOM),
                canvas_area: Rect::at_origin(size),
                strokes: Seq::empty(),
                segments: Seq::empty(),
                last_cursor_pos: None,
                zoom: INITIAL_ZOOM,
            },
            undo: Seq::empty(),
            redo: Seq::empty(),
        }
    }

    /// The sheet starts at the origin, all ink is in range, and the
    /// history is one line through the strokes.
    pub open spec fn wf(self) -> bool {
        &&& self.canvas.canvas_area.is_area()
        &&& self.canvas.in_range()
        &&& self.timeline().linear()
        &&& self.timeline().in_range()
    }

    /// The sheet after a pen frame: the canvas takes the frame, and a
    /// finished stroke is run through the history.
    pub open spec fn drawn(
        self,
        pointer_pos: Option<Point>,
        dragging: bool,
        drag_stopped: bool,
        style: StrokeStyle,
    ) -> Sheet {
        let moved = Sheet {
            canvas: pen_canvas(self.canvas, pointer_pos, dragging, drag_stopped),
            ..self
        };
        match pen_action(self.canvas, pointer_pos, dragging, drag_stopped, style) {
            Some(action) => moved.at(self.timeline().run(action)),
            None => moved,
        }
    }

    /// The sheet after an eraser frame: the replacements of the pass are
    /// run through the history in the order of the strokes.
    pub open spec fn erased(self, pointer_pos: Option<Point>, dragging: bool, radius: u32) -> Sheet {
        self.at(self.timeline().run_all(eraser_actions(self.canvas, pointer_pos, dragging, radius)))
    }

    pub open spec fn undone(self) -> Sheet {
        self.at(self.timeline().undo())
    }

    pub open spec fn redone(self) -> Sheet {
        self.at(self.timeline().redo())
    }

    /// The sheet seen through `viewport`.
    pub open spec fn seen_through(self, viewport: Rect) -> Sheet {
        Sheet { canvas: CanvasView { canvas_viewport: viewport, ..self.canvas }, ..self }
    }

    /// The sheet with its zoom brought in line with its viewport. A
    /// viewport without width has no zoom, and leaves the value alone.
    pub open spec fn zoom_updated(self) -> Sheet {
        if self.canvas.canvas_viewport.width() > 0 {
            Sheet {
                canvas: CanvasView {
                    zoom: zoom_of(
                        self.canvas.canvas_area.width(),
                        self.canvas.canvas_viewport.width(),
                    ) as u64,
                    ..self.canvas
                },
                ..self
            }
        } else {
            self
        }
    }

    /// The sheet seen at `zoom`, through the viewport that `zoom` gives
    /// around the middle of the sheet.
    pub open spec fn zoomed(self, zoom: u64) -> Sheet {
        Sheet {
            canvas: CanvasView {
                zoom,
                canvas_viewport: viewport_of(
                    Size {
                        width: self.canvas.canvas_area.max.x as u32,
                        height: self.canvas.canvas_area.max.y as u32,
                    },
                    zoom,
                ),
                ..self.canvas
            },
            ..self
        }
    }
}

/// A zoom that was set stays. On a sheet of positive width, a frame
/// that leaves the viewport as `zoomed` built it, for a zoom up to
/// `MAX_ZOOM`, finds the zoom in line and leaves it as it was set; and so
/// does the first frame on a blank sheet.
pub proof fn zoom_survives_a_frame(s: Sheet, size: Size, zoom: u64)
    requires
        s.canvas.canvas_area.is_area(),
        s.canvas.canvas_area.max.x > 0,
        size.width > 0,
        0 < zoom <= MAX_ZOOM,
    ensures
        s.zoomed(zoom).canvas.zoom_in_line(),
        s.zoomed(zoom).zoom_updated() == s.zoomed(zoom),
        Sheet::blank(size).canvas.zoom_in_line(),
        Sheet::blank(size).zoom_updated() == Sheet::blank(size),
{
    let own = Size {
        width: s.canvas.canvas_area.max.x as u32,
        height: s.canvas.canvas_area.max.y as u32,
    };
    zoom_is_recovered(own, zoom);
    zoom_is_recovered(size, INITIAL_ZOOM);
}

impl View for Drawing {
    type V = Sheet;

    closed spec fn view(&self) -> Sheet {
        Sheet {
            canvas: self.canvas@,
            undo: action_views(self.history.undo@),
            redo: action_views(self.history.redo@),
        }
    }
}

impl Drawing {
    /// The drawing can be worked on: see `Sheet::wf`. Every function
    /// that makes or changes a drawing sees to it.
    pub open spec fn wf(self) -> bool {
        self@.wf()
    }

    /// An empty canvas of extent `size`, seen at the initial zoom, with
    /// an empty history. On a sheet of positive width the zoom is in
    /// line with the viewport from the start.
    pub fn new(size: Size) -> (d: Drawing)
        ensures
            d.wf(),
            d@ == Sheet::blank(size),
            size.width > 0 ==> d@.canvas.zoom_in_line(),
    {
        let d = Drawing { canvas: Canvas::new(size), history: History::new() };
        assert(d@.undo =~= Seq::<ActionView>::empty());
        assert(d@.redo =~= Seq::<ActionView>::empty());
        d
    }

    /// A drawing on a canvas that was kept from an earlier one, with an
    /// empty history. The canvas is taken only if its sheet starts at
    /// the origin and all its ink is in range.
    pub fn restore(canvas: Canvas) -> (r: Option<Drawing>)
        ensures
            r is Some <==> canvas.canvas_area.is_area() && canvas@.in_range(),
            r matches Some(d) ==> d.wf() && d@ == (Sheet {
                canvas: canvas@,
                undo: Seq::empty(),
                redo: Seq::empty(),
            }),
    {
        if !canvas.is_usable() {
            return None;
        }
        let d = Drawing { canvas, history: History::new() };
        assert(d@.undo =~= Seq::<ActionView>::empty());
        assert(d@.redo =~= Seq::<ActionView>::empty());
        Some(d)
    }

    /// The canvas, to look at.
    pub fn canvas(&self) -> (c: &Canvas)
        ensures
            c@ == self@.canvas,
    {
        &self.canvas
    }

    /// The history, to look at.
    pub fn history(&self) -> (h: &History)
        ensures
            action_views(h.undo@) == self@.undo,
            action_views(h.redo@) == self@.redo,
    {
        &self.history
    }

    /// One frame of the pen: the canvas takes the frame, and a stroke
    /// that the frame finishes is run through the history in `style`.
    pub fn draw(
        &mut self,
        pointer_pos: Option<Point>,
        dragging: bool,
        drag_stopped: bool,
        style: StrokeStyle,
    )
        requires
            old(self).wf(),
            pointer_pos matches Some(p) ==> p.in_range(),
        ensures
            final(self).wf(),
            final(self)@ == old(self)@.drawn(pointer_pos, dragging, drag_stopped, style),
    {
        let ghost before = self@;
        let action = self.canvas.capture_pen(pointer_pos, dragging, drag_stopped, style);
        proof {
            pen_keeps_range(before.canvas, pointer_pos, dragging, drag_stopped, style);
        }
        if let Some(action) = action {
            proof {
                fresh_actions_fit(action@, before.timeline().strokes);
                run_keeps_linear(before.timeline(), action@);
                run_keeps_range(before.timeline(), action@);
            }
            self.history.run(action, &mut self.canvas);
        }
    }

    /// One frame of the eraser: every stroke that the eraser reaches is
    /// replaced, through the history, by what the eraser leaves of it.
    /// Afterwards no segment within `radius` of the eraser is left, all
    /// other segments are in place, and no stroke has left the list.
    pub fn erase(&mut self, pointer_pos: Option<Point>, dragging: bool, radius: u32)
        requires
            old(self).wf(),
            pointer_pos matches Some(p) ==> p.in_range(),
        ensures
            final(self).wf(),
            final(self)@ == old(self)@.erased(pointer_pos, dragging, radius),
            final(self)@.canvas.strokes == if dragging && pointer_pos is Some {
                erased_strokes(
                    old(self)@.canvas.strokes,
                    pointer_pos->0,
                    radius,
                    old(self)@.canvas.strokes.len() as int,
                )
            } else {
                old(self)@.canvas.strokes
            },
    {
        let ghost before = self@;
        let actions = self.canvas.capture_erase(pointer_pos, dragging, radius);
        proof {
            if dragging && pointer_pos is Some {
                erase_pass(
                    before.timeline(),
                    pointer_pos->0,
                    radius,
                    before.canvas.strokes.len() as int,
                );
            }
        }
        self.history.run_all(actions, &mut self.canvas);
    }

    /// Takes back the latest change to the strokes, if there is one.
    pub fn undo(&mut self)
        requires
            old(self).wf(),
        ensures
            final(self).wf(),
            final(self)@ == old(self)@.undone(),
    {
        proof {
            steps_keep_linear(self@.timeline());
            steps_keep_range(self@.timeline());
        }
        self.history.undo(&mut self.canvas);
    }

    /// Applies again the latest change taken back, if there is one.
    pub fn redo(&mut self)
        requires
            old(self).wf(),
        ensures
            final(self).wf(),
            final(self)@ == old(self)@.redone(),
    {
        proof {
            steps_keep_linear(self@.timeline());
            steps_keep_range(self@.timeline());
        }
        self.history.redo(&mut self.canvas);
    }

    /// Takes `viewport` as the part of the plane that is on screen.
    pub fn look_through(&mut self, viewport: Rect)
        requires
            old(self).wf(),
        ensures
            final(self).wf(),
            final(self)@ == old(self)@.seen_through(viewport),
    {
        self.canvas.canvas_viewport = viewport;
    }

    /// Brings the zoom in line with the viewport, where the viewport has
    /// a width.
    pub fn update_zoom(&mut self)
        requires
            old(self).wf(),
        ensures
            final(self).wf(),
            final(self)@ == old(self)@.zoom_updated(),
            old(self)@.canvas.canvas_viewport.width() > 0 ==> final(self)@.canvas.zoom_in_line(),
    {
        if self.canvas.canvas_viewport.min.x < self.canvas.canvas_viewport.max.x {
            self.canvas.update_zoom();
        }
    }

    /// Sets the zoom and rebuilds the viewport for it around the middle
    /// of the sheet. On a sheet of positive width, a zoom up to
    /// `MAX_ZOOM` is in line with the viewport so built.
    pub fn set_zoom(&mut self, zoom: u64)
        requires
            old(self).wf(),
            zoom > 0,
        ensures
            final(self).wf(),
            final(self)@ == old(self)@.zoomed(zoom),
            old(self)@.canvas.canvas_area.width() > 0 && zoom <= MAX_ZOOM
                ==> final(self)@.canvas.zoom_in_line(),
    {
        proof {
            if self.canvas.canvas_area.max.x > 0 && zoom <= MAX_ZOOM {
                zoom_is_recovered(
                    Size {
                        width: self.canvas.canvas_area.max.x as u32,
                        height: self.canvas.canvas_area.max.y as u32,
                    },
                    zoom,
                );
            }
        }
        self.canvas.zoom = zoom;
        self.canvas.canvas_viewport = build_viewport(self.canvas.canvas_area.size(), zoom);
    }
}

} // verus!
