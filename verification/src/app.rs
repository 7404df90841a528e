//! One drawing session: a drawing, the style and tool in hand, and the
//! dialog that opens it.

use crate::draw::drawing::{Drawing, Sheet};
use crate::draw::stroke::{Color, StrokeStyle};
use crate::geometry::{Point, Rect, Size};
use crate::modals::InitialModal;
use crate::toolbar::main::Tool;
use vstd::prelude::*;

verus! {

/// The state of a session.
#[derive(Debug)]
pub struct SimplePaintApp {
    pub drawing: Drawing,
    /// The style that new strokes get; its width is the eraser's radius.
    pub stroke_type: StrokeStyle,
    pub tool: Tool,
    pub initial_modal: InitialModal,
}

/// What one frame brings from the screen.
#[derive(Clone, Copy, Debug)]
pub struct Frame {
    /// The viewport as pan and zoom gestures have left it.
    pub viewport: Rect,
    /// The pointer is over the canvas.
    pub hovered: bool,
    /// Where the pointer is, in canvas units, while it acts on the canvas.
    pub pointer_pos: Option<Point>,
    /// A drag is under way.
    pub dragging: bool,
    /// A drag has ended with this frame.
    pub drag_stopped: bool,
}

impl Sheet {
    /// The sheet after one frame: seen through the frame's viewport;
    /// then, if the pointer is over the canvas, after a frame of the tool
    /// in hand; then with its zoom brought in line.
    pub open spec fn updated(self, frame: Frame, tool: Tool, style: StrokeStyle) -> Sheet {
        let seen = self.seen_through(frame.viewport);
        let worked = if !frame.hovered {
            seen
        } else {
            match tool {
                Tool::Pen => seen.drawn(
                    frame.pointer_pos,
                    frame.dragging,
                    frame.drag_stopped,
                    style,
                ),
                Tool::Erase => seen.erased(frame.pointer_pos, frame.dragging, style.width),
            }
        };
        worked.zoom_updated()
    }
}

/// The width of new strokes in a fresh session: two points.
pub const DEFAULT_WIDTH: u32 = 128;

/// The width of the sheet in a fresh session: 1920 points.
pub const DEFAULT_SHEET_WIDTH: u32 = 122_880;

/// The height of the sheet in a fresh session: 1080 points.
pub const DEFAULT_SHEET_HEIGHT: u32 = 69_120;

/// The extent of the sheet in a fresh session.
pub open spec fn default_size() -> Size {
    Size { width: DEFAULT_SHEET_WIDTH, height: DEFAULT_SHEET_HEIGHT }
}

impl Default for SimplePaintApp {
    /// A fresh session: an empty sheet of the default extent, no history, a
    /// black pen of `DEFAULT_WIDTH`, and the dialog for the extent of the
    /// canvas shown.
    fn default() -> (app: Self)
        ensures
            app.wf(),
            app.is_fresh(),
    {
        SimplePaintApp {
            drawing: Drawing::new(Size::new(DEFAULT_SHEET_WIDTH, DEFAULT_SHEET_HEIGHT)),
            stroke_type: StrokeStyle {
                width: DEFAULT_WIDTH,
                color: Color { r: 0, g: 0, b: 0, a: 255 },
            },
            tool: Tool::Pen,
            initial_modal: InitialModal::default(),
        }
    }
}

impl SimplePaintApp {
    /// The session can be worked on: its drawing is well-formed.
    pub open spec fn wf(self) -> bool {
        self.drawing.wf()
    }

    /// The session is as it is when it starts: an empty sheet of the
    /// default extent seen at the initial zoom, an empty history, a black
    /// pen of `DEFAULT_WIDTH` in hand, and the dialog shown with empty
    /// fields.
    pub open spec fn is_fresh(self) -> bool {
        &&& self.drawing@ == Sheet::blank(default_size())
        &&& self.stroke_type == (StrokeStyle {
            width: DEFAULT_WIDTH,
            color: Color { r: 0, g: 0, b: 0, a: 255 },
        })
        &&& self.tool == Tool::Pen
        &&& self.initial_modal.active
        &&& self.initial_modal.width@ == Seq::<char>::empty()
        &&& self.initial_modal.height@ == Seq::<char>::empty()
    }

    /// A fresh session, as `default` gives it.
    pub fn new() -> (app: Self)
        ensures
            app.wf(),
            app.is_fresh(),
    {
        Default::default()
    }

    /// One frame of the pen, in the current style.
    pub fn draw(&mut self, pointer_pos: Option<Point>, dragging: bool, drag_stopped: bool)
        requires
            old(self).wf(),
            pointer_pos matches Some(p) ==> p.in_range(),
        ensures
            final(self).wf(),
            final(self).drawing@ == old(self).drawing@.drawn(
                pointer_pos,
                dragging,
                drag_stopped,
                old(self).stroke_type,
            ),
            final(self).stroke_type == old(self).stroke_type,
            final(self).tool == old(self).tool,
            final(self).initial_modal == old(self).initial_modal,
    {
        self.drawing.draw(pointer_pos, dragging, drag_stopped, self.stroke_type);
    }

    /// One frame of the eraser, with the current stroke width as its
    /// radius.
    pub fn erase(&mut self, pointer_pos: Option<Point>, dragging: bool)
        requires
            old(self).wf(),
            pointer_pos matches Some(p) ==> p.in_range(),
        ensures
            final(self).wf(),
            final(self).drawing@ == old(self).drawing@.erased(
                pointer_pos,
                dragging,
                old(self).stroke_type.width,
            ),
            final(self).stroke_type == old(self).stroke_type,
            final(self).tool == old(self).tool,
            final(self).initial_modal == old(self).initial_modal,
    {
        self.drawing.erase(pointer_pos, dragging, self.stroke_type.width);
    }

    /// One frame of the session.
    ///
    /// The viewport is what the frame's gestures have made of it. With
    /// the pointer over the canvas, the tool in hand gets the frame.
    /// Last, the zoom is brought in line with the viewport, so that a
    /// frame with a viewport that has a width ends with the two in line.
    pub fn update(&mut self, frame: Frame)
        requires
            old(self).wf(),
            frame.pointer_pos matches Some(p) ==> p.in_range(),
        ensures
            final(self).wf(),
            final(self).drawing@ == old(self).drawing@.updated(
                frame,
                old(self).tool,
                old(self).stroke_type,
            ),
            final(self).drawing@.canvas.canvas_viewport == frame.viewport,
            frame.viewport.width() > 0 ==> final(self).drawing@.canvas.zoom_in_line(),
            final(self).stroke_type == old(self).stroke_type,
            final(self).tool == old(self).tool,
            final(self).initial_modal == old(self).initial_modal,
    {
        self.drawing.look_through(frame.viewport);
        if frame.hovered {
            match self.tool {
                Tool::Pen => self.draw(frame.pointer_pos, frame.dragging, frame.drag_stopped),
                Tool::Erase => self.erase(frame.pointer_pos, frame.dragging),
            }
        }
        self.drawing.update_zoom();
    }
}

} // verus!
