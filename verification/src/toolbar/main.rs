//! The tools, and the effect of each control of the tool bar on a
//! session.

use crate::app::SimplePaintApp;
use crate::draw::canvas::{MAX_ZOOM, MIN_ZOOM};
use crate::draw::stroke::Color;
use vstd::prelude::*;

verus! {

/// The tool that pointer drags on the canvas are given to.
#[derive(Clone, Copy, Debug, PartialEq, Eq, Structural)]
pub enum Tool {
    Pen,
    Erase,
}

/// Least stroke width that the width control gives: half a point.
pub const MIN_WIDTH: u32 = 32;

/// Greatest stroke width that the width control gives: fifty points.
pub const MAX_WIDTH: u32 = 3200;

/// One use of a control of the tool bar.
#[derive(Clone, Copy, Debug, PartialEq, Eq, Structural)]
pub enum ToolbarEvent {
    /// The undo button was pressed.
    Undo,
    /// The redo button was pressed.
    Redo,
    /// A colour was picked.
    PickColor(Color),
    /// A tool was taken in hand.
    PickTool(Tool),
    /// The width control was moved to a value, in canvas units.
    SetWidth(u32),
    /// The zoom control was dragged to a value, in thousandths.
    SetZoom(u64),
}

/// `value`, or the nearer of `least` and `greatest` where it lies
/// outside them.
pub open spec fn clamped(value: int, least: int, greatest: int) -> int {
    if value < least {
        least
    } else if value > greatest {
        greatest
    } else {
        value
    }
}

/// Carries out one use of a control of the tool bar.
///
/// Undo and redo step through the history. A colour, a tool or a width
/// becomes the current one, the width held to what the control offers.
/// A zoom, held to what the control offers, becomes the zoom of the
/// canvas, and the viewport is rebuilt for it around the middle of the
/// sheet; on a sheet of positive width the two are then in line.
pub fn toolbar(app: &mut SimplePaintApp, event: ToolbarEvent)
    requires
        old(app).wf(),
    ensures
        final(app).wf(),
        event is SetZoom && old(app).drawing@.canvas.canvas_area.width() > 0
            ==> final(app).drawing@.canvas.zoom_in_line(),
        final(app).initial_modal == old(app).initial_modal,
        final(app).drawing@ == match event {
            ToolbarEvent::Undo => old(app).drawing@.undone(),
            ToolbarEvent::Redo => old(app).drawing@.redone(),
            ToolbarEvent::SetZoom(zoom) => old(app).drawing@.zoomed(
                clamped(zoom as int, MIN_ZOOM as int, MAX_ZOOM as int) as u64,
            ),
            _ => old(app).drawing@,
        },
        final(app).tool == match event {
            ToolbarEvent::PickTool(tool) => tool,
            _ => old(app).tool,
        },
        final(app).stroke_type.color == match event {
            ToolbarEvent::PickColor(color) => color,
            _ => old(app).stroke_type.color,
        },
        final(app).stroke_type.width == match event {
            ToolbarEvent::SetWidth(width) => clamped(
                width as int,
                MIN_WIDTH as int,
                MAX_WIDTH as int,
            ) as u32,
            _ => old(app).stroke_type.width,
        },
{
    match event {
        ToolbarEvent::Undo => {
            app.drawing.undo();
        },
        ToolbarEvent::Redo => {
            app.drawing.redo();
        },
        ToolbarEvent::PickColor(color) => {
            app.stroke_type.color = color;
        },
        ToolbarEvent::PickTool(tool) => {
            app.tool = tool;
        },
        ToolbarEvent::SetWidth(width) => {
            app.stroke_type.width = if width < MIN_WIDTH {
                MIN_WIDTH
            } else if width > MAX_WIDTH {
                MAX_WIDTH
            } else {
                width
            };
        },
        ToolbarEvent::SetZoom(zoom) => {
            let zoom = if zoom < MIN_ZOOM {
                MIN_ZOOM
            } else if zoom > MAX_ZOOM {
                MAX_ZOOM
            } else {
                zoom
            };
            app.drawing.set_zoom(zoom);
        },
    }
}

} // verus!
