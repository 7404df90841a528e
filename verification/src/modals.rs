//! The dialog that asks for the extent of a new canvas.

use crate::app::SimplePaintApp;
use crate::draw::drawing::{Drawing, Sheet};
use crate::geometry::Size;
use vstd::prelude::*;

verus! {

/// State of the dialog: whether it is shown, and the text typed so far
/// for each side.
#[derive(Debug)]
pub struct InitialModal {
    pub active: bool,
    pub width: String,
    pub height: String,
}

impl Default for InitialModal {
    /// The dialog shown, with both fields empty.
    fn default() -> (m: Self)
        ensures
            m.active,
            m.width@ == Seq::<char>::empty(),
            m.height@ == Seq::<char>::empty(),
    {
        InitialModal { active: true, width: String::new(), height: String::new() }
    }
}

/// One use of a button of the dialog.
#[derive(Clone, Copy, Debug, PartialEq, Eq)]
pub enum ModalEvent {
    /// A canvas was asked for. `size` is the extent that the two fields
    /// name, in canvas units, or nothing where a field does not read as
    /// a number or the numbers are no extent that a canvas can have.
    Create { size: Option<Size> },
    /// The canvas at hand was accepted.
    KeepDefault,
}

/// Carries out one use of a button of the dialog.
///
/// Accepting the canvas at hand closes the dialog. Asking for a canvas
/// closes it too if the fields named an extent: the session then starts
/// over on an empty canvas of that extent, with an empty history. If
/// they named none, both fields are cleared and the dialog stays, with
/// the canvas as it was.
pub fn initial_modal(app: &mut SimplePaintApp, event: ModalEvent)
    ensures
        final(app).stroke_type == old(app).stroke_type,
        final(app).tool == old(app).tool,
        match event {
            ModalEvent::KeepDefault => {
                &&& final(app).drawing@ == old(app).drawing@
                &&& !final(app).initial_modal.active
                &&& final(app).initial_modal.width == old(app).initial_modal.width
                &&& final(app).initial_modal.height == old(app).initial_modal.height
            },
            ModalEvent::Create { size: Some(size) } => {
                &&& final(app).wf()
                &&& final(app).drawing@ == Sheet::blank(size)
                &&& size.width > 0 ==> final(app).drawing@.canvas.zoom_in_line()
                &&& !final(app).initial_modal.active
                &&& final(app).initial_modal.width == old(app).initial_modal.width
                &&& final(app).initial_modal.height == old(app).initial_modal.height
            },
            ModalEvent::Create { size: None } => {
                &&& final(app).drawing@ == old(app).drawing@
                &&& final(app).initial_modal.active == old(app).initial_modal.active
                &&& final(app).initial_modal.width@ == Seq::<char>::empty()
                &&& final(app).initial_modal.height@ == Seq::<char>::empty()
            },
        },
        old(app).wf() ==> final(app).wf(),
{
    match event {
        ModalEvent::KeepDefault => {
            app.initial_modal.active = false;
        },
        ModalEvent::Create { size: Some(size) } => {
            app.drawing = Drawing::new(size);
            app.initial_modal.active = false;
        },
        ModalEvent::Create { size: None } => {
            app.initial_modal.width = String::new();
            app.initial_modal.height = String::new();
        },
    }
}

} // verus!
