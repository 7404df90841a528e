//! Reversible records of one change to the stroke list.

use crate::draw::canvas::{strokes_in_range, Canvas, CanvasView};
use crate::draw::stroke::{all_in_range, optional_stroke_view, SingleStroke, StrokeView};
use vstd::prelude::*;

verus! {

/// One change to the stroke list, holding all that is needed to apply
/// it and to take it back.
#[derive(Debug, PartialEq, Eq)]
pub enum Action {
    /// Append `stroke`.
    AddStroke { stroke: SingleStroke },
    /// Remove the stroke at `index`; `stroke` is what stood there.
    RemoveStroke { stroke: SingleStroke, index: usize },
    /// Replace the stroke at `index`: `before` is what stood there,
    /// `after` what takes its place.
    ModifyStroke { before: Option<SingleStroke>, after: Option<SingleStroke>, index: usize },
}

/// What an action is, apart from how its strokes are stored.
pub enum ActionView {
    AddStroke { stroke: StrokeView },
    RemoveStroke { stroke: StrokeView, index: int },
    ModifyStroke { before: Option<StrokeView>, after: Option<StrokeView>, index: int },
}

impl View for Action {
    type V = ActionView;

    open spec fn view(&self) -> ActionView {
        match *self {
            Action::AddStroke { stroke } => ActionView::AddStroke { stroke: stroke@ },
            Action::RemoveStroke { stroke, index } => ActionView::RemoveStroke {
                stroke: stroke@,
                index: index as int,
            },
            Action::ModifyStroke { before, after, index } => ActionView::ModifyStroke {
                before: optional_stroke_view(before),
                after: optional_stroke_view(after),
                index: index as int,
            },
        }
    }
}

impl ActionView {
    /// The action can be applied to `strokes`: an index that it writes
    /// through lies inside the list.
    pub open spec fn can_execute(self, strokes: Seq<StrokeView>) -> bool {
        match self {
            ActionView::AddStroke { .. } => true,
            ActionView::RemoveStroke { index, .. } => 0 <= index < strokes.len(),
            ActionView::ModifyStroke { after, index, .. } => after is Some ==> 0 <= index
                < strokes.len(),
        }
    }

    /// The stroke list after the action is applied to `strokes`.
    pub open spec fn executed(self, strokes: Seq<StrokeView>) -> Seq<StrokeView> {
        match self {
            ActionView::AddStroke { stroke } => strokes.push(stroke),
            ActionView::RemoveStroke { index, .. } => strokes.remove(index),
            ActionView::ModifyStroke { after, index, .. } => match after {
                Some(stroke) => strokes.update(index, stroke),
                None => strokes,
            },
        }
    }

    /// The action can be taken back from `strokes`: an index that the
    /// reversal writes through lies inside the list, or at its end for a
    /// stroke that is put back.
    pub open spec fn can_undo(self, strokes: Seq<StrokeView>) -> bool {
        match self {
            ActionView::AddStroke { .. } => true,
            ActionView::RemoveStroke { index, .. } => 0 <= index <= strokes.len(),
            ActionView::ModifyStroke { before, index, .. } => before is Some ==> 0 <= index
                < strokes.len(),
        }
    }

    /// The stroke list after the action is taken back from `strokes`.
    pub open spec fn undone(self, strokes: Seq<StrokeView>) -> Seq<StrokeView> {
        match self {
            ActionView::AddStroke { .. } => if strokes.len() > 0 {
                strokes.drop_last()
            } else {
                strokes
            },
            ActionView::RemoveStroke { stroke, index } => strokes.insert(index, stroke),
            ActionView::ModifyStroke { before, index, .. } => match before {
                Some(stroke) => strokes.update(index, stroke),
                None => strokes,
            },
        }
    }
}

impl ActionView {
    /// What the action holds of the prior state agrees with `strokes`:
    /// the stroke that a removal carries, or the `before` of a
    /// replacement, is the stroke at `index`. A replacement without a
    /// `before` cannot take itself back, so it must change nothing.
    pub open spec fn records(self, strokes: Seq<StrokeView>) -> bool {
        match self {
            ActionView::AddStroke { .. } => true,
            ActionView::RemoveStroke { stroke, index } => strokes[index] == stroke,
            ActionView::ModifyStroke { before, after, index } => match before {
                Some(stroke) => strokes[index] == stroke,
                None => after matches Some(stroke) ==> strokes[index] == stroke,
            },
        }
    }

    /// The action can be applied to `strokes` and then taken back, and
    /// that restores `strokes`.
    pub open spec fn fits_before(self, strokes: Seq<StrokeView>) -> bool {
        &&& self.can_execute(strokes)
        &&& self.can_undo(self.executed(strokes))
        &&& self.undone(self.executed(strokes)) == strokes
    }

    /// The action can be taken back from `strokes` and then applied
    /// again, and that restores `strokes`.
    pub open spec fn fits_after(self, strokes: Seq<StrokeView>) -> bool {
        &&& self.can_undo(strokes)
        &&& self.can_execute(self.undone(strokes))
        &&& self.executed(self.undone(strokes)) == strokes
    }

    /// Every segment that the action carries can take part in
    /// hit-testing.
    pub open spec fn in_range(self) -> bool {
        match self {
            ActionView::AddStroke { stroke } => all_in_range(stroke.points),
            ActionView::RemoveStroke { stroke, .. } => all_in_range(stroke.points),
            ActionView::ModifyStroke { before, after, .. } => {
                &&& before matches Some(stroke) ==> all_in_range(stroke.points)
                &&& after matches Some(stroke) ==> all_in_range(stroke.points)
            },
        }
    }
}

/// Taking an action back right after applying it restores the stroke
/// list exactly when the action records the list it was applied to.
pub proof fn undo_reverts_execute(action: ActionView, strokes: Seq<StrokeView>)
    requires
        action.can_execute(strokes),
        action.can_undo(action.executed(strokes)),
    ensures
        action.undone(action.executed(strokes)) == strokes <==> action.records(strokes),
{
    let back = action.undone(action.executed(strokes));
    match action {
        ActionView::AddStroke { stroke } => {
            assert(back =~= strokes);
        },
        ActionView::RemoveStroke { stroke, index } => {
            if strokes[index] == stroke {
                assert(back =~= strokes);
            }
        },
        ActionView::ModifyStroke { before, after, index } => {
            if action.records(strokes) {
                assert(back =~= strokes);
            }
        },
    }
}

/// An add restores the list whatever the list is, and so does a
/// replacement that names the stroke it replaces.
pub proof fn fresh_actions_fit(action: ActionView, strokes: Seq<StrokeView>)
    requires
        action matches ActionView::ModifyStroke { before, after, index } ==> {
            &&& 0 <= index < strokes.len()
            &&& before == Some(strokes[index])
        },
        action !is RemoveStroke,
    ensures
        action.fits_before(strokes),
{
    undo_reverts_execute(action, strokes);
}

/// An action that fits before a list fits after the list it makes of
/// it, and the other way round.
pub proof fn fit_carries_over(action: ActionView, strokes: Seq<StrokeView>)
    ensures
        action.fits_before(strokes) ==> action.fits_after(action.executed(strokes)),
        action.fits_after(strokes) ==> action.fits_before(action.undone(strokes)),
{
}

/// Applying or taking back an action whose segments are all in range
/// leaves a list whose segments are all in range.
pub proof fn range_is_kept(action: ActionView, strokes: Seq<StrokeView>)
    requires
        action.in_range(),
        strokes_in_range(strokes),
    ensures
        action.can_execute(strokes) ==> strokes_in_range(action.executed(strokes)),
        action.can_undo(strokes) ==> strokes_in_range(action.undone(strokes)),
{
}

impl Action {
    /// Applies the action to the strokes of `canvas`.
    pub fn execute(&self, canvas: &mut Canvas)
        requires
            self@.can_execute(old(canvas)@.strokes),
        ensures
            final(canvas)@ == (CanvasView {
                strokes: self@.executed(old(canvas)@.strokes),
                ..old(canvas)@
            }),
    {
        match self {
            Action::AddStroke { stroke } => {
                canvas.strokes.push(stroke.clone());
            },
            Action::RemoveStroke { stroke: _, index } => {
                canvas.strokes.remove(*index);
            },
            Action::ModifyStroke { before: _, after, index } => {
                if let Some(after) = after {
                    canvas.strokes[*index] = after.clone();
                }
            },
        }
        assert(canvas@.strokes =~= self@.executed(old(canvas)@.strokes));
    }

    /// Takes the action back from the strokes of `canvas`.
    pub fn undo(&self, canvas: &mut Canvas)
        requires
            self@.can_undo(old(canvas)@.strokes),
        ensures
            final(canvas)@ == (CanvasView {
                strokes: self@.undone(old(canvas)@.strokes),
                ..old(canvas)@
            }),
    {
        match self {
            Action::AddStroke { stroke: _ } => {
                canvas.strokes.pop();
            },
            Action::RemoveStroke { stroke, index } => {
                canvas.strokes.insert(*index, stroke.clone());
            },
            Action::ModifyStroke { before, after: _, index } => {
                if let Some(before) = before {
                    canvas.strokes[*index] = before.clone();
                }
            },
        }
        assert(canvas@.strokes =~= self@.undone(old(canvas)@.strokes));
    }
}

} // verus!
