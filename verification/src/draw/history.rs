//! The undo and redo stacks, and the law that keeps them one line.

use crate::draw::action::{fit_carries_over, range_is_kept, Action, ActionView};
use crate::draw::canvas::{strokes_in_range, Canvas, CanvasView};
use crate::draw::stroke::StrokeView;
use vstd::prelude::*;

verus! {

/// Two stacks of actions: those applied, latest on top, and those taken
/// back, latest on top.
#[derive(Debug, PartialEq, Eq)]
pub struct History {
    pub undo: Vec<Action>,
    pub redo: Vec<Action>,
}

/// The actions of a stack, each by its view.
pub open spec fn action_views(actions: Seq<Action>) -> Seq<ActionView> {
    actions.map_values(|a: Action| a@)
}

/// The two stacks together with the stroke list that they speak of.
pub struct Timeline {
    pub undo: Seq<ActionView>,
    pub redo: Seq<ActionView>,
    pub strokes: Seq<StrokeView>,
}

/// The actions of `stack` can be taken back from `strokes` one after
/// another, top first, and each fits the list it is taken back from.
pub open spec fn undo_chain(stack: Seq<ActionView>, strokes: Seq<StrokeView>) -> bool
    decreases stack.len(),
{
    if stack.len() == 0 {
        true
    } else {
        &&& stack.last().fits_after(strokes)
        &&& undo_chain(stack.drop_last(), stack.last().undone(strokes))
    }
}

/// The actions of `stack` can be applied to `strokes` one after another,
/// top first, and each fits the list it is applied to.
pub open spec fn redo_chain(stack: Seq<ActionView>, strokes: Seq<StrokeView>) -> bool
    decreases stack.len(),
{
    if stack.len() == 0 {
        true
    } else {
        &&& stack.last().fits_before(strokes)
        &&& redo_chain(stack.drop_last(), stack.last().executed(strokes))
    }
}

/// Every action of `stack` carries only segments that are in range.
pub open spec fn actions_in_range(stack: Seq<ActionView>) -> bool {
    forall|i: int| 0 <= i < stack.len() ==> (#[trigger] stack[i]).in_range()
}

impl Timeline {
    /// The state after `action` is applied and recorded: it goes on top
    /// of the undo stack, and the redo stack is emptied.
    pub open spec fn run(self, action: ActionView) -> Timeline {
        Timeline {
            undo: self.undo.push(action),
            redo: Seq::empty(),
            strokes: action.executed(self.strokes),
        }
    }

    /// The state after the latest applied action is taken back and moved
    /// to the redo stack; the same state where nothing was applied.
    pub open spec fn undo(self) -> Timeline {
        if self.undo.len() == 0 {
            self
        } else {
            Timeline {
                undo: self.undo.drop_last(),
                redo: self.redo.push(self.undo.last()),
                strokes: self.undo.last().undone(self.strokes),
            }
        }
    }

    /// The state after the latest action taken back is applied again and
    /// moved to the undo stack; the same state where nothing was taken
    /// back.
    pub open spec fn redo(self) -> Timeline {
        if self.redo.len() == 0 {
            self
        } else {
            Timeline {
                undo: self.undo.push(self.redo.last()),
                redo: self.redo.drop_last(),
                strokes: self.redo.last().executed(self.strokes),
            }
        }
    }

    /// The state after the actions of `actions` are run one after
    /// another, first to last.
    pub open spec fn run_all(self, actions: Seq<ActionView>) -> Timeline
        decreases actions.len(),
    {
        if actions.len() == 0 {
            self
        } else {
            self.run_all(actions.drop_last()).run(actions.last())
        }
    }

    /// Each action of `actions` can be applied to the strokes that the
    /// ones before it leave.
    pub open spec fn can_run_all(self, actions: Seq<ActionView>) -> bool
        decreases actions.len(),
    {
        if actions.len() == 0 {
            true
        } else {
            &&& self.can_run_all(actions.drop_last())
            &&& actions.last().can_execute(self.run_all(actions.drop_last()).strokes)
        }
    }

    /// `undo` can be carried out: the action on top of the undo stack,
    /// if there is one, can be taken back from the strokes.
    pub open spec fn can_undo(self) -> bool {
        self.undo.len() > 0 ==> self.undo.last().can_undo(self.strokes)
    }

    /// `redo` can be carried out: the action on top of the redo stack,
    /// if there is one, can be applied to the strokes.
    pub open spec fn can_redo(self) -> bool {
        self.redo.len() > 0 ==> self.redo.last().can_execute(self.strokes)
    }

    /// The history is one line through the strokes: every recorded
    /// action can be taken back in turn, every action taken back can be
    /// applied again in turn, and each such step is undone exactly by its
    /// opposite.
    pub open spec fn linear(self) -> bool {
        &&& undo_chain(self.undo, self.strokes)
        &&& redo_chain(self.redo, self.strokes)
    }

    /// All segments, on the canvas and in both stacks, are in range.
    pub open spec fn in_range(self) -> bool {
        &&& strokes_in_range(self.strokes)
        &&& actions_in_range(self.undo)
        &&& actions_in_range(self.redo)
    }
}

/// The timeline of a history and a canvas.
pub open spec fn timeline(history: History, canvas: Canvas) -> Timeline {
    Timeline {
        undo: action_views(history.undo@),
        redo: action_views(history.redo@),
        strokes: canvas@.strokes,
    }
}

/// Recording an action that fits the strokes keeps the history linear.
pub proof fn run_keeps_linear(t: Timeline, action: ActionView)
    requires
        t.linear(),
        action.fits_before(t.strokes),
    ensures
        t.run(action).linear(),
        t.run(action).can_undo(),
{
    fit_carries_over(action, t.strokes);
    assert(t.undo.push(action).drop_last() =~= t.undo);
}

/// In a linear history both `undo` and `redo` can be carried out, and
/// both keep it linear.
pub proof fn steps_keep_linear(t: Timeline)
    requires
        t.linear(),
    ensures
        t.can_undo(),
        t.can_redo(),
        t.undo().linear(),
        t.redo().linear(),
{
    if t.undo.len() > 0 {
        let a = t.undo.last();
        fit_carries_over(a, t.strokes);
        assert(t.redo.push(a).drop_last() =~= t.redo);
    }
    if t.redo.len() > 0 {
        let a = t.redo.last();
        fit_carries_over(a, t.strokes);
        assert(t.undo.push(a).drop_last() =~= t.undo);
    }
}

/// In a linear history `redo` takes back what `undo` did, and `undo`
/// what `redo` did: stacks and strokes are as they were.
pub proof fn undo_and_redo_are_inverse(t: Timeline)
    requires
        t.linear(),
    ensures
        t.undo.len() > 0 ==> t.undo().redo() == t,
        t.redo.len() > 0 ==> t.redo().undo() == t,
{
    if t.undo.len() > 0 {
        let a = t.undo.last();
        assert(t.undo.drop_last().push(a) =~= t.undo);
        assert(t.redo.push(a).drop_last() =~= t.redo);
    }
    if t.redo.len() > 0 {
        let a = t.redo.last();
        assert(t.redo.drop_last().push(a) =~= t.redo);
        assert(t.undo.push(a).drop_last() =~= t.undo);
    }
}

/// A new action cuts off what was taken back: after `a` and `b` are
/// run, `b` is undone and `c` is run, the redo stack is empty and the
/// undo stack is what it was with `a` and `c` on top. `b` is gone.
pub proof fn new_action_discards_redo(
    t: Timeline,
    a: ActionView,
    b: ActionView,
    c: ActionView,
)
    ensures
        t.run(a).run(b).undo().run(c).redo == Seq::<ActionView>::empty(),
        t.run(a).run(b).undo().run(c).undo == t.undo.push(a).push(c),
{
}

/// Recording an action whose segments are all in range keeps every
/// segment in range.
pub proof fn run_keeps_range(t: Timeline, action: ActionView)
    requires
        t.in_range(),
        action.in_range(),
        action.can_execute(t.strokes),
    ensures
        t.run(action).in_range(),
{
    range_is_kept(action, t.strokes);
}

/// Undoing and redoing keep every segment in range.
pub proof fn steps_keep_range(t: Timeline)
    requires
        t.in_range(),
    ensures
        t.can_undo() ==> t.undo().in_range(),
        t.can_redo() ==> t.redo().in_range(),
{
    if t.undo.len() > 0 {
        range_is_kept(t.undo.last(), t.strokes);
    }
    if t.redo.len() > 0 {
        range_is_kept(t.redo.last(), t.strokes);
    }
}

proof fn lemma_can_run_prefix(t: Timeline, actions: Seq<ActionView>, k: int)
    requires
        t.can_run_all(actions),
        0 <= k <= actions.len(),
    ensures
        t.can_run_all(actions.take(k)),
    decreases actions.len(),
{
    if k < actions.len() {
        lemma_can_run_prefix(t, actions.drop_last(), k);
        assert(actions.drop_last().take(k) =~= actions.take(k));
    } else {
        assert(actions.take(k) =~= actions);
    }
}

impl History {
    /// An empty history.
    pub fn new() -> (h: History)
        ensures
            h.undo@.len() == 0,
            h.redo@.len() == 0,
    {
        History { undo: Vec::new(), redo: Vec::new() }
    }

    /// Applies `action` to `canvas` and records it; what had been taken
    /// back can no longer be redone.
    pub fn run(&mut self, action: Action, canvas: &mut Canvas)
        requires
            action@.can_execute(old(canvas)@.strokes),
        ensures
            timeline(*final(self), *final(canvas)) == timeline(*old(self), *old(canvas)).run(
                action@,
            ),
            final(canvas)@ == (CanvasView { strokes: final(canvas)@.strokes, ..old(canvas)@ }),
    {
        action.execute(canvas);
        self.undo.push(action);
        self.redo.clear();
        assert(action_views(self.undo@) =~= action_views(old(self).undo@).push(action@));
        assert(action_views(self.redo@) =~= Seq::<ActionView>::empty());
    }

    /// Runs the actions of `actions` one after another, first to last.
    pub fn run_all(&mut self, actions: Vec<Action>, canvas: &mut Canvas)
        requires
            timeline(*old(self), *old(canvas)).can_run_all(action_views(actions@)),
        ensures
            timeline(*final(self), *final(canvas)) == timeline(*old(self), *old(canvas)).run_all(
                action_views(actions@),
            ),
            final(canvas)@ == (CanvasView { strokes: final(canvas)@.strokes, ..old(canvas)@ }),
    {
        let ghost start = timeline(*self, *canvas);
        let ghost all = action_views(actions@);
        for action in it: actions
            invariant
                all == action_views(it.seq()),
                start.can_run_all(all),
                timeline(*self, *canvas) == start.run_all(all.take(it.index() as int)),
                canvas@ == (CanvasView { strokes: canvas@.strokes, ..old(canvas)@ }),
        {
            proof {
                let k = it.index() as int;
                assert(all.take(k + 1).drop_last() =~= all.take(k));
                lemma_can_run_prefix(start, all, k + 1);
            }
            self.run(action, canvas);
        }
        assert(all.take(all.len() as int) =~= all);
    }

    /// Takes the latest applied action back from `canvas` and keeps it
    /// for `redo`. Does nothing where no action is recorded.
    pub fn undo(&mut self, canvas: &mut Canvas)
        requires
            timeline(*old(self), *old(canvas)).can_undo(),
        ensures
            timeline(*final(self), *final(canvas)) == timeline(*old(self), *old(canvas)).undo(),
            final(canvas)@ == (CanvasView { strokes: final(canvas)@.strokes, ..old(canvas)@ }),
    {
        if let Some(action) = self.undo.pop() {
            action.undo(canvas);
            self.redo.push(action);
            assert(action_views(self.undo@) =~= action_views(old(self).undo@).drop_last());
            assert(action_views(self.redo@) =~= action_views(old(self).redo@).push(action@));
        }
    }

    /// Applies the latest action taken back to `canvas` again and
    /// records it as applied. Does nothing where no action was taken
    /// back.
    pub fn redo(&mut self, canvas: &mut Canvas)
        requires
            timeline(*old(self), *old(canvas)).can_redo(),
        ensures
            timeline(*final(self), *final(canvas)) == timeline(*old(self), *old(canvas)).redo(),
            final(canvas)@ == (CanvasView { strokes: final(canvas)@.strokes, ..old(canvas)@ }),
    {
        if let Some(action) = self.redo.pop() {
            action.execute(canvas);
            self.undo.push(action);
            assert(action_views(self.redo@) =~= action_views(old(self).redo@).drop_last());
            assert(action_views(self.undo@) =~= action_views(old(self).undo@).push(action@));
        }
    }
}

} // verus!
