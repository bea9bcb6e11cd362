//! What the editor's controls ask of the host.
//!
//! The editor draws the controls; these functions decide, from what the
//! pointer did in a frame, which parameter changes go to the host and in
//! which order, so that automation records whole gestures.

use vstd::prelude::*;

verus! {

/// The LFO's shape.
#[derive(Clone, Copy, Debug, PartialEq, Eq, Structural)]
pub enum WaveType {
    Sine,
    Triangle,
    Square,
    Sawtooth,
}

/// A click on the waveform segment for `this`, while `current` is the
/// selected shape: the shape to switch to, if the click changes anything.
pub fn wave_button_action(current: WaveType, this: WaveType, clicked: bool) -> (choice: Option<
    WaveType,
>)
    ensures
        choice == (if clicked && current != this {
            Some(this)
        } else {
            None
        }),
{
    let selected = current == this;
    if clicked && !selected {
        Some(this)
    } else {
        None
    }
}

/// A message from a knob to the host.
#[derive(Clone, Copy, Debug, PartialEq, Eq, Structural)]
pub enum KnobAction {
    /// Start of a host automation gesture.
    BeginGesture,
    /// Set the parameter to the value that the drag reached.
    SetFromDrag,
    /// End of a host automation gesture.
    EndGesture,
    /// Set the parameter to its default value.
    SetToDefault,
}

/// The messages a knob sends in one frame, in order: a gesture starts
/// when a drag starts, the dragged value is sent while it is dragged, the
/// gesture ends when the drag stops, and a double click resets the
/// parameter to its default inside a gesture of its own.
pub open spec fn knob_frame(
    drag_started: bool,
    dragged: bool,
    drag_stopped: bool,
    double_clicked: bool,
) -> Seq<KnobAction> {
    (if drag_started {
        seq![KnobAction::BeginGesture]
    } else {
        seq![]
    }) + (if dragged {
        seq![KnobAction::SetFromDrag]
    } else {
        seq![]
    }) + (if drag_stopped {
        seq![KnobAction::EndGesture]
    } else {
        seq![]
    }) + (if double_clicked {
        seq![KnobAction::BeginGesture, KnobAction::SetToDefault, KnobAction::EndGesture]
    } else {
        seq![]
    })
}

/// The messages a knob sends to the host for what the pointer did to it in
/// one frame.
pub fn knob_actions(drag_started: bool, dragged: bool, drag_stopped: bool, double_clicked: bool) -> (actions: Vec<KnobAction>)
    ensures
        actions@ == knob_frame(drag_started, dragged, drag_stopped, double_clicked),
{
    let mut actions: Vec<KnobAction> = Vec::new();
    if drag_started {
        actions.push(KnobAction::BeginGesture);
    }
    if dragged {
        actions.push(KnobAction::SetFromDrag);
    }
    if drag_stopped {
        actions.push(KnobAction::EndGesture);
    }
    if double_clicked {
        actions.push(KnobAction::BeginGesture);
        actions.push(KnobAction::SetToDefault);
        actions.push(KnobAction::EndGesture);
    }
    assert(actions@ =~= knob_frame(drag_started, dragged, drag_stopped, double_clicked));
    actions
}

/// Law: a reset to the default value is always sent inside a gesture of its
/// own: a begin right before it and an end right after it. A dragged value
/// is sent only in a frame in which the knob is dragged, and at most once.
pub proof fn lemma_knob_frame_gestures(
    drag_started: bool,
    dragged: bool,
    drag_stopped: bool,
    double_clicked: bool,
)
    ensures
        forall|i: int|
            0 <= i < knob_frame(drag_started, dragged, drag_stopped, double_clicked).len()
                && #[trigger] knob_frame(drag_started, dragged, drag_stopped, double_clicked)[i]
                == KnobAction::SetToDefault ==> {
                &&& 1 <= i
                &&& i + 1 < knob_frame(drag_started, dragged, drag_stopped, double_clicked).len()
                &&& knob_frame(drag_started, dragged, drag_stopped, double_clicked)[i - 1]
                    == KnobAction::BeginGesture
                &&& knob_frame(drag_started, dragged, drag_stopped, double_clicked)[i + 1]
                    == KnobAction::EndGesture
            },
        forall|i: int, j: int|
            0 <= i < j < knob_frame(drag_started, dragged, drag_stopped, double_clicked).len()
                && #[trigger] knob_frame(drag_started, dragged, drag_stopped, double_clicked)[i]
                == KnobAction::SetFromDrag ==> dragged && #[trigger] knob_frame(
                drag_started,
                dragged,
                drag_stopped,
                double_clicked,
            )[j] != KnobAction::SetFromDrag,
{
    let f = knob_frame(drag_started, dragged, drag_stopped, double_clicked);
    let a = if drag_started { seq![KnobAction::BeginGesture] } else { seq![] };
    let b = if dragged { seq![KnobAction::SetFromDrag] } else { seq![] };
    let c = if drag_stopped { seq![KnobAction::EndGesture] } else { seq![] };
    let d = if double_clicked {
        seq![KnobAction::BeginGesture, KnobAction::SetToDefault, KnobAction::EndGesture]
    } else {
        seq![]
    };
    assert(f == a + b + c + d);
    let k: int = (a.len() + b.len() + c.len()) as int;
    assert forall|i: int| 0 <= i < f.len() implies (f[i] == KnobAction::SetToDefault <==> (double_clicked && i == k + 1)) by {
        if i < a.len() {
        } else if i < a.len() + b.len() {
        } else if i < k {
        } else {
        }
    }
    assert forall|i: int| 0 <= i < f.len() implies (f[i] == KnobAction::SetFromDrag <==> (dragged && i == a.len())) by {
        if i < a.len() {
        } else if i < a.len() + b.len() {
        } else if i < k {
        } else {
        }
    }
    if double_clicked {
        assert(f[k] == KnobAction::BeginGesture);
        assert(f[k + 2] == KnobAction::EndGesture);
    }
}

/// Law: a frame sends one message per pointer event and three for a double
/// click; a reset is sent exactly when the knob was double-clicked, a dragged
/// value exactly when it was dragged, and a drag that starts opens the frame
/// with a begin.
pub proof fn lemma_knob_frame_contents(
    drag_started: bool,
    dragged: bool,
    drag_stopped: bool,
    double_clicked: bool,
)
    ensures
        knob_frame(drag_started, dragged, drag_stopped, double_clicked).len() == (if drag_started { 1int } else { 0 })
            + (if dragged { 1int } else { 0 }) + (if drag_stopped { 1int } else { 0 }) + (if double_clicked { 3int } else { 0 }),
        knob_frame(drag_started, dragged, drag_stopped, double_clicked).contains(KnobAction::SetToDefault) <==> double_clicked,
        knob_frame(drag_started, dragged, drag_stopped, double_clicked).contains(KnobAction::SetFromDrag) <==> dragged,
        drag_started ==> knob_frame(drag_started, dragged, drag_stopped, double_clicked)[0] == KnobAction::BeginGesture,
{
    let f = knob_frame(drag_started, dragged, drag_stopped, double_clicked);
    let a = if drag_started { seq![KnobAction::BeginGesture] } else { seq![] };
    let b = if dragged { seq![KnobAction::SetFromDrag] } else { seq![] };
    let c = if drag_stopped { seq![KnobAction::EndGesture] } else { seq![] };
    let d = if double_clicked {
        seq![KnobAction::BeginGesture, KnobAction::SetToDefault, KnobAction::EndGesture]
    } else {
        seq![]
    };
    assert(f == a + b + c + d);
    let k: int = (a.len() + b.len() + c.len()) as int;
    if double_clicked {
        assert(f[k + 1] == KnobAction::SetToDefault);
    }
    if dragged {
        assert(f[a.len() as int] == KnobAction::SetFromDrag);
    }
    if !double_clicked {
        assert forall|i: int| 0 <= i < f.len() implies f[i] != KnobAction::SetToDefault by {
            if i < a.len() {
            } else if i < a.len() + b.len() {
            } else {
            }
        }
    }
    if !dragged {
        assert forall|i: int| 0 <= i < f.len() implies f[i] != KnobAction::SetFromDrag by {
            if i < a.len() {
            } else if i < a.len() + b.len() {
            } else if i < k {
            } else {
            }
        }
    }
}

} // verus!
