//! What holds of the manager in every state that it can reach.

use vstd::prelude::*;
use crate::commands::WMCommand;
use crate::ignored_sequences::{
    lemma_fresh_ordered, lemma_stored_ordered, stored, Inner,
};
use crate::window_geometry::WindowGeometry;
use crate::wm::atoms::Atoms;
use crate::wm::frames::{
    frame_of, has_client, has_frame, lemma_frame_of, lemma_pair_and_back, lemma_remove_either_way,
    lemma_with_pair, lemma_without_client, one_to_one, pair_of,
};
use crate::wm::model::{
    become_window_manager, consistent, focus_without, frame_window, handle_command,
    handle_event, initial, resume, settled, unframe_requests, unframe_window, Answer, Model,
    Outcome, Pending, Stamp, XEvent,
};
use crate::wm::masks::{holds_all, lemma_without_enter, ENTER_WINDOW};
use crate::wm::model::frame_requests;
use crate::wm::requests::{checked, unchecked, Request, SetMode};

verus! {

/// Everything that can be done to a manager.
pub enum Input {
    /// It is told to become the window manager.
    Startup,
    /// An event arrives at a time.
    Event { event: XEvent, stamp: Stamp, now: u128 },
    /// A command arrives.
    Command { command: WMCommand },
    /// The server answers.
    Reply { answer: Answer },
    /// An entry is stored in the suppression table.
    Ignore { entry: Inner },
}

/// What one input does to a state.
pub open spec fn step(m: Model, input: Input) -> Outcome {
    match input {
        Input::Startup => become_window_manager(m),
        Input::Event { event, stamp, now } => handle_event(m, event, stamp, now),
        Input::Command { command } => handle_command(m, command),
        Input::Reply { answer } => resume(m, answer),
        Input::Ignore { entry } => settled(Model { ignored: stored(m.ignored, entry), ..m }),
    }
}

/// The state after a sequence of inputs.
pub open spec fn run(m: Model, inputs: Seq<Input>) -> Model
    decreases inputs.len(),
{
    if inputs.len() == 0 {
        m
    } else {
        step(run(m, inputs.drop_last()), inputs.last()).state
    }
}

/// Whether a window is framed, and in which frame.
pub enum WindowState {
    Unmanaged,
    Framed(u32),
}

/// The state of a window: framed in the frame that the association gives
/// it, or unmanaged. A window is in one state and no more.
pub open spec fn window_state(m: Model, window: u32) -> WindowState {
    match frame_of(m.pairs, window) {
        Some(frame) => WindowState::Framed(frame),
        None => WindowState::Unmanaged,
    }
}

/// Whether an input frames a window: it is the id of the new frame,
/// arriving while the manager waits for it.
pub open spec fn is_framing(m: Model, input: Input) -> bool {
    match input {
        Input::Reply { answer } => m.pending is FrameId && answer is FreshId,
        _ => false,
    }
}

/// Whether an input unframes a window: it is the notice that a window has
/// been unmapped, arriving while no reply is outstanding.
pub open spec fn is_unframing(m: Model, input: Input) -> bool {
    match input {
        Input::Event { event, .. } => m.pending is Idle && event is UnmapNotify,
        _ => false,
    }
}

/// Taking a pair out of a one-to-one association leaves it one-to-one.
proof fn lemma_remove_one_to_one(pairs: Set<(u32, u32)>, pair: (u32, u32))
    requires
        one_to_one(pairs),
    ensures
        one_to_one(pairs.remove(pair)),
{
    let after = pairs.remove(pair);
    assert forall|p: (u32, u32), q: (u32, u32)|
        #![trigger after.contains(p), after.contains(q)]
        after.contains(p) && after.contains(q) implies (p.0 == q.0 <==> p.1 == q.1) by {
        assert(pairs.contains(p) && pairs.contains(q));
    }
}

/// No input breaks the invariant: after every step the association is
/// one-to-one and the suppression table is in the order of its timestamps.
pub proof fn lemma_step_keeps_consistent(m: Model, input: Input)
    requires
        consistent(m),
    ensures
        consistent(step(m, input).state),
{
    match input {
        Input::Startup => {},
        Input::Event { event, stamp, now } => {
            lemma_fresh_ordered(m.ignored, now);
            if let XEvent::UnmapNotify { event: on, window } = event {
                if let Some(pair) = pair_of(m.pairs, window) {
                    lemma_remove_one_to_one(m.pairs, pair);
                }
            }
        },
        Input::Command { command } => {},
        Input::Reply { answer } => {
            if let Pending::FrameId { window, geometry, origin } = m.pending {
                if let Answer::FreshId(frame) = answer {
                    lemma_with_pair(m.pairs, window, frame);
                }
            }
        },
        Input::Ignore { entry } => {
            lemma_stored_ordered(m.ignored, entry);
        },
    }
}

/// In every state that a new manager can reach, no window has two frames
/// and no frame has two windows.
pub proof fn lemma_reachable_is_one_to_one(root: u32, atoms: Atoms, pid: u32, inputs: Seq<Input>)
    ensures
        consistent(run(initial(root, atoms, pid), inputs)),
        one_to_one(run(initial(root, atoms, pid), inputs).pairs),
    decreases inputs.len(),
{
    if inputs.len() > 0 {
        lemma_reachable_is_one_to_one(root, atoms, pid, inputs.drop_last());
        lemma_step_keeps_consistent(run(initial(root, atoms, pid), inputs.drop_last()), inputs.last());
    }
}

/// The association changes by framing and by unframing only: whatever else
/// is done to the manager leaves every pair in place, so no window changes
/// between unmanaged and framed, or from one frame to another.
pub proof fn lemma_only_framing_changes_windows(m: Model, input: Input, window: u32)
    requires
        !is_framing(m, input),
        !is_unframing(m, input),
    ensures
        step(m, input).state.pairs == m.pairs,
        window_state(step(m, input).state, window) == window_state(m, window),
{
}

/// To unframe a window that belongs to no pair changes nothing and sends
/// nothing.
pub proof fn lemma_unframe_of_stranger(m: Model, target: u32)
    requires
        pair_of(m.pairs, target) is None,
    ensures
        unframe_window(m, target) == settled(m),
{
}

/// A window that is framed and then unframed is back with the root at the
/// origin and out of the save set, and its frame is destroyed. If the window
/// and the frame were strangers to the association before, the association
/// is as it was.
pub proof fn lemma_frame_then_unframe(m: Model, window: u32, frame: u32, geometry: WindowGeometry)
    requires
        consistent(m),
        window != frame,
    ensures
        ({
            let framed = frame_window(m, window, frame, geometry).state;
            let back = unframe_window(framed, window);
            &&& window_state(framed, window) == WindowState::Framed(frame)
            &&& back.requests == unframe_requests(m.root, window, frame)
            &&& back.requests[1] == unchecked(
                Request::Reparent { window, parent: m.root, x: 0, y: 0 },
            )
            &&& back.requests[2] == unchecked(
                Request::ChangeSaveSet { window, mode: SetMode::Delete },
            )
            &&& window_state(back.state, window) == WindowState::Unmanaged
            &&& !has_frame(back.state.pairs, frame)
            &&& back.state.focus == focus_without(m.focus, window, frame)
            &&& (!has_client(m.pairs, window) && !has_frame(m.pairs, frame)
                ==> back.state.pairs == m.pairs)
        }),
{
    let framed = frame_window(m, window, frame, geometry).state;
    lemma_with_pair(m.pairs, window, frame);
    assert(framed.pairs.contains((window, frame)));
    lemma_frame_of(framed.pairs, window, frame);
    lemma_remove_either_way(framed.pairs, window, frame);
    lemma_without_client(framed.pairs, window);
    if !has_client(m.pairs, window) && !has_frame(m.pairs, frame) {
        lemma_pair_and_back(m.pairs, window, frame);
    }
}

/// While a window is reparented its frame does not report the pointer
/// entering it. The frame is created with a mask that lacks that event, and
/// the one request that selects the frame's events again is the last: it
/// comes after the reparent and after the frame is mapped, and gives the
/// frame its full mask. The window is in the save set before it is
/// reparented.
pub proof fn lemma_the_reparent_is_quiet(m: Model, window: u32, frame: u32, geometry: WindowGeometry)
    requires
        window != frame,
    ensures
        ({
            let requests = frame_requests(m, window, frame, geometry);
            &&& requests.len() == 8
            &&& requests[0].request is CreateFrame
            &&& requests[0].request->CreateFrame_frame == frame
            &&& !holds_all(requests[0].request->CreateFrame_mask, ENTER_WINDOW)
            &&& requests[3] == checked(Request::ChangeSaveSet { window, mode: SetMode::Insert })
            &&& requests[4] == checked(Request::Reparent { window, parent: frame, x: 0, y: 0 })
            &&& requests[5] == checked(Request::MapWindow { window: frame })
            &&& requests[7] == checked(
                Request::SelectEvents { window: frame, mask: m.masks.frame_window_events },
            )
            &&& forall|i: int|
                0 < i < 7 ==> !((#[trigger] requests[i]).request is SelectEvents
                    && requests[i].request->SelectEvents_window == frame)
        }),
{
    lemma_without_enter(m.masks.frame_window_events);
    let quiet = crate::wm::masks::without_enter(m.masks.frame_window_events);
    assert(quiet & ENTER_WINDOW == 0);
    assert(quiet & 0x10u32 == 0 ==> quiet & 0x10u32 != 0x10u32) by (bit_vector);
}

} // verus!
