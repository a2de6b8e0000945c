//! The manager as a mathematical state machine: its state, and for each
//! event, command and reply the state that follows and the requests that go
//! out. The executable manager is proved to do exactly this.

use vstd::prelude::*;
use crate::commands::WMCommand;
use crate::ignored_sequences::{any_suppresses, fresh_at, ordered_by_time, Inner};
use crate::point::Point;
use crate::window_geometry::{Quadrant, WindowGeometry};
use crate::wm::atoms::Atoms;
use crate::wm::frames::{client_of, frame_of, one_to_one, pair_of, with_pair};
use crate::wm::masks::{
    holds_all, without_enter, Masks, STATE_BUTTON1, STATE_BUTTON3, STATE_CONTROL, STATE_SHIFT,
};
use crate::wm::requests::{
    checked, deferred, unchecked, ConfigureValues, Next, Outgoing, Query, Request, SetMode,
    StackMode, PropertyValue, WindowAttributes, BORDER_FOCUSED, BORDER_UNFOCUSED, CLOSE_KEY,
    FRAME_BACKGROUND, FRAME_BORDER_WIDTH,
};

verus! {

/// The reason why the manager is quitting.
#[derive(Debug, Clone, Copy, PartialEq, Eq)]
pub enum QuitReason {
    UserQuit,
}

/// Why a window is being framed.
#[derive(Debug, Clone, Copy, PartialEq, Eq)]
pub enum Origin {
    /// The window asked to be mapped.
    MapRequest,
    /// The window was there when the manager started.
    Startup,
}

/// A drag in progress: where the pointer was when the button went down, and
/// the geometry that the frame had then.
#[derive(Debug, Clone, Copy, PartialEq, Eq)]
pub struct Drag {
    pub start: Point,
    pub frame_rect: WindowGeometry,
}

/// The reply that the manager waits for, and what it was doing.
#[derive(Debug, Clone, Copy, PartialEq, Eq)]
pub enum Pending {
    /// Nothing is open.
    Idle,
    /// Startup: the children of the root.
    Children,
    /// Framing: the geometry of the window.
    FrameGeometry { window: u32, origin: Origin },
    /// Framing at startup: the attributes of the window.
    FrameAttributes { window: u32, geometry: WindowGeometry },
    /// Framing: the id of the frame to create.
    FrameId { window: u32, geometry: WindowGeometry, origin: Origin },
    /// Closing: the protocols of the client window.
    Protocols { window: u32, frame: u32 },
    /// Button press: the geometry of the frame.
    DragGeometry { frame: u32, pointer: Point },
}

/// A protocol event, reduced to what the manager reads of it.
#[derive(Debug, Clone, Copy, PartialEq, Eq)]
pub enum XEvent {
    /// A client asks for a new geometry or place in the stack.
    ConfigureRequest {
        window: u32,
        x: i16,
        y: i16,
        width: u16,
        height: u16,
        border_width: u16,
        stack_mode: StackMode,
    },
    /// A client asks for its window to be mapped.
    MapRequest { window: u32 },
    /// `window` was unmapped; the event was reported on `event`.
    UnmapNotify { event: u32, window: u32 },
    KeyPress { event: u32, state: u32, detail: u8 },
    KeyRelease,
    /// A button went down on `event` with the pointer at the given root
    /// coordinates.
    ButtonPress { event: u32, root_x: i16, root_y: i16 },
    ButtonRelease,
    /// The pointer moved to the given root coordinates; `state` holds the
    /// buttons that are down.
    MotionNotify { event: u32, root_x: i16, root_y: i16, state: u32 },
    /// The pointer entered `event`.
    EnterNotify { event: u32 },
    /// Any other event.
    Other,
}

/// What identifies an event to the suppression table.
#[derive(Debug, Clone, Copy, PartialEq, Eq)]
pub struct Stamp {
    /// Sequence number of the last request that the server had handled when
    /// it sent the event.
    pub sequence: u16,
    /// The kind of the event.
    pub response_type: u32,
}

/// The server's answer to a question, as a mathematical value.
pub enum Answer {
    Children(Seq<u32>),
    Geometry(WindowGeometry),
    Attributes(WindowAttributes),
    FreshId(u32),
    Protocols(Seq<u32>),
}

/// Position and size for a window, in the width of a configure request.
#[derive(Debug, Clone, Copy, PartialEq, Eq)]
pub struct Placement {
    pub x: i32,
    pub y: i32,
    pub width: u32,
    pub height: u32,
}

/// The state of the manager.
pub struct Model {
    /// The root window.
    pub root: u32,
    pub atoms: Atoms,
    pub masks: Masks,
    /// The manager's process id.
    pub pid: u32,
    /// The association of client windows and frames.
    pub pairs: Set<(u32, u32)>,
    /// The suppression table.
    pub ignored: Seq<Inner>,
    pub drag: Option<Drag>,
    /// The focused window, a client or a frame.
    pub focus: Option<u32>,
    pub pending: Pending,
    /// Startup: the windows that are still to be looked at.
    pub scan: Seq<u32>,
    pub quit: Option<QuitReason>,
}

/// What a step of the manager gives: the state after it, the requests to
/// send and what the caller does then.
pub struct Outcome {
    pub state: Model,
    pub requests: Seq<Outgoing>,
    pub next: Next,
}

/// The invariant of the manager: the association is one-to-one and the
/// suppression table is in the order of its timestamps.
pub open spec fn consistent(m: Model) -> bool {
    &&& one_to_one(m.pairs)
    &&& ordered_by_time(m.ignored)
}

/// The state of a manager that has just been made.
pub open spec fn initial(root: u32, atoms: Atoms, pid: u32) -> Model {
    Model {
        root,
        atoms,
        masks: Masks::standard(),
        pid,
        pairs: Set::empty(),
        ignored: Seq::empty(),
        drag: None,
        focus: None,
        pending: Pending::Idle,
        scan: Seq::empty(),
        quit: None,
    }
}

/// The question that stands open in a state that is not idle.
pub open spec fn question(pending: Pending, root: u32) -> Query {
    match pending {
        Pending::Idle => Query::FreshId,
        Pending::Children => Query::Children { window: root },
        Pending::FrameGeometry { window, .. } => Query::Geometry { window },
        Pending::FrameAttributes { window, .. } => Query::Attributes { window },
        Pending::FrameId { .. } => Query::FreshId,
        Pending::Protocols { window, .. } => Query::Protocols { window },
        Pending::DragGeometry { frame, .. } => Query::Geometry { window: frame },
    }
}

/// Nothing goes out and nothing is open.
pub open spec fn settled(m: Model) -> Outcome {
    Outcome { state: m, requests: Seq::empty(), next: Next::Done }
}

/// The manager is waiting for a reply: it changes nothing and puts its open
/// question again.
pub open spec fn waiting(m: Model) -> Outcome {
    Outcome { state: m, requests: Seq::empty(), next: Next::Ask(question(m.pending, m.root)) }
}

/// The manager opens a question.
pub open spec fn asking(m: Model, pending: Pending) -> Outcome {
    Outcome {
        state: Model { pending, ..m },
        requests: Seq::empty(),
        next: Next::Ask(question(pending, m.root)),
    }
}

/// One step after another: the requests of both, and the end of the second.
pub open spec fn followed_by(first: Outcome, second: Outcome) -> Outcome {
    Outcome {
        state: second.state,
        requests: first.requests + second.requests,
        next: second.next,
    }
}

/// The requests that frame `window` in the new window `frame`.
///
/// The frame is created at the geometry of the window, as a child of the
/// root, and marked as a frame. While the window is reparented the frame
/// does not report the pointer entering it: the reparent makes the server
/// send that event, and it is no act of the user. The window enters the save
/// set, so that it outlives a crash of the manager. The buttons of the window
/// are grabbed, so that a press reaches the manager. At the end the frame
/// gets its full event mask.
pub open spec fn frame_requests(m: Model, window: u32, frame: u32, geometry: WindowGeometry) -> Seq<
    Outgoing,
> {
    seq![
        checked(
            Request::CreateFrame {
                frame,
                parent: m.root,
                x: geometry.x,
                y: geometry.y,
                width: geometry.w,
                height: geometry.h,
                border_width: FRAME_BORDER_WIDTH,
                background: FRAME_BACKGROUND,
                border: BORDER_FOCUSED,
                mask: without_enter(m.masks.frame_window_events),
            },
        ),
        checked(
            Request::SetProperty {
                window: frame,
                property: m.atoms.r3_frame,
                value: PropertyValue::FrameMarker,
            },
        ),
        checked(Request::SelectEvents { window, mask: m.masks.child_window_events }),
        checked(Request::ChangeSaveSet { window, mode: SetMode::Insert }),
        checked(Request::Reparent { window, parent: frame, x: 0, y: 0 }),
        checked(Request::MapWindow { window: frame }),
        checked(
            Request::GrabButtons { window, confine_to: m.root, mask: m.masks.button_grab_events },
        ),
        checked(Request::SelectEvents { window: frame, mask: m.masks.frame_window_events }),
    ]
}

/// Framing: the requests go out and the window is associated with the frame.
pub open spec fn frame_window(m: Model, window: u32, frame: u32, geometry: WindowGeometry) -> Outcome {
    Outcome {
        state: Model { pairs: with_pair(m.pairs, window, frame), pending: Pending::Idle, ..m },
        requests: frame_requests(m, window, frame, geometry),
        next: Next::Done,
    }
}

/// The requests that take `window` out of `frame`: the frame is unmapped,
/// the window goes back to the root at the origin and leaves the save set,
/// the frame is destroyed, and all of it is sent at once. Only the first is
/// checked: the window may be gone already.
pub open spec fn unframe_requests(root: u32, window: u32, frame: u32) -> Seq<Outgoing> {
    seq![
        checked(Request::UnmapWindow { window: frame }),
        unchecked(Request::Reparent { window, parent: root, x: 0, y: 0 }),
        unchecked(Request::ChangeSaveSet { window, mode: SetMode::Delete }),
        unchecked(Request::DestroyWindow { window: frame }),
        checked(Request::Flush),
    ]
}

/// The focus after the pair of `window` and `frame` has gone: none, if it
/// named either of them.
pub open spec fn focus_without(focus: Option<u32>, window: u32, frame: u32) -> Option<u32> {
    if focus == Some(window) || focus == Some(frame) {
        None
    } else {
        focus
    }
}

/// Unframing. A target without a pair changes nothing. Otherwise the pair
/// goes and the focus with it; if the target is the frame itself the frame
/// is gone already and nothing is sent.
pub open spec fn unframe_window(m: Model, target: u32) -> Outcome {
    match pair_of(m.pairs, target) {
        None => settled(m),
        Some((window, frame)) => {
            let state = Model {
                pairs: m.pairs.remove((window, frame)),
                focus: focus_without(m.focus, window, frame),
                ..m
            };
            if target == frame {
                settled(state)
            } else {
                Outcome {
                    state,
                    requests: unframe_requests(m.root, window, frame),
                    next: Next::Done,
                }
            }
        },
    }
}

/// The client window and the frame that a close is about: the pair of the
/// target, or the target itself for both.
pub open spec fn kill_subject(m: Model, target: u32) -> (u32, u32) {
    match pair_of(m.pairs, target) {
        Some(pair) => pair,
        None => (target, target),
    }
}

/// Closing begins: the manager asks for the protocols of the client window.
/// The root window is never closed.
pub open spec fn kill_window(m: Model, target: u32) -> Outcome {
    if target == m.root {
        settled(m)
    } else {
        let (window, frame) = kill_subject(m, target);
        asking(m, Pending::Protocols { window, frame })
    }
}

/// Closing ends. A client that takes part in the close protocol is told to
/// close and nothing else happens. The frame of any other is destroyed, and
/// the client window with it.
pub open spec fn kill_requests(m: Model, window: u32, frame: u32, graceful: bool) -> Seq<Outgoing> {
    if graceful {
        seq![
            unchecked(
                Request::SendDelete {
                    window,
                    protocols: m.atoms.wm_protocols,
                    delete: m.atoms.wm_del_window,
                },
            ),
            checked(Request::Flush),
        ]
    } else {
        seq![checked(Request::DestroyWindow { window: frame })]
    }
}

/// The window that a move acts on: the frame of the window if it has one.
pub open spec fn move_target(m: Model, window: u32) -> u32 {
    match frame_of(m.pairs, window) {
        Some(frame) => frame,
        None => window,
    }
}

/// Moving: the frame goes to the position, the client stays where it is
/// inside the frame.
pub open spec fn move_requests(m: Model, window: u32, x: i32, y: i32) -> Seq<Outgoing> {
    seq![
        checked(
            Request::Configure { window: move_target(m, window), values: ConfigureValues::position(x, y) },
        ),
    ]
}

/// Resizing: the frame takes the placement and the client fills the inside
/// of the frame.
pub open spec fn resize_requests(m: Model, window: u32, to: Placement) -> Seq<Outgoing> {
    match frame_of(m.pairs, window) {
        Some(frame) => seq![
            checked(
                Request::Configure {
                    window: frame,
                    values: ConfigureValues::placement(to.x, to.y, to.width, to.height),
                },
            ),
            checked(
                Request::Configure {
                    window,
                    values: ConfigureValues::placement(0, 0, to.width, to.height),
                },
            ),
        ],
        None => seq![
            checked(
                Request::Configure {
                    window,
                    values: ConfigureValues::placement(to.x, to.y, to.width, to.height),
                },
            ),
        ],
    }
}

/// A length that has grown by `by`, but is never less than one pixel.
pub open spec fn grown(length: u16, by: int) -> u32 {
    if length + by < 1 {
        1u32
    } else {
        (length + by) as u32
    }
}

/// The placement of a rectangle that is resized by a drag of (`dx`, `dy`)
/// which began in `quadrant`. The corner opposite to the quadrant stays
/// where it is: on each axis the side of the quadrant follows the pointer.
pub open spec fn resized(anchor: WindowGeometry, quadrant: Quadrant, dx: int, dy: int) -> Placement {
    match quadrant {
        Quadrant::TopLeft => Placement {
            x: (anchor.x + dx) as i32,
            y: (anchor.y + dy) as i32,
            width: grown(anchor.w, -dx),
            height: grown(anchor.h, -dy),
        },
        Quadrant::TopRight => Placement {
            x: anchor.x as i32,
            y: (anchor.y + dy) as i32,
            width: grown(anchor.w, dx),
            height: grown(anchor.h, -dy),
        },
        Quadrant::BottomLeft => Placement {
            x: (anchor.x + dx) as i32,
            y: anchor.y as i32,
            width: grown(anchor.w, -dx),
            height: grown(anchor.h, dy),
        },
        Quadrant::BottomRight => Placement {
            x: anchor.x as i32,
            y: anchor.y as i32,
            width: grown(anchor.w, dx),
            height: grown(anchor.h, dy),
        },
    }
}

/// However far the pointer is dragged, a resized rectangle is at least one
/// pixel wide and one pixel high.
pub proof fn lemma_resized_keeps_a_pixel(anchor: WindowGeometry, quadrant: Quadrant, dx: int, dy: int)
    requires
        -0x1_0000 < dx < 0x1_0000,
        -0x1_0000 < dy < 0x1_0000,
    ensures
        resized(anchor, quadrant, dx, dy).width >= 1,
        resized(anchor, quadrant, dx, dy).height >= 1,
{
}

/// The requests of a pointer motion while a drag is on. With the primary
/// button down the window moves by the way the pointer has gone since the
/// press; with the secondary button down it is resized. A motion with neither
/// button down came after the release and is ignored, and so is a resize
/// whose press was not on the frame.
pub open spec fn drag_requests(m: Model, window: u32, drag: Drag, pointer: Point, state: u32) -> Seq<
    Outgoing,
> {
    let dx = pointer.x - drag.start.x;
    let dy = pointer.y - drag.start.y;
    if holds_all(state, STATE_BUTTON1) {
        move_requests(m, window, (drag.frame_rect.x + dx) as i32, (drag.frame_rect.y + dy) as i32)
    } else if holds_all(state, STATE_BUTTON3) {
        match drag.frame_rect.quadrant_of(drag.start) {
            Some(quadrant) => resize_requests(m, window, resized(drag.frame_rect, quadrant, dx, dy)),
            None => Seq::empty(),
        }
    } else {
        Seq::empty()
    }
}

/// A pointer motion: it acts on the client of the pair that the event's
/// window belongs to, if a drag is on.
pub open spec fn motion(m: Model, event: u32, pointer: Point, state: u32) -> Outcome {
    match (pair_of(m.pairs, event), m.drag) {
        (Some((window, _)), Some(drag)) => Outcome {
            state: m,
            requests: drag_requests(m, window, drag, pointer, state),
            next: Next::Done,
        },
        _ => settled(m),
    }
}

/// The values that a configure request hands on.
pub open spec fn requested_values(
    x: i16,
    y: i16,
    width: u16,
    height: u16,
    border_width: u16,
    stack_mode: StackMode,
) -> ConfigureValues {
    ConfigureValues {
        x: Some(x as i32),
        y: Some(y as i32),
        width: Some(width as u32),
        height: Some(height as u32),
        border_width: Some(border_width as u32),
        stack_mode: Some(stack_mode),
    }
}

/// A configure request is granted as it stands, to the frame of the window
/// first if it has one, then to the window.
pub open spec fn configure_requests(m: Model, window: u32, values: ConfigureValues) -> Seq<Outgoing> {
    match frame_of(m.pairs, window) {
        Some(frame) => seq![
            checked(Request::Configure { window: frame, values }),
            checked(Request::Configure { window, values }),
        ],
        None => seq![checked(Request::Configure { window, values })],
    }
}

/// Whether a key press asks to close the window it was reported on.
pub open spec fn is_close_key(state: u32, detail: u8) -> bool {
    holds_all(state, STATE_CONTROL) && detail == CLOSE_KEY
}

/// Whether a key press asks the manager to quit.
pub open spec fn is_quit_key(state: u32, detail: u8) -> bool {
    holds_all(state, STATE_CONTROL | STATE_SHIFT) && detail == CLOSE_KEY
}

/// What an event does in an idle state.
pub open spec fn on_event(m: Model, event: XEvent) -> Outcome {
    match event {
        XEvent::ConfigureRequest { window, x, y, width, height, border_width, stack_mode } => {
            Outcome {
                state: m,
                requests: configure_requests(
                    m,
                    window,
                    requested_values(x, y, width, height, border_width, stack_mode),
                ),
                next: Next::Done,
            }
        },
        XEvent::MapRequest { window } => asking(
            m,
            Pending::FrameGeometry { window, origin: Origin::MapRequest },
        ),
        XEvent::UnmapNotify { event, window } => if event == m.root {
            settled(m)
        } else {
            unframe_window(m, window)
        },
        XEvent::KeyPress { event, state, detail } => {
            let noted = if is_quit_key(state, detail) {
                Model { quit: Some(QuitReason::UserQuit), ..m }
            } else {
                m
            };
            if is_close_key(state, detail) {
                kill_window(noted, event)
            } else {
                settled(noted)
            }
        },
        XEvent::ButtonPress { event, root_x, root_y } => match pair_of(m.pairs, event) {
            Some((_, frame)) => asking(
                m,
                Pending::DragGeometry { frame, pointer: Point { x: root_x, y: root_y } },
            ),
            None => settled(m),
        },
        XEvent::ButtonRelease => settled(Model { drag: None, ..m }),
        XEvent::MotionNotify { event, root_x, root_y, state } => motion(
            m,
            event,
            Point { x: root_x, y: root_y },
            state,
        ),
        XEvent::EnterNotify { event } => settled(Model { focus: Some(event), ..m }),
        XEvent::KeyRelease => settled(m),
        XEvent::Other => settled(m),
    }
}

/// An event arrives at time `now`. While a reply is outstanding nothing
/// happens. Otherwise the suppression table is looked up first, which drops
/// its expired entries; an event that it covers is dropped.
pub open spec fn handle_event(m: Model, event: XEvent, stamp: Stamp, now: u128) -> Outcome {
    if m.pending != Pending::Idle {
        waiting(m)
    } else {
        let looked = Model { ignored: fresh_at(m.ignored, now), ..m };
        if any_suppresses(looked.ignored, stamp.sequence, stamp.response_type) {
            settled(looked)
        } else {
            on_event(looked, event)
        }
    }
}

/// A command arrives. To close the current window is to close the window
/// that has the focus, which loses it; without a focus nothing happens.
pub open spec fn handle_command(m: Model, command: WMCommand) -> Outcome {
    if m.pending != Pending::Idle {
        waiting(m)
    } else {
        match command {
            WMCommand::CloseWindow => match m.focus {
                Some(window) => kill_window(Model { focus: None, ..m }, window),
                None => settled(m),
            },
        }
    }
}

/// The requests that make the client the window manager and begin the scan
/// of the windows that are there already. The first is refused if another
/// manager is running.
pub open spec fn startup_head(m: Model) -> Seq<Outgoing> {
    seq![
        checked(Request::SelectEvents { window: m.root, mask: m.masks.manager_events }),
        checked(Request::GrabServer),
    ]
}

/// The requests that end the startup: the server is released, the close key
/// is grabbed on the root, the root's events are selected, and the process
/// id and the path of the control socket are published on the root.
pub open spec fn startup_tail(m: Model) -> Seq<Outgoing> {
    seq![
        checked(Request::UngrabServer),
        checked(Request::GrabKey { window: m.root, key: CLOSE_KEY }),
        checked(Request::SelectEvents { window: m.root, mask: m.masks.root_window_events }),
        checked(
            Request::SetProperty {
                window: m.root,
                property: m.atoms.r3_pid,
                value: PropertyValue::ProcessId(m.pid),
            },
        ),
        checked(
            Request::SetProperty {
                window: m.root,
                property: m.atoms.r3_socket_path,
                value: PropertyValue::SocketPath,
            },
        ),
    ]
}

/// Startup begins.
pub open spec fn become_window_manager(m: Model) -> Outcome {
    if m.pending != Pending::Idle {
        waiting(m)
    } else {
        Outcome {
            state: Model { pending: Pending::Children, ..m },
            requests: startup_head(m),
            next: Next::Ask(Query::Children { window: m.root }),
        }
    }
}

/// The scan goes on to the next window, or ends the startup.
pub open spec fn scan_on(m: Model) -> Outcome {
    if m.scan.len() == 0 {
        Outcome {
            state: Model { pending: Pending::Idle, ..m },
            requests: startup_tail(m),
            next: Next::Done,
        }
    } else {
        asking(
            Model { scan: m.scan.drop_first(), ..m },
            Pending::FrameGeometry { window: m.scan[0], origin: Origin::Startup },
        )
    }
}

/// Whether a window that was there at startup is left alone: it is not
/// viewable, or it asks not to be managed.
pub open spec fn left_unmanaged(attributes: WindowAttributes) -> bool {
    attributes.override_redirect || !attributes.viewable
}

/// The geometry of a frame as a drag remembers it: without the border.
pub open spec fn inner_rect(geometry: WindowGeometry) -> WindowGeometry {
    WindowGeometry { bw: 0, ..geometry }
}

/// A reply arrives. One that does not answer the open question changes
/// nothing, and the question is put again.
///
/// A window that asked to be mapped is framed, mapped and given the focus.
/// A window that was there at startup is framed if it is viewable and does
/// not ask to be left alone, and the scan goes on either way.
pub open spec fn resume(m: Model, answer: Answer) -> Outcome {
    match (m.pending, answer) {
        (Pending::Idle, _) => settled(m),
        (Pending::Children, Answer::Children(children)) => scan_on(
            Model { scan: children, ..m },
        ),
        (Pending::FrameGeometry { window, origin }, Answer::Geometry(geometry)) => match origin {
            Origin::Startup => asking(m, Pending::FrameAttributes { window, geometry }),
            Origin::MapRequest => asking(m, Pending::FrameId { window, geometry, origin }),
        },
        (Pending::FrameAttributes { window, geometry }, Answer::Attributes(attributes)) => {
            if left_unmanaged(attributes) {
                scan_on(m)
            } else {
                asking(m, Pending::FrameId { window, geometry, origin: Origin::Startup })
            }
        },
        (Pending::FrameId { window, geometry, origin }, Answer::FreshId(frame)) => {
            let framed = frame_window(m, window, frame, geometry);
            match origin {
                Origin::MapRequest => Outcome {
                    state: Model { focus: Some(window), ..framed.state },
                    requests: framed.requests.push(checked(Request::MapWindow { window })),
                    next: Next::Done,
                },
                Origin::Startup => followed_by(framed, scan_on(framed.state)),
            }
        },
        (Pending::Protocols { window, frame }, Answer::Protocols(protocols)) => Outcome {
            state: Model { pending: Pending::Idle, ..m },
            requests: kill_requests(m, window, frame, protocols.contains(m.atoms.wm_del_window)),
            next: Next::Done,
        },
        (Pending::DragGeometry { frame, pointer }, Answer::Geometry(geometry)) => Outcome {
            state: Model {
                pending: Pending::Idle,
                drag: Some(Drag { start: pointer, frame_rect: inner_rect(geometry) }),
                ..m
            },
            requests: seq![
                checked(
                    Request::Configure {
                        window: frame,
                        values: ConfigureValues::stacking(StackMode::Above),
                    },
                ),
            ],
            next: Next::Done,
        },
        _ => waiting(m),
    }
}

/// Whether a pair holds the focus.
pub open spec fn is_focused(pair: (u32, u32), focus: Option<u32>) -> bool {
    focus == Some(pair.0) || focus == Some(pair.1)
}

/// Decoration of one pair: the border of the frame shows whether the pair
/// has the focus, and the frame with the focus goes to the top.
pub open spec fn decoration(pair: (u32, u32), focus: Option<u32>) -> Seq<Outgoing> {
    if is_focused(pair, focus) {
        seq![
            deferred(Request::SetBorderColor { window: pair.1, pixel: BORDER_FOCUSED }),
            deferred(
                Request::Configure {
                    window: pair.1,
                    values: ConfigureValues::stacking(StackMode::Above),
                },
            ),
        ]
    } else {
        seq![deferred(Request::SetBorderColor { window: pair.1, pixel: BORDER_UNFOCUSED })]
    }
}

/// Decoration of the pairs in the order given.
pub open spec fn decorations(order: Seq<(u32, u32)>, focus: Option<u32>) -> Seq<Outgoing>
    decreases order.len(),
{
    if order.len() == 0 {
        Seq::empty()
    } else {
        decorations(order.drop_last(), focus) + decoration(order.last(), focus)
    }
}

/// The window that gets the input focus: the client, where the focus names a
/// frame.
pub open spec fn focus_target(pairs: Set<(u32, u32)>, focus: u32) -> u32 {
    match client_of(pairs, focus) {
        Some(window) => window,
        None => focus,
    }
}

/// The request that gives the focus to the focused window, if there is one.
pub open spec fn focus_requests(m: Model) -> Seq<Outgoing> {
    match m.focus {
        Some(focus) => seq![
            checked(Request::SetInputFocus { focus: focus_target(m.pairs, focus) }),
        ],
        None => Seq::empty(),
    }
}

/// The render pass over the pairs in the order given: the decorations, all
/// sent before any is checked, then the focus.
pub open spec fn render(m: Model, order: Seq<(u32, u32)>) -> Seq<Outgoing> {
    decorations(order, m.focus) + focus_requests(m)
}

/// Whether `order` lists every pair of the association once.
pub open spec fn lists_pairs(order: Seq<(u32, u32)>, pairs: Set<(u32, u32)>) -> bool {
    order.no_duplicates() && order.to_set() == pairs
}

} // verus!
