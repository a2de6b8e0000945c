//! The window manager: the association of client windows and frames, the
//! drag in progress, the focus, and what to ask of the server next.
//!
//! The manager does no I/O. It is handed events, commands and replies and
//! answers each with a [`Step`]: the requests to send and, where it needs to
//! know something of the server first, the question to put. What each step
//! does is laid down in [`model`]; the manager's methods are proved to follow
//! it.

pub mod atoms;
pub mod frames;
pub mod laws;
pub mod masks;
pub mod model;
pub mod requests;

use bimap::BiHashMap;
use vstd::prelude::*;
use crate::commands::WMCommand;
use crate::ignored_sequences::IgnoredSequences;
use crate::point::Point;
use crate::window_geometry::{Quadrant, WindowGeometry};
use crate::wm::atoms::Atoms;
use crate::wm::frames::{
    all_pairs, client_by_frame, frame_by_client, insert_pair, lemma_empty_one_to_one,
    lemma_frame_of, lemma_remove_either_way, lemma_with_pair, lemma_without_client,
    lemma_without_frame, new_map, pairs_of,
};
use crate::wm::masks::{
    state_contains, Masks, STATE_BUTTON1, STATE_BUTTON3, STATE_CONTROL, STATE_SHIFT,
};
use crate::wm::model::{
    consistent, Answer, Drag, Model, Origin, Outcome, Pending, Placement, QuitReason, Stamp,
    XEvent,
};
use crate::wm::requests::{
    ConfigureValues, Next, Outgoing, PropertyValue, Query, Reply, Request, SetMode, StackMode,
    Step, BORDER_FOCUSED, BORDER_UNFOCUSED, CLOSE_KEY, FRAME_BACKGROUND,
    FRAME_BORDER_WIDTH,
};

verus! {

impl View for Reply {
    type V = Answer;

    open spec fn view(&self) -> Answer {
        match *self {
            Reply::Children(children) => Answer::Children(children@),
            Reply::Geometry(geometry) => Answer::Geometry(geometry),
            Reply::Attributes(attributes) => Answer::Attributes(attributes),
            Reply::FreshId(id) => Answer::FreshId(id),
            Reply::Protocols(protocols) => Answer::Protocols(protocols@),
        }
    }
}

impl Step {
    /// Whether the step is what `outcome` says: the same requests in the
    /// same order, and the same thing to do next.
    pub open spec fn is(&self, outcome: Outcome) -> bool {
        self.requests@ == outcome.requests && self.next == outcome.next
    }

    fn done(requests: Vec<Outgoing>) -> (step: Step)
        ensures
            step.requests == requests,
            step.next == Next::Done,
    {
        Step { requests, next: Next::Done }
    }

    fn ask(query: Query) -> (step: Step)
        ensures
            step.requests@ == Seq::<Outgoing>::empty(),
            step.next == Next::Ask(query),
    {
        Step { requests: Vec::new(), next: Next::Ask(query) }
    }
}

/// The window manager.
pub struct WindowManager {
    /// The root window of the default screen.
    root: u32,
    /// The atoms we need.
    atoms: Atoms,
    masks: Masks,
    /// Our process id.
    pid: u32,
    /// A mapping of window -> frame to help keep track of framed windows.
    framed_clients: BiHashMap<u32, u32>,
    /// Event sequences to ignore.
    ignored_sequences: IgnoredSequences,
    /// If a drag is in progress, the pointer position and the rect of the
    /// frame at its start.
    drag: Option<Drag>,
    /// The currently focused window.
    focused_window: Option<u32>,
    /// The reply that the manager waits for.
    pending: Pending,
    /// Startup: the children of the root.
    scan: Vec<u32>,
    /// Startup: how many of them have been looked at.
    scan_at: usize,
    /// If this is set, the event loop is to end.
    quit_reason: Option<QuitReason>,
}

impl View for WindowManager {
    type V = Model;

    closed spec fn view(&self) -> Model {
        Model {
            root: self.root,
            atoms: self.atoms,
            masks: self.masks,
            pid: self.pid,
            pairs: pairs_of(self.framed_clients),
            ignored: self.ignored_sequences@,
            drag: self.drag,
            focus: self.focused_window,
            pending: self.pending,
            scan: self.scan@.subrange(self.scan_at as int, self.scan@.len() as int),
            quit: self.quit_reason,
        }
    }
}

/// The size that grows by `by`, floored at one pixel.
fn grow(length: u16, by: i32) -> (grown: u32)
    requires
        -0x1_0000 < by < 0x1_0000,
    ensures
        grown == model::grown(length, by as int),
        grown >= 1,
{
    let sum: i32 = length as i32 + by;
    if sum < 1 {
        1
    } else {
        sum as u32
    }
}

/// The placement of a rectangle resized by a drag of (`dx`, `dy`) that began
/// in `quadrant`. Width and height are never less than one pixel.
pub fn resized(anchor: &WindowGeometry, quadrant: Quadrant, dx: i32, dy: i32) -> (to: Placement)
    requires
        -0x1_0000 < dx < 0x1_0000,
        -0x1_0000 < dy < 0x1_0000,
    ensures
        to == model::resized(*anchor, quadrant, dx as int, dy as int),
        to.width >= 1,
        to.height >= 1,
{
    let x: i32 = anchor.x as i32;
    let y: i32 = anchor.y as i32;
    match quadrant {
        Quadrant::TopLeft => Placement {
            x: x + dx,
            y: y + dy,
            width: grow(anchor.w, -dx),
            height: grow(anchor.h, -dy),
        },
        Quadrant::TopRight => Placement {
            x,
            y: y + dy,
            width: grow(anchor.w, dx),
            height: grow(anchor.h, -dy),
        },
        Quadrant::BottomLeft => Placement {
            x: x + dx,
            y,
            width: grow(anchor.w, -dx),
            height: grow(anchor.h, dy),
        },
        Quadrant::BottomRight => Placement {
            x,
            y,
            width: grow(anchor.w, dx),
            height: grow(anchor.h, dy),
        },
    }
}

/// Whether a client that lists `protocols` takes part in the protocol
/// `wm_del_window`.
pub fn supports_wm_delete_window(protocols: &Vec<u32>, wm_del_window: u32) -> (supported: bool)
    ensures
        supported == protocols@.contains(wm_del_window),
{
    let mut at: usize = 0;
    while at < protocols.len()
        invariant
            at <= protocols@.len(),
            forall|i: int| 0 <= i < at ==> protocols@[i] != wm_del_window,
        decreases protocols@.len() - at,
    {
        if protocols[at] == wm_del_window {
            return true;
        }
        at = at + 1;
    }
    false
}

/// The first of the windows, each given with its geometry, that holds the
/// position.
pub open spec fn first_window_at(windows: Seq<(u32, WindowGeometry)>, pos: Point) -> Option<u32>
    decreases windows.len(),
{
    if windows.len() == 0 {
        None
    } else if windows[0].1.covers(pos) {
        Some(windows[0].0)
    } else {
        first_window_at(windows.drop_first(), pos)
    }
}

/// The first of the windows, each given with its geometry, whose area with
/// the border contains the position.
pub fn window_at_pos(windows: &Vec<(u32, WindowGeometry)>, pos: Point) -> (found: Option<u32>)
    ensures
        found == first_window_at(windows@, pos),
{
    let mut at: usize = 0;
    proof {
        assert(windows@.subrange(0, windows@.len() as int) =~= windows@);
    }
    while at < windows.len()
        invariant
            at <= windows@.len(),
            first_window_at(windows@, pos) == first_window_at(
                windows@.subrange(at as int, windows@.len() as int),
                pos,
            ),
        decreases windows@.len() - at,
    {
        let (window, geometry) = windows[at];
        if geometry.contains(&pos) {
            return Some(window);
        }
        proof {
            let rest = windows@.subrange(at as int, windows@.len() as int);
            assert(rest.drop_first() =~= windows@.subrange(at + 1, windows@.len() as int));
        }
        at = at + 1;
    }
    None
}

impl WindowManager {
    /// The invariant of the manager. Every method keeps it.
    pub open spec fn well_formed(&self) -> bool {
        consistent(self@) && self.sound()
    }

    /// The part of the invariant that is about the representation.
    pub closed spec fn sound(&self) -> bool {
        &&& self.scan_at <= self.scan@.len()
        &&& self.ignored_sequences.well_formed()
    }

    /// A manager of the given root window. It holds no window yet and does
    /// not try to become the server's window manager before
    /// [`WindowManager::become_window_manager`] is called.
    pub fn new(root: u32, atoms: Atoms, pid: u32) -> (wm: WindowManager)
        ensures
            wm.well_formed(),
            wm@ == model::initial(root, atoms, pid),
    {
        let wm = WindowManager {
            root,
            atoms,
            masks: Masks::new(),
            pid,
            framed_clients: new_map(),
            ignored_sequences: IgnoredSequences::new(),
            drag: None,
            focused_window: None,
            pending: Pending::Idle,
            scan: Vec::new(),
            scan_at: 0,
            quit_reason: None,
        };
        proof {
            lemma_empty_one_to_one();
            assert(wm@.scan =~= Seq::<u32>::empty());
        }
        wm
    }

    /// The root window.
    pub fn get_root_window(&self) -> (root: u32)
        ensures
            root == self@.root,
    {
        self.root
    }

    /// The currently focused window.
    pub fn focused_window(&self) -> (focus: Option<u32>)
        ensures
            focus == self@.focus,
    {
        self.focused_window
    }

    /// Why the event loop is to end, if it is.
    pub fn quit_reason(&self) -> (quit: Option<QuitReason>)
        ensures
            quit == self@.quit,
    {
        self.quit_reason
    }

    /// The reply that the manager waits for.
    pub fn pending(&self) -> (pending: Pending)
        ensures
            pending == self@.pending,
    {
        self.pending
    }

    /// The drag in progress.
    pub fn drag(&self) -> (drag: Option<Drag>)
        ensures
            drag == self@.drag,
    {
        self.drag
    }

    /// The frame of a client window.
    pub fn frame_of(&self, window: u32) -> (frame: Option<u32>)
        requires
            self.well_formed(),
        ensures
            frame == frames::frame_of(self@.pairs, window),
    {
        let found = frame_by_client(&self.framed_clients, window);
        proof {
            if let Some(frame) = found {
                lemma_frame_of(self@.pairs, window, frame);
            }
        }
        found
    }

    /// The client window of a frame.
    pub fn client_of(&self, frame: u32) -> (window: Option<u32>)
        requires
            self.well_formed(),
        ensures
            window == frames::client_of(self@.pairs, frame),
    {
        let found = client_by_frame(&self.framed_clients, frame);
        proof {
            if let Some(window) = found {
                lemma_frame_of(self@.pairs, window, frame);
            }
        }
        found
    }

    /// The pair of client window and frame that `target` belongs to, looked
    /// up as a client first and as a frame second.
    pub fn get_frame_and_window(&self, target: u32) -> (pair: Option<(u32, u32)>)
        requires
            self.well_formed(),
        ensures
            pair == frames::pair_of(self@.pairs, target),
            pair matches Some(found) ==> self@.pairs.contains(found),
    {
        if let Some(frame) = self.frame_of(target) {
            Some((target, frame))
        } else if let Some(window) = self.client_of(target) {
            Some((window, target))
        } else {
            None
        }
    }

    /// Every pair of client window and frame, once, in no particular order.
    pub fn framed_clients(&self) -> (pairs: Vec<(u32, u32)>)
        ensures
            model::lists_pairs(pairs@, self@.pairs),
    {
        all_pairs(&self.framed_clients)
    }

    /// The reading of the clock of the suppression table.
    pub fn now(&self) -> (now: u128) {
        self.ignored_sequences.now()
    }

    /// Records at the clock's reading that the events of request `sequence`
    /// are to be dropped.
    pub fn ignore(&mut self, sequence: u16)
        requires
            old(self).well_formed(),
        ensures
            final(self).well_formed(),
            exists|now: u128|
                final(self)@ == (Model {
                    ignored: #[trigger] crate::ignored_sequences::stored(
                        old(self)@.ignored,
                        crate::ignored_sequences::Inner {
                            sequence,
                            response_type: None,
                            store_time: now,
                        },
                    ),
                    ..old(self)@
                }),
    {
        self.ignored_sequences.add(sequence);
        proof {
            let now = choose|now: u128|
                self.ignored_sequences@ == #[trigger] crate::ignored_sequences::stored(
                    old(self).ignored_sequences@,
                    crate::ignored_sequences::Inner { sequence, response_type: None, store_time: now },
                );
            assert(self@ == (Model {
                ignored: crate::ignored_sequences::stored(
                    old(self)@.ignored,
                    crate::ignored_sequences::Inner { sequence, response_type: None, store_time: now },
                ),
                ..old(self)@
            }));
        }
    }

    /// Records at the clock's reading that the events of kind
    /// `response_type` of request `sequence` are to be dropped.
    pub fn ignore_with_type(&mut self, sequence: u16, response_type: u32)
        requires
            old(self).well_formed(),
        ensures
            final(self).well_formed(),
            exists|now: u128|
                final(self)@ == (Model {
                    ignored: #[trigger] crate::ignored_sequences::stored(
                        old(self)@.ignored,
                        crate::ignored_sequences::Inner {
                            sequence,
                            response_type: Some(response_type),
                            store_time: now,
                        },
                    ),
                    ..old(self)@
                }),
    {
        self.ignored_sequences.add_with_type(sequence, response_type);
        proof {
            let now = choose|now: u128|
                self.ignored_sequences@ == #[trigger] crate::ignored_sequences::stored(
                    old(self).ignored_sequences@,
                    crate::ignored_sequences::Inner {
                        sequence,
                        response_type: Some(response_type),
                        store_time: now,
                    },
                );
            assert(self@ == (Model {
                ignored: crate::ignored_sequences::stored(
                    old(self)@.ignored,
                    crate::ignored_sequences::Inner {
                        sequence,
                        response_type: Some(response_type),
                        store_time: now,
                    },
                ),
                ..old(self)@
            }));
        }
    }

    /// The question that stands open.
    fn open_question(&self) -> (query: Query)
        ensures
            query == model::question(self@.pending, self@.root),
    {
        match self.pending {
            Pending::Idle => Query::FreshId,
            Pending::Children => Query::Children { window: self.root },
            Pending::FrameGeometry { window, .. } => Query::Geometry { window },
            Pending::FrameAttributes { window, .. } => Query::Attributes { window },
            Pending::FrameId { .. } => Query::FreshId,
            Pending::Protocols { window, .. } => Query::Protocols { window },
            Pending::DragGeometry { frame, .. } => Query::Geometry { window: frame },
        }
    }

    /// The step of a manager that waits for a reply: nothing goes out and the
    /// open question is put again. Without an open question nothing is asked.
    pub fn waiting_step(&self) -> (step: Step)
        ensures
            step.is(
                if self@.pending == Pending::Idle {
                    model::settled(self@)
                } else {
                    model::waiting(self@)
                },
            ),
    {
        if matches!(self.pending, Pending::Idle) {
            Step::done(Vec::new())
        } else {
            self.waiting()
        }
    }

    /// Puts the open question again.
    fn waiting(&self) -> (step: Step)
        ensures
            step.is(model::waiting(self@)),
    {
        Step::ask(self.open_question())
    }

    /// Opens a question.
    fn asking(&mut self, pending: Pending) -> (step: Step)
        requires
            old(self).well_formed(),
        ensures
            final(self).well_formed(),
            final(self)@ == model::asking(old(self)@, pending).state,
            step.is(model::asking(old(self)@, pending)),
    {
        self.pending = pending;
        Step::ask(self.open_question())
    }

    /// The requests that frame `window` in `frame`, and the association of
    /// the two.
    pub fn frame_window(&mut self, window: u32, frame: u32, geometry: WindowGeometry) -> (requests:
        Vec<Outgoing>)
        requires
            old(self).well_formed(),
        ensures
            final(self).well_formed(),
            final(self)@ == model::frame_window(old(self)@, window, frame, geometry).state,
            requests@ == model::frame_requests(old(self)@, window, frame, geometry),
    {
        let mut requests: Vec<Outgoing> = Vec::new();
        requests.push(
            Outgoing::checked(
                Request::CreateFrame {
                    frame,
                    parent: self.root,
                    x: geometry.x,
                    y: geometry.y,
                    width: geometry.w,
                    height: geometry.h,
                    border_width: FRAME_BORDER_WIDTH,
                    background: FRAME_BACKGROUND,
                    border: BORDER_FOCUSED,
                    mask: self.masks.frame_events_while_reparenting(),
                },
            ),
        );
        requests.push(
            Outgoing::checked(
                Request::SetProperty {
                    window: frame,
                    property: self.atoms.r3_frame,
                    value: PropertyValue::FrameMarker,
                },
            ),
        );
        requests.push(
            Outgoing::checked(
                Request::SelectEvents { window, mask: self.masks.child_window_events },
            ),
        );
        requests.push(Outgoing::checked(Request::ChangeSaveSet { window, mode: SetMode::Insert }));
        requests.push(Outgoing::checked(Request::Reparent { window, parent: frame, x: 0, y: 0 }));
        requests.push(Outgoing::checked(Request::MapWindow { window: frame }));
        insert_pair(&mut self.framed_clients, window, frame);
        requests.push(
            Outgoing::checked(
                Request::GrabButtons {
                    window,
                    confine_to: self.root,
                    mask: self.masks.button_grab_events,
                },
            ),
        );
        requests.push(
            Outgoing::checked(
                Request::SelectEvents { window: frame, mask: self.masks.frame_window_events },
            ),
        );
        self.pending = Pending::Idle;
        proof {
            lemma_with_pair(old(self)@.pairs, window, frame);
            assert(requests@ =~= model::frame_requests(old(self)@, window, frame, geometry));
        }
        requests
    }

    /// Takes the pair that `target` belongs to out of the association. See
    /// [`model::unframe_window`].
    pub fn unframe_window(&mut self, target: u32) -> (step: Step)
        requires
            old(self).well_formed(),
        ensures
            final(self).well_formed(),
            final(self)@ == model::unframe_window(old(self)@, target).state,
            step.is(model::unframe_window(old(self)@, target)),
    {
        let (window, frame) = match self.get_frame_and_window(target) {
            Some(pair) => pair,
            None => {
                return Step::done(Vec::new());
            },
        };
        proof {
            lemma_remove_either_way(self@.pairs, window, frame);
            lemma_without_client(self@.pairs, window);
            lemma_without_frame(self@.pairs, frame);
        }
        let mut requests: Vec<Outgoing> = Vec::new();
        if target == frame {
            let _ = frames::remove_by_frame(&mut self.framed_clients, frame);
        } else {
            requests.push(Outgoing::checked(Request::UnmapWindow { window: frame }));
            requests.push(
                Outgoing::unchecked(Request::Reparent { window, parent: self.root, x: 0, y: 0 }),
            );
            requests.push(
                Outgoing::unchecked(Request::ChangeSaveSet { window, mode: SetMode::Delete }),
            );
            requests.push(Outgoing::unchecked(Request::DestroyWindow { window: frame }));
            let _ = frames::remove_by_client(&mut self.framed_clients, window);
            requests.push(Outgoing::checked(Request::Flush));
        }
        match self.focused_window {
            Some(focus) => {
                if focus == window || focus == frame {
                    self.focused_window = None;
                }
            },
            None => {},
        }
        proof {
            if target != frame {
                assert(requests@ =~= model::unframe_requests(self@.root, window, frame));
            }
        }
        Step::done(requests)
    }

    /// Begins to close `target`: see [`model::kill_window`].
    pub fn kill_window(&mut self, target: u32) -> (step: Step)
        requires
            old(self).well_formed(),
        ensures
            final(self).well_formed(),
            final(self)@ == model::kill_window(old(self)@, target).state,
            step.is(model::kill_window(old(self)@, target)),
    {
        let (window, frame) = match self.get_frame_and_window(target) {
            Some(pair) => pair,
            None => (target, target),
        };
        // Don't kill the root window!
        if target == self.root {
            return Step::done(Vec::new());
        }
        self.asking(Pending::Protocols { window, frame })
    }

    /// The requests that close `window`, whose frame is `frame` and which
    /// takes part in the close protocol or does not.
    pub fn kill_requests(&self, window: u32, frame: u32, graceful: bool) -> (requests: Vec<Outgoing>)
        ensures
            requests@ == model::kill_requests(self@, window, frame, graceful),
    {
        let mut requests: Vec<Outgoing> = Vec::new();
        if graceful {
            requests.push(
                Outgoing::unchecked(
                    Request::SendDelete {
                        window,
                        protocols: self.atoms.wm_protocols,
                        delete: self.atoms.wm_del_window,
                    },
                ),
            );
            requests.push(Outgoing::checked(Request::Flush));
        } else {
            requests.push(Outgoing::checked(Request::DestroyWindow { window: frame }));
        }
        proof {
            assert(requests@ =~= model::kill_requests(self@, window, frame, graceful));
        }
        requests
    }

    /// The request that moves `window`, or its frame if it has one, to a
    /// position.
    pub fn move_window(&self, window: u32, x: i32, y: i32) -> (requests: Vec<Outgoing>)
        requires
            self.well_formed(),
        ensures
            requests@ == model::move_requests(self@, window, x, y),
    {
        let id = match self.frame_of(window) {
            // If it has a frame, move the frame
            Some(frame) => frame,
            // If it doesn't, just move the window
            None => window,
        };
        let mut requests: Vec<Outgoing> = Vec::new();
        requests.push(
            Outgoing::checked(Request::Configure { window: id, values: ConfigureValues::at(x, y) }),
        );
        proof {
            assert(requests@ =~= model::move_requests(self@, window, x, y));
        }
        requests
    }

    /// The requests that give `window` a placement: its frame takes the
    /// placement and the window fills the frame.
    pub fn resize_window(&self, window: u32, to: Placement) -> (requests: Vec<Outgoing>)
        requires
            self.well_formed(),
        ensures
            requests@ == model::resize_requests(self@, window, to),
    {
        let mut requests: Vec<Outgoing> = Vec::new();
        let mut values = ConfigureValues::placed(to.x, to.y, to.width, to.height);
        // Move frame if it has one
        if let Some(frame) = self.frame_of(window) {
            requests.push(Outgoing::checked(Request::Configure { window: frame, values }));
            // x and y are relative to the parent window (in this case the frame)
            values = ConfigureValues::placed(0, 0, to.width, to.height);
        }
        requests.push(Outgoing::checked(Request::Configure { window, values }));
        proof {
            assert(requests@ =~= model::resize_requests(self@, window, to));
        }
        requests
    }

    fn on_configure_request(
        &self,
        window: u32,
        x: i16,
        y: i16,
        width: u16,
        height: u16,
        border_width: u16,
        stack_mode: StackMode,
    ) -> (requests: Vec<Outgoing>)
        requires
            self.well_formed(),
        ensures
            requests@ == model::configure_requests(
                self@,
                window,
                model::requested_values(x, y, width, height, border_width, stack_mode),
            ),
    {
        let values = ConfigureValues {
            x: Some(x as i32),
            y: Some(y as i32),
            width: Some(width as u32),
            height: Some(height as u32),
            border_width: Some(border_width as u32),
            stack_mode: Some(stack_mode),
        };
        let mut requests: Vec<Outgoing> = Vec::new();
        // If we've already framed this window, also update the frame
        if let Some(frame) = self.frame_of(window) {
            requests.push(Outgoing::checked(Request::Configure { window: frame, values }));
        }
        // Pass the request straight through to the server for the window
        requests.push(Outgoing::checked(Request::Configure { window, values }));
        proof {
            assert(requests@ =~= model::configure_requests(self@, window, values));
        }
        requests
    }

    fn on_key_press(&mut self, event: u32, state: u32, detail: u8) -> (step: Step)
        requires
            old(self).well_formed(),
            old(self)@.pending == Pending::Idle,
        ensures
            final(self).well_formed(),
            final(self)@ == model::on_event(
                old(self)@,
                XEvent::KeyPress { event, state, detail },
            ).state,
            step.is(model::on_event(old(self)@, XEvent::KeyPress { event, state, detail })),
    {
        // CTRL + SHIFT + Q - end the window manager
        if state_contains(state, STATE_CONTROL | STATE_SHIFT) && detail == CLOSE_KEY {
            self.quit_reason = Some(QuitReason::UserQuit);
        }
        // CTRL + Q - kill window
        if state_contains(state, STATE_CONTROL) && detail == CLOSE_KEY {
            self.kill_window(event)
        } else {
            Step::done(Vec::new())
        }
    }

    fn on_button_press(&mut self, event: u32, root_x: i16, root_y: i16) -> (step: Step)
        requires
            old(self).well_formed(),
            old(self)@.pending == Pending::Idle,
        ensures
            final(self).well_formed(),
            final(self)@ == model::on_event(
                old(self)@,
                XEvent::ButtonPress { event, root_x, root_y },
            ).state,
            step.is(model::on_event(old(self)@, XEvent::ButtonPress { event, root_x, root_y })),
    {
        match self.get_frame_and_window(event) {
            Some((_, frame)) => self.asking(
                Pending::DragGeometry { frame, pointer: Point::new(root_x, root_y) },
            ),
            None => Step::done(Vec::new()),
        }
    }

    fn on_motion_notify(&self, event: u32, root_x: i16, root_y: i16, state: u32) -> (requests: Vec<
        Outgoing,
    >)
        requires
            self.well_formed(),
        ensures
            requests@ == model::motion(
                self@,
                event,
                Point { x: root_x, y: root_y },
                state,
            ).requests,
    {
        let window = match self.get_frame_and_window(event) {
            Some((window, _)) => window,
            None => {
                return Vec::new();
            },
        };
        let drag = match self.drag {
            Some(drag) => drag,
            None => {
                return Vec::new();
            },
        };
        let pointer = Point::new(root_x, root_y);
        let (dx, dy) = pointer.delta_from(&drag.start);
        if state_contains(state, STATE_BUTTON1) {
            self.move_window(window, drag.frame_rect.x as i32 + dx, drag.frame_rect.y as i32 + dy)
        } else if state_contains(state, STATE_BUTTON3) {
            match drag.frame_rect.quadrant(&drag.start) {
                Some(quadrant) => self.resize_window(
                    window,
                    resized(&drag.frame_rect, quadrant, dx, dy),
                ),
                None => Vec::new(),
            }
        } else {
            Vec::new()
        }
    }

    fn on_event(&mut self, event: XEvent) -> (step: Step)
        requires
            old(self).well_formed(),
            old(self)@.pending == Pending::Idle,
        ensures
            final(self).well_formed(),
            final(self)@ == model::on_event(old(self)@, event).state,
            step.is(model::on_event(old(self)@, event)),
    {
        match event {
            // We received a request to configure a window
            XEvent::ConfigureRequest {
                window,
                x,
                y,
                width,
                height,
                border_width,
                stack_mode,
            } => Step::done(
                self.on_configure_request(window, x, y, width, height, border_width, stack_mode),
            ),
            // We received a request to map (render) a window: first we
            // re-parent it with a frame, then we map it
            XEvent::MapRequest { window } => self.asking(
                Pending::FrameGeometry { window, origin: Origin::MapRequest },
            ),
            // When a window is unmapped, then we "un-frame" it if we've
            // framed it. Windows that were there before we started trigger
            // this event on the root when they are re-parented; those we ignore.
            XEvent::UnmapNotify { event, window } => {
                if event == self.root {
                    Step::done(Vec::new())
                } else {
                    self.unframe_window(window)
                }
            },
            XEvent::KeyPress { event, state, detail } => self.on_key_press(event, state, detail),
            XEvent::KeyRelease => Step::done(Vec::new()),
            XEvent::ButtonPress { event, root_x, root_y } => self.on_button_press(
                event,
                root_x,
                root_y,
            ),
            XEvent::ButtonRelease => {
                self.drag = None;
                Step::done(Vec::new())
            },
            XEvent::MotionNotify { event, root_x, root_y, state } => Step::done(
                self.on_motion_notify(event, root_x, root_y, state),
            ),
            XEvent::EnterNotify { event } => {
                self.focused_window = Some(event);
                Step::done(Vec::new())
            },
            XEvent::Other => Step::done(Vec::new()),
        }
    }

    /// Handles an event that arrives at time `now` on the clock of the
    /// suppression table: see [`model::handle_event`].
    pub fn handle_event_at(&mut self, event: XEvent, stamp: Stamp, now: u128) -> (step: Step)
        requires
            old(self).well_formed(),
        ensures
            final(self).well_formed(),
            final(self)@ == model::handle_event(old(self)@, event, stamp, now).state,
            step.is(model::handle_event(old(self)@, event, stamp, now)),
    {
        if !matches!(self.pending, Pending::Idle) {
            return self.waiting();
        }
        if self.ignored_sequences.is_ignored_at(stamp.sequence, stamp.response_type, now) {
            return Step::done(Vec::new());
        }
        self.on_event(event)
    }

    /// Handles an event that arrives now: see
    /// [`WindowManager::handle_event_at`].
    pub fn handle_event(&mut self, event: XEvent, stamp: Stamp) -> (step: Step)
        requires
            old(self).well_formed(),
        ensures
            final(self).well_formed(),
            exists|now: u128|
                {
                    let outcome = #[trigger] model::handle_event(old(self)@, event, stamp, now);
                    final(self)@ == outcome.state && step.is(outcome)
                },
    {
        let now = self.ignored_sequences.now();
        let step = self.handle_event_at(event, stamp, now);
        proof {
            let outcome = model::handle_event(old(self)@, event, stamp, now);
            assert(self@ == outcome.state && step.is(outcome));
        }
        step
    }

    /// Handles a command: see [`model::handle_command`].
    pub fn handle_command(&mut self, cmd: &WMCommand) -> (step: Step)
        requires
            old(self).well_formed(),
        ensures
            final(self).well_formed(),
            final(self)@ == model::handle_command(old(self)@, *cmd).state,
            step.is(model::handle_command(old(self)@, *cmd)),
    {
        if !matches!(self.pending, Pending::Idle) {
            return self.waiting();
        }
        match cmd {
            WMCommand::CloseWindow => {
                match self.focused_window {
                    Some(window) => {
                        self.focused_window = None;
                        self.kill_window(window)
                    },
                    None => Step::done(Vec::new()),
                }
            },
        }
    }

    /// Become the window manager and set up the root window: see
    /// [`model::become_window_manager`].
    pub fn become_window_manager(&mut self) -> (step: Step)
        requires
            old(self).well_formed(),
        ensures
            final(self).well_formed(),
            final(self)@ == model::become_window_manager(old(self)@).state,
            step.is(model::become_window_manager(old(self)@)),
    {
        if !matches!(self.pending, Pending::Idle) {
            return self.waiting();
        }
        let mut requests: Vec<Outgoing> = Vec::new();
        // Request to become the window manager
        requests.push(
            Outgoing::checked(
                Request::SelectEvents { window: self.root, mask: self.masks.manager_events },
            ),
        );
        // Make sure nothing happens in the server while we're processing
        // existing windows
        requests.push(Outgoing::checked(Request::GrabServer));
        self.pending = Pending::Children;
        proof {
            assert(requests@ =~= model::startup_head(old(self)@));
        }
        Step { requests, next: Next::Ask(Query::Children { window: self.root }) }
    }

    /// The scan of the windows that were there at startup goes on.
    fn scan_on(&mut self) -> (step: Step)
        requires
            old(self).well_formed(),
        ensures
            final(self).well_formed(),
            final(self)@ == model::scan_on(old(self)@).state,
            step.is(model::scan_on(old(self)@)),
    {
        if self.scan_at >= self.scan.len() {
            let mut requests: Vec<Outgoing> = Vec::new();
            // Allow things to happen again
            requests.push(Outgoing::checked(Request::UngrabServer));
            // Bind key events on root window so they're always reported
            requests.push(
                Outgoing::checked(Request::GrabKey { window: self.root, key: CLOSE_KEY }),
            );
            // Start listening to events on the root window
            requests.push(
                Outgoing::checked(
                    Request::SelectEvents {
                        window: self.root,
                        mask: self.masks.root_window_events,
                    },
                ),
            );
            // Publish our process id and the path to our IPC socket on the
            // root window
            requests.push(
                Outgoing::checked(
                    Request::SetProperty {
                        window: self.root,
                        property: self.atoms.r3_pid,
                        value: PropertyValue::ProcessId(self.pid),
                    },
                ),
            );
            requests.push(
                Outgoing::checked(
                    Request::SetProperty {
                        window: self.root,
                        property: self.atoms.r3_socket_path,
                        value: PropertyValue::SocketPath,
                    },
                ),
            );
            self.pending = Pending::Idle;
            proof {
                assert(requests@ =~= model::startup_tail(old(self)@));
            }
            Step::done(requests)
        } else {
            let window = self.scan[self.scan_at];
            self.scan_at = self.scan_at + 1;
            proof {
                assert(self@.scan =~= old(self)@.scan.drop_first());
            }
            self.asking(Pending::FrameGeometry { window, origin: Origin::Startup })
        }
    }

    /// Takes the server's reply to the open question: see [`model::resume`].
    pub fn resume(&mut self, reply: Reply) -> (step: Step)
        requires
            old(self).well_formed(),
        ensures
            final(self).well_formed(),
            final(self)@ == model::resume(old(self)@, reply@).state,
            step.is(model::resume(old(self)@, reply@)),
    {
        match self.pending {
            Pending::Idle => Step::done(Vec::new()),
            Pending::Children => match reply {
                Reply::Children(children) => {
                    self.scan = children;
                    self.scan_at = 0;
                    proof {
                        assert(self@.scan =~= children@);
                    }
                    self.scan_on()
                },
                _ => self.waiting(),
            },
            Pending::FrameGeometry { window, origin } => match reply {
                Reply::Geometry(geometry) => match origin {
                    // A window that was there before we started is framed
                    // only if it is visible and doesn't set override_redirect
                    Origin::Startup => self.asking(Pending::FrameAttributes { window, geometry }),
                    Origin::MapRequest => self.asking(
                        Pending::FrameId { window, geometry, origin },
                    ),
                },
                _ => self.waiting(),
            },
            Pending::FrameAttributes { window, geometry } => match reply {
                Reply::Attributes(attributes) => {
                    if attributes.override_redirect || !attributes.viewable {
                        self.scan_on()
                    } else {
                        self.asking(Pending::FrameId { window, geometry, origin: Origin::Startup })
                    }
                },
                _ => self.waiting(),
            },
            Pending::FrameId { window, geometry, origin } => match reply {
                Reply::FreshId(frame) => {
                    let mut requests = self.frame_window(window, frame, geometry);
                    match origin {
                        Origin::MapRequest => {
                            // Then, we actually map the window, and it gets the focus
                            requests.push(Outgoing::checked(Request::MapWindow { window }));
                            self.focused_window = Some(window);
                            Step::done(requests)
                        },
                        Origin::Startup => {
                            let mut rest = self.scan_on();
                            requests.append(&mut rest.requests);
                            Step { requests, next: rest.next }
                        },
                    }
                },
                _ => self.waiting(),
            },
            Pending::Protocols { window, frame } => match reply {
                Reply::Protocols(protocols) => {
                    let graceful = supports_wm_delete_window(&protocols, self.atoms.wm_del_window);
                    let requests = self.kill_requests(window, frame, graceful);
                    self.pending = Pending::Idle;
                    Step::done(requests)
                },
                _ => self.waiting(),
            },
            Pending::DragGeometry { frame, pointer } => match reply {
                Reply::Geometry(geometry) => {
                    self.drag = Some(
                        Drag {
                            start: pointer,
                            frame_rect: WindowGeometry::new(
                                geometry.x,
                                geometry.y,
                                geometry.w,
                                geometry.h,
                                0,
                            ),
                        },
                    );
                    self.pending = Pending::Idle;
                    let mut requests: Vec<Outgoing> = Vec::new();
                    requests.push(
                        Outgoing::checked(
                            Request::Configure {
                                window: frame,
                                values: ConfigureValues::stacked(StackMode::Above),
                            },
                        ),
                    );
                    Step::done(requests)
                },
                _ => self.waiting(),
            },
        }
    }

    /// The render pass over the pairs in the order given: see
    /// [`model::render`].
    pub fn render_in_order(&self, order: &Vec<(u32, u32)>) -> (requests: Vec<Outgoing>)
        requires
            self.well_formed(),
        ensures
            requests@ == model::render(self@, order@),
    {
        let mut requests: Vec<Outgoing> = Vec::new();
        let mut at: usize = 0;
        // Go through all frames and color the focused one if it exists (the
        // focused window may be a window that's not framed)
        while at < order.len()
            invariant
                at <= order@.len(),
                requests@ == model::decorations(order@.subrange(0, at as int), self@.focus),
            decreases order@.len() - at,
        {
            let (window, frame) = order[at];
            let is_focused = match self.focused_window {
                Some(focus) => focus == window || focus == frame,
                None => false,
            };
            let ghost before = requests@;
            requests.push(
                Outgoing::deferred(
                    Request::SetBorderColor {
                        window: frame,
                        pixel: if is_focused {
                            BORDER_FOCUSED
                        } else {
                            BORDER_UNFOCUSED
                        },
                    },
                ),
            );
            if is_focused {
                requests.push(
                    Outgoing::deferred(
                        Request::Configure {
                            window: frame,
                            values: ConfigureValues::stacked(StackMode::Above),
                        },
                    ),
                );
            }
            proof {
                let upto = order@.subrange(0, at + 1);
                assert(upto.drop_last() =~= order@.subrange(0, at as int));
                assert(upto.last() == order@[at as int]);
                assert(requests@ =~= before + model::decoration(order@[at as int], self@.focus));
            }
            at = at + 1;
        }
        proof {
            assert(order@.subrange(0, at as int) =~= order@);
        }
        // If we have a focused window, then tell the server to focus it
        if let Some(target) = self.focused_window {
            // If the focused window is a frame, then focus its window
            let focus = match self.client_of(target) {
                Some(window) => window,
                None => target,
            };
            requests.push(Outgoing::checked(Request::SetInputFocus { focus }));
        }
        proof {
            assert(requests@ =~= model::render(self@, order@));
        }
        requests
    }

    /// The render pass: every frame gets the border colour that shows
    /// whether its pair has the focus, the focused frame goes to the top,
    /// and the focused window gets the input focus. The frames come in the
    /// order in which the association hands out its pairs.
    pub fn render(&self) -> (requests: Vec<Outgoing>)
        requires
            self.well_formed(),
        ensures
            exists|order: Seq<(u32, u32)>|
                model::lists_pairs(order, self@.pairs) && requests@ == #[trigger] model::render(
                    self@,
                    order,
                ),
    {
        let order = self.framed_clients();
        let requests = self.render_in_order(&order);
        proof {
            assert(model::lists_pairs(order@, self@.pairs) && requests@ == model::render(
                self@,
                order@,
            ));
        }
        requests
    }
}

} // verus!
