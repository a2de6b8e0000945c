//! The event loop as a state machine.
//!
//! The loop merges four sources of readiness: the protocol connection, the
//! listening control socket, the wake-up of the workers that queue commands,
//! and the termination signals. It does no I/O itself. It answers every
//! input with a [`Turn`]: requests to send, and the one thing to do after
//! that, whose result is the next input.
//!
//! An iteration of the loop first takes every event that the protocol
//! connection has buffered, then flushes the connection, and only then waits:
//! an event in that buffer is invisible to a wait on the connection's
//! descriptor, so a loop that waited first could sleep on an event that is
//! there already.

use vstd::prelude::*;
use crate::commands::{R3Command, WMCommand};
use crate::ignored_sequences::{lemma_stored_ordered, stored, Inner};
use crate::wm::laws;
use crate::wm::model;
use crate::wm::model::{Answer, Model, Pending, Stamp, XEvent};
use crate::wm::requests::{checked, Next, Outgoing, Query, Reply, Request, Step};
use crate::wm::WindowManager;

verus! {

/// How long the loop waits for readiness at most, in milliseconds.
pub const LOOP_TIMEOUT_MILLIS: u64 = 20;

/// How many readiness events the loop takes from one wait.
pub const EVENT_CAPACITY: usize = 128;

/// A source of readiness.
#[derive(Debug, Clone, Copy, PartialEq, Eq)]
pub enum Source {
    /// The protocol connection.
    Xcb,
    /// The listening control socket.
    Ipc,
    /// The wake-up of a worker that has queued a command.
    Cmd,
    /// The termination signals.
    Sig,
}

/// What the loop does when a source is ready.
#[derive(Debug, Clone, Copy, PartialEq, Eq)]
pub enum Service {
    /// Nothing: the connection's events are taken before every wait.
    Nothing,
    /// Accept connections until none is left, a worker for each.
    AcceptConnections,
    /// Take the whole queue.
    TakeCommands,
    /// Read the signals that have come in.
    ReadSignals,
}

/// A signal as the loop sees it.
#[derive(Debug, Clone, Copy, PartialEq, Eq)]
pub enum Signal {
    /// The request to terminate.
    Terminate,
    /// Any other signal.
    Other,
}

/// Why the loop cannot go on.
#[derive(Debug, Clone, Copy, PartialEq, Eq)]
pub enum Fatal {
    /// A command that the manager does not implement.
    Unimplemented(R3Command),
    /// A signal that the loop did not ask for.
    UnexpectedSignal,
}

/// Where the loop stands.
#[derive(Debug, Clone, Copy, PartialEq, Eq)]
pub enum Phase {
    /// It has not been started.
    Fresh,
    /// The manager takes over the root window and the windows on it.
    Starting,
    /// The buffered events of the protocol connection are taken.
    Draining,
    /// The loop waits for readiness.
    Waiting,
    /// The sources that were ready are served.
    Serving,
    /// Connections are being accepted.
    Accepting,
    /// The command queue is being taken.
    TakingCommands,
    /// The signals are being read.
    ReadingSignals,
    /// The loop has ended.
    Stopped,
    /// The loop has failed.
    Failed(Fatal),
}

/// What the caller does after it has sent the requests of a turn. What
/// comes of it is the next input.
#[derive(Debug, Clone, Copy, PartialEq, Eq)]
pub enum Demand {
    /// Hand in [`Input::Start`].
    Start,
    /// Put the question to the server and hand in the reply.
    Ask(Query),
    /// Take one buffered event from the protocol connection, without
    /// blocking, and hand it in, or hand in that there is none.
    PollEvent,
    /// Wait for readiness, for the given time at most, and hand in the
    /// sources that are ready.
    Wait { timeout_millis: u64 },
    /// Accept connections until none is left, hand each to a worker, and
    /// hand in that it is done.
    Accept,
    /// Take the whole command queue and hand it in.
    TakeCommands,
    /// Read the signals that have come in and hand them in.
    ReadSignals,
    /// Leave the loop: release the control socket and remove its path.
    Stop,
    /// Fail.
    Fail(Fatal),
}

/// What is handed to the loop.
#[derive(Debug, Clone, PartialEq, Eq)]
pub enum Input {
    /// The loop is started.
    Start,
    /// The server's reply to the question of the last turn.
    Reply(Reply),
    /// The next buffered event of the protocol connection, if there was one.
    Polled(Option<(XEvent, Stamp)>),
    /// The sources that were ready when the wait ended; none after a timeout.
    Ready(Vec<Source>),
    /// Every waiting connection has been accepted.
    Accepted,
    /// The commands that were in the queue, oldest first.
    Commands(Vec<R3Command>),
    /// The signals that have come in, oldest first.
    Signals(Vec<Signal>),
}

/// An input as a mathematical value.
pub enum InputView {
    Start,
    Reply(Answer),
    Polled(Option<(XEvent, Stamp)>),
    Ready(Seq<Source>),
    Accepted,
    Commands(Seq<R3Command>),
    Signals(Seq<Signal>),
}

impl View for Input {
    type V = InputView;

    open spec fn view(&self) -> InputView {
        match *self {
            Input::Start => InputView::Start,
            Input::Reply(reply) => InputView::Reply(reply@),
            Input::Polled(event) => InputView::Polled(event),
            Input::Ready(sources) => InputView::Ready(sources@),
            Input::Accepted => InputView::Accepted,
            Input::Commands(commands) => InputView::Commands(commands@),
            Input::Signals(signals) => InputView::Signals(signals@),
        }
    }
}

/// The loop's answer to an input: requests to send, in this order, and
/// what to do after that.
#[derive(Debug, Clone, PartialEq, Eq)]
pub struct Turn {
    pub requests: Vec<Outgoing>,
    pub demand: Demand,
}

/// The token under which a source is registered.
pub open spec fn token_of(source: Source) -> usize {
    match source {
        Source::Xcb => 0,
        Source::Ipc => 1,
        Source::Cmd => 2,
        Source::Sig => 3,
    }
}

/// What the loop does when a source is ready.
pub open spec fn service_of(source: Source) -> Service {
    match source {
        Source::Xcb => Service::Nothing,
        Source::Ipc => Service::AcceptConnections,
        Source::Cmd => Service::TakeCommands,
        Source::Sig => Service::ReadSignals,
    }
}

impl Source {
    /// The token under which the source is registered.
    pub fn token(self) -> (token: usize)
        ensures
            token == token_of(self),
    {
        match self {
            Source::Xcb => 0,
            Source::Ipc => 1,
            Source::Cmd => 2,
            Source::Sig => 3,
        }
    }

    /// The source that is registered under a token.
    pub fn from_token(token: usize) -> (source: Option<Source>)
        ensures
            match source {
                Some(found) => token_of(found) == token,
                None => forall|any: Source| token_of(any) != token,
            },
    {
        match token {
            0 => Some(Source::Xcb),
            1 => Some(Source::Ipc),
            2 => Some(Source::Cmd),
            3 => Some(Source::Sig),
            _ => None,
        }
    }

    /// What the loop does when the source is ready.
    pub fn service(self) -> (service: Service)
        ensures
            service == service_of(self),
    {
        match self {
            Source::Xcb => Service::Nothing,
            Source::Ipc => Service::AcceptConnections,
            Source::Cmd => Service::TakeCommands,
            Source::Sig => Service::ReadSignals,
        }
    }
}

/// The state of the loop.
pub struct LoopModel {
    pub wm: Model,
    pub phase: Phase,
    /// Whether an event has been handled since the last wait.
    pub handled: bool,
    /// The sources that were ready and have not been served.
    pub ready: Seq<Source>,
    /// The commands that were taken from the queue and have not been worked off.
    pub batch: Seq<R3Command>,
    /// Whether the loop ends with this iteration.
    pub finish: bool,
}

/// What a turn of the loop gives.
pub struct LoopOutcome {
    pub state: LoopModel,
    pub requests: Seq<Outgoing>,
    pub demand: Demand,
}

/// The state of a loop that has not been started.
pub open spec fn fresh(wm: Model) -> LoopModel {
    LoopModel {
        wm,
        phase: Phase::Fresh,
        handled: false,
        ready: Seq::empty(),
        batch: Seq::empty(),
        finish: false,
    }
}

/// What the loop wants of its caller in a state.
pub open spec fn demand(l: LoopModel) -> Demand {
    match l.phase {
        Phase::Fresh => Demand::Start,
        Phase::Stopped => Demand::Stop,
        Phase::Failed(fatal) => Demand::Fail(fatal),
        _ => if l.wm.pending != Pending::Idle {
            Demand::Ask(model::question(l.wm.pending, l.wm.root))
        } else {
            match l.phase {
                Phase::Waiting => Demand::Wait { timeout_millis: LOOP_TIMEOUT_MILLIS },
                Phase::Accepting => Demand::Accept,
                Phase::TakingCommands => Demand::TakeCommands,
                Phase::ReadingSignals => Demand::ReadSignals,
                _ => Demand::PollEvent,
            }
        },
    }
}

/// Whether an input is what the loop has asked for.
pub open spec fn expects(l: LoopModel, input: InputView) -> bool {
    match input {
        InputView::Start => demand(l) is Start,
        InputView::Reply(_) => demand(l) is Ask,
        InputView::Polled(_) => demand(l) is PollEvent,
        InputView::Ready(_) => demand(l) is Wait,
        InputView::Accepted => demand(l) is Accept,
        InputView::Commands(_) => demand(l) is TakeCommands,
        InputView::Signals(_) => demand(l) is ReadSignals,
    }
}

/// Nothing goes out, and the loop says what it wants.
pub open spec fn rest(l: LoopModel) -> LoopOutcome {
    LoopOutcome { state: l, requests: Seq::empty(), demand: demand(l) }
}

/// The loop ends. What was left to do is dropped.
pub open spec fn stopped(l: LoopModel) -> LoopOutcome {
    rest(LoopModel { phase: Phase::Stopped, ready: Seq::empty(), batch: Seq::empty(), ..l })
}

/// The loop fails. What was left to do is dropped.
pub open spec fn failed(l: LoopModel, fatal: Fatal) -> LoopOutcome {
    rest(LoopModel { phase: Phase::Failed(fatal), ready: Seq::empty(), batch: Seq::empty(), ..l })
}

/// The loop goes on from a state until it needs its caller.
///
/// While the manager waits for a reply, the reply is asked for. A manager
/// that has been told to quit ends the loop. After the startup, and after
/// an event, the next buffered event is taken. When sources are served,
/// the commands that were taken come first, oldest first: a command to the
/// manager goes to the manager, `Exit` ends the loop at once and the
/// commands behind it are dropped, and a command that is not implemented
/// fails the loop. Then the sources that are left are served in their order.
/// When all are served the loop ends, if a termination signal has come in,
/// or goes back to the buffered events.
pub open spec fn proceed(l: LoopModel) -> LoopOutcome
    decreases l.batch.len() + l.ready.len(),
{
    if !(l.phase is Starting || l.phase is Draining || l.phase is Serving) {
        rest(l)
    } else if l.wm.pending != Pending::Idle {
        rest(l)
    } else if l.wm.quit is Some {
        stopped(l)
    } else if !(l.phase is Serving) {
        rest(LoopModel { phase: Phase::Draining, ..l })
    } else if l.batch.len() > 0 {
        let behind = l.batch.drop_first();
        match l.batch[0] {
            R3Command::Exit => stopped(l),
            R3Command::GetConfig => failed(l, Fatal::Unimplemented(R3Command::GetConfig)),
            R3Command::GetVersion => failed(l, Fatal::Unimplemented(R3Command::GetVersion)),
            R3Command::WM(command) => {
                let step = model::handle_command(l.wm, command);
                let later = proceed(LoopModel { wm: step.state, batch: behind, ..l });
                LoopOutcome { requests: step.requests + later.requests, ..later }
            },
        }
    } else if l.ready.len() > 0 {
        let left = LoopModel { ready: l.ready.drop_first(), ..l };
        match service_of(l.ready[0]) {
            Service::Nothing => proceed(left),
            Service::AcceptConnections => rest(LoopModel { phase: Phase::Accepting, ..left }),
            Service::TakeCommands => rest(LoopModel { phase: Phase::TakingCommands, ..left }),
            Service::ReadSignals => rest(LoopModel { phase: Phase::ReadingSignals, ..left }),
        }
    } else if l.finish {
        stopped(l)
    } else {
        rest(LoopModel { phase: Phase::Draining, ..l })
    }
}

/// The manager has taken a step; its requests go out and the loop goes on.
pub open spec fn after(step: model::Outcome, l: LoopModel) -> LoopOutcome {
    let later = proceed(LoopModel { wm: step.state, ..l });
    LoopOutcome { requests: step.requests + later.requests, ..later }
}

/// The end of the taking of events: the render pass if an event has been
/// handled, then the flush, then the wait.
pub open spec fn drained(l: LoopModel, order: Seq<(u32, u32)>) -> LoopOutcome {
    let pass = if l.handled {
        model::render(l.wm, order)
    } else {
        Seq::empty()
    };
    LoopOutcome {
        state: LoopModel { phase: Phase::Waiting, handled: false, ..l },
        requests: pass.push(checked(Request::Flush)),
        demand: Demand::Wait { timeout_millis: LOOP_TIMEOUT_MILLIS },
    }
}

/// The signals have been read. The first one decides: a termination signal
/// ends the loop after this iteration, and no other signal is expected.
pub open spec fn signalled(l: LoopModel, signals: Seq<Signal>) -> LoopOutcome {
    if signals.len() == 0 {
        proceed(LoopModel { phase: Phase::Serving, ..l })
    } else {
        match signals[0] {
            Signal::Terminate => proceed(LoopModel { phase: Phase::Serving, finish: true, ..l }),
            Signal::Other => failed(l, Fatal::UnexpectedSignal),
        }
    }
}

/// What an input does to the loop. `now` is the time on the clock of the
/// suppression table, and `order` the order in which the pairs of the
/// association are decorated; they matter for an event and for the end of
/// the taking of events. An input that the loop has not asked for changes
/// nothing.
pub open spec fn advance(l: LoopModel, input: InputView, now: u128, order: Seq<(u32, u32)>) -> LoopOutcome {
    if !expects(l, input) {
        rest(l)
    } else {
        match input {
            InputView::Start => after(
                model::become_window_manager(l.wm),
                LoopModel { phase: Phase::Starting, ..l },
            ),
            InputView::Reply(answer) => after(model::resume(l.wm, answer), l),
            InputView::Polled(Some((event, stamp))) => after(
                model::handle_event(l.wm, event, stamp, now),
                LoopModel { phase: Phase::Draining, handled: true, ..l },
            ),
            InputView::Polled(None) => drained(l, order),
            InputView::Ready(sources) => proceed(
                LoopModel { phase: Phase::Serving, ready: sources, ..l },
            ),
            InputView::Accepted => proceed(LoopModel { phase: Phase::Serving, ..l }),
            InputView::Commands(commands) => proceed(
                LoopModel { phase: Phase::Serving, batch: l.batch + commands, ..l },
            ),
            InputView::Signals(signals) => signalled(l, signals),
        }
    }
}

/// Whether the phase and the manager agree: the loop does not wait, nor
/// serve a source, while the manager waits for a reply.
pub open spec fn coherent(l: LoopModel) -> bool {
    (l.phase is Waiting || l.phase is Accepting || l.phase is TakingCommands
        || l.phase is ReadingSignals) ==> l.wm.pending == Pending::Idle
}

/// What the loop demands at the end of a turn is what its state demands.
proof fn lemma_proceed_states_its_demand(l: LoopModel)
    ensures
        proceed(l).demand == demand(proceed(l).state),
        coherent(l) ==> coherent(proceed(l).state),
        (l.phase is Starting || l.phase is Draining || l.phase is Serving) ==> !(proceed(
            l,
        ).demand is Wait),
        model::consistent(l.wm) ==> model::consistent(proceed(l).state.wm),
    decreases l.batch.len() + l.ready.len(),
{
    if (l.phase is Starting || l.phase is Draining || l.phase is Serving) && l.wm.pending
        == Pending::Idle && l.wm.quit is None && l.phase is Serving {
        if l.batch.len() > 0 {
            if let R3Command::WM(command) = l.batch[0] {
                let step = model::handle_command(l.wm, command);
                if model::consistent(l.wm) {
                    laws::lemma_step_keeps_consistent(
                        l.wm,
                        laws::Input::Command { command },
                    );
                }
                lemma_proceed_states_its_demand(
                    LoopModel { wm: step.state, batch: l.batch.drop_first(), ..l },
                );
            }
        } else if l.ready.len() > 0 {
            lemma_proceed_states_its_demand(LoopModel { ready: l.ready.drop_first(), ..l });
        }
    }
}

/// The input of the manager that an input of the loop amounts to, if it
/// reaches the manager.
pub open spec fn manager_input(input: InputView, now: u128) -> Option<laws::Input> {
    match input {
        InputView::Start => Some(laws::Input::Startup),
        InputView::Reply(answer) => Some(laws::Input::Reply { answer }),
        InputView::Polled(Some((event, stamp))) => Some(
            laws::Input::Event { event, stamp, now },
        ),
        _ => None,
    }
}

/// After every turn the loop demands what its state demands, phase and
/// manager agree, and the manager's invariant holds.
pub proof fn lemma_turn_states_its_demand(
    l: LoopModel,
    input: InputView,
    now: u128,
    order: Seq<(u32, u32)>,
)
    ensures
        advance(l, input, now, order).demand == demand(advance(l, input, now, order).state),
        coherent(l) ==> coherent(advance(l, input, now, order).state),
        model::consistent(l.wm) ==> model::consistent(advance(l, input, now, order).state.wm),
{
    if expects(l, input) {
        if let Some(to_manager) = manager_input(input, now) {
            if model::consistent(l.wm) {
                laws::lemma_step_keeps_consistent(l.wm, to_manager);
            }
        }
        match input {
            InputView::Start => {
                lemma_proceed_states_its_demand(
                    LoopModel {
                        wm: model::become_window_manager(l.wm).state,
                        phase: Phase::Starting,
                        ..l
                    },
                );
            },
            InputView::Reply(answer) => {
                lemma_proceed_states_its_demand(
                    LoopModel { wm: model::resume(l.wm, answer).state, ..l },
                );
            },
            InputView::Polled(Some((event, stamp))) => {
                lemma_proceed_states_its_demand(
                    LoopModel {
                        wm: model::handle_event(l.wm, event, stamp, now).state,
                        phase: Phase::Draining,
                        handled: true,
                        ..l
                    },
                );
            },
            InputView::Polled(None) => {},
            InputView::Ready(sources) => {
                lemma_proceed_states_its_demand(
                    LoopModel { phase: Phase::Serving, ready: sources, ..l },
                );
            },
            InputView::Accepted => {
                lemma_proceed_states_its_demand(LoopModel { phase: Phase::Serving, ..l });
            },
            InputView::Commands(commands) => {
                lemma_proceed_states_its_demand(
                    LoopModel { phase: Phase::Serving, batch: l.batch + commands, ..l },
                );
            },
            InputView::Signals(signals) => {
                lemma_proceed_states_its_demand(LoopModel { phase: Phase::Serving, ..l });
                lemma_proceed_states_its_demand(
                    LoopModel { phase: Phase::Serving, finish: true, ..l },
                );
            },
        }
    }
}

/// The loop never goes to sleep on a buffered event or on a request that
/// has not been sent: a turn that ends in a wait answers the news that the
/// buffer of the protocol connection is empty, and the last request of the
/// turn is the flush.
pub proof fn lemma_wait_follows_the_flush(
    l: LoopModel,
    input: InputView,
    now: u128,
    order: Seq<(u32, u32)>,
)
    requires
        coherent(l),
        expects(l, input),
        advance(l, input, now, order).demand is Wait,
    ensures
        input == InputView::Polled(None),
        advance(l, input, now, order).requests.len() > 0,
        advance(l, input, now, order).requests.last() == checked(Request::Flush),
{
    match input {
        InputView::Start => {
            lemma_proceed_states_its_demand(
                LoopModel {
                    wm: model::become_window_manager(l.wm).state,
                    phase: Phase::Starting,
                    ..l
                },
            );
        },
        InputView::Reply(answer) => {
            lemma_proceed_states_its_demand(
                LoopModel { wm: model::resume(l.wm, answer).state, ..l },
            );
        },
        InputView::Polled(Some((event, stamp))) => {
            lemma_proceed_states_its_demand(
                LoopModel {
                    wm: model::handle_event(l.wm, event, stamp, now).state,
                    phase: Phase::Draining,
                    handled: true,
                    ..l
                },
            );
        },
        InputView::Polled(None) => {},
        InputView::Ready(sources) => {
            lemma_proceed_states_its_demand(
                LoopModel { phase: Phase::Serving, ready: sources, ..l },
            );
        },
        InputView::Accepted => {
            lemma_proceed_states_its_demand(LoopModel { phase: Phase::Serving, ..l });
        },
        InputView::Commands(commands) => {
            lemma_proceed_states_its_demand(
                LoopModel { phase: Phase::Serving, batch: l.batch + commands, ..l },
            );
        },
        InputView::Signals(signals) => {
            lemma_proceed_states_its_demand(LoopModel { phase: Phase::Serving, ..l });
            lemma_proceed_states_its_demand(
                LoopModel { phase: Phase::Serving, finish: true, ..l },
            );
        },
    }
}

/// `Exit` ends the loop at once: of a batch that begins with it nothing
/// is applied, nothing goes out, and the commands behind it are dropped.
pub proof fn lemma_exit_stops_the_loop(
    l: LoopModel,
    behind: Seq<R3Command>,
    now: u128,
    order: Seq<(u32, u32)>,
)
    requires
        l.phase is TakingCommands,
        l.wm.pending == Pending::Idle,
        l.wm.quit is None,
        l.batch.len() == 0,
    ensures
        ({
            let outcome = advance(
                l,
                InputView::Commands(seq![R3Command::Exit] + behind),
                now,
                order,
            );
            &&& outcome.demand == Demand::Stop
            &&& outcome.requests == Seq::<Outgoing>::empty()
            &&& outcome.state.wm == l.wm
            &&& outcome.state.phase == Phase::Stopped
            &&& outcome.state.batch == Seq::<R3Command>::empty()
        }),
{
    let batch = l.batch + (seq![R3Command::Exit] + behind);
    assert(batch[0] == R3Command::Exit);
}

/// Commands are applied in the order in which they were queued: to work
/// off a batch that begins with a command to the manager is to apply that
/// command and to go on with the commands behind it.
pub proof fn lemma_commands_are_first_in_first_out(l: LoopModel, command: WMCommand, behind: Seq<R3Command>)
    requires
        l.phase is Serving,
        l.wm.pending == Pending::Idle,
        l.wm.quit is None,
        l.batch == seq![R3Command::WM(command)] + behind,
    ensures
        proceed(l) == after(model::handle_command(l.wm, command), LoopModel { batch: behind, ..l }),
{
    assert(l.batch.drop_first() =~= behind);
}

/// The event loop's state.
pub struct EventLoop {
    wm: WindowManager,
    phase: Phase,
    handled: bool,
    /// The sources that were ready.
    ready: Vec<Source>,
    /// How many of them have been served.
    ready_at: usize,
    /// The commands that were taken from the queue.
    batch: Vec<R3Command>,
    /// How many of them have been worked off.
    batch_at: usize,
    finish: bool,
}

impl View for EventLoop {
    type V = LoopModel;

    closed spec fn view(&self) -> LoopModel {
        LoopModel {
            wm: self.wm@,
            phase: self.phase,
            handled: self.handled,
            ready: self.ready@.subrange(self.ready_at as int, self.ready@.len() as int),
            batch: self.batch@.subrange(self.batch_at as int, self.batch@.len() as int),
            finish: self.finish,
        }
    }
}

impl Turn {
    /// Whether the turn is what `outcome` says.
    pub open spec fn is(&self, outcome: LoopOutcome) -> bool {
        self.requests@ == outcome.requests && self.demand == outcome.demand
    }
}

impl EventLoop {
    /// The invariant of the loop's state. Every method keeps it.
    pub open spec fn well_formed(&self) -> bool {
        model::consistent(self@.wm) && self.sound()
    }

    /// The part of the invariant that is about the representation.
    pub closed spec fn sound(&self) -> bool {
        &&& self.wm.well_formed()
        &&& self.ready_at <= self.ready@.len()
        &&& self.batch_at <= self.batch@.len()
    }

    /// A loop around a manager, not started yet.
    pub fn new(wm: WindowManager) -> (l: EventLoop)
        requires
            wm.well_formed(),
        ensures
            l.well_formed(),
            l@ == fresh(wm@),
            coherent(l@),
    {
        let l = EventLoop {
            wm,
            phase: Phase::Fresh,
            handled: false,
            ready: Vec::new(),
            ready_at: 0,
            batch: Vec::new(),
            batch_at: 0,
            finish: false,
        };
        proof {
            assert(l@.ready =~= Seq::<Source>::empty());
            assert(l@.batch =~= Seq::<R3Command>::empty());
        }
        l
    }

    /// The manager.
    pub fn wm(&self) -> (wm: &WindowManager)
        requires
            self.well_formed(),
        ensures
            wm.well_formed(),
            wm@ == self@.wm,
    {
        &self.wm
    }

    /// Where the loop stands.
    pub fn phase(&self) -> (phase: Phase)
        ensures
            phase == self@.phase,
    {
        self.phase
    }

    /// How many commands have been taken from the queue and not worked off.
    pub fn waiting_commands(&self) -> (n: usize)
        requires
            self.well_formed(),
        ensures
            n == self@.batch.len(),
    {
        self.batch.len() - self.batch_at
    }

    /// What the loop wants of its caller.
    pub fn demand(&self) -> (wanted: Demand)
        requires
            self.well_formed(),
        ensures
            wanted == demand(self@),
    {
        match self.phase {
            Phase::Fresh => Demand::Start,
            Phase::Stopped => Demand::Stop,
            Phase::Failed(fatal) => Demand::Fail(fatal),
            _ => {
                match self.wm.waiting_step().next {
                    Next::Ask(query) => Demand::Ask(query),
                    Next::Done => match self.phase {
                        Phase::Waiting => Demand::Wait { timeout_millis: LOOP_TIMEOUT_MILLIS },
                        Phase::Accepting => Demand::Accept,
                        Phase::TakingCommands => Demand::TakeCommands,
                        Phase::ReadingSignals => Demand::ReadSignals,
                        _ => Demand::PollEvent,
                    },
                }
            },
        }
    }

    /// Whether the input is what the loop has asked for.
    fn expects(&self, input: &Input) -> (expected: bool)
        requires
            self.well_formed(),
        ensures
            expected == expects(self@, input@),
    {
        let wanted = self.demand();
        match input {
            Input::Start => matches!(wanted, Demand::Start),
            Input::Reply(_) => matches!(wanted, Demand::Ask(_)),
            Input::Polled(_) => matches!(wanted, Demand::PollEvent),
            Input::Ready(_) => matches!(wanted, Demand::Wait { .. }),
            Input::Accepted => matches!(wanted, Demand::Accept),
            Input::Commands(_) => matches!(wanted, Demand::TakeCommands),
            Input::Signals(_) => matches!(wanted, Demand::ReadSignals),
        }
    }

    /// Ends the loop in the phase given and drops what was left to do.
    fn end(&mut self, phase: Phase)
        requires
            old(self).well_formed(),
            phase is Stopped || phase is Failed,
        ensures
            final(self).well_formed(),
            final(self)@ == (LoopModel {
                phase,
                ready: Seq::empty(),
                batch: Seq::empty(),
                ..old(self)@
            }),
    {
        self.phase = phase;
        self.ready.clear();
        self.ready_at = 0;
        self.batch.clear();
        self.batch_at = 0;
        proof {
            assert(self@.ready =~= Seq::<Source>::empty());
            assert(self@.batch =~= Seq::<R3Command>::empty());
        }
    }

    /// Goes on until the loop needs its caller: see [`proceed`]. `sent` is
    /// what has gone out before.
    fn proceed(&mut self, sent: Vec<Outgoing>) -> (turn: Turn)
        requires
            old(self).well_formed(),
        ensures
            final(self).well_formed(),
            final(self)@ == proceed(old(self)@).state,
            turn.requests@ == sent@ + proceed(old(self)@).requests,
            turn.demand == proceed(old(self)@).demand,
    {
        let mut requests = sent;
        loop
            invariant
                self.well_formed(),
                proceed(self@).state == proceed(old(self)@).state,
                proceed(self@).demand == proceed(old(self)@).demand,
                requests@ + proceed(self@).requests == sent@ + proceed(old(self)@).requests,
            decreases self@.batch.len() + self@.ready.len(),
        {
            proof {
                assert(requests@ + Seq::<Outgoing>::empty() =~= requests@);
            }
            if !matches!(self.phase, Phase::Starting | Phase::Draining | Phase::Serving) {
                return Turn { requests, demand: self.demand() };
            }
            if !matches!(self.wm.pending(), Pending::Idle) {
                return Turn { requests, demand: self.demand() };
            }
            if self.wm.quit_reason().is_some() {
                self.end(Phase::Stopped);
                return Turn { requests, demand: Demand::Stop };
            }
            if !matches!(self.phase, Phase::Serving) {
                self.phase = Phase::Draining;
                return Turn { requests, demand: Demand::PollEvent };
            }
            let ghost here = self@;
            if self.batch_at < self.batch.len() {
                let command = self.batch[self.batch_at];
                proof {
                    assert(here.batch[0] == command);
                }
                match command {
                    R3Command::Exit => {
                        self.end(Phase::Stopped);
                        return Turn { requests, demand: Demand::Stop };
                    },
                    R3Command::GetConfig => {
                        let fatal = Fatal::Unimplemented(R3Command::GetConfig);
                        self.end(Phase::Failed(fatal));
                        return Turn { requests, demand: Demand::Fail(fatal) };
                    },
                    R3Command::GetVersion => {
                        let fatal = Fatal::Unimplemented(R3Command::GetVersion);
                        self.end(Phase::Failed(fatal));
                        return Turn { requests, demand: Demand::Fail(fatal) };
                    },
                    R3Command::WM(wm_command) => {
                        self.batch_at = self.batch_at + 1;
                        let ghost before = requests@;
                        let mut step = self.wm.handle_command(&wm_command);
                        requests.append(&mut step.requests);
                        proof {
                            assert(self@.batch =~= here.batch.drop_first());
                            let first = model::handle_command(here.wm, wm_command);
                            let later = proceed(self@);
                            assert(proceed(here).requests == first.requests + later.requests);
                            assert(requests@ + later.requests =~= before + (first.requests
                                + later.requests));
                        }
                    },
                }
            } else if self.ready_at < self.ready.len() {
                let source = self.ready[self.ready_at];
                self.ready_at = self.ready_at + 1;
                proof {
                    assert(here.ready[0] == source);
                    assert(self@.ready =~= here.ready.drop_first());
                    assert(self@.batch =~= here.batch);
                }
                match source.service() {
                    Service::Nothing => {},
                    Service::AcceptConnections => {
                        self.phase = Phase::Accepting;
                        return Turn { requests, demand: Demand::Accept };
                    },
                    Service::TakeCommands => {
                        self.phase = Phase::TakingCommands;
                        return Turn { requests, demand: Demand::TakeCommands };
                    },
                    Service::ReadSignals => {
                        self.phase = Phase::ReadingSignals;
                        return Turn { requests, demand: Demand::ReadSignals };
                    },
                }
            } else if self.finish {
                self.end(Phase::Stopped);
                proof {
                    assert(here.ready =~= Seq::<Source>::empty());
                    assert(here.batch =~= Seq::<R3Command>::empty());
                }
                return Turn { requests, demand: Demand::Stop };
            } else {
                self.phase = Phase::Draining;
                return Turn { requests, demand: Demand::PollEvent };
            }
        }
    }

    /// Puts the commands behind those that have not been worked off.
    fn queue(&mut self, commands: Vec<R3Command>)
        requires
            old(self).well_formed(),
        ensures
            final(self).well_formed(),
            final(self)@ == (LoopModel { batch: old(self)@.batch + commands@, ..old(self)@ }),
    {
        let mut commands = commands;
        let ghost given = commands@;
        let mut left: Vec<R3Command> = Vec::new();
        let mut i: usize = self.batch_at;
        while i < self.batch.len()
            invariant
                self.batch_at <= i <= self.batch@.len(),
                left@ == self.batch@.subrange(self.batch_at as int, i as int),
            decreases self.batch@.len() - i,
        {
            left.push(self.batch[i]);
            proof {
                assert(left@ =~= self.batch@.subrange(self.batch_at as int, i + 1));
            }
            i = i + 1;
        }
        left.append(&mut commands);
        self.batch = left;
        self.batch_at = 0;
        proof {
            assert(self@.batch =~= old(self)@.batch + given);
        }
    }

    /// Goes on after a step of the manager: see [`after`].
    fn go_on(&mut self, step: Step, Ghost(outcome): Ghost<model::Outcome>) -> (turn: Turn)
        requires
            old(self).well_formed(),
            old(self)@.wm == outcome.state,
            step.is(outcome),
        ensures
            final(self).well_formed(),
            final(self)@ == after(outcome, old(self)@).state,
            turn.is(after(outcome, old(self)@)),
    {
        proof {
            assert((LoopModel { wm: outcome.state, ..self@ }) == self@);
        }
        self.proceed(step.requests)
    }

    /// Goes on with the sources: see [`proceed`].
    fn serve(&mut self) -> (turn: Turn)
        requires
            old(self).well_formed(),
        ensures
            final(self).well_formed(),
            final(self)@ == proceed(LoopModel { phase: Phase::Serving, ..old(self)@ }).state,
            turn.is(proceed(LoopModel { phase: Phase::Serving, ..old(self)@ })),
    {
        self.phase = Phase::Serving;
        proof {
            assert(Seq::<Outgoing>::empty() + proceed(self@).requests =~= proceed(
                self@,
            ).requests);
        }
        self.proceed(Vec::new())
    }

    /// The loop is started.
    fn started(&mut self) -> (turn: Turn)
        requires
            old(self).well_formed(),
        ensures
            final(self).well_formed(),
            final(self)@ == after(
                model::become_window_manager(old(self)@.wm),
                LoopModel { phase: Phase::Starting, ..old(self)@ },
            ).state,
            turn.is(
                after(
                    model::become_window_manager(old(self)@.wm),
                    LoopModel { phase: Phase::Starting, ..old(self)@ },
                ),
            ),
    {
        self.phase = Phase::Starting;
        let ghost outcome = model::become_window_manager(self@.wm);
        let ghost at_start = LoopModel { phase: Phase::Starting, ..old(self)@ };
        let step = self.wm.become_window_manager();
        proof {
            assert((LoopModel { wm: outcome.state, ..at_start }) == self@);
        }
        self.go_on(step, Ghost(outcome))
    }

    /// A reply has come in.
    fn replied(&mut self, reply: Reply) -> (turn: Turn)
        requires
            old(self).well_formed(),
        ensures
            final(self).well_formed(),
            final(self)@ == after(model::resume(old(self)@.wm, reply@), old(self)@).state,
            turn.is(after(model::resume(old(self)@.wm, reply@), old(self)@)),
    {
        let ghost outcome = model::resume(self@.wm, reply@);
        let step = self.wm.resume(reply);
        proof {
            assert((LoopModel { wm: outcome.state, ..old(self)@ }) == self@);
        }
        self.go_on(step, Ghost(outcome))
    }

    /// An event has come in.
    fn polled(&mut self, event: XEvent, stamp: Stamp, now: u128) -> (turn: Turn)
        requires
            old(self).well_formed(),
        ensures
            final(self).well_formed(),
            final(self)@ == after(
                model::handle_event(old(self)@.wm, event, stamp, now),
                LoopModel { phase: Phase::Draining, handled: true, ..old(self)@ },
            ).state,
            turn.is(
                after(
                    model::handle_event(old(self)@.wm, event, stamp, now),
                    LoopModel { phase: Phase::Draining, handled: true, ..old(self)@ },
                ),
            ),
    {
        self.phase = Phase::Draining;
        self.handled = true;
        let ghost outcome = model::handle_event(self@.wm, event, stamp, now);
        let ghost before = LoopModel { phase: Phase::Draining, handled: true, ..old(self)@ };
        let step = self.wm.handle_event_at(event, stamp, now);
        proof {
            assert((LoopModel { wm: outcome.state, ..before }) == self@);
        }
        self.go_on(step, Ghost(outcome))
    }

    /// No event is left in the buffer: see [`drained`].
    fn drained(&mut self, order: &Vec<(u32, u32)>) -> (turn: Turn)
        requires
            old(self).well_formed(),
        ensures
            final(self).well_formed(),
            final(self)@ == drained(old(self)@, order@).state,
            turn.is(drained(old(self)@, order@)),
    {
        let mut requests = if self.handled {
            self.wm.render_in_order(order)
        } else {
            Vec::new()
        };
        requests.push(Outgoing::checked(Request::Flush));
        self.phase = Phase::Waiting;
        self.handled = false;
        Turn { requests, demand: Demand::Wait { timeout_millis: LOOP_TIMEOUT_MILLIS } }
    }

    /// The sources that are ready have come in.
    fn readied(&mut self, sources: Vec<Source>) -> (turn: Turn)
        requires
            old(self).well_formed(),
        ensures
            final(self).well_formed(),
            final(self)@ == proceed(
                LoopModel { phase: Phase::Serving, ready: sources@, ..old(self)@ },
            ).state,
            turn.is(proceed(LoopModel { phase: Phase::Serving, ready: sources@, ..old(self)@ })),
    {
        self.ready = sources;
        self.ready_at = 0;
        proof {
            assert(self@.ready =~= sources@);
            assert(self@.batch =~= old(self)@.batch);
        }
        self.serve()
    }

    /// The commands of the queue have come in.
    fn commanded(&mut self, commands: Vec<R3Command>) -> (turn: Turn)
        requires
            old(self).well_formed(),
        ensures
            final(self).well_formed(),
            final(self)@ == proceed(
                LoopModel {
                    phase: Phase::Serving,
                    batch: old(self)@.batch + commands@,
                    ..old(self)@
                },
            ).state,
            turn.is(
                proceed(
                    LoopModel {
                        phase: Phase::Serving,
                        batch: old(self)@.batch + commands@,
                        ..old(self)@
                    },
                ),
            ),
    {
        self.queue(commands);
        self.serve()
    }

    /// The signals have come in: see [`signalled`].
    fn signalled(&mut self, signals: Vec<Signal>) -> (turn: Turn)
        requires
            old(self).well_formed(),
        ensures
            final(self).well_formed(),
            final(self)@ == signalled(old(self)@, signals@).state,
            turn.is(signalled(old(self)@, signals@)),
    {
        if signals.len() > 0 {
            match signals[0] {
                Signal::Terminate => {
                    self.finish = true;
                },
                Signal::Other => {
                    self.end(Phase::Failed(Fatal::UnexpectedSignal));
                    return Turn {
                        requests: Vec::new(),
                        demand: Demand::Fail(Fatal::UnexpectedSignal),
                    };
                },
            }
        }
        self.serve()
    }

    /// Records at the clock's reading that the events of request `sequence`
    /// are to be dropped: see [`WindowManager::ignore`].
    pub fn ignore(&mut self, sequence: u16)
        requires
            old(self).well_formed(),
        ensures
            final(self).well_formed(),
            exists|now: u128|
                final(self)@ == (LoopModel {
                    wm: Model {
                        ignored: #[trigger] stored(
                            old(self)@.wm.ignored,
                            Inner { sequence, response_type: None, store_time: now },
                        ),
                        ..old(self)@.wm
                    },
                    ..old(self)@
                }),
    {
        self.wm.ignore(sequence);
        proof {
            let now = choose|now: u128|
                self.wm@ == (Model {
                    ignored: #[trigger] stored(
                        old(self)@.wm.ignored,
                        Inner { sequence, response_type: None, store_time: now },
                    ),
                    ..old(self)@.wm
                });
            lemma_stored_ordered(
                old(self)@.wm.ignored,
                Inner { sequence, response_type: None, store_time: now },
            );
            assert(self@ == (LoopModel {
                wm: Model {
                    ignored: stored(
                        old(self)@.wm.ignored,
                        Inner { sequence, response_type: None, store_time: now },
                    ),
                    ..old(self)@.wm
                },
                ..old(self)@
            }));
        }
    }

    /// Records at the clock's reading that the events of kind
    /// `response_type` of request `sequence` are to be dropped: see
    /// [`WindowManager::ignore_with_type`].
    pub fn ignore_with_type(&mut self, sequence: u16, response_type: u32)
        requires
            old(self).well_formed(),
        ensures
            final(self).well_formed(),
            exists|now: u128|
                final(self)@ == (LoopModel {
                    wm: Model {
                        ignored: #[trigger] stored(
                            old(self)@.wm.ignored,
                            Inner { sequence, response_type: Some(response_type), store_time: now },
                        ),
                        ..old(self)@.wm
                    },
                    ..old(self)@
                }),
    {
        self.wm.ignore_with_type(sequence, response_type);
        proof {
            let now = choose|now: u128|
                self.wm@ == (Model {
                    ignored: #[trigger] stored(
                        old(self)@.wm.ignored,
                        Inner { sequence, response_type: Some(response_type), store_time: now },
                    ),
                    ..old(self)@.wm
                });
            lemma_stored_ordered(
                old(self)@.wm.ignored,
                Inner { sequence, response_type: Some(response_type), store_time: now },
            );
            assert(self@ == (LoopModel {
                wm: Model {
                    ignored: stored(
                        old(self)@.wm.ignored,
                        Inner { sequence, response_type: Some(response_type), store_time: now },
                    ),
                    ..old(self)@.wm
                },
                ..old(self)@
            }));
        }
    }

    /// Takes an input at time `now` on the clock of the suppression table,
    /// with the pairs of the association in the order `order`: see
    /// [`advance`].
    pub fn advance_with(&mut self, input: Input, now: u128, order: &Vec<(u32, u32)>) -> (turn: Turn)
        requires
            old(self).well_formed(),
        ensures
            final(self).well_formed(),
            final(self)@ == advance(old(self)@, input@, now, order@).state,
            turn.is(advance(old(self)@, input@, now, order@)),
            turn.demand == demand(final(self)@),
            coherent(old(self)@) ==> coherent(final(self)@),
    {
        proof {
            lemma_turn_states_its_demand(old(self)@, input@, now, order@);
        }
        if !self.expects(&input) {
            return Turn { requests: Vec::new(), demand: self.demand() };
        }
        match input {
            Input::Start => self.started(),
            Input::Reply(reply) => self.replied(reply),
            Input::Polled(Some((event, stamp))) => self.polled(event, stamp, now),
            Input::Polled(None) => self.drained(order),
            Input::Ready(sources) => self.readied(sources),
            Input::Accepted => self.serve(),
            Input::Commands(commands) => self.commanded(commands),
            Input::Signals(signals) => self.signalled(signals),
        }
    }

    /// Takes an input at time `now` on the clock of the suppression table:
    /// see [`advance`]. The pairs of the association come in the order in
    /// which the association hands them out.
    pub fn advance_at(&mut self, input: Input, now: u128) -> (turn: Turn)
        requires
            old(self).well_formed(),
        ensures
            final(self).well_formed(),
            exists|order: Seq<(u32, u32)>|
                {
                    let outcome = #[trigger] advance(old(self)@, input@, now, order);
                    &&& model::lists_pairs(order, old(self)@.wm.pairs)
                    &&& final(self)@ == outcome.state
                    &&& turn.is(outcome)
                },
    {
        let order = self.wm.framed_clients();
        let turn = self.advance_with(input, now, &order);
        proof {
            let outcome = advance(old(self)@, input@, now, order@);
            assert(model::lists_pairs(order@, old(self)@.wm.pairs) && self@ == outcome.state
                && turn.is(outcome));
        }
        turn
    }

    /// Takes an input now: see [`advance`].
    pub fn advance(&mut self, input: Input) -> (turn: Turn)
        requires
            old(self).well_formed(),
        ensures
            final(self).well_formed(),
            exists|now: u128, order: Seq<(u32, u32)>|
                {
                    let outcome = #[trigger] advance(old(self)@, input@, now, order);
                    &&& model::lists_pairs(order, old(self)@.wm.pairs)
                    &&& final(self)@ == outcome.state
                    &&& turn.is(outcome)
                },
    {
        let now = self.wm.now();
        let order = self.wm.framed_clients();
        let turn = self.advance_with(input, now, &order);
        proof {
            let outcome = advance(old(self)@, input@, now, order@);
            assert(model::lists_pairs(order@, old(self)@.wm.pairs) && self@ == outcome.state
                && turn.is(outcome));
        }
        turn
    }
}

} // verus!
