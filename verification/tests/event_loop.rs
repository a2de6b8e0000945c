use r3::commands::{Args, R3Command, WMCommand};
use r3::event_loop::{
    Demand, EventLoop, Fatal, Input, Phase, Service, Signal, Source, Turn, EVENT_CAPACITY,
    LOOP_TIMEOUT_MILLIS,
};
use r3::ipc;
use r3::ipc::{CommandQueue, Received};
use r3::socket_path::{base_dir, nested_dir, socket_name};
use r3::window_geometry::WindowGeometry;
use r3::wm::atoms::{atom_name, Atoms, ATOM_COUNT};
use r3::wm::masks::{STATE_CONTROL, STATE_SHIFT};
use r3::wm::model::{Pending, QuitReason, Stamp, XEvent};
use r3::wm::requests::{
    ConfigureValues, Delivery, Outgoing, Query, Reply, Request, StackMode,
};
use r3::wm::WindowManager;

const ROOT: u32 = 1;

fn atoms() -> Atoms {
    Atoms::intern_all(&vec![101, 102, 103, 104, 105, 106, 107, 108, 109, 110]).unwrap()
}

fn stamp() -> Stamp {
    Stamp { sequence: 0, response_type: 0 }
}

fn checked(request: Request) -> Outgoing {
    Outgoing { request, delivery: Delivery::Checked }
}

fn deferred(request: Request) -> Outgoing {
    Outgoing { request, delivery: Delivery::Deferred }
}

fn wait() -> Demand {
    Demand::Wait { timeout_millis: 20 }
}

fn flush() -> Vec<Outgoing> {
    vec![checked(Request::Flush)]
}

/// A loop that has started on a server without windows, has framed window
/// 50 in frame 60, and has gone to wait.
fn waiting_loop() -> EventLoop {
    let mut l = EventLoop::new(WindowManager::new(ROOT, atoms(), 1));
    assert_eq!(l.demand(), Demand::Start);
    let turn = l.advance(Input::Start);
    assert_eq!(turn.requests.len(), 2);
    assert_eq!(turn.demand, Demand::Ask(Query::Children { window: ROOT }));
    assert_eq!(l.phase(), Phase::Starting);
    let turn = l.advance(Input::Reply(Reply::Children(vec![])));
    assert_eq!(turn.requests.len(), 5);
    assert_eq!(turn.demand, Demand::PollEvent);
    assert_eq!(l.phase(), Phase::Draining);
    let turn = l.advance(Input::Polled(Some((XEvent::MapRequest { window: 50 }, stamp()))));
    assert_eq!(turn, Turn { requests: vec![], demand: Demand::Ask(Query::Geometry { window: 50 }) });
    let turn = l.advance(Input::Reply(Reply::Geometry(WindowGeometry::new(0, 0, 30, 30, 0))));
    assert_eq!(turn, Turn { requests: vec![], demand: Demand::Ask(Query::FreshId) });
    let turn = l.advance(Input::Reply(Reply::FreshId(60)));
    assert_eq!(turn.requests.len(), 9);
    assert_eq!(turn.demand, Demand::PollEvent);
    // the new window has the focus, and the render pass shows it
    let turn = l.advance(Input::Polled(None));
    assert_eq!(
        turn,
        Turn {
            requests: vec![
                deferred(Request::SetBorderColor { window: 60, pixel: 0xff0000 }),
                deferred(Request::Configure {
                    window: 60,
                    values: ConfigureValues::stacked(StackMode::Above)
                }),
                checked(Request::SetInputFocus { focus: 50 }),
                checked(Request::Flush),
            ],
            demand: wait(),
        }
    );
    assert_eq!(l.phase(), Phase::Waiting);
    assert_eq!(l.wm().focused_window(), Some(50));
    l
}

/// A loop that has been woken for commands.
fn loop_taking_commands() -> EventLoop {
    let mut l = waiting_loop();
    let turn = l.advance(Input::Ready(vec![Source::Xcb, Source::Cmd]));
    assert_eq!(turn, Turn { requests: vec![], demand: Demand::TakeCommands });
    assert_eq!(l.phase(), Phase::TakingCommands);
    l
}


#[test]
fn sources_have_their_tokens() {
    assert_eq!(Source::Xcb.token(), 0);
    assert_eq!(Source::Ipc.token(), 1);
    assert_eq!(Source::Cmd.token(), 2);
    assert_eq!(Source::Sig.token(), 3);
    for source in [Source::Xcb, Source::Ipc, Source::Cmd, Source::Sig] {
        assert_eq!(Source::from_token(source.token()), Some(source));
    }
    assert_eq!(Source::from_token(4), None);
    assert_eq!(Source::from_token(usize::MAX), None);
}

#[test]
fn each_source_has_its_service() {
    assert_eq!(Source::Xcb.service(), Service::Nothing);
    assert_eq!(Source::Ipc.service(), Service::AcceptConnections);
    assert_eq!(Source::Cmd.service(), Service::TakeCommands);
    assert_eq!(Source::Sig.service(), Service::ReadSignals);
}

#[test]
fn the_loop_waits_twenty_milliseconds() {
    assert_eq!(LOOP_TIMEOUT_MILLIS, 20);
    assert_eq!(EVENT_CAPACITY, 128);
    assert_eq!(waiting_loop().demand(), Demand::Wait { timeout_millis: 20 });
}

#[test]
fn the_buffer_is_emptied_and_flushed_before_every_wait() {
    let mut l = waiting_loop();
    // a timeout: nothing is ready, and the loop looks into the buffer again
    let turn = l.advance(Input::Ready(vec![]));
    assert_eq!(turn, Turn { requests: vec![], demand: Demand::PollEvent });
    // events are taken one by one until none is left
    let turn = l.advance(Input::Polled(Some((XEvent::Other, stamp()))));
    assert_eq!(turn, Turn { requests: vec![], demand: Demand::PollEvent });
    let turn = l.advance(Input::Polled(Some((XEvent::EnterNotify { event: 70 }, stamp()))));
    assert_eq!(turn, Turn { requests: vec![], demand: Demand::PollEvent });
    // then comes the render pass, then the flush, then the wait
    let order = vec![(50, 60)];
    let turn = l.advance_with(Input::Polled(None), 0, &order);
    assert_eq!(
        turn,
        Turn {
            requests: vec![
                deferred(Request::SetBorderColor { window: 60, pixel: 0xaaaaaa }),
                checked(Request::SetInputFocus { focus: 70 }),
                checked(Request::Flush),
            ],
            demand: wait(),
        }
    );
    // readiness of the connection itself calls for nothing but the next look
    let turn = l.advance(Input::Ready(vec![Source::Xcb]));
    assert_eq!(turn, Turn { requests: vec![], demand: Demand::PollEvent });
    // without an event there is no render pass, but the flush stays
    let turn = l.advance(Input::Polled(None));
    assert_eq!(turn, Turn { requests: flush(), demand: wait() });
}

#[test]
fn an_input_that_was_not_asked_for_changes_nothing() {
    let mut l = waiting_loop();
    for input in [
        Input::Start,
        Input::Reply(Reply::FreshId(3)),
        Input::Polled(Some((XEvent::EnterNotify { event: 70 }, stamp()))),
        Input::Polled(None),
        Input::Accepted,
        Input::Commands(vec![R3Command::Exit]),
        Input::Signals(vec![Signal::Terminate]),
    ] {
        let turn = l.advance(input);
        assert_eq!(turn, Turn { requests: vec![], demand: wait() });
        assert_eq!(l.phase(), Phase::Waiting);
        assert_eq!(l.wm().focused_window(), Some(50));
        assert_eq!(l.wm().frame_of(50), Some(60));
        assert_eq!(l.waiting_commands(), 0);
    }
    let mut fresh = EventLoop::new(WindowManager::new(ROOT, atoms(), 1));
    let turn = fresh.advance(Input::Polled(None));
    assert_eq!(turn, Turn { requests: vec![], demand: Demand::Start });
    assert_eq!(fresh.phase(), Phase::Fresh);
}

#[test]
fn ready_sources_are_served_in_their_order() {
    let mut l = waiting_loop();
    let turn = l.advance(Input::Ready(vec![Source::Ipc, Source::Xcb, Source::Cmd, Source::Sig]));
    assert_eq!(turn, Turn { requests: vec![], demand: Demand::Accept });
    assert_eq!(l.phase(), Phase::Accepting);
    let turn = l.advance(Input::Accepted);
    assert_eq!(turn, Turn { requests: vec![], demand: Demand::TakeCommands });
    let turn = l.advance(Input::Commands(vec![]));
    assert_eq!(turn, Turn { requests: vec![], demand: Demand::ReadSignals });
    assert_eq!(l.phase(), Phase::ReadingSignals);
    let turn = l.advance(Input::Signals(vec![]));
    assert_eq!(turn, Turn { requests: vec![], demand: Demand::PollEvent });
    assert_eq!(l.phase(), Phase::Draining);
}

#[test]
fn a_termination_signal_ends_the_loop_after_the_iteration() {
    let mut l = waiting_loop();
    l.advance(Input::Ready(vec![Source::Sig, Source::Cmd]));
    // the signal is noted, and the sources that are left are still served
    let turn = l.advance(Input::Signals(vec![Signal::Terminate, Signal::Other]));
    assert_eq!(turn, Turn { requests: vec![], demand: Demand::TakeCommands });
    let turn = l.advance(Input::Commands(vec![R3Command::WM(WMCommand::CloseWindow)]));
    assert_eq!(turn.demand, Demand::Ask(Query::Protocols { window: 50 }));
    let turn = l.advance(Input::Reply(Reply::Protocols(vec![])));
    assert_eq!(
        turn,
        Turn { requests: vec![checked(Request::DestroyWindow { window: 60 })], demand: Demand::Stop }
    );
    assert_eq!(l.phase(), Phase::Stopped);
    // a loop that has stopped stays stopped
    let turn = l.advance(Input::Polled(None));
    assert_eq!(turn, Turn { requests: vec![], demand: Demand::Stop });
}

#[test]
fn an_unexpected_signal_fails_the_loop() {
    let mut l = waiting_loop();
    l.advance(Input::Ready(vec![Source::Sig, Source::Cmd]));
    let turn = l.advance(Input::Signals(vec![Signal::Other, Signal::Terminate]));
    assert_eq!(turn, Turn { requests: vec![], demand: Demand::Fail(Fatal::UnexpectedSignal) });
    assert_eq!(l.phase(), Phase::Failed(Fatal::UnexpectedSignal));
    assert_eq!(l.demand(), Demand::Fail(Fatal::UnexpectedSignal));
}

#[test]
fn exit_ends_the_loop_and_drops_what_is_queued_behind_it() {
    let mut l = waiting_loop();
    l.advance(Input::Ready(vec![Source::Cmd, Source::Ipc]));
    let turn = l.advance(Input::Commands(vec![
        R3Command::Exit,
        R3Command::WM(WMCommand::CloseWindow),
        R3Command::GetVersion,
    ]));
    assert_eq!(turn, Turn { requests: vec![], demand: Demand::Stop });
    assert_eq!(l.phase(), Phase::Stopped);
    // the close behind the exit was never applied
    assert_eq!(l.wm().focused_window(), Some(50));
    assert_eq!(l.wm().pending(), Pending::Idle);
    assert_eq!(l.wm().frame_of(50), Some(60));
    assert_eq!(l.waiting_commands(), 0);
    // and nothing brings the loop back
    let turn = l.advance(Input::Commands(vec![R3Command::WM(WMCommand::CloseWindow)]));
    assert_eq!(turn, Turn { requests: vec![], demand: Demand::Stop });
    assert_eq!(l.wm().focused_window(), Some(50));
}

#[test]
fn commands_are_applied_in_the_order_of_the_queue() {
    let mut l = waiting_loop();
    l.advance(Input::Ready(vec![Source::Cmd]));
    let turn = l.advance(Input::Commands(vec![
        R3Command::WM(WMCommand::CloseWindow),
        R3Command::WM(WMCommand::CloseWindow),
        R3Command::Exit,
    ]));
    // the first close needs an answer; the rest of the batch waits for it
    assert_eq!(
        turn,
        Turn { requests: vec![], demand: Demand::Ask(Query::Protocols { window: 50 }) }
    );
    assert_eq!(l.waiting_commands(), 2);
    assert_eq!(l.wm().focused_window(), None);
    // with the answer the first close ends; the second finds no focus; then the exit
    let turn = l.advance(Input::Reply(Reply::Protocols(vec![])));
    assert_eq!(
        turn,
        Turn { requests: vec![checked(Request::DestroyWindow { window: 60 })], demand: Demand::Stop }
    );
    assert_eq!(l.waiting_commands(), 0);
}

#[test]
fn commands_that_are_not_implemented_fail_the_loop() {
    let mut l = loop_taking_commands();
    let turn = l.advance(Input::Commands(vec![R3Command::GetConfig, R3Command::Exit]));
    assert_eq!(
        turn,
        Turn {
            requests: vec![],
            demand: Demand::Fail(Fatal::Unimplemented(R3Command::GetConfig))
        }
    );
    assert_eq!(l.waiting_commands(), 0);
    let mut l = loop_taking_commands();
    let turn = l.advance(Input::Commands(vec![R3Command::GetVersion]));
    assert_eq!(turn.demand, Demand::Fail(Fatal::Unimplemented(R3Command::GetVersion)));
    assert_eq!(l.phase(), Phase::Failed(Fatal::Unimplemented(R3Command::GetVersion)));
}

#[test]
fn a_graceful_close_goes_through_the_loop() {
    let mut l = waiting_loop();
    l.advance(Input::Ready(vec![Source::Cmd]));
    l.advance(Input::Commands(vec![R3Command::WM(WMCommand::CloseWindow)]));
    let turn = l.advance(Input::Reply(Reply::Protocols(vec![102])));
    assert_eq!(
        turn,
        Turn {
            requests: vec![
                Outgoing {
                    request: Request::SendDelete { window: 50, protocols: 101, delete: 102 },
                    delivery: Delivery::Unchecked
                },
                checked(Request::Flush),
            ],
            demand: Demand::PollEvent,
        }
    );
    assert_eq!(l.wm().frame_of(50), Some(60));
}

#[test]
fn the_quit_key_ends_the_loop() {
    let mut l = waiting_loop();
    l.advance(Input::Ready(vec![Source::Xcb]));
    let turn = l.advance_at(
        Input::Polled(Some((
            XEvent::KeyPress { event: ROOT, state: STATE_CONTROL | STATE_SHIFT, detail: 0x18 },
            stamp(),
        ))),
        0,
    );
    assert_eq!(turn, Turn { requests: vec![], demand: Demand::Stop });
    assert_eq!(l.wm().quit_reason(), Some(QuitReason::UserQuit));
    assert_eq!(l.phase(), Phase::Stopped);
}

#[test]
fn startup_frames_what_is_there_before_the_first_look_into_the_buffer() {
    let mut l = EventLoop::new(WindowManager::new(ROOT, atoms(), 1));
    l.advance(Input::Start);
    let turn = l.advance(Input::Reply(Reply::Children(vec![7])));
    assert_eq!(turn.demand, Demand::Ask(Query::Geometry { window: 7 }));
    // an answer to another question changes nothing
    let turn = l.advance(Input::Reply(Reply::FreshId(1)));
    assert_eq!(turn, Turn { requests: vec![], demand: Demand::Ask(Query::Geometry { window: 7 }) });
    let turn = l.advance(Input::Reply(Reply::Geometry(WindowGeometry::new(0, 0, 30, 30, 0))));
    assert_eq!(turn.demand, Demand::Ask(Query::Attributes { window: 7 }));
    let turn = l.advance(Input::Reply(Reply::Attributes(r3::wm::requests::WindowAttributes {
        override_redirect: false,
        viewable: true,
    })));
    assert_eq!(turn.demand, Demand::Ask(Query::FreshId));
    let turn = l.advance(Input::Reply(Reply::FreshId(8)));
    assert_eq!(turn.requests.len(), 8 + 5);
    assert_eq!(turn.demand, Demand::PollEvent);
    assert_eq!(l.wm().frame_of(7), Some(8));
}

#[test]
fn the_queue_is_first_in_first_out() {
    let mut queue = CommandQueue::new();
    assert_eq!(queue.len(), 0);
    queue.push(R3Command::GetConfig);
    queue.push(R3Command::Exit);
    queue.push(R3Command::WM(WMCommand::CloseWindow));
    assert_eq!(queue.len(), 3);
    assert_eq!(
        queue.take_all(),
        vec![R3Command::GetConfig, R3Command::Exit, R3Command::WM(WMCommand::CloseWindow)]
    );
    assert_eq!(queue.len(), 0);
    assert_eq!(queue.take_all(), vec![]);
}

#[test]
fn a_worker_serves_one_command() {
    assert_eq!(ipc::serve(Received::Command(R3Command::Exit)), ipc::Service::Accept(R3Command::Exit));
    assert_eq!(ipc::serve(Received::Malformed), ipc::Service::Refuse);
    assert_eq!(ipc::serve(Received::TimedOut), ipc::Service::Abandon);
    assert_eq!(ipc::serve(Received::Failed), ipc::Service::Fail);
    assert_eq!(ipc::acknowledgement(), "Hello from the server!");
    assert_eq!(ipc::refusal(), "Malformed command");
    assert_eq!(ipc::READ_TIMEOUT_SECS, 180);
}

#[test]
fn the_socket_is_named_by_the_process() {
    assert_eq!(base_dir(Some(String::from("/run/user/1000"))), "/run/user/1000");
    assert_eq!(base_dir(None), "/tmp");
    assert_eq!(nested_dir(), "r3");
    assert_eq!(socket_name(0), "ipc-socket.0");
    assert_eq!(socket_name(31337), "ipc-socket.31337");
    assert_eq!(socket_name(u32::MAX), "ipc-socket.4294967295");
}

#[test]
fn atoms_are_interned_in_the_order_of_their_names() {
    let names: Vec<&str> = (0..ATOM_COUNT).map(|index| atom_name(index).unwrap()).collect();
    assert_eq!(atom_name(ATOM_COUNT), None);
    assert_eq!(
        names,
        vec![
            "WM_PROTOCOLS",
            "WM_DELETE_WINDOW",
            "_NET_ACTIVE_WINDOW",
            "_NET_WM_STATE",
            "_NET_WM_STATE_MAXIMIZED_VERT",
            "_NET_WM_STATE_MAXIMIZED_HORZ",
            "R3_PID",
            "R3_SOCKET_PATH",
            "R3_SYNC",
            "R3_FRAME",
        ]
    );
    let atoms = atoms();
    assert_eq!(atoms.wm_protocols, 101);
    assert_eq!(atoms.wm_del_window, 102);
    assert_eq!(atoms.wm_active_window, 103);
    assert_eq!(atoms.wm_state, 104);
    assert_eq!(atoms.wm_state_maxv, 105);
    assert_eq!(atoms.wm_state_maxh, 106);
    assert_eq!(atoms.r3_pid, 107);
    assert_eq!(atoms.r3_socket_path, 108);
    assert_eq!(atoms.r3_sync, 109);
    assert_eq!(atoms.r3_frame, 110);
    assert_eq!(Atoms::intern_all(&vec![1, 2, 3]), None);
    assert_eq!(Atoms::intern_all(&vec![0; 11]), None);
}

#[test]
fn the_client_tool_takes_a_socket_and_a_command() {
    let args = Args { socket: None, command: R3Command::WM(WMCommand::CloseWindow) };
    assert_eq!(args.clone(), args);
    assert_eq!(args.socket, None);
}

#[test]
fn the_loop_drops_events_that_it_was_told_to_ignore() {
    let mut l = waiting_loop();
    l.ignore(40);
    l.ignore_with_type(41, 7);
    l.advance(Input::Ready(vec![Source::Xcb]));
    let enter = |event: u32, sequence: u16, response_type: u32| {
        Input::Polled(Some((XEvent::EnterNotify { event }, Stamp { sequence, response_type })))
    };
    l.advance(enter(70, 40, 3));
    assert_eq!(l.wm().focused_window(), Some(50));
    l.advance(enter(70, 41, 7));
    assert_eq!(l.wm().focused_window(), Some(50));
    l.advance(enter(70, 41, 8));
    assert_eq!(l.wm().focused_window(), Some(70));
}
