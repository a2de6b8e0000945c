//! The control channel: one command for each connection.
//!
//! A worker reads a connection to its end and takes what it read as one
//! command. The commands of all workers go into one queue, which the event
//! loop empties in the order in which they came in.

use vstd::prelude::*;
use crate::commands::R3Command;

verus! {

/// How long a worker waits for a client to send, in seconds.
pub const READ_TIMEOUT_SECS: u64 = 180;

/// What a worker got from its connection.
#[derive(Debug, Clone, Copy, PartialEq, Eq)]
pub enum Received {
    /// The client sent a command and closed its side.
    Command(R3Command),
    /// The client sent something that is no command.
    Malformed,
    /// The client sent nothing to the end within the deadline.
    TimedOut,
    /// Reading failed in another way.
    Failed,
}

/// What a worker does with its connection.
#[derive(Debug, Clone, Copy, PartialEq, Eq)]
pub enum Service {
    /// Put the command into the queue, wake the event loop, send the
    /// acknowledgement and close both directions.
    Accept(R3Command),
    /// Put nothing into the queue, send the error reply and close both
    /// directions.
    Refuse,
    /// Leave the connection without a word.
    Abandon,
    /// The read error has no remedy: fail.
    Fail,
}

/// What the worker of a connection does.
pub open spec fn service_of(received: Received) -> Service {
    match received {
        Received::Command(command) => Service::Accept(command),
        Received::Malformed => Service::Refuse,
        Received::TimedOut => Service::Abandon,
        Received::Failed => Service::Fail,
    }
}

/// What the worker of a connection does with what it received.
pub fn serve(received: Received) -> (service: Service)
    ensures
        service == service_of(received),
{
    match received {
        Received::Command(command) => Service::Accept(command),
        Received::Malformed => Service::Refuse,
        Received::TimedOut => Service::Abandon,
        Received::Failed => Service::Fail,
    }
}

/// The reply to a command that was taken.
pub fn acknowledgement() -> (text: &'static str)
    ensures
        text@ == "Hello from the server!"@,
{
    "Hello from the server!"
}

/// The reply to a message that is no command.
pub fn refusal() -> (text: &'static str)
    ensures
        text@ == "Malformed command"@,
{
    "Malformed command"
}

/// The commands that wait for the event loop, oldest first.
pub struct CommandQueue {
    commands: Vec<R3Command>,
}

impl View for CommandQueue {
    type V = Seq<R3Command>;

    closed spec fn view(&self) -> Seq<R3Command> {
        self.commands@
    }
}

impl CommandQueue {
    /// A queue without commands.
    pub fn new() -> (queue: CommandQueue)
        ensures
            queue@ == Seq::<R3Command>::empty(),
    {
        CommandQueue { commands: Vec::new() }
    }

    /// Puts a command behind those that wait.
    pub fn push(&mut self, command: R3Command)
        ensures
            final(self)@ == old(self)@.push(command),
    {
        self.commands.push(command);
    }

    /// Takes every command out of the queue, oldest first.
    pub fn take_all(&mut self) -> (taken: Vec<R3Command>)
        ensures
            taken@ == old(self)@,
            final(self)@ == Seq::<R3Command>::empty(),
    {
        let mut taken: Vec<R3Command> = Vec::new();
        taken.append(&mut self.commands);
        proof {
            assert(taken@ =~= old(self)@);
        }
        taken
    }

    /// How many commands wait.
    pub fn len(&self) -> (n: usize)
        ensures
            n == self@.len(),
    {
        self.commands.len()
    }
}

} // verus!
