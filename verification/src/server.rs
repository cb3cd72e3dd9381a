//! The decisions of the listening server.
//!
//! The server binds its endpoint once and then serves one connection after
//! the other: it accepts a connection, reads the one message that the
//! connection carries until the peer closes its sending side, decodes the
//! bytes and hands the event to its consumer. All waiting is done by the
//! caller. The caller performs the work that `ServerState::work` names and
//! reports how it ended; `ServerState::step` decodes what was read, and
//! decides what state follows and what the consumer is told.

use vstd::prelude::*;
use crate::event::{Event, EventView};
use crate::wire::{decoded_bytes, lemma_decode_encode_bytes, wire_bytes, DecodeError};

verus! {

/// Where the server stands between two pieces of outside work.
#[derive(Debug, Clone, Copy, PartialEq, Eq, Structural)]
pub enum ServerState {
    /// Not bound yet.
    Idle,
    /// Listening; no connection is open.
    AwaitingConnection,
    /// A connection is open and its message is being read.
    ReadingMessage,
    /// Binding failed. Nothing follows.
    Stopped,
}

/// The outside work that a state asks for.
#[derive(Debug, Clone, Copy, PartialEq, Eq, Structural)]
pub enum Work {
    /// Remove a stale endpoint at the path, bind and listen.
    Bind,
    /// Wait for the next connection.
    Accept,
    /// Read the connection until the peer closes its sending side.
    Read,
    /// Give up: the server could not start.
    Stop,
}

/// How a piece of outside work ended.
#[derive(Debug, Clone, PartialEq, Eq)]
pub enum Outcome {
    /// The endpoint is bound and listening.
    Bound,
    /// The endpoint could not be bound.
    BindFailed,
    /// A connection was accepted.
    Accepted,
    /// Accepting a connection failed.
    AcceptFailed,
    /// The peer closed its sending side; these are all the bytes it sent.
    Message(Vec<u8>),
    /// Reading from the connection failed.
    ReadFailed,
}

/// What a step tells the consumer.
#[derive(Debug, Clone, PartialEq, Eq)]
pub enum Report {
    /// Nothing to tell.
    Nothing,
    /// An event arrived.
    Received(Event),
    /// A message arrived that is no event.
    Rejected(DecodeError),
    /// The transport failed.
    TransportFailed,
}

/// An `Outcome` as a value.
pub enum OutcomeView {
    Bound,
    BindFailed,
    Accepted,
    AcceptFailed,
    Message(Seq<u8>),
    ReadFailed,
}

/// A `Report` as a value.
pub enum ReportView {
    Nothing,
    Received(EventView),
    Rejected,
    TransportFailed,
}

impl View for Outcome {
    type V = OutcomeView;

    open spec fn view(&self) -> OutcomeView {
        match self {
            Outcome::Bound => OutcomeView::Bound,
            Outcome::BindFailed => OutcomeView::BindFailed,
            Outcome::Accepted => OutcomeView::Accepted,
            Outcome::AcceptFailed => OutcomeView::AcceptFailed,
            Outcome::Message(bytes) => OutcomeView::Message(bytes@),
            Outcome::ReadFailed => OutcomeView::ReadFailed,
        }
    }
}

impl View for Report {
    type V = ReportView;

    open spec fn view(&self) -> ReportView {
        match self {
            Report::Nothing => ReportView::Nothing,
            Report::Received(event) => ReportView::Received(event@),
            Report::Rejected(_) => ReportView::Rejected,
            Report::TransportFailed => ReportView::TransportFailed,
        }
    }
}

/// What is told of a message: the event it holds, or that it holds none.
pub open spec fn report_of(message: Seq<u8>) -> ReportView {
    match decoded_bytes(message) {
        Some(event) => ReportView::Received(event),
        None => ReportView::Rejected,
    }
}

/// The state that follows and what the consumer is told, when the work of
/// `state` ended with `outcome`.
///
/// A failure to bind stops the server. Once it listens, nothing stops it: a
/// failed accept, a failed read and a message that is no event are each
/// told, and the server awaits the next connection. An outcome that does not
/// belong to the work of the state changes nothing.
pub open spec fn next(state: ServerState, outcome: OutcomeView) -> (ServerState, ReportView) {
    match (state, outcome) {
        (ServerState::Idle, OutcomeView::Bound) => (
            ServerState::AwaitingConnection,
            ReportView::Nothing,
        ),
        (ServerState::Idle, OutcomeView::BindFailed) => (
            ServerState::Stopped,
            ReportView::TransportFailed,
        ),
        (ServerState::AwaitingConnection, OutcomeView::Accepted) => (
            ServerState::ReadingMessage,
            ReportView::Nothing,
        ),
        (ServerState::AwaitingConnection, OutcomeView::AcceptFailed) => (
            ServerState::AwaitingConnection,
            ReportView::TransportFailed,
        ),
        (ServerState::ReadingMessage, OutcomeView::Message(message)) => (
            ServerState::AwaitingConnection,
            report_of(message),
        ),
        (ServerState::ReadingMessage, OutcomeView::ReadFailed) => (
            ServerState::AwaitingConnection,
            ReportView::TransportFailed,
        ),
        _ => (state, ReportView::Nothing),
    }
}

impl ServerState {
    /// The server has bound its endpoint and serves connections.
    pub open spec fn is_serving(self) -> bool {
        self == ServerState::AwaitingConnection || self == ServerState::ReadingMessage
    }

    /// The outside work that the state asks for.
    pub open spec fn work_spec(self) -> Work {
        match self {
            ServerState::Idle => Work::Bind,
            ServerState::AwaitingConnection => Work::Accept,
            ServerState::ReadingMessage => Work::Read,
            ServerState::Stopped => Work::Stop,
        }
    }

    /// The state of a server that has not started.
    pub fn new() -> (state: ServerState)
        ensures
            state == ServerState::Idle,
    {
        ServerState::Idle
    }

    /// The outside work that the state asks for.
    #[verifier::when_used_as_spec(work_spec)]
    pub fn work(self) -> (work: Work)
        ensures
            work == self.work_spec(),
    {
        match self {
            ServerState::Idle => Work::Bind,
            ServerState::AwaitingConnection => Work::Accept,
            ServerState::ReadingMessage => Work::Read,
            ServerState::Stopped => Work::Stop,
        }
    }

    /// Takes the outcome of the work that the state asked for, and gives the
    /// state that follows and what the consumer is told.
    pub fn step(self, outcome: Outcome) -> (r: (ServerState, Report))
        ensures
            (r.0, r.1@) == next(self, outcome@),
    {
        match self {
            ServerState::Idle => match outcome {
                Outcome::Bound => (ServerState::AwaitingConnection, Report::Nothing),
                Outcome::BindFailed => (ServerState::Stopped, Report::TransportFailed),
                _ => (self, Report::Nothing),
            },
            ServerState::AwaitingConnection => match outcome {
                Outcome::Accepted => (ServerState::ReadingMessage, Report::Nothing),
                Outcome::AcceptFailed => (ServerState::AwaitingConnection, Report::TransportFailed),
                _ => (self, Report::Nothing),
            },
            ServerState::ReadingMessage => match outcome {
                Outcome::Message(message) => match Event::decode_bytes(message.as_slice()) {
                    Ok(event) => (ServerState::AwaitingConnection, Report::Received(event)),
                    Err(error) => (ServerState::AwaitingConnection, Report::Rejected(error)),
                },
                Outcome::ReadFailed => (ServerState::AwaitingConnection, Report::TransportFailed),
                _ => (self, Report::Nothing),
            },
            ServerState::Stopped => (self, Report::Nothing),
        }
    }
}

/// A server that serves goes on serving, whatever happens outside.
pub proof fn lemma_serving_never_ends(state: ServerState, outcome: OutcomeView)
    requires
        state.is_serving(),
    ensures
        next(state, outcome).0.is_serving(),
{
}

/// A message that is no event is rejected, and the server awaits the next
/// connection.
pub proof fn lemma_invalid_message_rejected(message: Seq<u8>)
    requires
        decoded_bytes(message) is None,
    ensures
        next(ServerState::ReadingMessage, OutcomeView::Message(message)) == (
            ServerState::AwaitingConnection,
            ReportView::Rejected,
        ),
{
}

/// The wire form of an event is received as that event, and the server
/// awaits the next connection.
pub proof fn lemma_encoded_event_received(event: EventView)
    ensures
        next(ServerState::ReadingMessage, OutcomeView::Message(wire_bytes(event))) == (
            ServerState::AwaitingConnection,
            ReportView::Received(event),
        ),
{
    lemma_decode_encode_bytes(event);
}

/// Starting up is binding: a bound server awaits its first connection, and
/// a server that could not bind has stopped for good.
pub proof fn lemma_startup(outcome: OutcomeView)
    ensures
        next(ServerState::Idle, OutcomeView::Bound).0 == ServerState::AwaitingConnection,
        next(ServerState::Idle, OutcomeView::BindFailed).0 == ServerState::Stopped,
        next(ServerState::Stopped, outcome).0 == ServerState::Stopped,
{
}

} // verus!
