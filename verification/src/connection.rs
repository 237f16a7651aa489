//! One player's connection: what it does with each thing the transport reports.

use vstd::prelude::*;

verus! {

/// Whether a connection still reads frames.
#[derive(Debug, Clone, Copy, PartialEq, Eq, Structural)]
pub enum ConnectionState {
    /// Frames are read and answered.
    Open,
    /// Nothing is read any more; a closed connection never opens again.
    Closed,
}

/// What the transport reports to a connection.
#[derive(Debug)]
pub enum Event {
    /// A frame arrived, with this text.
    Frame(String),
    /// The peer ended the stream.
    EndOfStream,
    /// Reading or writing failed.
    TransportError,
}

/// What a connection does next.
#[derive(Debug)]
pub enum Action {
    /// Hand this text to the session and write its answer back as one frame,
    /// before the next frame is read.
    Answer(String),
    /// Give the connection up.
    Release,
}

/// The state after `event`: an open connection stays open on a frame, and
/// everything else closes it.
pub open spec fn next_state(state: ConnectionState, event: Event) -> ConnectionState {
    if state == ConnectionState::Open && event is Frame {
        ConnectionState::Open
    } else {
        ConnectionState::Closed
    }
}

/// What is done about `event`: an open connection answers a frame, and
/// everything else releases the connection.
pub open spec fn next_action(state: ConnectionState, event: Event) -> Action {
    match event {
        Event::Frame(text) if state == ConnectionState::Open => Action::Answer(text),
        _ => Action::Release,
    }
}

/// One step of a connection: the state it goes to on `event`, and what it does.
pub fn step(state: ConnectionState, event: Event) -> (next: (ConnectionState, Action))
    ensures
        next.0 == next_state(state, event),
        next.1 == next_action(state, event),
{
    match state {
        ConnectionState::Open => match event {
            Event::Frame(text) => (ConnectionState::Open, Action::Answer(text)),
            Event::EndOfStream => (ConnectionState::Closed, Action::Release),
            Event::TransportError => (ConnectionState::Closed, Action::Release),
        },
        ConnectionState::Closed => (ConnectionState::Closed, Action::Release),
    }
}

} // verus!
