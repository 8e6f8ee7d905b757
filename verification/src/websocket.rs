//! The push channel: what a connection does with each thing that its
//! socket yields.
//!
//! Reading from the socket and writing to it is the caller's part. After
//! each read the caller hands over what came, and carries out the action
//! that it gets back.

use vstd::prelude::*;
use crate::osc::Packet;
use crate::wire::{decode, packet_mirrors, udp_decoded};

verus! {

/// The commands that a client sends.
#[derive(Clone, Copy, Debug, PartialEq, Eq, Structural)]
pub enum ClientServerCmd {
    /// Report changes at a path to this connection.
    Listen,
    /// Stop reporting changes at a path.
    Ignore,
}

/// The commands that the server sends.
#[derive(Clone, Copy, Debug, PartialEq, Eq, Structural)]
pub enum ServerClientCmd {
    PathChanged,
    PathRenamed,
    PathRemoved,
    PathAdded,
}

/// A command with the path that it is about.
#[derive(Debug, PartialEq, Eq)]
pub struct WSCommandPacket<T> {
    pub command: T,
    pub data: String,
}

/// A frame that was read from the socket.
#[derive(Debug)]
pub enum Frame {
    /// A binary frame: the bytes of an OSC packet.
    Binary(Vec<u8>),
    /// A text frame that holds a command.
    Command(WSCommandPacket<ClientServerCmd>),
    /// A text frame that holds no command.
    Malformed,
    /// A ping, with its payload.
    Ping(Vec<u8>),
    /// A pong.
    Pong,
    /// The peer closes the connection.
    Close,
}

/// Why a read gave no frame.
#[derive(Clone, Copy, Debug, PartialEq, Eq, Structural)]
pub enum ReadError {
    /// The connection was closed in good order.
    ConnectionClosed,
    /// The connection had been closed before the read.
    AlreadyClosed,
    /// Nothing came within the read timeout.
    TimedOut,
    /// Nothing is there to read yet.
    WouldBlock,
    /// The socket failed in any other way.
    Io,
    /// The peer broke the protocol, or another error that leaves the
    /// connection standing.
    Other,
}

/// What the socket of a connection yields.
#[derive(Debug)]
pub enum Event {
    /// The opening handshake has ended, well or not.
    Handshake(bool),
    /// A read gave a frame.
    Frame(Frame),
    /// A read gave an error.
    Failure(ReadError),
}

/// Where a connection stands.
#[derive(Clone, Copy, Debug, PartialEq, Eq, Structural)]
pub enum ConnState {
    /// The socket was accepted; the handshake is not done.
    Accepted,
    /// Frames are read and answered.
    Open,
    /// The peer has asked to close.
    Closing,
    /// The connection is gone.
    Closed,
}

/// What the caller is to do next.
#[derive(Debug)]
pub enum Action {
    /// Read again.
    Wait,
    /// Dispatch the packet against the tree, then read again.
    Dispatch(Packet),
    /// Record that this connection listens at the path, then read again.
    Listen(String),
    /// Record that this connection no longer listens at the path, then
    /// read again.
    Ignore(String),
    /// Send a pong with this payload, then read again.
    Pong(Vec<u8>),
    /// Leave the read loop.
    Leave,
}

/// A read error that ends the connection. To have waited in vain is none,
/// and an error of the protocol leaves the connection standing.
pub open spec fn fatal(e: ReadError) -> bool {
    e == ReadError::ConnectionClosed || e == ReadError::AlreadyClosed || e == ReadError::Io
}

/// Where the connection stands after `event`.
pub open spec fn next_state(state: ConnState, event: Event) -> ConnState {
    match state {
        ConnState::Accepted => match event {
            Event::Handshake(true) => ConnState::Open,
            Event::Handshake(false) => ConnState::Closed,
            _ => ConnState::Accepted,
        },
        ConnState::Open => match event {
            Event::Frame(Frame::Close) => ConnState::Closing,
            Event::Failure(e) => if fatal(e) {
                ConnState::Closed
            } else {
                ConnState::Open
            },
            _ => ConnState::Open,
        },
        ConnState::Closing => match event {
            Event::Failure(e) => if fatal(e) {
                ConnState::Closed
            } else {
                ConnState::Closing
            },
            _ => ConnState::Closing,
        },
        ConnState::Closed => ConnState::Closed,
    }
}

/// `action` is what `frame` asks of an open connection.
///
/// A binary frame that decodes to an OSC packet asks for its dispatch; one
/// that does not is dropped. A command asks for what it names, at its
/// path. A ping asks for a pong with the same payload. A close ends the
/// reading. A pong and text that is no command ask for nothing.
pub open spec fn answers(frame: Frame, action: Action) -> bool {
    match frame {
        Frame::Binary(bytes) => match udp_decoded(bytes@) {
            Some(raw) => action matches Action::Dispatch(packet) && packet_mirrors(&packet, &raw),
            None => action is Wait,
        },
        Frame::Command(packet) => match packet.command {
            ClientServerCmd::Listen => action == Action::Listen(packet.data),
            ClientServerCmd::Ignore => action == Action::Ignore(packet.data),
        },
        Frame::Malformed => action is Wait,
        Frame::Ping(payload) => action == Action::Pong(payload),
        Frame::Pong => action is Wait,
        Frame::Close => action is Leave,
    }
}

/// `action` is what the caller owes after `event` came in `state`.
///
/// Before the handshake is done nothing is owed but to go on, or to leave
/// where it failed. An open connection answers its frames, goes on after a
/// read that only timed out or broke the protocol, and leaves after a
/// fatal error. A connection that is closing or closed leaves.
pub open spec fn reacts(state: ConnState, event: Event, action: Action) -> bool {
    match state {
        ConnState::Accepted => match event {
            Event::Handshake(false) => action is Leave,
            _ => action is Wait,
        },
        ConnState::Open => match event {
            Event::Handshake(_) => action is Wait,
            Event::Frame(frame) => answers(frame, action),
            Event::Failure(e) => if fatal(e) {
                action is Leave
            } else {
                action is Wait
            },
        },
        ConnState::Closing => action is Leave,
        ConnState::Closed => action is Leave,
    }
}

fn is_fatal(e: ReadError) -> (r: bool)
    ensures
        r == fatal(e),
{
    match e {
        ReadError::ConnectionClosed => true,
        ReadError::AlreadyClosed => true,
        ReadError::Io => true,
        _ => false,
    }
}

/// Decides what a frame asks of an open connection.
pub fn answer(frame: Frame) -> (action: Action)
    ensures
        answers(frame, action),
{
    match frame {
        Frame::Binary(bytes) => match decode(bytes.as_slice()) {
            Ok(packet) => Action::Dispatch(packet),
            Err(_) => Action::Wait,
        },
        Frame::Command(packet) => match packet.command {
            ClientServerCmd::Listen => Action::Listen(packet.data),
            ClientServerCmd::Ignore => Action::Ignore(packet.data),
        },
        Frame::Malformed => Action::Wait,
        Frame::Ping(payload) => Action::Pong(payload),
        Frame::Pong => Action::Wait,
        Frame::Close => Action::Leave,
    }
}

/// One step of a connection: from where it stands and what its socket
/// yielded to where it stands then and what the caller is to do.
pub fn step(state: ConnState, event: Event) -> (r: (ConnState, Action))
    ensures
        r.0 == next_state(state, event),
        reacts(state, event, r.1),
{
    match state {
        ConnState::Accepted => match event {
            Event::Handshake(true) => (ConnState::Open, Action::Wait),
            Event::Handshake(false) => (ConnState::Closed, Action::Leave),
            _ => (ConnState::Accepted, Action::Wait),
        },
        ConnState::Open => match event {
            Event::Handshake(_) => (ConnState::Open, Action::Wait),
            Event::Frame(frame) => {
                let to = match &frame {
                    Frame::Close => ConnState::Closing,
                    _ => ConnState::Open,
                };
                (to, answer(frame))
            },
            Event::Failure(e) => if is_fatal(e) {
                (ConnState::Closed, Action::Leave)
            } else {
                (ConnState::Open, Action::Wait)
            },
        },
        ConnState::Closing => match event {
            Event::Failure(e) => if is_fatal(e) {
                (ConnState::Closed, Action::Leave)
            } else {
                (ConnState::Closing, Action::Leave)
            },
            _ => (ConnState::Closing, Action::Leave),
        },
        ConnState::Closed => (ConnState::Closed, Action::Leave),
    }
}

/// Leaving is owed just where the connection is closing or closed after
/// the step, and nothing leads out of `Closed`.
pub proof fn lemma_leave(state: ConnState, event: Event, action: Action)
    requires
        reacts(state, event, action),
    ensures
        action is Leave <==> next_state(state, event) == ConnState::Closing || next_state(
            state,
            event,
        ) == ConnState::Closed,
        state == ConnState::Closed ==> next_state(state, event) == ConnState::Closed,
        state == ConnState::Closing ==> next_state(state, event) != ConnState::Open,
        next_state(state, event) == ConnState::Accepted ==> state == ConnState::Accepted,
{
}

} // verus!
