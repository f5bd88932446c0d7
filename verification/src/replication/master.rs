//! The replica's side of replication: the handshake with the master, as the
//! decisions between what is sent and what is received.

use crate::command::ping::{Ping, PingView};
use crate::command::psync::{Psync, PsyncView};
use crate::resp::buffer::{buffer_bytes, frozen_bytes};
use crate::resp::types::{encode, parse_simple_string, RespType, RespValue};
use crate::text::{starts_with, str_eq};
use bytes::{Bytes, BytesMut};
use vstd::prelude::*;
use vstd::string::*;

verus! {

/// How far the handshake has come.
#[derive(Clone, Copy, Debug, PartialEq, Eq, Structural)]
pub enum HandshakeState {
    /// Nothing was sent yet.
    Start,
    /// `PING` was sent, and the answer is awaited.
    AwaitingPong,
    /// `PSYNC` was sent, and the answer is awaited.
    AwaitingFullResync,
    /// The handshake succeeded: the stream now carries the master's writes.
    Done,
    /// The handshake failed.
    Failed,
}

/// What happened on the stream to the master.
#[derive(Debug)]
pub enum HandshakeEvent {
    /// The stream was connected.
    Connected,
    /// Sending failed, with the reason.
    SendFailed(String),
    /// Bytes were received.
    Received(BytesMut),
    /// The stream ended.
    Closed,
    /// Receiving failed, with the reason.
    ReceiveFailed(String),
}

/// The mathematical value of a [`HandshakeEvent`].
pub enum HandshakeEventView {
    Connected,
    SendFailed(Seq<char>),
    Received(Seq<u8>),
    Closed,
    ReceiveFailed(Seq<char>),
}

impl View for HandshakeEvent {
    type V = HandshakeEventView;

    open spec fn view(&self) -> HandshakeEventView {
        match self {
            HandshakeEvent::Connected => HandshakeEventView::Connected,
            HandshakeEvent::SendFailed(e) => HandshakeEventView::SendFailed(e@),
            HandshakeEvent::Received(b) => HandshakeEventView::Received(buffer_bytes(*b)),
            HandshakeEvent::Closed => HandshakeEventView::Closed,
            HandshakeEvent::ReceiveFailed(e) => HandshakeEventView::ReceiveFailed(e@),
        }
    }
}

/// What to do next on the stream to the master.
#[derive(Debug)]
pub enum HandshakeAction {
    /// Send these bytes, then receive.
    Send(Bytes),
    /// The handshake is done: keep the stream and read the master's writes
    /// from it.
    Finished,
    /// The handshake failed, for the reason given: give up.
    Fail(String),
}

/// The mathematical value of a [`HandshakeAction`].
pub enum HandshakeActionView {
    Send(Seq<u8>),
    Finished,
    Fail(Seq<char>),
}

impl View for HandshakeAction {
    type V = HandshakeActionView;

    open spec fn view(&self) -> HandshakeActionView {
        match self {
            HandshakeAction::Send(b) => HandshakeActionView::Send(frozen_bytes(*b)),
            HandshakeAction::Finished => HandshakeActionView::Finished,
            HandshakeAction::Fail(m) => HandshakeActionView::Fail(m@),
        }
    }
}

/// The `PSYNC` that a replica without history sends.
pub open spec fn first_psync() -> PsyncView {
    PsyncView { replication_id: "?"@, offset: None }
}

/// The step that fails the handshake for a reason.
pub open spec fn fail(reason: Seq<char>) -> (HandshakeState, HandshakeActionView) {
    (HandshakeState::Failed, HandshakeActionView::Fail(reason))
}

/// The step after the answer to `PING` was received: the answer has to be
/// the simple string `PONG`, and `PSYNC` is sent then.
pub open spec fn after_pong(received: Seq<u8>) -> (HandshakeState, HandshakeActionView) {
    match parse_simple_string(received) {
        Err(e) => fail(
            "Error response for PING request to master during handshake: "@ + e.message(),
        ),
        Ok((answer, _)) => if answer == RespValue::SimpleString("PONG"@) {
            (
                HandshakeState::AwaitingFullResync,
                HandshakeActionView::Send(encode(first_psync().command())),
            )
        } else {
            fail("Invalid response for PING request to master during handshake"@)
        },
    }
}

/// The step after the answer to `PSYNC` was received: the answer has to be
/// a simple string that begins with `FULLRESYNC`.
pub open spec fn after_full_resync(received: Seq<u8>) -> (HandshakeState, HandshakeActionView) {
    match parse_simple_string(received) {
        Err(e) => fail(
            "Error response for PSYNC request to master during handshake: "@ + e.message(),
        ),
        Ok((answer, _)) => if answer is SimpleString && "FULLRESYNC"@.is_prefix_of(
            answer->SimpleString_0,
        ) {
            (HandshakeState::Done, HandshakeActionView::Finished)
        } else {
            fail("Invalid response for PSYNC request to master during handshake"@)
        },
    }
}

/// One step of the handshake: from the state and what happened on the
/// stream to the next state and what to do.
pub open spec fn handshake_step(state: HandshakeState, event: HandshakeEventView) -> (
    HandshakeState,
    HandshakeActionView,
) {
    match (state, event) {
        (HandshakeState::Start, HandshakeEventView::Connected) => (
            HandshakeState::AwaitingPong,
            HandshakeActionView::Send(encode(PingView::command())),
        ),
        (HandshakeState::AwaitingPong, HandshakeEventView::SendFailed(e)) => fail(
            "Failed to send PING to master during handshake: "@ + e,
        ),
        (HandshakeState::AwaitingPong, HandshakeEventView::ReceiveFailed(e)) => fail(
            "Failed to receive response for PING request to master during handshake: "@ + e,
        ),
        (HandshakeState::AwaitingPong, HandshakeEventView::Closed) => fail(
            "No response for PING request to master during handshake"@,
        ),
        (HandshakeState::AwaitingPong, HandshakeEventView::Received(b)) => after_pong(b),
        (HandshakeState::AwaitingFullResync, HandshakeEventView::SendFailed(e)) => fail(
            "Failed to send PSYNC to master during handshake: "@ + e,
        ),
        (HandshakeState::AwaitingFullResync, HandshakeEventView::ReceiveFailed(e)) => fail(
            "Failed to receive response for PSYNC request to master during handshake: "@ + e,
        ),
        (HandshakeState::AwaitingFullResync, HandshakeEventView::Closed) => fail(
            "No response for PSYNC request to master during handshake"@,
        ),
        (HandshakeState::AwaitingFullResync, HandshakeEventView::Received(b)) => after_full_resync(
            b,
        ),
        _ => fail("Unexpected event during handshake with master"@),
    }
}

/// The text of a reason followed by what is known of the cause.
fn reason(text: &str, cause: &str) -> (res: String)
    ensures
        res@ == text@ + cause@,
{
    let mut s = String::from_str(text);
    s.append(cause);
    s
}

/// The replica's dealings with its master.
pub struct MasterServer {}

impl MasterServer {
    /// One step of the handshake with the master: given how far the
    /// handshake has come and what happened on the stream, says how far it
    /// has come now and what to do next.
    ///
    /// The replica sends `PING` and expects the simple string `PONG`, then
    /// sends `PSYNC ? -1` and expects a simple string that begins with
    /// `FULLRESYNC`. Any other answer, an error on the stream or its end
    /// fail the handshake.
    pub fn perform_handshake(state: HandshakeState, event: HandshakeEvent) -> (res: (
        HandshakeState,
        HandshakeAction,
    ))
        ensures
            (res.0, res.1@) == handshake_step(state, event@),
    {
        match (state, event) {
            (HandshakeState::Start, HandshakeEvent::Connected) => (
                HandshakeState::AwaitingPong,
                HandshakeAction::Send(Ping::build_command().to_bytes()),
            ),
            (HandshakeState::AwaitingPong, HandshakeEvent::SendFailed(e)) => (
                HandshakeState::Failed,
                HandshakeAction::Fail(
                    reason("Failed to send PING to master during handshake: ", e.as_str()),
                ),
            ),
            (HandshakeState::AwaitingPong, HandshakeEvent::ReceiveFailed(e)) => (
                HandshakeState::Failed,
                HandshakeAction::Fail(
                    reason(
                        "Failed to receive response for PING request to master during handshake: ",
                        e.as_str(),
                    ),
                ),
            ),
            (HandshakeState::AwaitingPong, HandshakeEvent::Closed) => (
                HandshakeState::Failed,
                HandshakeAction::Fail(
                    String::from_str("No response for PING request to master during handshake"),
                ),
            ),
            (HandshakeState::AwaitingPong, HandshakeEvent::Received(b)) => Self::check_pong(b),
            (HandshakeState::AwaitingFullResync, HandshakeEvent::SendFailed(e)) => (
                HandshakeState::Failed,
                HandshakeAction::Fail(
                    reason("Failed to send PSYNC to master during handshake: ", e.as_str()),
                ),
            ),
            (HandshakeState::AwaitingFullResync, HandshakeEvent::ReceiveFailed(e)) => (
                HandshakeState::Failed,
                HandshakeAction::Fail(
                    reason(
                        "Failed to receive response for PSYNC request to master during handshake: ",
                        e.as_str(),
                    ),
                ),
            ),
            (HandshakeState::AwaitingFullResync, HandshakeEvent::Closed) => (
                HandshakeState::Failed,
                HandshakeAction::Fail(
                    String::from_str("No response for PSYNC request to master during handshake"),
                ),
            ),
            (HandshakeState::AwaitingFullResync, HandshakeEvent::Received(b)) =>
                Self::check_full_resync(b),
            _ => (
                HandshakeState::Failed,
                HandshakeAction::Fail(
                    String::from_str("Unexpected event during handshake with master"),
                ),
            ),
        }
    }

    /// Checks the answer to `PING`, and sends `PSYNC` if it is `PONG`.
    fn check_pong(received: BytesMut) -> (res: (HandshakeState, HandshakeAction))
        ensures
            (res.0, res.1@) == after_pong(buffer_bytes(received)),
    {
        match RespType::new_simple_string(received) {
            Err(e) => (
                HandshakeState::Failed,
                HandshakeAction::Fail(
                    reason(
                        "Error response for PING request to master during handshake: ",
                        e.message().as_str(),
                    ),
                ),
            ),
            Ok((answer, _)) => {
                let pong = match &answer {
                    RespType::SimpleString(s) => str_eq(s.as_str(), "PONG"),
                    _ => false,
                };
                if pong {
                    let psync = Psync::new(String::from_str("?"), None);
                    (
                        HandshakeState::AwaitingFullResync,
                        HandshakeAction::Send(psync.build_command().to_bytes()),
                    )
                } else {
                    (
                        HandshakeState::Failed,
                        HandshakeAction::Fail(
                            String::from_str(
                                "Invalid response for PING request to master during handshake",
                            ),
                        ),
                    )
                }
            },
        }
    }

    /// Checks the answer to `PSYNC`.
    fn check_full_resync(received: BytesMut) -> (res: (HandshakeState, HandshakeAction))
        ensures
            (res.0, res.1@) == after_full_resync(buffer_bytes(received)),
    {
        match RespType::new_simple_string(received) {
            Err(e) => (
                HandshakeState::Failed,
                HandshakeAction::Fail(
                    reason(
                        "Error response for PSYNC request to master during handshake: ",
                        e.message().as_str(),
                    ),
                ),
            ),
            Ok((answer, _)) => {
                let full = match &answer {
                    RespType::SimpleString(s) => starts_with(s.as_str(), "FULLRESYNC"),
                    _ => false,
                };
                if full {
                    (HandshakeState::Done, HandshakeAction::Finished)
                } else {
                    (
                        HandshakeState::Failed,
                        HandshakeAction::Fail(
                            String::from_str(
                                "Invalid response for PSYNC request to master during handshake",
                            ),
                        ),
                    )
                }
            },
        }
    }
}

} // verus!
