//! The handshake of a tunnel session, on either end.
//!
//! Roles are asymmetric and fixed:
//! - the **agent** ([`AgentHandshake`]) dials out, opens the one **control
//!   stream**, sends its request and awaits the answer;
//! - the **relay** ([`RelayHandshake`]) accepts the control stream, receives the
//!   request, applies its own policy, and answers.
//!
//! Either end is a machine: the session layer performs the action that it was
//! given, and hands what came of it back as the next event.

use crate::error::{ProtoError, ProtoErrorView};
use crate::frame::{Frame, FrameView, TunnelError};
use crate::handshake::{HandshakeRequest, HandshakeResponse};
use vstd::prelude::*;

verus! {

/// Where the agent's handshake stands.
pub enum AgentHandshake {
    /// The control stream is being opened; the request is still to be sent.
    Opening(HandshakeRequest),
    /// The request is being sent.
    Sending,
    /// The relay's answer is awaited.
    Receiving,
    /// The handshake is over.
    Done,
}

/// What happened on the agent's end.
pub enum AgentEvent {
    /// The control stream was opened, or could not be.
    Opened(Result<(), ProtoError>),
    /// The frame was sent, or could not be.
    Sent(Result<(), ProtoError>),
    /// A frame was received, or the stream ended, or neither could be learnt.
    Received(Result<Option<Frame>, ProtoError>),
}

/// What the agent's end does next.
pub enum AgentAction {
    /// Start the mux over the transport and open the control stream.
    Open,
    /// Send a frame on the control stream.
    Send(Frame),
    /// Receive a frame from the control stream.
    Receive,
    /// The tunnel is open.
    Establish(HandshakeResponse),
    /// There is no tunnel.
    Fail(ProtoError),
}

/// What the agent makes of a first frame that answers no handshake.
pub const EXPECTED_ANSWER: &'static str = "expected a handshake response or an error";

/// What the relay makes of a first frame that asks for no tunnel.
pub const EXPECTED_REQUEST: &'static str = "expected a handshake request";

/// Whether `result` is what the relay's first frame, or the end of the stream, means to
/// the agent.
pub open spec fn concludes(
    reply: Option<Frame>,
    result: Result<HandshakeResponse, ProtoError>,
) -> bool {
    match reply {
        Some(Frame::HandshakeResponse(response)) => result == Ok::<HandshakeResponse, ProtoError>(
            response,
        ),
        Some(Frame::Error(refusal)) => result matches Err(error) && error@
            == ProtoErrorView::Rejected(refusal.code@ + ": "@ + refusal.message@),
        Some(_) => result matches Err(error) && error@ == ProtoErrorView::Protocol(
            EXPECTED_ANSWER@,
        ),
        None => result == Err::<HandshakeResponse, ProtoError>(ProtoError::SessionClosed),
    }
}

/// What the relay's first frame means to the agent: a response opens the tunnel, an
/// in-band error refuses it, and any other frame is out of order. Without a frame the
/// session was closed.
pub fn conclude(reply: Option<Frame>) -> (result: Result<HandshakeResponse, ProtoError>)
    ensures
        concludes(reply, result),
{
    match reply {
        Some(Frame::HandshakeResponse(response)) => Ok(response),
        Some(Frame::Error(refusal)) => {
            let mut reason = refusal.code;
            reason.append(": ");
            reason.append(refusal.message.as_str());
            Err(ProtoError::Rejected(reason))
        },
        Some(_) => Err(ProtoError::Protocol(EXPECTED_ANSWER.to_owned())),
        None => Err(ProtoError::SessionClosed),
    }
}

impl AgentHandshake {
    /// Whether the handshake waits for this event.
    pub open spec fn awaits(self, event: AgentEvent) -> bool {
        match event {
            AgentEvent::Opened(_) => self is Opening,
            AgentEvent::Sent(_) => self is Sending,
            AgentEvent::Received(_) => self is Receiving,
        }
    }

    /// Whether a handshake for `request` starts in this state with this action.
    pub open spec fn starts(self, request: HandshakeRequest, action: AgentAction) -> bool {
        if request.spec.is_valid() {
            self == AgentHandshake::Opening(request) && action == AgentAction::Open
        } else {
            &&& self == AgentHandshake::Done
            &&& action matches AgentAction::Fail(error) && error@ == ProtoErrorView::InvalidSpec(
                "e2ee trust requires private exposure (mcpg-to-mcpg only)"@,
            )
        }
    }

    /// Whether the event leads from this state to `after` with this action.
    pub open spec fn steps(self, event: AgentEvent, after: Self, action: AgentAction) -> bool {
        match (self, event) {
            (AgentHandshake::Opening(request), AgentEvent::Opened(Ok(_))) => {
                &&& after == AgentHandshake::Sending
                &&& action == AgentAction::Send(Frame::HandshakeRequest(request))
            },
            (AgentHandshake::Opening(_), AgentEvent::Opened(Err(error))) => {
                &&& after == AgentHandshake::Done
                &&& action == AgentAction::Fail(error)
            },
            (AgentHandshake::Sending, AgentEvent::Sent(Ok(_))) => {
                &&& after == AgentHandshake::Receiving
                &&& action == AgentAction::Receive
            },
            (AgentHandshake::Sending, AgentEvent::Sent(Err(error))) => {
                &&& after == AgentHandshake::Done
                &&& action == AgentAction::Fail(error)
            },
            (AgentHandshake::Receiving, AgentEvent::Received(Ok(reply))) => {
                &&& after == AgentHandshake::Done
                &&& match action {
                    AgentAction::Establish(response) => concludes(reply, Ok(response)),
                    AgentAction::Fail(error) => concludes(reply, Err(error)),
                    _ => false,
                }
            },
            (AgentHandshake::Receiving, AgentEvent::Received(Err(error))) => {
                &&& after == AgentHandshake::Done
                &&& action == AgentAction::Fail(error)
            },
            _ => false,
        }
    }

    /// Starts the handshake. Validates the spec locally first so a malformed request
    /// never leaves the machine.
    pub fn start(request: HandshakeRequest) -> (started: (Self, AgentAction))
        ensures
            started.0.starts(request, started.1),
    {
        match request.spec.validate() {
            Ok(()) => (AgentHandshake::Opening(request), AgentAction::Open),
            Err(error) => (AgentHandshake::Done, AgentAction::Fail(error)),
        }
    }

    /// Takes note of an event and says what to do next.
    pub fn step(self, event: AgentEvent) -> (stepped: (Self, AgentAction))
        requires
            self.awaits(event),
        ensures
            self.steps(event, stepped.0, stepped.1),
    {
        match self {
            AgentHandshake::Opening(request) => match event {
                AgentEvent::Opened(Ok(())) => (
                    AgentHandshake::Sending,
                    AgentAction::Send(Frame::HandshakeRequest(request)),
                ),
                AgentEvent::Opened(Err(error)) => (AgentHandshake::Done, AgentAction::Fail(error)),
                _ => (AgentHandshake::Done, AgentAction::Fail(ProtoError::SessionClosed)),
            },
            AgentHandshake::Sending => match event {
                AgentEvent::Sent(Ok(())) => (AgentHandshake::Receiving, AgentAction::Receive),
                AgentEvent::Sent(Err(error)) => (AgentHandshake::Done, AgentAction::Fail(error)),
                _ => (AgentHandshake::Done, AgentAction::Fail(ProtoError::SessionClosed)),
            },
            AgentHandshake::Receiving => match event {
                AgentEvent::Received(Ok(reply)) => match conclude(reply) {
                    Ok(response) => (AgentHandshake::Done, AgentAction::Establish(response)),
                    Err(error) => (AgentHandshake::Done, AgentAction::Fail(error)),
                },
                AgentEvent::Received(Err(error)) => (
                    AgentHandshake::Done,
                    AgentAction::Fail(error),
                ),
                _ => (AgentHandshake::Done, AgentAction::Fail(ProtoError::SessionClosed)),
            },
            AgentHandshake::Done => (
                AgentHandshake::Done,
                AgentAction::Fail(ProtoError::SessionClosed),
            ),
        }
    }
}

/// Where the relay's handshake stands.
pub enum RelayHandshake {
    /// The control stream is awaited.
    Accepting,
    /// The agent's request is awaited.
    Receiving,
    /// The relay's policy is being applied to the request.
    Deciding(HandshakeRequest),
    /// The response to the request is being sent.
    Confirming(HandshakeRequest),
    /// The refusal is being sent.
    Rejecting(ProtoError),
    /// The handshake is over.
    Done,
}

/// What happened on the relay's end.
pub enum RelayEvent {
    /// The control stream was accepted, or the session ended first.
    Accepted(bool),
    /// A frame was received, or the stream ended, or neither could be learnt.
    Received(Result<Option<Frame>, ProtoError>),
    /// The relay's policy has decided (auth, quota, entitlement, suspension).
    Decided(Result<HandshakeResponse, ProtoError>),
    /// The frame was sent, or could not be.
    Sent(Result<(), ProtoError>),
}

/// What the relay's end does next.
pub enum RelayAction {
    /// Start the mux over the transport and accept the control stream.
    Accept,
    /// Receive a frame from the control stream.
    Receive,
    /// Apply the relay's policy to [`RelayHandshake::request`].
    Decide,
    /// Send a frame on the control stream.
    Send(Frame),
    /// The tunnel that was requested is open.
    Establish(HandshakeRequest),
    /// There is no tunnel.
    Fail(ProtoError),
}

/// The code of the in-band error that answers a refused handshake.
pub const REJECTED_CODE: &'static str = "handshake_rejected";

/// Whether `frame` tells the peer that its handshake was refused with `error`.
pub open spec fn refuses(frame: Frame, error: ProtoError) -> bool {
    frame@ matches FrameView::Error(refusal) && refusal.code == REJECTED_CODE@ && error.reads_as(
        refusal.message,
    )
}

/// The in-band answer to a handshake that was refused with `error`.
pub fn refusal(error: &ProtoError) -> (frame: Frame)
    ensures
        refuses(frame, *error),
{
    Frame::Error(TunnelError::new(REJECTED_CODE, error.to_string()))
}

impl RelayHandshake {
    /// Whether the handshake waits for this event.
    pub open spec fn awaits(self, event: RelayEvent) -> bool {
        match event {
            RelayEvent::Accepted(_) => self is Accepting,
            RelayEvent::Received(_) => self is Receiving,
            RelayEvent::Decided(_) => self is Deciding,
            RelayEvent::Sent(_) => self is Confirming || self is Rejecting,
        }
    }

    /// Whether the event leads from this state to `after` with this action.
    pub open spec fn steps(self, event: RelayEvent, after: Self, action: RelayAction) -> bool {
        match (self, event) {
            (RelayHandshake::Accepting, RelayEvent::Accepted(true)) => {
                &&& after == RelayHandshake::Receiving
                &&& action == RelayAction::Receive
            },
            (RelayHandshake::Accepting, RelayEvent::Accepted(false)) => {
                &&& after == RelayHandshake::Done
                &&& action == RelayAction::Fail(ProtoError::SessionClosed)
            },
            (
                RelayHandshake::Receiving,
                RelayEvent::Received(Ok(Some(Frame::HandshakeRequest(request)))),
            ) => {
                &&& after == RelayHandshake::Deciding(request)
                &&& action == RelayAction::Decide
            },
            (RelayHandshake::Receiving, RelayEvent::Received(Ok(Some(_)))) => {
                &&& after == RelayHandshake::Done
                &&& action matches RelayAction::Fail(error) && error@ == ProtoErrorView::Protocol(
                    EXPECTED_REQUEST@,
                )
            },
            (RelayHandshake::Receiving, RelayEvent::Received(Ok(None))) => {
                &&& after == RelayHandshake::Done
                &&& action == RelayAction::Fail(ProtoError::SessionClosed)
            },
            (RelayHandshake::Receiving, RelayEvent::Received(Err(error))) => {
                &&& after == RelayHandshake::Done
                &&& action == RelayAction::Fail(error)
            },
            (RelayHandshake::Deciding(request), RelayEvent::Decided(Ok(response))) => {
                &&& after == RelayHandshake::Confirming(request)
                &&& action == RelayAction::Send(Frame::HandshakeResponse(response))
            },
            (RelayHandshake::Deciding(_), RelayEvent::Decided(Err(error))) => {
                &&& after == RelayHandshake::Rejecting(error)
                &&& action matches RelayAction::Send(frame) && refuses(frame, error)
            },
            (RelayHandshake::Confirming(request), RelayEvent::Sent(Ok(_))) => {
                &&& after == RelayHandshake::Done
                &&& action == RelayAction::Establish(request)
            },
            (RelayHandshake::Confirming(_), RelayEvent::Sent(Err(error))) => {
                &&& after == RelayHandshake::Done
                &&& action == RelayAction::Fail(error)
            },
            (RelayHandshake::Rejecting(error), RelayEvent::Sent(_)) => {
                &&& after == RelayHandshake::Done
                &&& action == RelayAction::Fail(error)
            },
            _ => false,
        }
    }

    /// Starts the handshake.
    pub fn start() -> (started: (Self, RelayAction))
        ensures
            started == (RelayHandshake::Accepting, RelayAction::Accept),
    {
        (RelayHandshake::Accepting, RelayAction::Accept)
    }

    /// The request that the relay's policy is being applied to.
    pub fn request(&self) -> (request: Option<&HandshakeRequest>)
        ensures
            request == (match self {
                RelayHandshake::Deciding(request) => Some(request),
                _ => None,
            }),
    {
        match self {
            RelayHandshake::Deciding(request) => Some(request),
            _ => None,
        }
    }

    /// Takes note of an event and says what to do next. A request that the relay's
    /// policy refused is answered with an in-band error before the handshake fails.
    pub fn step(self, event: RelayEvent) -> (stepped: (Self, RelayAction))
        requires
            self.awaits(event),
        ensures
            self.steps(event, stepped.0, stepped.1),
    {
        match self {
            RelayHandshake::Accepting => match event {
                RelayEvent::Accepted(true) => (RelayHandshake::Receiving, RelayAction::Receive),
                _ => (RelayHandshake::Done, RelayAction::Fail(ProtoError::SessionClosed)),
            },
            RelayHandshake::Receiving => match event {
                RelayEvent::Received(Ok(Some(Frame::HandshakeRequest(request)))) => (
                    RelayHandshake::Deciding(request),
                    RelayAction::Decide,
                ),
                RelayEvent::Received(Ok(Some(_))) => (
                    RelayHandshake::Done,
                    RelayAction::Fail(ProtoError::Protocol(EXPECTED_REQUEST.to_owned())),
                ),
                RelayEvent::Received(Err(error)) => (
                    RelayHandshake::Done,
                    RelayAction::Fail(error),
                ),
                _ => (RelayHandshake::Done, RelayAction::Fail(ProtoError::SessionClosed)),
            },
            RelayHandshake::Deciding(request) => match event {
                RelayEvent::Decided(Ok(response)) => (
                    RelayHandshake::Confirming(request),
                    RelayAction::Send(Frame::HandshakeResponse(response)),
                ),
                RelayEvent::Decided(Err(error)) => {
                    let frame = refusal(&error);
                    (RelayHandshake::Rejecting(error), RelayAction::Send(frame))
                },
                _ => (RelayHandshake::Done, RelayAction::Fail(ProtoError::SessionClosed)),
            },
            RelayHandshake::Confirming(request) => match event {
                RelayEvent::Sent(Ok(())) => (RelayHandshake::Done, RelayAction::Establish(request)),
                RelayEvent::Sent(Err(error)) => (RelayHandshake::Done, RelayAction::Fail(error)),
                _ => (RelayHandshake::Done, RelayAction::Fail(ProtoError::SessionClosed)),
            },
            RelayHandshake::Rejecting(error) => (RelayHandshake::Done, RelayAction::Fail(error)),
            RelayHandshake::Done => (
                RelayHandshake::Done,
                RelayAction::Fail(ProtoError::SessionClosed),
            ),
        }
    }
}

} // verus!
