//! What the handshake of either end is for: what was asked for and accepted is opened.

use super::wording::{is_sentence_for, lemma_sentence};
use crate::error::ProtoError;
use crate::frame::Frame;
use crate::handshake::{HandshakeRequest, HandshakeResponse};
use crate::session::{
    conclude, refusal, AgentAction, AgentEvent, AgentHandshake, RelayAction, RelayEvent,
    RelayHandshake,
};
use vstd::prelude::*;

verus! {

/// Every request with a valid spec, whatever its other fields, makes the agent open the
/// control stream, keeping the request; any other request fails at once.
pub proof fn agent_dials_for_every_valid_spec(
    request: HandshakeRequest,
    started: (AgentHandshake, AgentAction),
)
    requires
        call_ensures(AgentHandshake::start, (request,), started),
    ensures
        request.spec.mode is RelayTerminated || request.spec.exposure is Private ==> {
            &&& started.1 is Open
            &&& started.0 == AgentHandshake::Opening(request)
        },
        request.spec.mode is E2ee && request.spec.exposure is Public ==> {
            &&& started.0 is Done
            &&& started.1 matches AgentAction::Fail(ProtoError::InvalidSpec(reason))
            &&& reason@ == "e2ee trust requires private exposure (mcpg-to-mcpg only)"@
        },
{
}

/// Once its control stream is open the agent sends exactly the request that it started with,
/// whatever that holds; if the stream cannot be opened it fails with the reason.
pub proof fn agent_sends_the_request_it_started_with(
    request: HandshakeRequest,
    opened: Result<(), ProtoError>,
    stepped: (AgentHandshake, AgentAction),
)
    requires
        call_ensures(
            AgentHandshake::step,
            (AgentHandshake::Opening(request), AgentEvent::Opened(opened)),
            stepped,
        ),
    ensures
        match opened {
            Ok(_) => {
                &&& stepped.0 is Sending
                &&& stepped.1 == AgentAction::Send(Frame::HandshakeRequest(request))
            },
            Err(error) => stepped.0 is Done && stepped.1 == AgentAction::Fail(error),
        },
{
}

/// Once its request is sent the agent awaits the answer; if the request cannot be sent it
/// fails with the reason.
pub proof fn agent_awaits_the_answer_to_its_request(
    sent: Result<(), ProtoError>,
    stepped: (AgentHandshake, AgentAction),
)
    requires
        call_ensures(
            AgentHandshake::step,
            (AgentHandshake::Sending, AgentEvent::Sent(sent)),
            stepped,
        ),
    ensures
        match sent {
            Ok(_) => stepped.0 is Receiving && stepped.1 is Receive,
            Err(error) => stepped.0 is Done && stepped.1 == AgentAction::Fail(error),
        },
{
}

/// Every response opens the tunnel, with exactly that response. A refusal, a frame out of
/// order, the end of the stream and a failure to receive each fail in their own way.
pub proof fn agent_establishes_with_every_response(
    received: Result<Option<Frame>, ProtoError>,
    stepped: (AgentHandshake, AgentAction),
)
    requires
        call_ensures(
            AgentHandshake::step,
            (AgentHandshake::Receiving, AgentEvent::Received(received)),
            stepped,
        ),
    ensures
        stepped.0 is Done,
        match received {
            Ok(Some(Frame::HandshakeResponse(response))) => stepped.1 == AgentAction::Establish(
                response,
            ),
            Ok(Some(Frame::Error(error))) => {
                &&& stepped.1 matches AgentAction::Fail(ProtoError::Rejected(reason))
                &&& reason@ == error.code@ + ": "@ + error.message@
            },
            Ok(Some(_)) => {
                &&& stepped.1 matches AgentAction::Fail(ProtoError::Protocol(reason))
                &&& reason@ == "expected a handshake response or an error"@
            },
            Ok(None) => stepped.1 == AgentAction::Fail(ProtoError::SessionClosed),
            Err(error) => stepped.1 == AgentAction::Fail(error),
        },
{
}

/// What the agent concludes from a first frame: success from every response and from nothing
/// else, and the relay's code and message from a refusal.
pub proof fn agent_concludes_success_from_every_response(
    reply: Option<Frame>,
    result: Result<HandshakeResponse, ProtoError>,
)
    requires
        call_ensures(conclude, (reply,), result),
    ensures
        result is Ok <==> reply matches Some(Frame::HandshakeResponse(_)),
        match reply {
            Some(Frame::HandshakeResponse(response)) => result == Ok::<
                HandshakeResponse,
                ProtoError,
            >(response),
            Some(Frame::Error(error)) => {
                &&& result matches Err(ProtoError::Rejected(reason))
                &&& reason@ == error.code@ + ": "@ + error.message@
            },
            Some(_) => {
                &&& result matches Err(ProtoError::Protocol(reason))
                &&& reason@ == "expected a handshake response or an error"@
            },
            None => result == Err::<HandshakeResponse, ProtoError>(ProtoError::SessionClosed),
        },
{
}

/// The agent may always be told what came of what it asked for.
pub proof fn agent_can_be_told_what_came_of_its_action(
    request: HandshakeRequest,
    done: Result<(), ProtoError>,
    received: Result<Option<Frame>, ProtoError>,
)
    ensures
        call_requires(
            AgentHandshake::step,
            (AgentHandshake::Opening(request), AgentEvent::Opened(done)),
        ),
        call_requires(AgentHandshake::step, (AgentHandshake::Sending, AgentEvent::Sent(done))),
        call_requires(
            AgentHandshake::step,
            (AgentHandshake::Receiving, AgentEvent::Received(received)),
        ),
{
}

/// The relay first accepts a control stream, and then receives on it; without one it fails.
pub proof fn relay_receives_once_it_has_a_control_stream(
    started: (RelayHandshake, RelayAction),
    accepted: bool,
    stepped: (RelayHandshake, RelayAction),
)
    requires
        call_ensures(RelayHandshake::start, (), started),
        call_ensures(RelayHandshake::step, (started.0, RelayEvent::Accepted(accepted)), stepped),
    ensures
        started.0 is Accepting,
        started.1 is Accept,
        accepted ==> stepped.0 is Receiving && stepped.1 is Receive,
        !accepted ==> stepped.0 is Done && stepped.1 == RelayAction::Fail(
            ProtoError::SessionClosed,
        ),
{
}

/// Every handshake request that is received is put to the policy, as it was received. Any
/// other frame, the end of the stream and a failure to receive each fail in their own way.
pub proof fn relay_puts_every_request_to_its_policy(
    received: Result<Option<Frame>, ProtoError>,
    stepped: (RelayHandshake, RelayAction),
    asked: Option<&HandshakeRequest>,
)
    requires
        call_ensures(
            RelayHandshake::step,
            (RelayHandshake::Receiving, RelayEvent::Received(received)),
            stepped,
        ),
        call_ensures(RelayHandshake::request, (&stepped.0,), asked),
    ensures
        match received {
            Ok(Some(Frame::HandshakeRequest(request))) => {
                &&& stepped.1 is Decide
                &&& stepped.0 == RelayHandshake::Deciding(request)
                &&& asked == Some(&request)
            },
            Ok(Some(_)) => {
                &&& stepped.0 is Done
                &&& stepped.1 matches RelayAction::Fail(ProtoError::Protocol(reason))
                &&& reason@ == "expected a handshake request"@
            },
            Ok(None) => {
                &&& stepped.0 is Done
                &&& stepped.1 == RelayAction::Fail(ProtoError::SessionClosed)
            },
            Err(error) => stepped.0 is Done && stepped.1 == RelayAction::Fail(error),
        },
{
}

/// What the policy accepts is answered with exactly the response that it gave, for every
/// request. What it refuses is answered with an in-band error that tells the refusal.
pub proof fn relay_answers_as_its_policy_decided(
    request: HandshakeRequest,
    decision: Result<HandshakeResponse, ProtoError>,
    stepped: (RelayHandshake, RelayAction),
)
    requires
        call_ensures(
            RelayHandshake::step,
            (RelayHandshake::Deciding(request), RelayEvent::Decided(decision)),
            stepped,
        ),
    ensures
        match decision {
            Ok(response) => {
                &&& stepped.1 == RelayAction::Send(Frame::HandshakeResponse(response))
                &&& stepped.0 == RelayHandshake::Confirming(request)
            },
            Err(error) => {
                &&& stepped.0 == RelayHandshake::Rejecting(error)
                &&& stepped.1 matches RelayAction::Send(Frame::Error(answer))
                &&& answer.code@ == "handshake_rejected"@
                &&& is_sentence_for(answer.message@, error)
            },
        },
{
    if let Err(error) = decision {
        if let RelayAction::Send(Frame::Error(answer)) = stepped.1 {
            lemma_sentence(error, answer.message@);
        }
    }
}

/// Every accepted request whose response was sent opens the tunnel that it asked for; if the
/// response cannot be sent the relay fails with the reason.
pub proof fn relay_establishes_every_confirmed_request(
    request: HandshakeRequest,
    sent: Result<(), ProtoError>,
    stepped: (RelayHandshake, RelayAction),
)
    requires
        call_ensures(
            RelayHandshake::step,
            (RelayHandshake::Confirming(request), RelayEvent::Sent(sent)),
            stepped,
        ),
    ensures
        stepped.0 is Done,
        match sent {
            Ok(_) => stepped.1 == RelayAction::Establish(request),
            Err(error) => stepped.1 == RelayAction::Fail(error),
        },
{
}

/// The relay fails with the refusal of its policy, whether or not the answer was sent.
pub proof fn relay_fails_with_the_refusal(
    error: ProtoError,
    sent: Result<(), ProtoError>,
    stepped: (RelayHandshake, RelayAction),
)
    requires
        call_ensures(
            RelayHandshake::step,
            (RelayHandshake::Rejecting(error), RelayEvent::Sent(sent)),
            stepped,
        ),
    ensures
        stepped.0 is Done,
        stepped.1 == RelayAction::Fail(error),
{
}

/// The relay may always be told what came of what it asked for.
pub proof fn relay_can_be_told_what_came_of_its_action(
    request: HandshakeRequest,
    refused: ProtoError,
    accepted: bool,
    received: Result<Option<Frame>, ProtoError>,
    decision: Result<HandshakeResponse, ProtoError>,
    sent: Result<(), ProtoError>,
)
    ensures
        call_requires(
            RelayHandshake::step,
            (RelayHandshake::Accepting, RelayEvent::Accepted(accepted)),
        ),
        call_requires(
            RelayHandshake::step,
            (RelayHandshake::Receiving, RelayEvent::Received(received)),
        ),
        call_requires(
            RelayHandshake::step,
            (RelayHandshake::Deciding(request), RelayEvent::Decided(decision)),
        ),
        call_requires(
            RelayHandshake::step,
            (RelayHandshake::Confirming(request), RelayEvent::Sent(sent)),
        ),
        call_requires(
            RelayHandshake::step,
            (RelayHandshake::Rejecting(refused), RelayEvent::Sent(sent)),
        ),
{
}

/// The request that the policy is asked about is there while it decides, and only then.
pub proof fn policy_is_asked_about_the_request_that_came(
    handshake: RelayHandshake,
    asked: Option<&HandshakeRequest>,
)
    requires
        call_ensures(RelayHandshake::request, (&handshake,), asked),
    ensures
        match handshake {
            RelayHandshake::Deciding(request) => asked == Some(&request),
            _ => asked is None,
        },
{
}

/// A refusal is an in-band error under the code of refusals that tells the error.
pub proof fn refusal_tells_the_error(error: ProtoError, frame: Frame)
    requires
        call_ensures(refusal, (&error,), frame),
    ensures
        frame matches Frame::Error(answer) && answer.code@ == "handshake_rejected"@
            && is_sentence_for(answer.message@, error),
{
    if let Frame::Error(answer) = frame {
        lemma_sentence(error, answer.message@);
    }
}

/// Either handshake may be started, a first frame judged and a refusal made of any input.
pub proof fn handshakes_can_always_be_started(
    request: HandshakeRequest,
    reply: Option<Frame>,
    error: ProtoError,
    handshake: RelayHandshake,
)
    ensures
        call_requires(AgentHandshake::start, (request,)),
        call_requires(RelayHandshake::start, ()),
        call_requires(RelayHandshake::request, (&handshake,)),
        call_requires(conclude, (reply,)),
        call_requires(refusal, (&error,)),
{
}

/// A handshake that is let through opens the tunnel on both ends, for every request with a
/// valid spec and every response: the relay opens what was asked for, and the agent gets what
/// the relay answered.
pub proof fn handshake_that_is_let_through_opens_both_ends(
    request: HandshakeRequest,
    response: HandshakeResponse,
    dialing: (AgentHandshake, AgentAction),
    asking: (AgentHandshake, AgentAction),
    waiting: (AgentHandshake, AgentAction),
    deciding: (RelayHandshake, RelayAction),
    answering: (RelayHandshake, RelayAction),
    relay_end: (RelayHandshake, RelayAction),
    agent_end: (AgentHandshake, AgentAction),
)
    requires
        request.spec.mode is RelayTerminated || request.spec.exposure is Private,
        call_ensures(AgentHandshake::start, (request,), dialing),
        call_ensures(AgentHandshake::step, (dialing.0, AgentEvent::Opened(Ok(()))), asking),
        call_ensures(AgentHandshake::step, (asking.0, AgentEvent::Sent(Ok(()))), waiting),
        call_ensures(
            RelayHandshake::step,
            (RelayHandshake::Receiving, RelayEvent::Received(Ok(Some(asking.1->Send_0)))),
            deciding,
        ),
        call_ensures(
            RelayHandshake::step,
            (deciding.0, RelayEvent::Decided(Ok(response))),
            answering,
        ),
        call_ensures(RelayHandshake::step, (answering.0, RelayEvent::Sent(Ok(()))), relay_end),
        call_ensures(
            AgentHandshake::step,
            (waiting.0, AgentEvent::Received(Ok(Some(answering.1->Send_0)))),
            agent_end,
        ),
    ensures
        relay_end.1 == RelayAction::Establish(request),
        agent_end.1 == AgentAction::Establish(response),
{
}

} // verus!
