//! What the driver is for: opens are served, streams are handed over, and a shutdown closes.

use super::{
    after, all_answered, all_outcomes, all_requested, can_hear, opens_are_answered_in_order,
    outcomes_go_to_the_opens_in_order, tells_to_shut_down,
};
use crate::driver::{open_outcome, Action, Driver, DriverView, Event, Phase, Progress};
use crate::error::ProtoError;
use vstd::prelude::*;

verus! {

/// A new driver has nothing pending, expects requests, is not shutting down, and may be
/// woken.
pub proof fn new_driver_is_ready_to_serve<R, S>(driver: &mut Driver<R>)
    requires
        call_ensures(Driver::<R>::new, (), *old(driver)),
    ensures
        old(driver)@.pending.len() == 0,
        !old(driver)@.open_closed,
        !old(driver)@.shutting_down,
        old(driver)@ == DriverView::<R>::initial(),
        call_requires(Driver::<R>::step::<S>, (driver, Event::Wake)),
{
}

/// The queue of opens changes in two ways only: a request goes to its end, and an answer
/// takes its first. Everything else leaves it as it is, however long it is.
pub proof fn queue_grows_by_requests_and_shrinks_by_answers<R, S>(
    driver: &mut Driver<R>,
    event: Event<R, S>,
    action: Action<R, S>,
)
    requires
        call_ensures(Driver::<R>::step::<S>, (driver, event), action),
    ensures
        match event {
            Event::Request(Progress::Ready(Some(reply))) => {
                &&& final(driver)@.pending == old(driver)@.pending.push(reply)
                &&& action !is Answer
            },
            _ => match action {
                Action::Answer { to, .. } => {
                    &&& to == old(driver)@.pending[0]
                    &&& final(driver)@.pending == old(driver)@.pending.skip(1)
                },
                _ => final(driver)@.pending == old(driver)@.pending,
            },
        },
{
}

/// The driver shuts down when, and only when, it was told to, and stops asking for requests
/// when, and only when, it was told that none can follow.
pub proof fn signals_are_taken_note_of_and_not_made_up<R, S>(
    driver: &mut Driver<R>,
    event: Event<R, S>,
    action: Action<R, S>,
)
    requires
        call_ensures(Driver::<R>::step::<S>, (driver, event), action),
    ensures
        final(driver)@.shutting_down <==> old(driver)@.shutting_down || (
        event matches Event::Shutdown(Progress::Ready(_))),
        final(driver)@.open_closed <==> old(driver)@.open_closed || (
        event matches Event::Request(Progress::Ready(None))),
{
}

/// Woken or done with an answer or a delivery, a driver that is not shutting down looks
/// whether it should, then takes in every request that is there, one after the other.
pub proof fn every_request_that_is_there_is_taken_in<R, S>(
    driver: &mut Driver<R>,
    event: Event<R, S>,
    action: Action<R, S>,
)
    requires
        call_ensures(Driver::<R>::step::<S>, (driver, event), action),
    ensures
        event is Wake && !old(driver)@.shutting_down ==> action is PollShutdown,
        event matches Event::Shutdown(Progress::Pending) ==> (!old(driver)@.open_closed
            ==> action is PollRequest),
        event matches Event::Request(Progress::Ready(Some(_))) ==> action is PollRequest,
{
}

/// Opens are served, whatever their number: when no further request is there and an open is
/// pending, the connection is asked for a stream. Only with none pending is the connection
/// driven at once.
pub proof fn pending_opens_make_the_driver_ask_for_a_stream<R, S>(
    driver: &mut Driver<R>,
    event: Event<R, S>,
    action: Action<R, S>,
)
    requires
        call_ensures(Driver::<R>::step::<S>, (driver, event), action),
        match event {
            Event::Request(Progress::Pending) => true,
            Event::Request(Progress::Ready(None)) => true,
            Event::Shutdown(Progress::Pending) => old(driver)@.open_closed,
            _ => false,
        },
    ensures
        old(driver)@.pending.len() > 0 ==> action is PollOutbound,
        old(driver)@.pending.len() == 0 ==> action is PollInbound,
{
}

/// What the connection answers to being asked for a stream goes to the oldest open, as it
/// is; while it has none yet, the connection is driven on.
pub proof fn oldest_open_gets_what_the_connection_gave<R, S>(
    driver: &mut Driver<R>,
    progress: Progress<Result<S, ProtoError>>,
    action: Action<R, S>,
)
    requires
        call_ensures(Driver::<R>::step::<S>, (driver, Event::Outbound(progress)), action),
    ensures
        match progress {
            Progress::Ready(outcome) => action == (Action::Answer {
                to: old(driver)@.pending[0],
                with: outcome,
            }),
            Progress::Pending => action is PollInbound,
        },
{
}

/// Every inbound stream is handed to the session, as it is. The driver waits while there is
/// none, and stops when the connection has failed or ended.
pub proof fn every_inbound_stream_is_handed_over<R, S>(
    driver: &mut Driver<R>,
    progress: Progress<Option<Result<S, ProtoError>>>,
    action: Action<R, S>,
)
    requires
        call_ensures(Driver::<R>::step::<S>, (driver, Event::Inbound(progress)), action),
    ensures
        match progress {
            Progress::Ready(Some(Ok(stream))) => action == Action::<R, S>::Deliver(stream),
            Progress::Ready(Some(Err(_))) => action is Stop,
            Progress::Ready(None) => action is Stop,
            Progress::Pending => action is Wait,
        },
{
}

/// While shutting down, the oldest open is refused as long as there is one, and then the
/// connection is closed; the driver waits until that is done, and then stops.
pub proof fn shutdown_refuses_every_open_and_closes<R, S>(
    driver: &mut Driver<R>,
    event: Event<R, S>,
    action: Action<R, S>,
)
    requires
        call_ensures(Driver::<R>::step::<S>, (driver, event), action),
    ensures
        (event is Wake && old(driver)@.shutting_down) || (event matches Event::Shutdown(
            Progress::Ready(_),
        )) ==> if old(driver)@.pending.len() > 0 {
            action == (Action::<R, S>::Answer {
                to: old(driver)@.pending[0],
                with: Err(ProtoError::SessionClosed),
            })
        } else {
            action is PollClose
        },
        event matches Event::Closed(Progress::Pending) ==> action is Wait,
        event matches Event::Closed(Progress::Ready(_)) ==> action is Stop,
{
}

/// The driver may always be told what came of what it asked for, whatever that is, and may
/// be woken after an answer, a delivery or a wait.
pub proof fn driver_can_be_told_what_came_of_its_action<R, S>(
    driver: &mut Driver<R>,
    event: Event<R, S>,
    action: Action<R, S>,
    next: &mut Driver<R>,
    answer: Event<R, S>,
)
    requires
        call_ensures(Driver::<R>::step::<S>, (driver, event), action),
        *old(next) == *final(driver),
        match action {
            Action::PollShutdown => answer is Shutdown,
            Action::PollClose => answer is Closed,
            Action::PollRequest => answer is Request && event !is Request,
            Action::PollOutbound => answer is Outbound,
            Action::PollInbound => answer is Inbound,
            Action::Answer { .. } => answer is Wake,
            Action::Deliver(_) => answer is Wake,
            Action::Wait => answer is Wake,
            Action::Stop => false,
        },
    ensures
        call_requires(Driver::<R>::step::<S>, (next, answer)),
{
}

/// A driver that is asked to go on taking in requests may be told of the next one.
pub proof fn driver_can_be_told_of_request_after_request<R, S>(
    driver: &mut Driver<R>,
    event: Event<R, S>,
    action: Action<R, S>,
    next: &mut Driver<R>,
    answer: Event<R, S>,
)
    requires
        old(driver)@.phase == Phase::Request,
        call_ensures(Driver::<R>::step::<S>, (driver, event), action),
        event matches Event::Request(Progress::Ready(Some(_))),
        *old(next) == *final(driver),
        answer is Request,
    ensures
        call_requires(Driver::<R>::step::<S>, (next, answer)),
{
}

/// An open comes to what the driver answered, and finds the session closed when the driver
/// is gone.
pub proof fn open_comes_to_the_drivers_answer<S>(
    answer: Option<Result<S, ProtoError>>,
    outcome: Result<S, ProtoError>,
)
    requires
        call_ensures(open_outcome::<S>, (answer,), outcome),
    ensures
        match answer {
            Some(answered) => outcome == answered,
            None => outcome == Err::<S, ProtoError>(ProtoError::SessionClosed),
        },
{
}

/// Over any run without a shutdown, all opens are answered, in the order of their requests,
/// once the connection has given as many outcomes.
pub proof fn as_many_outcomes_answer_every_open<R, S>(events: Seq<Event<R, S>>)
    requires
        can_hear(DriverView::<R>::initial(), events),
        forall|i: int| 0 <= i < events.len() ==> !tells_to_shut_down(#[trigger] events[i]),
        all_outcomes(events).len() >= all_requested(events).len(),
    ensures
        all_answered(DriverView::<R>::initial(), events) == all_requested(events),
        after(DriverView::<R>::initial(), events).pending.len() == 0,
{
    outcomes_go_to_the_opens_in_order(events);
    let opens = all_requested(events);
    assert(opens.take(opens.len() as int) =~= opens);
}

/// One round serves one open: a driver that is not shutting down, with any number of opens
/// pending, answers the oldest when it is woken, finds no shutdown and no request, and the
/// connection has a stream or an error for it.
pub proof fn one_round_serves_the_oldest_open<R, S>(
    driver: DriverView<R>,
    outcome: Result<S, ProtoError>,
)
    requires
        !driver.shutting_down,
        driver.pending.len() > 0,
    ensures
        ({
            let woken = driver.next(Event::<R, S>::Wake);
            let looked = woken.0.next(Event::<R, S>::Shutdown(Progress::Pending));
            let drained = if driver.open_closed {
                looked
            } else {
                looked.0.next(Event::<R, S>::Request(Progress::Pending))
            };
            let served = drained.0.next(Event::<R, S>::Outbound(Progress::Ready(outcome)));
            &&& woken.1 is PollShutdown
            &&& !driver.open_closed ==> looked.1 is PollRequest
            &&& drained.1 is PollOutbound
            &&& served.1 == (Action::<R, S>::Answer { to: driver.pending[0], with: outcome })
            &&& served.0.pending == driver.pending.skip(1)
        }),
{
}

/// The state of a driver after a run is that after all events but the last, and the last.
proof fn lemma_last_event<R, S>(driver: DriverView<R>, events: Seq<Event<R, S>>)
    requires
        events.len() > 0,
        can_hear(driver, events),
    ensures
        can_hear(driver, events.drop_last()),
        after(driver, events.drop_last()).awaits(events.last()),
        after(driver, events) == after(driver, events.drop_last()).next(events.last()).0,
    decreases events.len(),
{
    let next = driver.next(events[0]).0;
    if events.len() == 1 {
        assert(events.drop_last() =~= Seq::empty());
        assert(events.skip(1) =~= Seq::empty());
        assert(after(next, events.skip(1)) == next);
        assert(after(driver, events.drop_last()) == driver);
    } else {
        lemma_last_event(next, events.skip(1));
        assert(events.skip(1).drop_last() =~= events.drop_last().skip(1));
        assert(events.skip(1).last() == events.last());
        assert(after(driver, events.drop_last()) == after(next, events.drop_last().skip(1)));
    }
}

/// The driver never waits with an open pending, over any run, unless it is shutting down or
/// the connection has just said that it has no stream for it yet.
pub proof fn driver_never_waits_on_an_open_it_did_not_try_to_serve<R, S>(
    events: Seq<Event<R, S>>,
)
    requires
        can_hear(DriverView::<R>::initial(), events),
        events.len() > 0,
        ({
            let before = after(DriverView::<R>::initial(), events.drop_last());
            &&& before.next(events.last()).1 is Wait
            &&& before.pending.len() > 0
        }),
    ensures
        events.len() >= 2,
        events.last() == Event::<R, S>::Inbound(Progress::Pending),
        events[events.len() - 2] == Event::<R, S>::Outbound(Progress::Pending),
{
    let driver = DriverView::<R>::initial();
    let earlier = events.drop_last();
    lemma_last_event(driver, events);
    opens_are_answered_in_order(driver, earlier);
    if earlier.len() > 0 {
        lemma_last_event(driver, earlier);
        opens_are_answered_in_order(driver, earlier.drop_last());
        assert(earlier.last() == events[events.len() - 2]);
    }
}

} // verus!
