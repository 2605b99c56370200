//! The decisions of the task that owns a mux connection.
//!
//! A mux connection is poll-driven and not shareable across tasks, so a
//! per-session driver task owns it, services outbound opens and hands inbound
//! streams over. [`Driver`] says what that task does next: the task performs the
//! [`Action`], and hands what came of it back as the next [`Event`].
//!
//! The connection must be polled for inbound streams to make *any* progress (this
//! also flushes queued outbound frames), so the driver never waits before it has
//! polled it; pending opens are served one at a time, oldest first, as the
//! connection becomes ready. Once the session is shut down every pending open is
//! refused and the connection is closed gracefully, which flushes a final frame
//! instead of racing the teardown.

use crate::error::ProtoError;
use std::collections::VecDeque;
use vstd::prelude::*;

verus! {

/// What a poll came to.
pub enum Progress<T> {
    Ready(T),
    Pending,
}

/// What the driver waits to hear.
#[derive(Debug, Clone, Copy, PartialEq, Eq, Structural)]
pub enum Phase {
    /// That its task runs.
    Idle,
    /// Whether the session was shut down.
    Shutdown,
    /// Whether the connection has closed.
    Close,
    /// Whether another open was requested.
    Request,
    /// Whether the connection has a new outbound stream.
    Outbound,
    /// Whether the connection has a new inbound stream.
    Inbound,
    /// Nothing more: the driver has ended.
    Stopped,
}

/// What happened. `R` stands for the reply handle of an open, `S` for a stream.
pub enum Event<R, S> {
    /// The task was started or woken, or has performed an answer or a delivery.
    Wake,
    /// The session was polled for its shutdown signal.
    Shutdown(Progress<()>),
    /// The connection was polled for being closed.
    Closed(Progress<()>),
    /// The queue of requested opens was polled; `None` says that none can follow.
    Request(Progress<Option<R>>),
    /// The connection was polled for an outbound stream.
    Outbound(Progress<Result<S, ProtoError>>),
    /// The connection was polled for an inbound stream; `None` says that it ended.
    Inbound(Progress<Option<Result<S, ProtoError>>>),
}

/// What to do next.
pub enum Action<R, S> {
    PollShutdown,
    PollClose,
    PollRequest,
    PollOutbound,
    PollInbound,
    /// Answer an open.
    Answer { to: R, with: Result<S, ProtoError> },
    /// Hand an inbound stream to the session.
    Deliver(S),
    /// Return to the executor until something is ready.
    Wait,
    /// End the task. Opens that are still pending are dropped unanswered.
    Stop,
}

/// The state of the driver of one connection.
pub struct Driver<R> {
    pending: VecDeque<R>,
    open_closed: bool,
    shutting_down: bool,
    phase: Phase,
}

/// A [`Driver`] with its pending opens as a sequence, oldest first.
pub struct DriverView<R> {
    pub pending: Seq<R>,
    pub open_closed: bool,
    pub shutting_down: bool,
    pub phase: Phase,
}

impl<R> View for Driver<R> {
    type V = DriverView<R>;

    closed spec fn view(&self) -> DriverView<R> {
        DriverView {
            pending: self.pending@,
            open_closed: self.open_closed,
            shutting_down: self.shutting_down,
            phase: self.phase,
        }
    }
}

impl<R> DriverView<R> {
    /// A driver that has not run yet.
    pub open spec fn initial() -> Self {
        DriverView {
            pending: Seq::empty(),
            open_closed: false,
            shutting_down: false,
            phase: Phase::Idle,
        }
    }

    /// Each poll is made only when it can matter.
    pub open spec fn wf(self) -> bool {
        match self.phase {
            Phase::Idle | Phase::Stopped => true,
            Phase::Shutdown | Phase::Inbound => !self.shutting_down,
            Phase::Close => self.shutting_down && self.pending.len() == 0,
            Phase::Request => !self.shutting_down && !self.open_closed,
            Phase::Outbound => !self.shutting_down && self.pending.len() > 0,
        }
    }

    /// Whether the driver waits for this event.
    pub open spec fn awaits<S>(self, event: Event<R, S>) -> bool {
        match event {
            Event::Wake => self.phase == Phase::Idle,
            Event::Shutdown(_) => self.phase == Phase::Shutdown,
            Event::Closed(_) => self.phase == Phase::Close,
            Event::Request(_) => self.phase == Phase::Request,
            Event::Outbound(_) => self.phase == Phase::Outbound,
            Event::Inbound(_) => self.phase == Phase::Inbound,
        }
    }

    /// This state, waiting in another phase.
    pub open spec fn in_phase(self, phase: Phase) -> Self {
        DriverView { phase, ..self }
    }

    /// The oldest pending open gets its answer, and the task goes on from the start.
    pub open spec fn answer_oldest<S>(self, with: Result<S, ProtoError>) -> (Self, Action<R, S>) {
        (
            DriverView { pending: self.pending.skip(1), phase: Phase::Idle, ..self },
            Action::Answer { to: self.pending[0], with },
        )
    }

    /// While shutting down: refuse what is pending, then close.
    pub open spec fn wind_down<S>(self) -> (Self, Action<R, S>) {
        if self.pending.len() > 0 {
            self.answer_oldest(Err(ProtoError::SessionClosed))
        } else {
            (self.in_phase(Phase::Close), Action::PollClose)
        }
    }

    /// Serve a pending open if there is one, else drive the connection.
    pub open spec fn serve<S>(self) -> (Self, Action<R, S>) {
        if self.pending.len() > 0 {
            (self.in_phase(Phase::Outbound), Action::PollOutbound)
        } else {
            (self.in_phase(Phase::Inbound), Action::PollInbound)
        }
    }

    /// The state and the action that follow an event.
    pub open spec fn next<S>(self, event: Event<R, S>) -> (Self, Action<R, S>) {
        match event {
            Event::Wake => if self.shutting_down {
                self.wind_down()
            } else {
                (self.in_phase(Phase::Shutdown), Action::PollShutdown)
            },
            Event::Shutdown(Progress::Ready(_)) => DriverView {
                shutting_down: true,
                ..self
            }.wind_down(),
            Event::Shutdown(Progress::Pending) => if self.open_closed {
                self.serve()
            } else {
                (self.in_phase(Phase::Request), Action::PollRequest)
            },
            Event::Closed(Progress::Ready(_)) => (self.in_phase(Phase::Stopped), Action::Stop),
            Event::Closed(Progress::Pending) => (self.in_phase(Phase::Idle), Action::Wait),
            Event::Request(Progress::Ready(Some(reply))) => (
                DriverView { pending: self.pending.push(reply), ..self },
                Action::PollRequest,
            ),
            Event::Request(Progress::Ready(None)) => DriverView {
                open_closed: true,
                ..self
            }.serve(),
            Event::Request(Progress::Pending) => self.serve(),
            Event::Outbound(Progress::Ready(outcome)) => self.answer_oldest(outcome),
            Event::Outbound(Progress::Pending) => (
                self.in_phase(Phase::Inbound),
                Action::PollInbound,
            ),
            Event::Inbound(Progress::Ready(Some(Ok(stream)))) => (
                self.in_phase(Phase::Idle),
                Action::Deliver(stream),
            ),
            Event::Inbound(Progress::Ready(Some(Err(_)))) => (
                self.in_phase(Phase::Stopped),
                Action::Stop,
            ),
            Event::Inbound(Progress::Ready(None)) => (self.in_phase(Phase::Stopped), Action::Stop),
            Event::Inbound(Progress::Pending) => (self.in_phase(Phase::Idle), Action::Wait),
        }
    }
}

impl<R> Driver<R> {
    /// A driver with nothing pending, to be woken first.
    pub fn new() -> (driver: Self)
        ensures
            driver@ == DriverView::<R>::initial(),
            driver@.wf(),
    {
        let driver = Driver {
            pending: VecDeque::new(),
            open_closed: false,
            shutting_down: false,
            phase: Phase::Idle,
        };
        assert(driver@.pending =~= Seq::empty());
        driver
    }

    /// Takes note of an event and says what to do next.
    pub fn step<S>(&mut self, event: Event<R, S>) -> (action: Action<R, S>)
        requires
            old(self)@.wf(),
            old(self)@.awaits(event),
        ensures
            final(self)@.wf(),
            (final(self)@, action) == old(self)@.next(event),
    {
        match event {
            Event::Wake => {
                if self.shutting_down {
                    self.wind_down()
                } else {
                    self.phase = Phase::Shutdown;
                    Action::PollShutdown
                }
            },
            Event::Shutdown(Progress::Ready(_)) => {
                self.shutting_down = true;
                self.wind_down()
            },
            Event::Shutdown(Progress::Pending) => {
                if self.open_closed {
                    self.serve()
                } else {
                    self.phase = Phase::Request;
                    Action::PollRequest
                }
            },
            Event::Closed(Progress::Ready(_)) => {
                self.phase = Phase::Stopped;
                Action::Stop
            },
            Event::Closed(Progress::Pending) => {
                self.phase = Phase::Idle;
                Action::Wait
            },
            Event::Request(Progress::Ready(Some(reply))) => {
                self.pending.push_back(reply);
                Action::PollRequest
            },
            Event::Request(Progress::Ready(None)) => {
                self.open_closed = true;
                self.serve()
            },
            Event::Request(Progress::Pending) => self.serve(),
            Event::Outbound(Progress::Ready(outcome)) => self.answer_oldest(outcome),
            Event::Outbound(Progress::Pending) => {
                self.phase = Phase::Inbound;
                Action::PollInbound
            },
            Event::Inbound(Progress::Ready(Some(Ok(stream)))) => {
                self.phase = Phase::Idle;
                Action::Deliver(stream)
            },
            Event::Inbound(Progress::Ready(Some(Err(_)))) => {
                self.phase = Phase::Stopped;
                Action::Stop
            },
            Event::Inbound(Progress::Ready(None)) => {
                self.phase = Phase::Stopped;
                Action::Stop
            },
            Event::Inbound(Progress::Pending) => {
                self.phase = Phase::Idle;
                Action::Wait
            },
        }
    }

    fn answer_oldest<S>(&mut self, with: Result<S, ProtoError>) -> (action: Action<R, S>)
        requires
            old(self)@.pending.len() > 0,
        ensures
            (final(self)@, action) == old(self)@.answer_oldest(with),
    {
        self.phase = Phase::Idle;
        let oldest = self.pending.pop_front();
        assert(self@.pending =~= old(self)@.pending.skip(1));
        Action::Answer { to: oldest.unwrap(), with }
    }

    fn wind_down<S>(&mut self) -> (action: Action<R, S>)
        ensures
            (final(self)@, action) == old(self)@.wind_down::<S>(),
    {
        if self.pending.len() > 0 {
            self.answer_oldest(Err(ProtoError::SessionClosed))
        } else {
            self.phase = Phase::Close;
            Action::PollClose
        }
    }

    fn serve<S>(&mut self) -> (action: Action<R, S>)
        ensures
            (final(self)@, action) == old(self)@.serve::<S>(),
    {
        if self.pending.len() > 0 {
            self.phase = Phase::Outbound;
            Action::PollOutbound
        } else {
            self.phase = Phase::Inbound;
            Action::PollInbound
        }
    }
}

/// What an open comes to, given the driver's answer, or `None` when the driver is
/// gone and will not answer.
pub fn open_outcome<S>(answer: Option<Result<S, ProtoError>>) -> (outcome: Result<S, ProtoError>)
    ensures
        outcome == (match answer {
            Some(outcome) => outcome,
            None => Err(ProtoError::SessionClosed),
        }),
{
    match answer {
        Some(outcome) => outcome,
        None => Err(ProtoError::SessionClosed),
    }
}

} // verus!
