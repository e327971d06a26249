use vstd::prelude::*;
use crate::error::CollectError;
use crate::executor::{Directive, Execution};
use crate::gate::{Acquisition, Gate, GateEvent, GateStatus};
use crate::request::Request;
use crate::retry::RetryPolicy;

verus! {

/// What a call is doing.
#[derive(Clone, Copy, Debug, PartialEq, Eq, Structural)]
pub enum Phase {
    /// Waiting at the admission gate.
    Admitting,
    /// An attempt is with the transport.
    InFlight,
    /// Waiting out a delay of this many milliseconds before the next
    /// attempt.
    BackingOff { delay_ms: u64 },
    /// Over: returned, failed or cancelled.
    Finished,
}

/// The outside work that a call asks its driver to do next.
#[derive(Clone, Copy, Debug, PartialEq, Eq, Structural)]
pub enum Command {
    /// Wait for a permit of the semaphore.
    AcquirePermit,
    /// Wait until the rate limiter lets the call pass.
    AwaitToken,
    /// Hand the request to the transport, once.
    Invoke,
    /// Sleep for this many milliseconds.
    Sleep { delay_ms: u64 },
}

/// What the driver reports back to a call.
#[derive(Debug)]
pub enum Event<T, E> {
    /// The semaphore handed out a permit.
    PermitGranted,
    /// The semaphore is closed for good.
    PermitSourceClosed,
    /// The rate limiter let the call pass.
    TokenReady,
    /// The transport returned.
    Outcome(Result<T, E>),
    /// The delay before the next attempt is over.
    BackoffElapsed,
    /// The task around the call was cancelled.
    Cancelled,
}

/// A call's answer to an event.
#[derive(Debug, PartialEq, Eq)]
pub enum Step<T, E> {
    /// The call goes on: do this next.
    Continue(Command),
    /// The call is over with `result`. Where `release_permit` is set, its
    /// concurrency permit goes back to the semaphore.
    Return { result: Result<T, CollectError<E>>, release_permit: bool },
    /// The call was cancelled and makes no further request. Where
    /// `release_permit` is set, its concurrency permit goes back.
    Abandoned { release_permit: bool },
    /// The call was not waiting for this event; nothing changed.
    Ignored,
}

/// One call on its way: through the admission gate, then through its attempts.
pub struct Call<'a> {
    pub request: Request<'a>,
    pub phase: Phase,
    pub admission: Acquisition,
    pub execution: Execution,
}

impl<'a> Call<'a> {
    /// The phase agrees with the admission gate and with the attempt count: a
    /// call is with the transport or between attempts only while admitted, and
    /// a finished call holds no permit.
    pub open spec fn wf(self) -> bool {
        &&& self.admission.wf()
        &&& self.execution.wf()
        &&& match self.phase {
            Phase::Admitting => self.execution.invocations == 1 && (self.admission.status
                == GateStatus::AwaitingPermit || self.admission.status
                == GateStatus::AwaitingToken),
            Phase::InFlight | Phase::BackingOff { .. } => self.admission.status
                == GateStatus::Admitted,
            Phase::Finished => self.admission.status == GateStatus::Closed
                || self.admission.status == GateStatus::Released,
        }
    }

    /// The admission gate that `request` meets: the given one, or none at all
    /// for an operation that is not throttled.
    pub open spec fn gate_for(request: Request<'a>, gate: Gate) -> Gate {
        if request.gated() {
            gate
        } else {
            Gate { concurrency_limit: None, rate_limit: None }
        }
    }

    /// A new call for `request`: at the admission gate where one has to be
    /// passed, else with its first attempt due.
    pub open spec fn started(request: Request<'a>, gate: Gate, policy: Option<RetryPolicy>) -> Call<'a> {
        let admission = Self::gate_for(request, gate).entry();
        Call {
            request,
            phase: if admission.status == GateStatus::Admitted {
                Phase::InFlight
            } else {
                Phase::Admitting
            },
            admission,
            execution: Execution { policy, invocations: 1 },
        }
    }

    /// The outside work that the call is waiting for; `None` once it is
    /// over.
    pub open spec fn pending(self) -> Option<Command> {
        match self.phase {
            Phase::Admitting => if self.admission.status == GateStatus::AwaitingPermit {
                Some(Command::AcquirePermit)
            } else {
                Some(Command::AwaitToken)
            },
            Phase::InFlight => Some(Command::Invoke),
            Phase::BackingOff { delay_ms } => Some(Command::Sleep { delay_ms }),
            Phase::Finished => None,
        }
    }

    /// The call after a report from the admission gate, for a call that waits
    /// there.
    pub open spec fn after_gate_event(self, event: GateEvent) -> Call<'a> {
        let admission = self.admission.after(event);
        Call {
            phase: match admission.status {
                GateStatus::Admitted => Phase::InFlight,
                GateStatus::Closed => Phase::Finished,
                _ => Phase::Admitting,
            },
            admission,
            ..self
        }
    }

    /// The call with its guard given up and nothing more to do.
    pub open spec fn ended(self) -> Call<'a> {
        Call { phase: Phase::Finished, admission: self.admission.released(), ..self }
    }

    /// The call after `event`.
    pub open spec fn after<T, E>(self, event: Event<T, E>) -> Call<'a> {
        match (self.phase, event) {
            (Phase::Finished, _) => self,
            (_, Event::Cancelled) => self.ended(),
            (Phase::Admitting, Event::PermitGranted) => self.after_gate_event(
                GateEvent::PermitGranted,
            ),
            (Phase::Admitting, Event::PermitSourceClosed) => self.after_gate_event(
                GateEvent::PermitSourceClosed,
            ),
            (Phase::Admitting, Event::TokenReady) => self.after_gate_event(GateEvent::TokenReady),
            (Phase::InFlight, Event::Outcome(outcome)) => match self.execution.decide(outcome) {
                Directive::RetryAfter { delay_ms } => Call {
                    phase: Phase::BackingOff { delay_ms },
                    execution: self.execution.advance(outcome),
                    ..self
                },
                Directive::Finish(_) => self.ended(),
            },
            (Phase::BackingOff { .. }, Event::BackoffElapsed) => Call {
                phase: Phase::InFlight,
                ..self
            },
            _ => self,
        }
    }

    /// The call's answer to `event`.
    ///
    /// A finished call ignores everything. A cancellation ends any other call
    /// and frees its permit. At the admission gate, a permit or a token moves
    /// the call on to what it waits for next, and a closed semaphore ends it
    /// with `GateClosed`, without any request made. An outcome of the
    /// transport ends the call or asks for a sleep, as the executor decides;
    /// after the sleep the request is made again. Any event that the call is
    /// not waiting for is ignored.
    pub open spec fn answer<T, E>(self, event: Event<T, E>) -> Step<T, E> {
        match (self.phase, event) {
            (Phase::Finished, _) => Step::Ignored,
            (_, Event::Cancelled) => Step::Abandoned { release_permit: self.admission.holds_permit },
            (Phase::Admitting, Event::PermitGranted) => self.gate_answer(GateEvent::PermitGranted),
            (Phase::Admitting, Event::PermitSourceClosed) => self.gate_answer(
                GateEvent::PermitSourceClosed,
            ),
            (Phase::Admitting, Event::TokenReady) => self.gate_answer(GateEvent::TokenReady),
            (Phase::InFlight, Event::Outcome(outcome)) => match self.execution.decide(outcome) {
                Directive::RetryAfter { delay_ms } => Step::Continue(Command::Sleep { delay_ms }),
                Directive::Finish(result) => Step::Return {
                    result,
                    release_permit: self.admission.holds_permit,
                },
            },
            (Phase::BackingOff { .. }, Event::BackoffElapsed) => Step::Continue(Command::Invoke),
            _ => Step::Ignored,
        }
    }

    /// The answer of a call that waits at the admission gate to a report from
    /// there.
    pub open spec fn gate_answer<T, E>(self, event: GateEvent) -> Step<T, E> {
        let admission = self.admission.after(event);
        if admission == self.admission {
            Step::Ignored
        } else {
            match admission.status {
                GateStatus::Admitted => Step::Continue(Command::Invoke),
                GateStatus::Closed => Step::Return {
                    result: Err(CollectError::GateClosed),
                    release_permit: false,
                },
                _ => Step::Continue(Command::AwaitToken),
            }
        }
    }

    /// Starts a call for `request` against `gate` and under `policy`.
    pub fn start(request: Request<'a>, gate: &Gate, policy: Option<RetryPolicy>) -> (call: Call<'a>)
        ensures
            call == Call::started(request, *gate, policy),
            call.wf(),
    {
        let admission = if request.is_gated() {
            gate.acquire()
        } else {
            Gate::open().acquire()
        };
        let phase = if admission.is_admitted() {
            Phase::InFlight
        } else {
            Phase::Admitting
        };
        Call { request, phase, admission, execution: Execution::begin(policy) }
    }

    /// The outside work that the call is waiting for right now: what the
    /// driver does first for a new call, and what it does again after an
    /// event that was ignored.
    pub fn pending_command(&self) -> (c: Option<Command>)
        requires
            self.wf(),
        ensures
            c == self.pending(),
    {
        match self.phase {
            Phase::Admitting => {
                if self.admission.status == GateStatus::AwaitingPermit {
                    Some(Command::AcquirePermit)
                } else {
                    Some(Command::AwaitToken)
                }
            },
            Phase::InFlight => Some(Command::Invoke),
            Phase::BackingOff { delay_ms } => Some(Command::Sleep { delay_ms }),
            Phase::Finished => None,
        }
    }

    /// Whether the phase, the admission gate and the attempt count agree.
    pub fn is_valid(&self) -> (b: bool)
        ensures
            b == self.wf(),
    {
        if !self.admission.is_valid() || !self.execution.is_valid() {
            return false;
        }
        match self.phase {
            Phase::Admitting => self.execution.invocations == 1 && (self.admission.status
                == GateStatus::AwaitingPermit || self.admission.status
                == GateStatus::AwaitingToken),
            Phase::InFlight | Phase::BackingOff { .. } => self.admission.status
                == GateStatus::Admitted,
            Phase::Finished => self.admission.status == GateStatus::Closed
                || self.admission.status == GateStatus::Released,
        }
    }

    /// Whether the call is over.
    pub fn is_finished(&self) -> (b: bool)
        ensures
            b == (self.phase == Phase::Finished),
    {
        self.phase == Phase::Finished
    }

    fn gate_step<T, E>(&mut self, event: GateEvent) -> (s: Step<T, E>)
        requires
            old(self).wf(),
            old(self).phase == Phase::Admitting,
        ensures
            final(self).wf(),
            *final(self) == old(self).after_gate_event(event),
            s == old(self).gate_answer::<T, E>(event),
    {
        let before = self.admission;
        self.admission.on_event(event);
        match self.admission.status {
            GateStatus::Admitted => {
                self.phase = Phase::InFlight;
                Step::Continue(Command::Invoke)
            },
            GateStatus::Closed => {
                self.phase = Phase::Finished;
                Step::Return { result: Err(CollectError::GateClosed), release_permit: false }
            },
            GateStatus::AwaitingToken => {
                if before.status == GateStatus::AwaitingToken {
                    Step::Ignored
                } else {
                    Step::Continue(Command::AwaitToken)
                }
            },
            _ => Step::Ignored,
        }
    }

    /// Takes an event and says what follows.
    pub fn step<T, E>(&mut self, event: Event<T, E>) -> (s: Step<T, E>)
        requires
            old(self).wf(),
        ensures
            final(self).wf(),
            *final(self) == old(self).after(event),
            s == old(self).answer(event),
            final(self).request == old(self).request,
            s matches Step::Continue(c) ==> final(self).pending() == Some(c),
            s matches Step::Return { .. } ==> final(self).phase == Phase::Finished,
            s matches Step::Abandoned { .. } ==> final(self).phase == Phase::Finished,
            s is Ignored ==> *final(self) == *old(self),
    {
        if self.phase == Phase::Finished {
            return Step::Ignored;
        }
        match event {
            Event::Cancelled => {
                let release_permit = self.admission.release();
                self.phase = Phase::Finished;
                Step::Abandoned { release_permit }
            },
            Event::PermitGranted => {
                if self.phase == Phase::Admitting {
                    self.gate_step(GateEvent::PermitGranted)
                } else {
                    Step::Ignored
                }
            },
            Event::PermitSourceClosed => {
                if self.phase == Phase::Admitting {
                    self.gate_step(GateEvent::PermitSourceClosed)
                } else {
                    Step::Ignored
                }
            },
            Event::TokenReady => {
                if self.phase == Phase::Admitting {
                    self.gate_step(GateEvent::TokenReady)
                } else {
                    Step::Ignored
                }
            },
            Event::Outcome(outcome) => {
                if self.phase == Phase::InFlight {
                    match self.execution.on_outcome(outcome) {
                        Directive::RetryAfter { delay_ms } => {
                            self.phase = Phase::BackingOff { delay_ms };
                            Step::Continue(Command::Sleep { delay_ms })
                        },
                        Directive::Finish(result) => {
                            let release_permit = self.admission.release();
                            self.phase = Phase::Finished;
                            Step::Return { result, release_permit }
                        },
                    }
                } else {
                    Step::Ignored
                }
            },
            Event::BackoffElapsed => {
                match self.phase {
                    Phase::BackingOff { .. } => {
                        self.phase = Phase::InFlight;
                        Step::Continue(Command::Invoke)
                    },
                    _ => Step::Ignored,
                }
            },
        }
    }
}

/// A call that is cancelled while it waits for the rate limiter gives back
/// the permit it holds and never reaches the transport: it is over, and
/// every later event is ignored.
pub proof fn lemma_cancel_during_rate_wait<'a, T, E>(call: Call<'a>, later: Event<T, E>)
    requires
        call.wf(),
        call.phase == Phase::Admitting,
        call.admission.status == GateStatus::AwaitingToken,
    ensures
        call.answer(Event::<T, E>::Cancelled) == (Step::<T, E>::Abandoned {
            release_permit: call.admission.concurrency_limited,
        }),
        call.admission.holds_permit == call.admission.concurrency_limited,
        call.after(Event::<T, E>::Cancelled).phase == Phase::Finished,
        !call.after(Event::<T, E>::Cancelled).admission.holds_permit,
        call.after(Event::<T, E>::Cancelled).answer(later) == Step::<T, E>::Ignored,
        call.after(Event::<T, E>::Cancelled).after(later) == call.after(Event::<T, E>::Cancelled),
{
}

/// Whatever happens to a call, it is with the transport only while it is
/// through the admission gate, and at a gate that limits concurrency only
/// while it holds a permit.
pub proof fn lemma_in_flight_holds_permit<'a>(call: Call<'a>)
    requires
        call.wf(),
        call.phase is InFlight || call.phase is BackingOff,
    ensures
        call.admission.status == GateStatus::Admitted,
        call.admission.holds_permit == call.admission.concurrency_limited,
{
}

/// A call for a record that does not exist returns `Ok(None)`: absence is
/// a value, not an error, and the call is over after that one attempt.
pub proof fn lemma_not_found_is_returned_as_absence<'a, T, E>(call: Call<'a>)
    requires
        call.wf(),
        call.phase == Phase::InFlight,
    ensures
        call.answer(Event::<Option<T>, E>::Outcome(Ok(None))) == (Step::<Option<T>, E>::Return {
            result: Ok(None),
            release_permit: call.admission.holds_permit,
        }),
        call.after(Event::<Option<T>, E>::Outcome(Ok(None))).phase == Phase::Finished,
{
}

} // verus!
