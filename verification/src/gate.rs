use vstd::prelude::*;
use crate::rate::RateLimit;

verus! {

/// The two policies that guard entry into the network layer. Either, both
/// or neither may be set.
#[derive(Clone, Copy, Debug)]
pub struct Gate {
    /// The most calls that may be under way at once; `None` for no limit.
    pub concurrency_limit: Option<usize>,
    /// The quota of calls over time; `None` for no limit.
    pub rate_limit: Option<RateLimit>,
}

/// Where one call stands at the admission gate.
#[derive(Clone, Copy, Debug, PartialEq, Eq, Structural)]
pub enum GateStatus {
    /// Waiting for a concurrency permit.
    AwaitingPermit,
    /// Waiting for the rate limiter's next token.
    AwaitingToken,
    /// Through the admission gate: the network call may be made.
    Admitted,
    /// The source of permits is closed; the call can never be admitted.
    Closed,
    /// The guard was given up, after the call or on cancellation.
    Released,
}

/// What the outside primitives report to a waiting call.
#[derive(Clone, Copy, Debug, PartialEq, Eq, Structural)]
pub enum GateEvent {
    /// The semaphore handed out a permit.
    PermitGranted,
    /// The semaphore is closed for good.
    PermitSourceClosed,
    /// The rate limiter let the call pass; its token is spent.
    TokenReady,
}

/// One call's passage through the admission gate, and the guard it holds once
/// it is through. While `holds_permit` is set the call owns one concurrency
/// permit, which `release` gives back.
#[derive(Clone, Copy, Debug)]
pub struct Acquisition {
    pub status: GateStatus,
    /// Whether this call owns a concurrency permit right now.
    pub holds_permit: bool,
    /// Whether the admission gate limits concurrency.
    pub concurrency_limited: bool,
    /// Whether the admission gate limits the rate.
    pub rate_limited: bool,
}

impl Gate {
    /// Where a call that arrives at this gate starts: at the semaphore if
    /// concurrency is limited, else at the rate limiter if the rate is,
    /// else already through.
    pub open spec fn entry(self) -> Acquisition {
        Acquisition {
            status: if self.concurrency_limit is Some {
                GateStatus::AwaitingPermit
            } else if self.rate_limit is Some {
                GateStatus::AwaitingToken
            } else {
                GateStatus::Admitted
            },
            holds_permit: false,
            concurrency_limited: self.concurrency_limit is Some,
            rate_limited: self.rate_limit is Some,
        }
    }

    /// Whether a semaphore and a limiter can hold these limits: a
    /// concurrency limit admits at least one call, and a quota can be
    /// kept by spacing the admissions.
    pub open spec fn enforceable(self) -> bool {
        &&& self.concurrency_limit matches Some(n) ==> n >= 1
        &&& self.rate_limit matches Some(r) ==> r.enforceable()
    }

    /// Whether a semaphore and a limiter can hold these limits.
    pub fn is_enforceable(&self) -> (b: bool)
        ensures
            b == self.enforceable(),
    {
        let concurrency = match self.concurrency_limit {
            Some(n) => n >= 1,
            None => true,
        };
        let rate = match self.rate_limit {
            Some(r) => r.spacing_ns().is_some(),
            None => true,
        };
        concurrency && rate
    }

    /// A gate with the given limits.
    pub fn new(concurrency_limit: Option<usize>, rate_limit: Option<RateLimit>) -> (g: Gate)
        ensures
            g.concurrency_limit == concurrency_limit,
            g.rate_limit == rate_limit,
    {
        Gate { concurrency_limit, rate_limit }
    }

    /// A gate without limits: every call is through at once.
    pub fn open() -> (g: Gate)
        ensures
            g.concurrency_limit is None,
            g.rate_limit is None,
            g.entry().status == GateStatus::Admitted,
    {
        Gate { concurrency_limit: None, rate_limit: None }
    }

    /// Starts a call's passage through the admission gate.
    pub fn acquire(&self) -> (a: Acquisition)
        ensures
            a == self.entry(),
            a.wf(),
    {
        let status = if self.concurrency_limit.is_some() {
            GateStatus::AwaitingPermit
        } else if self.rate_limit.is_some() {
            GateStatus::AwaitingToken
        } else {
            GateStatus::Admitted
        };
        Acquisition {
            status,
            holds_permit: false,
            concurrency_limited: self.concurrency_limit.is_some(),
            rate_limited: self.rate_limit.is_some(),
        }
    }
}

impl Acquisition {
    /// A permit is held exactly from the moment the semaphore granted it
    /// until the guard is released, and a call is never past the semaphore
    /// of a limiting gate without one.
    pub open spec fn wf(self) -> bool {
        match self.status {
            GateStatus::AwaitingPermit => self.concurrency_limited && !self.holds_permit,
            GateStatus::AwaitingToken => self.rate_limited && self.holds_permit
                == self.concurrency_limited,
            GateStatus::Admitted => self.holds_permit == self.concurrency_limited,
            GateStatus::Closed => self.concurrency_limited && !self.holds_permit,
            GateStatus::Released => !self.holds_permit,
        }
    }

    /// The acquisition after `event`. A granted permit is taken and leads to
    /// the rate limiter, or through the admission gate where the rate is free;
    /// a closed semaphore ends the passage; a token leads through the
    /// admission gate. An event that the call is not waiting for changes
    /// nothing.
    pub open spec fn after(self, event: GateEvent) -> Acquisition {
        match (self.status, event) {
            (GateStatus::AwaitingPermit, GateEvent::PermitGranted) => Acquisition {
                status: if self.rate_limited {
                    GateStatus::AwaitingToken
                } else {
                    GateStatus::Admitted
                },
                holds_permit: true,
                ..self
            },
            (GateStatus::AwaitingPermit, GateEvent::PermitSourceClosed) => Acquisition {
                status: GateStatus::Closed,
                ..self
            },
            (GateStatus::AwaitingToken, GateEvent::TokenReady) => Acquisition {
                status: GateStatus::Admitted,
                ..self
            },
            _ => self,
        }
    }

    /// The acquisition once its guard is given up: no permit is held, and
    /// nothing leads on from there.
    pub open spec fn released(self) -> Acquisition {
        Acquisition { status: GateStatus::Released, holds_permit: false, ..self }
    }

    /// Whether the status and the permit agree with each other and with
    /// the admission gate's limits.
    pub fn is_valid(&self) -> (b: bool)
        ensures
            b == self.wf(),
    {
        match self.status {
            GateStatus::AwaitingPermit => self.concurrency_limited && !self.holds_permit,
            GateStatus::AwaitingToken => self.rate_limited && self.holds_permit
                == self.concurrency_limited,
            GateStatus::Admitted => self.holds_permit == self.concurrency_limited,
            GateStatus::Closed => self.concurrency_limited && !self.holds_permit,
            GateStatus::Released => !self.holds_permit,
        }
    }

    /// Whether the call is through the admission gate.
    pub fn is_admitted(&self) -> (b: bool)
        ensures
            b == (self.status == GateStatus::Admitted),
    {
        self.status == GateStatus::Admitted
    }

    /// Takes what the semaphore or the rate limiter reported.
    pub fn on_event(&mut self, event: GateEvent)
        requires
            old(self).wf(),
        ensures
            final(self).wf(),
            *final(self) == old(self).after(event),
    {
        match self.status {
            GateStatus::AwaitingPermit => {
                match event {
                    GateEvent::PermitGranted => {
                        self.holds_permit = true;
                        if self.rate_limited {
                            self.status = GateStatus::AwaitingToken;
                        } else {
                            self.status = GateStatus::Admitted;
                        }
                    },
                    GateEvent::PermitSourceClosed => {
                        self.status = GateStatus::Closed;
                    },
                    GateEvent::TokenReady => {},
                }
            },
            GateStatus::AwaitingToken => {
                match event {
                    GateEvent::TokenReady => {
                        self.status = GateStatus::Admitted;
                    },
                    _ => {},
                }
            },
            _ => {},
        }
    }

    /// Gives the guard up, on whatever path the call ends. Returns whether
    /// a concurrency permit goes back to the semaphore. A token of the rate
    /// limiter is spent and never goes back.
    pub fn release(&mut self) -> (give_back: bool)
        requires
            old(self).wf(),
        ensures
            final(self).wf(),
            give_back == old(self).holds_permit,
            *final(self) == old(self).released(),
    {
        let give_back = self.holds_permit;
        self.holds_permit = false;
        self.status = GateStatus::Released;
        give_back
    }
}

/// How many of `calls` own a concurrency permit.
pub open spec fn permits_held(calls: Seq<Acquisition>) -> nat
    decreases calls.len(),
{
    if calls.len() == 0 {
        0
    } else {
        permits_held(calls.drop_last()) + if calls.last().holds_permit {
            1nat
        } else {
            0nat
        }
    }
}

/// How many of `calls` are through the admission gate, with their guard still
/// held.
pub open spec fn admitted(calls: Seq<Acquisition>) -> nat
    decreases calls.len(),
{
    if calls.len() == 0 {
        0
    } else {
        admitted(calls.drop_last()) + if calls.last().status == GateStatus::Admitted {
            1nat
        } else {
            0nat
        }
    }
}

/// Replacing one call changes the number of permits by what that call
/// gained or lost.
pub proof fn lemma_permits_held_update(calls: Seq<Acquisition>, i: int, a: Acquisition)
    requires
        0 <= i < calls.len(),
    ensures
        permits_held(calls.update(i, a)) + (if calls[i].holds_permit {
            1nat
        } else {
            0nat
        }) == permits_held(calls) + (if a.holds_permit {
            1nat
        } else {
            0nat
        }),
    decreases calls.len(),
{
    let next = calls.update(i, a);
    if i == calls.len() - 1 {
        assert(next.drop_last() =~= calls.drop_last());
    } else {
        assert(next.drop_last() =~= calls.drop_last().update(i, a));
        lemma_permits_held_update(calls.drop_last(), i, a);
    }
}

/// One thing that happens at an admission gate shared by many calls.
pub enum Occurrence {
    /// A new call arrives.
    Arrival,
    /// The semaphore or the rate limiter reports to call number `call`.
    Report { call: int, event: GateEvent },
    /// Call number `call` gives its guard up: it returned, failed or was
    /// cancelled.
    Release { call: int },
}

/// The calls at the admission gate after `occurrence`. What is addressed
/// to a call that does not exist changes nothing.
pub open spec fn calls_after(gate: Gate, calls: Seq<Acquisition>, occurrence: Occurrence) -> Seq<
    Acquisition,
> {
    match occurrence {
        Occurrence::Arrival => calls.push(gate.entry()),
        Occurrence::Report { call, event } => if 0 <= call < calls.len() {
            calls.update(call, calls[call].after(event))
        } else {
            calls
        },
        Occurrence::Release { call } => if 0 <= call < calls.len() {
            calls.update(call, calls[call].released())
        } else {
            calls
        },
    }
}

/// What a semaphore of `limit` permits allows: it grants a waiting call a
/// permit only while fewer than `limit` are out. Everything else may
/// happen at any time.
pub open spec fn semaphore_allows(limit: nat, calls: Seq<Acquisition>, occurrence: Occurrence) -> bool {
    match occurrence {
        Occurrence::Report { call, event } => (0 <= call < calls.len() && event
            == GateEvent::PermitGranted && calls[call].status == GateStatus::AwaitingPermit)
            ==> permits_held(calls) < limit,
        _ => true,
    }
}

/// The calls at the admission gate after everything in `history` has
/// happened, in order, starting with no call at all.
pub open spec fn calls_at(gate: Gate, history: Seq<Occurrence>) -> Seq<Acquisition>
    decreases history.len(),
{
    if history.len() == 0 {
        Seq::empty()
    } else {
        calls_after(gate, calls_at(gate, history.drop_last()), history.last())
    }
}

/// Whether the semaphore allowed each occurrence of `history` when it
/// happened.
pub open spec fn possible(gate: Gate, limit: nat, history: Seq<Occurrence>) -> bool
    decreases history.len(),
{
    history.len() == 0 || (possible(gate, limit, history.drop_last()) && semaphore_allows(
        limit,
        calls_at(gate, history.drop_last()),
        history.last(),
    ))
}

/// What was possible as a whole was possible up to any point of it.
pub proof fn lemma_possible_prefix(gate: Gate, limit: nat, history: Seq<Occurrence>, n: int)
    requires
        possible(gate, limit, history),
        0 <= n <= history.len(),
    ensures
        possible(gate, limit, history.take(n)),
    decreases history.len(),
{
    if n == history.len() {
        assert(history.take(n) =~= history);
    } else {
        assert(history.drop_last().take(n) =~= history.take(n));
        lemma_possible_prefix(gate, limit, history.drop_last(), n);
    }
}

/// For a concurrency limit of `n` and any load of calls that arrive, wait,
/// are admitted, return or are cancelled in any order: after any history
/// that the semaphore allows, at most `n` calls hold a permit, every call
/// that is through the admission gate holds one, and so at most `n` calls
/// are under way.
pub proof fn lemma_concurrency_never_exceeded(gate: Gate, history: Seq<Occurrence>)
    requires
        gate.concurrency_limit is Some,
        possible(gate, gate.concurrency_limit->0 as nat, history),
    ensures
        permits_held(calls_at(gate, history)) <= gate.concurrency_limit->0,
        admitted(calls_at(gate, history)) <= permits_held(calls_at(gate, history)),
        forall|i: int|
            0 <= i < calls_at(gate, history).len() ==> (#[trigger] calls_at(gate, history)[i]).wf()
                && calls_at(gate, history)[i].concurrency_limited,
    decreases history.len(),
{
    let now = calls_at(gate, history);
    if history.len() > 0 {
        let before = calls_at(gate, history.drop_last());
        lemma_concurrency_never_exceeded(gate, history.drop_last());
        match history.last() {
            Occurrence::Arrival => {
                assert(now.drop_last() =~= before);
            },
            Occurrence::Report { call, event } => {
                if 0 <= call < before.len() {
                    lemma_permits_held_update(before, call, before[call].after(event));
                }
            },
            Occurrence::Release { call } => {
                if 0 <= call < before.len() {
                    lemma_permits_held_update(before, call, before[call].released());
                }
            },
        }
        assert forall|i: int| 0 <= i < now.len() implies (#[trigger] now[i]).wf()
            && now[i].concurrency_limited by {
            if i < before.len() {
                assert(before[i].wf());
            }
        }
    }
    lemma_admitted_calls_hold_permits(now);
}

/// At every point of a history that the semaphore allows, at most as many
/// calls hold a permit as the concurrency limit says.
pub proof fn lemma_concurrency_bounded_at_every_point(
    gate: Gate,
    history: Seq<Occurrence>,
    n: int,
)
    requires
        gate.concurrency_limit is Some,
        possible(gate, gate.concurrency_limit->0 as nat, history),
        0 <= n <= history.len(),
    ensures
        permits_held(calls_at(gate, history.take(n))) <= gate.concurrency_limit->0,
        admitted(calls_at(gate, history.take(n))) <= gate.concurrency_limit->0,
{
    lemma_possible_prefix(gate, gate.concurrency_limit->0 as nat, history, n);
    lemma_concurrency_never_exceeded(gate, history.take(n));
}

/// At a gate that limits concurrency, every call that is through the admission
/// gate owns a permit: no more calls are under way than permits are held.
pub proof fn lemma_admitted_calls_hold_permits(calls: Seq<Acquisition>)
    requires
        forall|i: int|
            0 <= i < calls.len() ==> (#[trigger] calls[i]).wf() && calls[i].concurrency_limited,
    ensures
        admitted(calls) <= permits_held(calls),
    decreases calls.len(),
{
    if calls.len() > 0 {
        let init = calls.drop_last();
        assert forall|i: int| 0 <= i < init.len() implies (#[trigger] init[i]).wf()
            && init[i].concurrency_limited by {
            assert(init[i] == calls[i]);
        }
        lemma_admitted_calls_hold_permits(init);
        assert(calls.last() == calls[calls.len() - 1]);
    }
}

/// A call that is cancelled while it waits for the rate limiter gives its
/// permit back, and is never admitted afterwards, whatever is reported.
pub proof fn lemma_cancelled_wait_frees_permit(a: Acquisition, event: GateEvent)
    requires
        a.wf(),
        a.status == GateStatus::AwaitingToken,
    ensures
        a.holds_permit == a.concurrency_limited,
        !a.released().holds_permit,
        a.released().after(event) == a.released(),
        a.released().status != GateStatus::Admitted,
{
}

} // verus!
