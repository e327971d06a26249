use vstd::prelude::*;
use crate::error::CollectError;
use crate::retry::RetryPolicy;

verus! {

/// The most attempts one call makes: one without a policy, the policy's
/// limit with one.
pub open spec fn attempt_limit(policy: Option<RetryPolicy>) -> nat {
    match policy {
        Some(p) => p.attempts(),
        None => 1,
    }
}

/// What the executor asks for once an attempt's outcome is known.
#[derive(Debug, PartialEq, Eq)]
pub enum Directive<T, E> {
    /// Wait this long, then make the attempt again.
    RetryAfter { delay_ms: u64 },
    /// The call is over, with this result.
    Finish(Result<T, CollectError<E>>),
}

/// The progress of one call through its attempts.
///
/// An execution starts with its first attempt under way. Each outcome that
/// the caller reports either ends the call or asks for one more attempt
/// after a wait.
#[derive(Clone, Copy, Debug)]
pub struct Execution {
    /// The policy this call was started with, if any.
    pub policy: Option<RetryPolicy>,
    /// The attempts started so far, the one under way included.
    pub invocations: u32,
}

impl Execution {
    /// At least one attempt was started, and never more than the limit.
    pub open spec fn wf(self) -> bool {
        1 <= self.invocations <= attempt_limit(self.policy)
    }

    /// The decision on `outcome`: a success ends the call with its value;
    /// a failure asks for another attempt while the limit allows one, and
    /// otherwise ends the call with that failure.
    pub open spec fn decide<T, E>(self, outcome: Result<T, E>) -> Directive<T, E> {
        match outcome {
            Ok(v) => Directive::Finish(Ok(v)),
            Err(e) => match self.policy {
                Some(p) if self.invocations < p.attempts() => Directive::RetryAfter {
                    delay_ms: p.delay_ms(self.invocations as nat) as u64,
                },
                _ => Directive::Finish(Err(CollectError::ProviderError(e))),
            },
        }
    }

    /// The execution after the decision on `outcome`: one more attempt is
    /// counted exactly when the decision asks for one.
    pub open spec fn advance<T, E>(self, outcome: Result<T, E>) -> Execution {
        match self.decide(outcome) {
            Directive::RetryAfter { .. } => Execution {
                policy: self.policy,
                invocations: (self.invocations + 1) as u32,
            },
            Directive::Finish(_) => self,
        }
    }

    /// Starts a call: the first attempt is to be made at once.
    pub fn begin(policy: Option<RetryPolicy>) -> (e: Execution)
        ensures
            e.wf(),
            e.policy == policy,
            e.invocations == 1,
    {
        Execution { policy, invocations: 1 }
    }

    /// Whether the attempt count is within the limit.
    pub fn is_valid(&self) -> (b: bool)
        ensures
            b == self.wf(),
    {
        let limit: u32 = match self.policy {
            Some(p) => p.attempt_budget(),
            None => 1,
        };
        1 <= self.invocations && self.invocations <= limit
    }

    /// Takes the outcome of the attempt under way and says what follows.
    pub fn on_outcome<T, E>(&mut self, outcome: Result<T, E>) -> (d: Directive<T, E>)
        requires
            old(self).wf(),
        ensures
            final(self).wf(),
            d == old(self).decide(outcome),
            *final(self) == old(self).advance(outcome),
    {
        match outcome {
            Ok(v) => Directive::Finish(Ok(v)),
            Err(e) => {
                match self.policy {
                    Some(p) => {
                        if self.invocations < p.attempt_budget() {
                            let delay_ms = p.backoff_delay_ms(self.invocations);
                            self.invocations = self.invocations + 1;
                            Directive::RetryAfter { delay_ms }
                        } else {
                            Directive::Finish(Err(CollectError::ProviderError(e)))
                        }
                    },
                    None => Directive::Finish(Err(CollectError::ProviderError(e))),
                }
            },
        }
    }
}

/// A finished call: its result, how often the action was invoked, and the
/// waits that lay between the invocations, in milliseconds.
pub struct Completed<T, E> {
    pub result: Result<T, CollectError<E>>,
    pub invocations: nat,
    pub delays: Seq<nat>,
}

/// Runs an execution against the outcomes that its attempts will have, the
/// outcome of the attempt under way first. `None` where the outcomes run
/// out before the call is over.
pub open spec fn run<T, E>(e: Execution, outcomes: Seq<Result<T, E>>) -> Option<Completed<T, E>>
    decreases outcomes.len(),
{
    if outcomes.len() == 0 {
        None
    } else {
        match e.decide(outcomes[0]) {
            Directive::Finish(result) => Some(
                Completed { result, invocations: e.invocations as nat, delays: Seq::empty() },
            ),
            Directive::RetryAfter { delay_ms } => match run(
                e.advance(outcomes[0]),
                outcomes.skip(1),
            ) {
                Some(c) => Some(
                    Completed {
                        result: c.result,
                        invocations: c.invocations,
                        delays: seq![delay_ms as nat] + c.delays,
                    },
                ),
                None => None,
            },
        }
    }
}

/// A whole call under `policy` against the outcomes of its attempts.
pub open spec fn execute<T, E>(policy: Option<RetryPolicy>, outcomes: Seq<Result<T, E>>) -> Option<
    Completed<T, E>,
> {
    run(Execution { policy, invocations: 1 }, outcomes)
}

/// From any point of a call: when the next `n` attempts fail and the one
/// after them succeeds, within the limit, the call returns that success
/// after exactly those attempts, having waited once after each failure.
pub proof fn lemma_run_until_success<T, E>(e: Execution, outcomes: Seq<Result<T, E>>, n: nat)
    requires
        e.wf(),
        e.invocations + n <= attempt_limit(e.policy),
        n < outcomes.len(),
        forall|i: int| 0 <= i < n ==> (#[trigger] outcomes[i]) is Err,
        outcomes[n as int] is Ok,
    ensures
        run(e, outcomes) is Some,
        run(e, outcomes)->0.result == Ok::<T, CollectError<E>>(outcomes[n as int]->Ok_0),
        run(e, outcomes)->0.invocations == e.invocations + n,
        run(e, outcomes)->0.delays.len() == n,
        forall|i: int|
            0 <= i < n ==> #[trigger] run(e, outcomes)->0.delays[i] == e.policy->0.delay_ms(
                (e.invocations + i) as nat,
            ),
    decreases n,
{
    if n > 0 {
        assert(outcomes[0] is Err);
        let rest = outcomes.skip(1);
        let next = e.advance(outcomes[0]);
        assert(e.decide(outcomes[0]) is RetryAfter);
        assert forall|i: int| 0 <= i < n - 1 implies (#[trigger] rest[i]) is Err by {
            assert(rest[i] == outcomes[i + 1]);
        }
        assert(rest[n - 1] == outcomes[n as int]);
        lemma_run_until_success(next, rest, (n - 1) as nat);
        let c = run(next, rest)->0;
        let full = run(e, outcomes)->0;
        assert(full.delays == seq![e.policy->0.delay_ms(e.invocations as nat)] + c.delays);
        assert forall|i: int| 0 <= i < n implies #[trigger] full.delays[i] == e.policy->0.delay_ms(
            (e.invocations + i) as nat,
        ) by {
            if i > 0 {
                assert(full.delays[i] == c.delays[i - 1]);
            }
        }
    }
}

/// From any point of a call: when every attempt up to the limit fails, the
/// call makes all of them and returns the failure of the last one.
pub proof fn lemma_run_until_exhausted<T, E>(e: Execution, outcomes: Seq<Result<T, E>>)
    requires
        e.wf(),
        outcomes.len() >= attempt_limit(e.policy) - e.invocations + 1,
        forall|i: int|
            0 <= i <= attempt_limit(e.policy) - e.invocations ==> (#[trigger] outcomes[i]) is Err,
    ensures
        run(e, outcomes) is Some,
        run(e, outcomes)->0.result == Err::<T, CollectError<E>>(
            CollectError::ProviderError(outcomes[attempt_limit(e.policy) - e.invocations]->Err_0),
        ),
        run(e, outcomes)->0.invocations == attempt_limit(e.policy),
        run(e, outcomes)->0.delays.len() == attempt_limit(e.policy) - e.invocations,
    decreases attempt_limit(e.policy) - e.invocations,
{
    assert(outcomes[0] is Err);
    if e.invocations < attempt_limit(e.policy) {
        let rest = outcomes.skip(1);
        let next = e.advance(outcomes[0]);
        assert(e.decide(outcomes[0]) is RetryAfter);
        assert forall|i: int|
            0 <= i <= attempt_limit(next.policy) - next.invocations implies (#[trigger] rest[i]) is Err by {
            assert(rest[i] == outcomes[i + 1]);
        }
        assert(rest[attempt_limit(next.policy) - next.invocations] == outcomes[attempt_limit(
            e.policy,
        ) - e.invocations]);
        lemma_run_until_exhausted(next, rest);
    }
}

/// Under a policy of `k` attempts, a call whose action fails every time
/// invokes it exactly `k` times and returns the failure of attempt `k`.
pub proof fn lemma_always_failing_uses_every_attempt<T, E>(
    policy: RetryPolicy,
    outcomes: Seq<Result<T, E>>,
)
    requires
        policy.max_attempts >= 1,
        outcomes.len() >= policy.max_attempts,
        forall|i: int| 0 <= i < policy.max_attempts ==> (#[trigger] outcomes[i]) is Err,
    ensures
        execute(Some(policy), outcomes) is Some,
        execute(Some(policy), outcomes)->0.invocations == policy.max_attempts,
        execute(Some(policy), outcomes)->0.result == Err::<T, CollectError<E>>(
            CollectError::ProviderError(outcomes[policy.max_attempts - 1]->Err_0),
        ),
{
    lemma_run_until_exhausted(Execution { policy: Some(policy), invocations: 1 }, outcomes);
}

/// Under any policy, a call whose action fails `j - 1` times and succeeds
/// at attempt `j`, within the limit, invokes it exactly `j` times and
/// returns the value of attempt `j`. Between the attempts it waits the
/// policy's delays, in order.
pub proof fn lemma_success_ends_the_call<T, E>(
    policy: RetryPolicy,
    outcomes: Seq<Result<T, E>>,
    j: nat,
)
    requires
        1 <= j <= policy.attempts(),
        j <= outcomes.len(),
        forall|i: int| 0 <= i < j - 1 ==> (#[trigger] outcomes[i]) is Err,
        outcomes[j - 1] is Ok,
    ensures
        execute(Some(policy), outcomes) is Some,
        execute(Some(policy), outcomes)->0.invocations == j,
        execute(Some(policy), outcomes)->0.result == Ok::<T, CollectError<E>>(outcomes[j - 1]->Ok_0),
        execute(Some(policy), outcomes)->0.delays.len() == j - 1,
        forall|i: int|
            0 <= i < j - 1 ==> #[trigger] execute(Some(policy), outcomes)->0.delays[i]
                == policy.delay_ms((i + 1) as nat),
{
    lemma_run_until_success(
        Execution { policy: Some(policy), invocations: 1 },
        outcomes,
        (j - 1) as nat,
    );
}

/// Without a policy the action is invoked exactly once, and what it
/// returns is what the call returns: a failure is passed on at once.
pub proof fn lemma_no_policy_means_one_attempt<T, E>(outcomes: Seq<Result<T, E>>)
    requires
        outcomes.len() >= 1,
    ensures
        execute(None, outcomes) is Some,
        execute(None, outcomes)->0.invocations == 1,
        execute(None, outcomes)->0.delays.len() == 0,
        execute(None, outcomes)->0.result == crate::error::wrap_outcome(outcomes[0]),
{
}

/// A record that does not exist is a success that holds no record: the
/// call ends with `Ok(None)` at once, whatever the policy, never with an
/// error and never with another attempt.
pub proof fn lemma_absence_is_success<T, E>(e: Execution)
    ensures
        e.decide(Ok::<Option<T>, E>(None)) == Directive::Finish(Ok::<Option<T>, CollectError<E>>(None)),
        e.advance(Ok::<Option<T>, E>(None)) == e,
{
}

} // verus!
