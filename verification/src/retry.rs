use vstd::prelude::*;
use tokio_retry::strategy::ExponentialBackoff;

verus! {

/// A number of milliseconds, held at `u64::MAX` where it would be larger.
pub open spec fn saturate(x: nat) -> nat {
    if x > u64::MAX {
        u64::MAX as nat
    } else {
        x
    }
}

/// `g` multiplied with itself `n` times.
pub open spec fn power(g: nat, n: nat) -> nat
    decreases n,
{
    if n == 0 {
        1
    } else {
        g * power(g, (n - 1) as nat)
    }
}

/// The running value that an exponential backoff made from `base` holds
/// once `k` delays were taken from it: it starts at `base` and is
/// multiplied by `base` after each delay, saturating.
pub open spec fn backoff_current(base: u64, k: nat) -> nat
    decreases k,
{
    if k == 0 {
        base as nat
    } else {
        saturate(backoff_current(base, (k - 1) as nat) * (base as nat))
    }
}

/// The delay number `k` (from 0) of an exponential backoff made from
/// `base` and `factor`, in milliseconds: the running value times the
/// factor, saturating.
pub open spec fn backoff_item_ms(base: u64, factor: u64, k: nat) -> nat {
    saturate(backoff_current(base, k) * (factor as nat))
}

/// Takes delay number `n` (from 0) out of
/// `tokio_retry::strategy::ExponentialBackoff::from_millis(base).factor(factor)`,
/// in whole milliseconds. That iterator has no maximum delay set and never
/// ends: each `next` yields its running value times the factor, then
/// multiplies the running value by the base, both with saturating `u64`
/// multiplication. The contract states that sequence; it is not proved.
#[verifier::external_body]
fn exponential_backoff_nth_ms(base: u64, factor: u64, n: usize) -> (r: Option<u64>)
    ensures
        r == Some(backoff_item_ms(base, factor, n as nat) as u64),
{
    ExponentialBackoff::from_millis(base).factor(factor).nth(n).map(|d| d.as_millis() as u64)
}

/// A bounded exponential backoff: how long to wait before each new attempt,
/// and how many attempts a call may make in all.
///
/// The policy is plain configuration. Every call reads it afresh, so two
/// calls never share a position in the sequence of delays.
#[derive(Clone, Copy, Debug)]
pub struct RetryPolicy {
    /// The wait before the second attempt, in milliseconds.
    pub initial_delay_ms: u64,
    /// Each further wait is the one before it times this factor.
    pub growth_factor: u64,
    /// The most attempts one call makes. A call always makes one attempt,
    /// so 0 counts as 1.
    pub max_attempts: u32,
}

impl RetryPolicy {
    /// The number of attempts a call makes under this policy when every
    /// attempt fails.
    pub open spec fn attempts(self) -> nat {
        if self.max_attempts == 0 {
            1
        } else {
            self.max_attempts as nat
        }
    }

    /// The wait, in milliseconds, after failure number `failures` (from 1)
    /// and before the next attempt: the initial delay times the growth
    /// factor once for each earlier failure, at most `u64::MAX`.
    pub open spec fn delay_ms(self, failures: nat) -> nat
        recommends
            failures >= 1,
    {
        saturate((self.initial_delay_ms as nat) * power(self.growth_factor as nat, (failures - 1) as nat))
    }

    /// A policy with the given first delay, growth factor and attempt limit.
    pub fn new(initial_delay_ms: u64, growth_factor: u64, max_attempts: u32) -> (p: RetryPolicy)
        ensures
            p.initial_delay_ms == initial_delay_ms,
            p.growth_factor == growth_factor,
            p.max_attempts == max_attempts,
    {
        RetryPolicy { initial_delay_ms, growth_factor, max_attempts }
    }

    /// The attempt limit, with 0 read as 1.
    pub fn attempt_budget(&self) -> (n: u32)
        ensures
            n == self.attempts(),
    {
        if self.max_attempts == 0 {
            1
        } else {
            self.max_attempts
        }
    }

    /// The wait before the next attempt once `failures` attempts have failed.
    pub fn backoff_delay_ms(&self, failures: u32) -> (d: u64)
        requires
            failures >= 1,
        ensures
            d == self.delay_ms(failures as nat),
    {
        if failures == 1 {
            proof {
                let i = self.initial_delay_ms as nat;
                assert(power(self.growth_factor as nat, 0) == 1);
                assert(i * 1 == i);
            }
            self.initial_delay_ms
        } else {
            let n: usize = (failures - 2) as usize;
            proof {
                lemma_backoff_item(self.growth_factor, self.initial_delay_ms, n as nat);
                assert(n + 1 == failures - 1);
            }
            match exponential_backoff_nth_ms(self.growth_factor, self.initial_delay_ms, n) {
                Some(d) => d,
                None => self.initial_delay_ms,
            }
        }
    }
}

/// The running value of a backoff is the matching power of its base,
/// saturated.
pub proof fn lemma_backoff_current(base: u64, k: nat)
    ensures
        backoff_current(base, k) == saturate(power(base as nat, k + 1)),
    decreases k,
{
    let b = base as nat;
    if k == 0 {
        assert(power(b, 0) == 1);
        assert(power(b, 1) == b * power(b, 0));
        assert(b * 1 == b);
    } else {
        let j = (k - 1) as nat;
        lemma_backoff_current(base, j);
        let p = power(b, k);
        assert(backoff_current(base, j) == saturate(p));
        assert(backoff_current(base, k) == saturate(backoff_current(base, j) * b));
        assert(power(b, k + 1) == b * power(b, k));
        lemma_saturate_product(p, b);
        assert(p * b == b * p) by (nonlinear_arith);
    }
}

/// Saturating before a multiplication changes nothing once the product is
/// saturated too.
pub proof fn lemma_saturate_product(p: nat, f: nat)
    ensures
        saturate(saturate(p) * f) == saturate(p * f),
{
    if p > u64::MAX {
        if f == 0 {
            assert(saturate(p) * f == 0) by (nonlinear_arith)
                requires
                    f == 0,
            ;
            assert(p * f == 0) by (nonlinear_arith)
                requires
                    f == 0,
            ;
        } else {
            let m = u64::MAX as nat;
            assert(m * f >= m) by (nonlinear_arith)
                requires
                    f >= 1,
            ;
            assert(p * f > m) by (nonlinear_arith)
                requires
                    f >= 1,
                    p > m,
            ;
        }
    }
}

/// Delay number `k` of a backoff made from `base` and `factor` is
/// `factor * base^(k+1)`, saturated: with the growth factor as base and the
/// initial delay as factor, it is the policy's wait after `k + 2` failures.
pub proof fn lemma_backoff_item(base: u64, factor: u64, k: nat)
    ensures
        backoff_item_ms(base, factor, k) == saturate((factor as nat) * power(base as nat, k + 1)),
        backoff_item_ms(base, factor, k) <= u64::MAX,
{
    lemma_backoff_current(base, k);
    let p = power(base as nat, k + 1);
    let f = factor as nat;
    lemma_saturate_product(p, f);
    assert(p * f == f * p) by (nonlinear_arith);
}

} // verus!
