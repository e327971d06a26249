use vstd::prelude::*;

verus! {

/// A quota of calls per span of time.
#[derive(Clone, Copy, Debug)]
pub struct RateLimit {
    /// How many calls may be admitted in one span.
    pub requests: u32,
    /// The length of the span, in milliseconds.
    pub per_ms: u64,
}

impl RateLimit {
    /// The length of the span in nanoseconds.
    pub open spec fn span_ns(self) -> nat {
        (self.per_ms as nat) * 1_000_000
    }

    /// The least time, in nanoseconds, that must lie between two
    /// admissions so that `requests` of them in a row never take less than
    /// the span: the span divided by the quota, rounded up.
    pub open spec fn spacing(self) -> nat
        recommends
            self.requests >= 1,
    {
        ((self.span_ns() + self.requests - 1) / (self.requests as int)) as nat
    }

    /// Whether a limiter can hold this quota: it admits at least one call,
    /// over a span that is not empty, and the spacing fits in 64 bits.
    pub open spec fn enforceable(self) -> bool {
        self.requests >= 1 && self.per_ms >= 1 && self.spacing() <= u64::MAX
    }

    /// A quota of `requests` calls per `per_ms` milliseconds.
    pub fn new(requests: u32, per_ms: u64) -> (r: RateLimit)
        ensures
            r.requests == requests,
            r.per_ms == per_ms,
    {
        RateLimit { requests, per_ms }
    }

    /// The time in nanoseconds that a limiter has to leave between two
    /// admissions to hold this quota; `None` where no limiter can hold it.
    pub fn spacing_ns(&self) -> (r: Option<u64>)
        ensures
            r is Some <==> self.enforceable(),
            r is Some ==> r->0 == self.spacing() && r->0 >= 1,
    {
        if self.requests == 0 || self.per_ms == 0 {
            return None;
        }
        let span: u128 = (self.per_ms as u128) * 1_000_000;
        let requests: u128 = self.requests as u128;
        let spacing: u128 = (span + (requests - 1)) / requests;
        assert(spacing >= 1) by (nonlinear_arith)
            requires
                span >= 1,
                requests >= 1,
                spacing == (span + (requests - 1)) / (requests as int),
        ;
        if spacing > u64::MAX as u128 {
            None
        } else {
            Some(spacing as u64)
        }
    }
}

/// Whether the admission times `times`, in nanoseconds and in the order of
/// admission, keep `spacing` between each admission and the next.
pub open spec fn spaced(times: Seq<nat>, spacing: nat) -> bool {
    forall|i: int| 0 <= i < times.len() - 1 ==> (#[trigger] times[i]) + spacing <= times[i + 1]
}

/// Admissions that keep their spacing lie at least that spacing apart for
/// every step between them.
pub proof fn lemma_spaced_apart(times: Seq<nat>, spacing: nat, i: int, j: int)
    requires
        spaced(times, spacing),
        0 <= i <= j < times.len(),
    ensures
        times[i] + (j - i) * spacing <= times[j],
    decreases j - i,
{
    if i < j {
        lemma_spaced_apart(times, spacing, i, j - 1);
        assert(times[j - 1] + spacing <= times[j - 1 + 1]);
        assert((j - i) * spacing == (j - 1 - i) * spacing + spacing) by (nonlinear_arith);
    } else {
        assert((j - i) * spacing == 0) by (nonlinear_arith)
            requires
                j - i == 0,
        ;
    }
}

/// Under a quota of `requests` calls per span, with admissions kept at the
/// quota's spacing, any admission and the one `requests` places after it
/// lie a full span apart or more.
pub proof fn lemma_quota_takes_a_full_span(limit: RateLimit, times: Seq<nat>, i: int, j: int)
    requires
        limit.requests >= 1,
        spaced(times, limit.spacing()),
        0 <= i,
        i + limit.requests <= j < times.len(),
    ensures
        times[i] + limit.span_ns() <= times[j],
{
    let s = limit.spacing();
    let r = limit.requests as int;
    let t = limit.span_ns() as int;
    lemma_spaced_apart(times, s, i, j);
    assert(s * r >= t) by (nonlinear_arith)
        requires
            r >= 1,
            t >= 0,
            s == (t + r - 1) / r,
    ;
    assert((j - i) * s >= r * s) by (nonlinear_arith)
        requires
            j - i >= r,
            s >= 0,
    ;
    assert(s * r == r * s) by (nonlinear_arith);
}

/// Whether time `t` lies in the window of length `span` that starts at
/// `from`; the window's end is not part of it.
pub open spec fn in_window(t: nat, from: nat, span: nat) -> bool {
    from <= t < from + span
}

/// How many of the admissions number `lo` up to, not including, `hi` fall
/// into the window of length `span` that starts at `from`.
pub open spec fn admitted_between(times: Seq<nat>, lo: int, hi: int, from: nat, span: nat) -> nat
    decreases hi - lo,
{
    if hi <= lo {
        0
    } else {
        admitted_between(times, lo, hi - 1, from, span) + if in_window(times[hi - 1], from, span) {
            1nat
        } else {
            0nat
        }
    }
}

/// How many admissions fall into the window of length `span` that starts
/// at `from`.
pub open spec fn admitted_within(times: Seq<nat>, from: nat, span: nat) -> nat {
    admitted_between(times, 0, times.len() as int, from, span)
}

/// Where the admissions stop being earlier than `x`: the number of the
/// first of the first `n` that is not, or `n`.
spec fn first_not_before(times: Seq<nat>, x: nat, n: int) -> int
    decreases n,
{
    if n <= 0 {
        0
    } else if times[n - 1] < x {
        n
    } else {
        first_not_before(times, x, n - 1)
    }
}

proof fn lemma_first_not_before(times: Seq<nat>, spacing: nat, x: nat, n: int)
    requires
        spaced(times, spacing),
        0 <= n <= times.len(),
    ensures
        0 <= first_not_before(times, x, n) <= n,
        forall|k: int| 0 <= k < first_not_before(times, x, n) ==> times[k] < x,
        forall|k: int| first_not_before(times, x, n) <= k < n ==> times[k] >= x,
    decreases n,
{
    if n > 0 {
        if times[n - 1] < x {
            assert forall|k: int| 0 <= k < n implies times[k] < x by {
                lemma_spaced_apart(times, spacing, k, n - 1);
                assert((n - 1 - k) * spacing >= 0) by (nonlinear_arith)
                    requires
                        n - 1 - k >= 0,
                        spacing >= 0,
                ;
            }
        } else {
            lemma_first_not_before(times, spacing, x, n - 1);
        }
    }
}

proof fn lemma_admitted_between_bounds(times: Seq<nat>, lo: int, hi: int, from: nat, span: nat)
    requires
        0 <= lo <= hi <= times.len(),
    ensures
        admitted_between(times, lo, hi, from, span) <= hi - lo,
        (forall|k: int| lo <= k < hi ==> !in_window(#[trigger] times[k], from, span))
            ==> admitted_between(
            times,
            lo,
            hi,
            from,
            span,
        ) == 0,
    decreases hi - lo,
{
    if lo < hi {
        lemma_admitted_between_bounds(times, lo, hi - 1, from, span);
    }
}

proof fn lemma_admitted_between_split(
    times: Seq<nat>,
    lo: int,
    mid: int,
    hi: int,
    from: nat,
    span: nat,
)
    requires
        0 <= lo <= mid <= hi <= times.len(),
    ensures
        admitted_between(times, lo, hi, from, span) == admitted_between(times, lo, mid, from, span)
            + admitted_between(times, mid, hi, from, span),
    decreases hi - mid,
{
    if mid < hi {
        lemma_admitted_between_split(times, lo, mid, hi - 1, from, span);
    }
}

/// For a quota of `requests` calls per span and admissions kept at the
/// quota's spacing, however many calls are waiting: no window of the
/// span's length, wherever it starts, holds more than `requests`
/// admissions.
pub proof fn lemma_rate_never_exceeded(limit: RateLimit, times: Seq<nat>, from: nat)
    requires
        limit.requests >= 1,
        spaced(times, limit.spacing()),
    ensures
        admitted_within(times, from, limit.span_ns()) <= limit.requests,
{
    let span = limit.span_ns();
    let n = times.len() as int;
    let f = first_not_before(times, from, n);
    let l = first_not_before(times, from + span, n);
    lemma_first_not_before(times, limit.spacing(), from, n);
    lemma_first_not_before(times, limit.spacing(), from + span, n);
    if l < f {
        assert(times[l] < from);
        assert(times[l] >= from + span);
    }
    lemma_admitted_between_split(times, 0, f, n, from, span);
    lemma_admitted_between_split(times, f, l, n, from, span);
    lemma_admitted_between_bounds(times, 0, f, from, span);
    lemma_admitted_between_bounds(times, l, n, from, span);
    lemma_admitted_between_bounds(times, f, l, from, span);
    if l - f > limit.requests {
        lemma_quota_takes_a_full_span(limit, times, f, l - 1);
        assert(times[l - 1] < from + span);
        assert(times[f] >= from);
    }
}

} // verus!
