use vstd::prelude::*;

verus! {

/// Thousandths of a token: the bucket counts in these units so that a
/// refill over a few milliseconds stays exact.
pub const UNIT: u64 = 1000;

/// A token bucket that admits at most `capacity` requests in a burst and
/// refills continuously at `rate` tokens per second. Time is given by the
/// caller in milliseconds.
pub struct RateLimiter {
    pub capacity: u32,
    pub rate: u32,
    /// Available tokens, in thousandths of a token.
    pub credit: u64,
    /// When the bucket was last refilled.
    pub last_ms: u64,
}

impl RateLimiter {
    /// The bucket is well formed: it never holds more than its capacity.
    pub open spec fn wf(&self) -> bool {
        &&& self.capacity > 0
        &&& self.rate > 0
        &&& self.credit <= self.capacity * UNIT
    }

    /// Credit after refilling up to `now`; a clock that went back refills
    /// nothing.
    pub open spec fn refilled(&self, now: u64) -> nat {
        if now <= self.last_ms {
            self.credit as nat
        } else {
            let grown = self.credit + (now - self.last_ms) * self.rate;
            let full = self.capacity * UNIT;
            if grown < full {
                grown as nat
            } else {
                full as nat
            }
        }
    }

    pub open spec fn refill_time(&self, now: u64) -> u64 {
        if now <= self.last_ms {
            self.last_ms
        } else {
            now
        }
    }

    /// Milliseconds until a bucket holding `credit` reaches one whole token.
    pub open spec fn wait_for(credit: nat, rate: nat) -> nat
        recommends
            rate > 0,
    {
        ((UNIT - credit) + rate - 1) as nat / rate
    }

    /// The bucket after one admission attempt at `now`, and whether the
    /// attempt was admitted.
    pub open spec fn attempt(self, now: u64) -> (RateLimiter, bool) {
        let c = self.refilled(now);
        let admitted = c >= UNIT;
        (
            RateLimiter {
                credit: (if admitted {
                    c - UNIT
                } else {
                    c as int
                }) as u64,
                last_ms: self.refill_time(now),
                ..self
            },
            admitted,
        )
    }

    /// A full bucket of `capacity` tokens that refills at `rate` tokens per
    /// second.
    pub fn new(capacity: u32, rate: u32, now_ms: u64) -> (r: RateLimiter)
        requires
            capacity > 0,
            rate > 0,
        ensures
            r.wf(),
            r.capacity == capacity,
            r.rate == rate,
            r.credit == capacity * UNIT,
            r.last_ms == now_ms,
    {
        RateLimiter { capacity, rate, credit: capacity as u64 * UNIT, last_ms: now_ms }
    }

    /// The limiter of one category class: `per_second` requests in a burst,
    /// refilled at `per_second` per second.
    pub fn per_second(per_second: u32, now_ms: u64) -> (r: RateLimiter)
        requires
            per_second > 0,
        ensures
            r.wf(),
            r.capacity == per_second,
            r.rate == per_second,
            r.credit == per_second * UNIT,
            r.last_ms == now_ms,
    {
        RateLimiter::new(per_second, per_second, now_ms)
    }

    /// Refills the bucket up to `now_ms`, then takes one token if a whole
    /// one is there. `Err(ms)` says how long to wait before a token will be.
    pub fn try_acquire(&mut self, now_ms: u64) -> (r: Result<(), u64>)
        requires
            old(self).wf(),
        ensures
            final(self).wf(),
            *final(self) == old(self).attempt(now_ms).0,
            r is Ok <==> old(self).attempt(now_ms).1,
            r matches Err(w) ==> w == RateLimiter::wait_for(
                old(self).refilled(now_ms),
                old(self).rate as nat,
            ),
    {
        let full = self.capacity as u64 * UNIT;
        if now_ms > self.last_ms {
            let elapsed = now_ms - self.last_ms;
            let rate = self.rate;
            assert(elapsed as int * rate as int <= 0xffff_ffff_ffff_ffff * 0xffff_ffff) by (nonlinear_arith)
                requires
                    elapsed <= 0xffff_ffff_ffff_ffffu64,
                    rate <= 0xffff_ffffu32,
            ;
            let gain: u128 = elapsed as u128 * rate as u128;
            let room = (full - self.credit) as u128;
            if gain < room {
                self.credit = self.credit + gain as u64;
            } else {
                self.credit = full;
            }
            self.last_ms = now_ms;
        }
        if self.credit >= UNIT {
            self.credit = self.credit - UNIT;
            Ok(())
        } else {
            let rate = self.rate as u64;
            Err(((UNIT - self.credit) + rate - 1) / rate)
        }
    }
}

/// The bucket and the number of admissions after attempts at `times`, in
/// order.
pub open spec fn run(s: RateLimiter, times: Seq<u64>) -> (RateLimiter, nat)
    decreases times.len(),
{
    if times.len() == 0 {
        (s, 0)
    } else {
        let (mid, n) = run(s, times.drop_last());
        let (next, ok) = mid.attempt(times.last());
        (next, n + if ok {
            1nat
        } else {
            0nat
        })
    }
}

pub open spec fn sorted_from(start: u64, times: Seq<u64>) -> bool {
    &&& forall|i: int| 0 <= i < times.len() ==> start <= #[trigger] times[i]
    &&& forall|i: int, j: int| 0 <= i <= j < times.len() ==> times[i] <= times[j]
}

proof fn lemma_run_accounting(s: RateLimiter, times: Seq<u64>)
    requires
        s.wf(),
        sorted_from(s.last_ms, times),
    ensures
        run(s, times).0.wf(),
        run(s, times).0.capacity == s.capacity,
        run(s, times).0.rate == s.rate,
        s.last_ms <= run(s, times).0.last_ms,
        times.len() > 0 ==> run(s, times).0.last_ms == times.last(),
        run(s, times).1 * UNIT + run(s, times).0.credit <= s.credit + (run(s, times).0.last_ms
            - s.last_ms) * s.rate,
    decreases times.len(),
{
    if times.len() > 0 {
        let p = times.drop_last();
        assert(sorted_from(s.last_ms, p)) by {
            assert forall|i: int| 0 <= i < p.len() implies s.last_ms <= #[trigger] p[i] by {
                assert(p[i] == times[i]);
            }
            assert forall|i: int, j: int| 0 <= i <= j < p.len() implies p[i] <= p[j] by {
                assert(p[i] == times[i] && p[j] == times[j]);
            }
        }
        lemma_run_accounting(s, p);
        let mid = run(s, p).0;
        let now = times.last();
        assert(times[times.len() - 1] == now);
        if p.len() > 0 {
            assert(p.last() == times[p.len() - 1]);
        }
        assert(mid.last_ms <= now);
        let a = (mid.last_ms - s.last_ms) as int;
        let b = (now - mid.last_ms) as int;
        let r = s.rate as int;
        assert(a * r + b * r == (a + b) * r) by (nonlinear_arith);
        assert(0 <= b * r) by (nonlinear_arith)
            requires
                0 <= b,
                0 <= r,
        ;
    }
}

/// The limiter never over-admits: from any well-formed bucket, the attempts
/// made within `window` milliseconds of its last refill admit at most the
/// tokens it held plus those that `window` milliseconds refill. So a window
/// of `1000 / rate` milliseconds sees at most `capacity + 1` admissions.
pub proof fn lemma_never_over_admits(s: RateLimiter, times: Seq<u64>, window: u64)
    requires
        s.wf(),
        sorted_from(s.last_ms, times),
        forall|i: int| 0 <= i < times.len() ==> #[trigger] times[i] <= s.last_ms + window,
    ensures
        run(s, times).1 * UNIT <= s.capacity * UNIT + window * s.rate,
        window * s.rate <= UNIT ==> run(s, times).1 <= s.capacity + 1,
{
    lemma_run_accounting(s, times);
    let e = run(s, times).0;
    if times.len() > 0 {
        assert(times[times.len() - 1] <= s.last_ms + window);
    }
    let d = (e.last_ms - s.last_ms) as int;
    let w = window as int;
    let r = s.rate as int;
    assert(d * r <= w * r) by (nonlinear_arith)
        requires
            0 <= d <= w,
            0 <= r,
    ;
}

/// The bucket refilled up to `at`, with no attempt made.
pub open spec fn refresh(s: RateLimiter, at: u64) -> RateLimiter {
    RateLimiter { credit: s.refilled(at) as u64, last_ms: s.refill_time(at), ..s }
}

proof fn lemma_refresh_attempt(s: RateLimiter, at: u64, t: u64)
    requires
        s.wf(),
        s.last_ms <= at <= t,
    ensures
        refresh(s, at).wf(),
        refresh(s, at).attempt(t) == s.attempt(t),
{
    let r = refresh(s, at);
    let c = s.credit as int;
    let rate = s.rate as int;
    let x = (at - s.last_ms) as int;
    let y = (t - at) as int;
    assert(x * rate + y * rate == (x + y) * rate) by (nonlinear_arith);
    assert(0 <= x * rate && 0 <= y * rate) by (nonlinear_arith)
        requires
            0 <= x,
            0 <= y,
            0 <= rate,
    ;
    assert(r.refilled(t) == s.refilled(t));
    assert(r.refill_time(t) == s.refill_time(t));
}

proof fn lemma_refresh_run(s: RateLimiter, at: u64, times: Seq<u64>)
    requires
        s.wf(),
        s.last_ms <= at,
        times.len() > 0,
        forall|i: int| 0 <= i < times.len() ==> at <= #[trigger] times[i],
    ensures
        run(refresh(s, at), times) == run(s, times),
    decreases times.len(),
{
    let p = times.drop_last();
    assert(times[times.len() - 1] == times.last());
    if p.len() == 0 {
        lemma_refresh_attempt(s, at, times.last());
        assert(run(refresh(s, at), p) == (refresh(s, at), 0nat));
        assert(run(s, p) == (s, 0nat));
    } else {
        assert forall|i: int| 0 <= i < p.len() implies at <= #[trigger] p[i] by {
            assert(p[i] == times[i]);
        }
        lemma_refresh_run(s, at, p);
        assert(run(refresh(s, at), times) == run(s, times));
    }
}

proof fn lemma_run_split(s: RateLimiter, a: Seq<u64>, b: Seq<u64>)
    ensures
        run(s, a + b).0 == run(run(s, a).0, b).0,
        run(s, a + b).1 == run(s, a).1 + run(run(s, a).0, b).1,
    decreases b.len(),
{
    if b.len() == 0 {
        assert(a + b =~= a);
    } else {
        assert((a + b).drop_last() =~= a + b.drop_last());
        assert((a + b).last() == b.last());
        lemma_run_split(s, a, b.drop_last());
    }
}

/// The limiter never over-admits in any sliding window: whatever attempts
/// came before, the attempts made within a window of `window` milliseconds
/// starting at `at` admit at most `capacity` tokens plus what `window`
/// milliseconds refill; a window of `1000 / rate` milliseconds sees at most
/// `capacity + 1` admissions.
pub proof fn lemma_sliding_window(
    s: RateLimiter,
    before: Seq<u64>,
    within: Seq<u64>,
    at: u64,
    window: u64,
)
    requires
        s.wf(),
        sorted_from(s.last_ms, before + within),
        s.last_ms <= at,
        forall|i: int| 0 <= i < before.len() ==> #[trigger] before[i] <= at,
        forall|i: int| 0 <= i < within.len() ==> at <= #[trigger] within[i] && within[i] <= at + window,
    ensures
        run(s, before + within).1 == run(s, before).1 + run(run(s, before).0, within).1,
        run(run(s, before).0, within).1 * UNIT <= s.capacity * UNIT + window * s.rate,
        window * s.rate <= UNIT ==> run(run(s, before).0, within).1 <= s.capacity + 1,
{
    lemma_run_split(s, before, within);
    let all = before + within;
    assert(sorted_from(s.last_ms, before)) by {
        assert forall|i: int| 0 <= i < before.len() implies s.last_ms <= #[trigger] before[i] by {
            assert(all[i] == before[i]);
        }
        assert forall|i: int, j: int| 0 <= i <= j < before.len() implies before[i] <= before[j] by {
            assert(all[i] == before[i] && all[j] == before[j]);
        }
    }
    lemma_run_accounting(s, before);
    let mid = run(s, before).0;
    if before.len() > 0 {
        assert(before[before.len() - 1] == before.last());
    }
    assert(mid.last_ms <= at);
    if within.len() > 0 {
        let r = refresh(mid, at);
        lemma_refresh_run(mid, at, within);
        assert(r.last_ms == at);
        assert(sorted_from(r.last_ms, within)) by {
            assert forall|i: int, j: int| 0 <= i <= j < within.len() implies within[i] <= within[j] by {
                assert(all[before.len() + i] == within[i] && all[before.len() + j] == within[j]);
            }
        }
        lemma_never_over_admits(r, within, window);
    }
}

} // verus!
