//! Dual-window request budget.
//!
//! A [`RateLimiter`] grants or refuses one outbound call at a time against a
//! short window of one second and a long quota that is never replenished.
//! Time is a number of nanoseconds since the limiter was created, so that the
//! decision is a function of the counters and that number alone.
use std::time::Duration;
use std::time::Instant;
use vstd::prelude::*;

verus! {

/// Calls granted per short window by a limiter made with [`RateLimiter::new`].
pub const RATE_LIMIT_PER_SECOND: usize = 1;

/// Calls granted over the limiter's lifetime by one made with [`RateLimiter::new`].
pub const RATE_LIMIT_PER_MONTH: usize = 15000;

/// Length of the short window in nanoseconds.
pub const WINDOW_NANOS: u128 = 1_000_000_000;

/// `std::time::Instant`, a reading of the monotonic clock. Nothing is known of
/// what a value holds.
#[verifier::external_type_specification]
#[verifier::external_body]
pub struct ExInstant(Instant);

/// `std::time::Instant::now`: reads the monotonic clock. The reading depends on
/// when the call is made, so nothing is claimed of it.
pub assume_specification[ Instant::now ]() -> Instant;

/// `std::time::Instant::elapsed`: the time that has passed since the instant was
/// taken. It depends on when the call is made, so nothing is claimed of it.
pub assume_specification[ Instant::elapsed ](origin: &Instant) -> Duration;

/// `std::time::Duration::as_nanos`: the whole duration in nanoseconds. Nothing
/// is claimed of the number.
pub assume_specification[ Duration::as_nanos ](duration: &Duration) -> u128;

/// The refusal of a call: one of the two budgets is used up.
#[derive(Clone, Copy, Debug, PartialEq, Eq)]
pub struct RateLimitExceeded;

impl RateLimitExceeded {
    /// The refusal in words.
    pub fn message(&self) -> (text: String)
        ensures
            text@ == "Rate limit exceeded"@,
    {
        "Rate limit exceeded".to_owned()
    }
}

/// The counters of both windows and the start of the short one.
#[derive(Clone, Copy, Debug)]
pub struct RequestCount {
    /// Calls granted in the current short window.
    pub second: usize,
    /// Calls granted since the limiter was created.
    pub month: usize,
    /// Start of the current short window, in nanoseconds since the limiter was created.
    pub last_reset: u128,
}

/// True when more than one short window lies between `last_reset` and `now`.
/// A reading that lies before `last_reset` counts as no time passed.
pub open spec fn window_elapsed(last_reset: u128, now: u128) -> bool {
    now > last_reset && now - last_reset > WINDOW_NANOS
}

impl RequestCount {
    /// The counters as they stand once the clock reading `now` has been taken
    /// into account: a short window that has run out starts again at `now`.
    pub open spec fn observe(self, now: u128) -> RequestCount {
        if window_elapsed(self.last_reset, now) {
            RequestCount { second: 0, month: self.month, last_reset: now }
        } else {
            self
        }
    }

    /// True when both budgets have room for one more call.
    pub open spec fn admits(self, per_second: usize, per_month: usize) -> bool {
        self.second < per_second && self.month < per_month
    }

    /// The counters after one granted call.
    pub open spec fn consume(self) -> RequestCount
        recommends
            self.second < usize::MAX,
            self.month < usize::MAX,
    {
        RequestCount {
            second: (self.second + 1) as usize,
            month: (self.month + 1) as usize,
            last_reset: self.last_reset,
        }
    }

    /// The counters after one request at `now`, granted or refused.
    pub open spec fn step(self, per_second: usize, per_month: usize, now: u128) -> RequestCount {
        let seen = self.observe(now);
        if seen.admits(per_second, per_month) {
            seen.consume()
        } else {
            seen
        }
    }

    /// True when a request at `now` is granted.
    pub open spec fn grants(self, per_second: usize, per_month: usize, now: u128) -> bool {
        self.observe(now).admits(per_second, per_month)
    }

    /// The counters after the requests at `times`, made in that order.
    pub open spec fn run(self, per_second: usize, per_month: usize, times: Seq<u128>) -> RequestCount
        decreases times.len(),
    {
        if times.len() == 0 {
            self
        } else {
            self.run(per_second, per_month, times.drop_last()).step(
                per_second,
                per_month,
                times.last(),
            )
        }
    }
}

impl Default for RequestCount {
    /// Empty counters whose short window starts with the limiter.
    fn default() -> (count: RequestCount)
        ensures
            count.second == 0,
            count.month == 0,
            count.last_reset == 0,
    {
        RequestCount { second: 0, month: 0, last_reset: 0 }
    }
}

/// Decides, for every outbound call, whether it may be made.
pub struct RateLimiter {
    request_count: RequestCount,
    per_second: usize,
    per_month: usize,
    origin: Instant,
}

impl RateLimiter {
    /// The counters.
    pub closed spec fn count(&self) -> RequestCount {
        self.request_count
    }

    /// Calls granted per short window.
    pub closed spec fn per_second_limit(&self) -> usize {
        self.per_second
    }

    /// Calls granted over the limiter's lifetime.
    pub closed spec fn per_month_limit(&self) -> usize {
        self.per_month
    }

    /// Neither counter is above its limit.
    pub open spec fn wf(&self) -> bool {
        &&& self.count().second <= self.per_second_limit()
        &&& self.count().month <= self.per_month_limit()
    }

    /// A limiter with the default limits and nothing used.
    pub fn new() -> (limiter: RateLimiter)
        ensures
            limiter.wf(),
            limiter.per_second_limit() == RATE_LIMIT_PER_SECOND,
            limiter.per_month_limit() == RATE_LIMIT_PER_MONTH,
            limiter.count().second == 0,
            limiter.count().month == 0,
            limiter.count().last_reset == 0,
    {
        RateLimiter::with_limits(RATE_LIMIT_PER_SECOND, RATE_LIMIT_PER_MONTH)
    }

    /// A limiter with the given limits and nothing used.
    pub fn with_limits(per_second: usize, per_month: usize) -> (limiter: RateLimiter)
        ensures
            limiter.wf(),
            limiter.per_second_limit() == per_second,
            limiter.per_month_limit() == per_month,
            limiter.count().second == 0,
            limiter.count().month == 0,
            limiter.count().last_reset == 0,
    {
        RateLimiter {
            request_count: RequestCount::default(),
            per_second,
            per_month,
            origin: Instant::now(),
        }
    }

    /// Decides one request made at `now` nanoseconds after the limiter was
    /// created, and counts it if it is granted.
    pub fn check_rate_limit_at(&mut self, now: u128) -> (result: Result<(), RateLimitExceeded>)
        requires
            old(self).wf(),
        ensures
            final(self).wf(),
            final(self).per_second_limit() == old(self).per_second_limit(),
            final(self).per_month_limit() == old(self).per_month_limit(),
            (result is Ok) == old(self).count().grants(
                old(self).per_second_limit(),
                old(self).per_month_limit(),
                now,
            ),
            final(self).count() == old(self).count().step(
                old(self).per_second_limit(),
                old(self).per_month_limit(),
                now,
            ),
    {
        if now > self.request_count.last_reset && now - self.request_count.last_reset
            > WINDOW_NANOS {
            self.request_count.second = 0;
            self.request_count.last_reset = now;
        }
        if self.request_count.second >= self.per_second || self.request_count.month
            >= self.per_month {
            return Err(RateLimitExceeded);
        }
        self.request_count.second += 1;
        self.request_count.month += 1;
        Ok(())
    }

    /// True when `after` is `before` once one request was decided at some
    /// reading of the clock, and `granted` tells how it was decided.
    pub open spec fn decided(before: RateLimiter, after: RateLimiter, granted: bool) -> bool {
        &&& after.wf()
        &&& after.per_second_limit() == before.per_second_limit()
        &&& after.per_month_limit() == before.per_month_limit()
        &&& exists|now: u128|
            {
                &&& granted == #[trigger] before.count().grants(
                    before.per_second_limit(),
                    before.per_month_limit(),
                    now,
                )
                &&& after.count() == before.count().step(
                    before.per_second_limit(),
                    before.per_month_limit(),
                    now,
                )
            }
    }

    /// Decides one request made now, and counts it if it is granted. The clock
    /// is read once; the outcome is that of [`Self::check_rate_limit_at`] for
    /// the number read.
    pub fn check_rate_limit(&mut self) -> (result: Result<(), RateLimitExceeded>)
        requires
            old(self).wf(),
        ensures
            RateLimiter::decided(*old(self), *final(self), result is Ok),
    {
        let elapsed: Duration = self.origin.elapsed();
        let now: u128 = elapsed.as_nanos();
        self.check_rate_limit_at(now)
    }

    /// A copy of the counters.
    pub fn request_count(&self) -> (count: RequestCount)
        ensures
            count == self.count(),
    {
        self.request_count
    }
}

/// The counters after `k` granted calls in the window that `start` opened.
pub open spec fn after_grants(start: RequestCount, k: int) -> RequestCount {
    RequestCount {
        second: (start.second + k) as usize,
        month: (start.month + k) as usize,
        last_reset: start.last_reset,
    }
}

/// While the requests stay inside one short window and both budgets have
/// room, each of them is granted and counted.
proof fn lemma_run_inside_window(
    count: RequestCount,
    per_second: usize,
    per_month: usize,
    times: Seq<u128>,
    k: int,
)
    requires
        1 <= k <= times.len(),
        k <= per_second,
        count.observe(times[0]).second == 0,
        count.month + k <= per_month,
        forall|i: int|
            0 <= i < k ==> !window_elapsed(count.observe(times[0]).last_reset, #[trigger] times[i]),
    ensures
        count.run(per_second, per_month, times.take(k)) == after_grants(
            count.observe(times[0]),
            k,
        ),
    decreases k,
{
    let start = count.observe(times[0]);
    let prefix = times.take(k);
    assert(prefix.drop_last() == times.take(k - 1));
    assert(prefix.last() == times[k - 1]);
    if k == 1 {
        assert(times.take(0).len() == 0);
        assert(count.run(per_second, per_month, times.take(0)) == count);
    } else {
        lemma_run_inside_window(count, per_second, per_month, times, k - 1);
        assert(!window_elapsed(start.last_reset, times[k - 1]));
    }
}

/// A burst inside one short window: starting from an empty short counter,
/// with room in the long quota for the whole burst, the first `per_second`
/// requests are granted and the one after them is refused.
pub proof fn lemma_burst_is_capped(
    count: RequestCount,
    per_second: usize,
    per_month: usize,
    times: Seq<u128>,
)
    requires
        times.len() == per_second + 1,
        count.observe(times[0]).second == 0,
        count.month + per_second <= per_month,
        forall|i: int|
            0 <= i < times.len() ==> !window_elapsed(
                count.observe(times[0]).last_reset,
                #[trigger] times[i],
            ),
    ensures
        forall|i: int|
            0 <= i < per_second ==> #[trigger] count.run(
                per_second,
                per_month,
                times.take(i),
            ).grants(per_second, per_month, times[i]),
        !count.run(per_second, per_month, times.take(per_second as int)).grants(
            per_second,
            per_month,
            times[per_second as int],
        ),
{
    let start = count.observe(times[0]);
    assert(times.take(0).len() == 0);
    assert(count.run(per_second, per_month, times.take(0)) == count);
    assert forall|i: int| 0 <= i < per_second implies #[trigger] count.run(
        per_second,
        per_month,
        times.take(i),
    ).grants(per_second, per_month, times[i]) by {
        if i > 0 {
            lemma_run_inside_window(count, per_second, per_month, times, i);
            assert(!window_elapsed(start.last_reset, times[i]));
        }
    }
    if per_second > 0 {
        lemma_run_inside_window(count, per_second, per_month, times, per_second as int);
        assert(!window_elapsed(start.last_reset, times[per_second as int]));
    }
}

/// Once the short window has run out, a request is granted again, however
/// many were made before, as long as the long quota has room and the short
/// limit is not zero. The request opens a new window in which it is the first.
pub proof fn lemma_elapsed_window_restores_budget(
    count: RequestCount,
    per_second: usize,
    per_month: usize,
    now: u128,
)
    requires
        window_elapsed(count.last_reset, now),
        per_second >= 1,
        count.month < per_month,
    ensures
        count.grants(per_second, per_month, now),
        count.step(per_second, per_month, now).second == 1,
        count.step(per_second, per_month, now).month == count.month + 1,
        count.step(per_second, per_month, now).last_reset == now,
{
}

/// The long counter only grows, and no request raises a counter above its
/// limit.
pub proof fn lemma_step_keeps_limits(
    count: RequestCount,
    per_second: usize,
    per_month: usize,
    now: u128,
)
    requires
        count.second <= per_second,
        count.month <= per_month,
    ensures
        count.step(per_second, per_month, now).second <= per_second,
        count.step(per_second, per_month, now).month <= per_month,
        count.step(per_second, per_month, now).month >= count.month,
{
}

} // verus!
