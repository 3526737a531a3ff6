use mcp_aggregator::rate_limit::RateLimitExceeded;
use mcp_aggregator::rate_limit::RateLimiter;
use mcp_aggregator::rate_limit::RequestCount;
use mcp_aggregator::rate_limit::RATE_LIMIT_PER_MONTH;
use mcp_aggregator::rate_limit::RATE_LIMIT_PER_SECOND;
use mcp_aggregator::rate_limit::WINDOW_NANOS;

#[test]
fn default_limits_are_one_per_second_and_fifteen_thousand_per_month() {
    assert_eq!(RATE_LIMIT_PER_SECOND, 1);
    assert_eq!(RATE_LIMIT_PER_MONTH, 15000);
    assert_eq!(WINDOW_NANOS, 1_000_000_000);
}

#[test]
fn default_request_count_is_empty() {
    let count = RequestCount::default();
    assert_eq!(count.second, 0);
    assert_eq!(count.month, 0);
    assert_eq!(count.last_reset, 0);
}

#[test]
fn new_limiter_has_used_nothing() {
    let limiter = RateLimiter::new();
    let count = limiter.request_count();
    assert_eq!((count.second, count.month, count.last_reset), (0, 0, 0));
}

#[test]
fn default_limiter_grants_one_call_per_window() {
    let mut limiter = RateLimiter::new();
    assert_eq!(limiter.check_rate_limit_at(10), Ok(()));
    assert_eq!(limiter.check_rate_limit_at(20), Err(RateLimitExceeded));
    let count = limiter.request_count();
    assert_eq!(count.second, 1);
    assert_eq!(count.month, 1);
    assert_eq!(count.last_reset, 0);
}

#[test]
fn burst_within_one_window_is_capped_at_the_short_limit() {
    let mut limiter = RateLimiter::with_limits(3, 100);
    assert_eq!(limiter.check_rate_limit_at(100), Ok(()));
    assert_eq!(limiter.check_rate_limit_at(200), Ok(()));
    assert_eq!(limiter.check_rate_limit_at(300), Ok(()));
    assert_eq!(limiter.check_rate_limit_at(400), Err(RateLimitExceeded));
    assert_eq!(limiter.check_rate_limit_at(WINDOW_NANOS), Err(RateLimitExceeded));
    let count = limiter.request_count();
    assert_eq!((count.second, count.month, count.last_reset), (3, 3, 0));
}

#[test]
fn exhausted_short_budget_comes_back_after_the_window() {
    let mut limiter = RateLimiter::with_limits(2, 100);
    assert_eq!(limiter.check_rate_limit_at(5), Ok(()));
    assert_eq!(limiter.check_rate_limit_at(6), Ok(()));
    assert_eq!(limiter.check_rate_limit_at(7), Err(RateLimitExceeded));
    let later = WINDOW_NANOS + 1;
    assert_eq!(limiter.check_rate_limit_at(later), Ok(()));
    let count = limiter.request_count();
    assert_eq!((count.second, count.month, count.last_reset), (1, 3, later));
    assert_eq!(limiter.check_rate_limit_at(later + 1), Ok(()));
    assert_eq!(limiter.check_rate_limit_at(later + 2), Err(RateLimitExceeded));
}

#[test]
fn window_restarts_only_after_more_than_one_second() {
    let mut limiter = RateLimiter::with_limits(1, 100);
    assert_eq!(limiter.check_rate_limit_at(0), Ok(()));
    assert_eq!(limiter.check_rate_limit_at(WINDOW_NANOS), Err(RateLimitExceeded));
    assert_eq!(limiter.request_count().last_reset, 0);
    assert_eq!(limiter.check_rate_limit_at(WINDOW_NANOS + 1), Ok(()));
    assert_eq!(limiter.request_count().last_reset, WINDOW_NANOS + 1);
}

#[test]
fn refused_request_still_restarts_the_window() {
    let mut limiter = RateLimiter::with_limits(0, 100);
    let now = 5 * WINDOW_NANOS;
    assert_eq!(limiter.check_rate_limit_at(now), Err(RateLimitExceeded));
    let count = limiter.request_count();
    assert_eq!((count.second, count.month, count.last_reset), (0, 0, now));
}

#[test]
fn long_quota_is_never_replenished() {
    let mut limiter = RateLimiter::with_limits(5, 2);
    assert_eq!(limiter.check_rate_limit_at(1), Ok(()));
    assert_eq!(limiter.check_rate_limit_at(2), Ok(()));
    assert_eq!(limiter.check_rate_limit_at(3), Err(RateLimitExceeded));
    assert_eq!(limiter.check_rate_limit_at(10 * WINDOW_NANOS), Err(RateLimitExceeded));
    assert_eq!(limiter.check_rate_limit_at(10_000 * WINDOW_NANOS), Err(RateLimitExceeded));
    let count = limiter.request_count();
    assert_eq!((count.second, count.month), (0, 2));
}

#[test]
fn clock_reading_before_the_window_start_counts_as_no_time_passed() {
    let mut limiter = RateLimiter::with_limits(1, 100);
    let start = 3 * WINDOW_NANOS;
    assert_eq!(limiter.check_rate_limit_at(start), Ok(()));
    assert_eq!(limiter.request_count().last_reset, start);
    assert_eq!(limiter.check_rate_limit_at(0), Err(RateLimitExceeded));
    assert_eq!(limiter.request_count().last_reset, start);
}

#[test]
fn limiter_reads_the_clock_itself() {
    let mut limiter = RateLimiter::with_limits(1, 100);
    let first = limiter.check_rate_limit();
    assert_eq!(first, Ok(()));
    let count = limiter.request_count();
    assert_eq!((count.second, count.month), (1, 1));
    let mut refused = 0;
    for _ in 0..3 {
        if limiter.check_rate_limit().is_err() {
            refused += 1;
        }
    }
    assert!(refused >= 2);
    assert!(limiter.request_count().month <= 2);
}

#[test]
fn calls_less_than_a_second_apart_may_fall_into_two_windows() {
    let mut limiter = RateLimiter::with_limits(1, 100);
    assert_eq!(limiter.check_rate_limit_at(900_000_000), Ok(()));
    assert_eq!(limiter.request_count().last_reset, 0);
    assert_eq!(limiter.check_rate_limit_at(1_500_000_000), Ok(()));
    assert_eq!(limiter.request_count().last_reset, 1_500_000_000);
    assert_eq!(limiter.check_rate_limit_at(2_400_000_000), Err(RateLimitExceeded));
}

#[test]
fn burst_is_cut_short_by_an_exhausted_long_quota() {
    let mut limiter = RateLimiter::with_limits(3, 2);
    assert_eq!(limiter.check_rate_limit_at(1), Ok(()));
    assert_eq!(limiter.check_rate_limit_at(2), Ok(()));
    assert_eq!(limiter.check_rate_limit_at(3), Err(RateLimitExceeded));
    let count = limiter.request_count();
    assert_eq!((count.second, count.month), (2, 2));
}
