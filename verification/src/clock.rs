//! The wall clock, and the arithmetic on instants that the rest relies on.

use vstd::prelude::*;

verus! {

/// Milliseconds in a second.
pub const MILLIS_PER_SECOND: i64 = 1000;

/// Seconds in a day.
pub const SECONDS_PER_DAY: i64 = 86_400;

/// Calls `Utc::now` of chrono and turns the instant into milliseconds since
/// the Unix epoch with `DateTime::timestamp_millis`. Trusted, and nothing is
/// claimed of the value: it is whatever the machine's clock says. chrono
/// panics here only where that clock stands before 1970.
#[verifier::external_body]
pub(crate) fn utc_now_millis() -> (millis: i64) {
    chrono::Utc::now().timestamp_millis()
}

/// The quotient of `n` by a positive `d`, rounded towards minus infinity.
pub(crate) fn div_floor(n: i64, d: i64) -> (q: i64)
    requires
        d > 0,
    ensures
        q == n / d,
        q * d <= n < q * d + d,
{
    if n >= 0 {
        let q: i64 = n / d;
        assert(q == n / d && q * d <= n < q * d + d) by (nonlinear_arith)
            requires
                n >= 0,
                d > 0,
                q == (n as int) / (d as int),
        ;
        q
    } else {
        // n = -(m + 1) with m >= 0, so floor(n / d) = -(m / d) - 1.
        let m: i64 = -(n + 1);
        let p: i64 = m / d;
        let q: i64 = -p - 1;
        assert(q == n / d && q * d <= n < q * d + d) by (nonlinear_arith)
            requires
                m >= 0,
                d > 0,
                n == -(m + 1),
                p == (m as int) / (d as int),
                q == -p - 1,
        ;
        q
    }
}

/// The whole seconds since the epoch of an instant given in milliseconds.
pub open spec fn spec_seconds_of_millis(millis: i64) -> int {
    millis / 1000
}

/// The whole seconds since the epoch of an instant given in milliseconds; an
/// instant before the epoch rounds to the second that holds it.
pub fn seconds_of_millis(millis: i64) -> (seconds: i64)
    ensures
        seconds == spec_seconds_of_millis(millis),
{
    div_floor(millis, MILLIS_PER_SECOND)
}

/// The instant `days` days before `now_seconds`, in seconds since the epoch,
/// where a 64-bit number can hold it.
pub open spec fn spec_days_before(now_seconds: i64, days: i64) -> Option<i64> {
    let since = now_seconds - days * 86_400;
    if i64::MIN <= since <= i64::MAX {
        Some(since as i64)
    } else {
        None
    }
}

/// The instant `days` days before `now_seconds`; `None` where it lies outside
/// what a 64-bit number of seconds can hold.
pub fn days_before(now_seconds: i64, days: i64) -> (since: Option<i64>)
    ensures
        since == spec_days_before(now_seconds, days),
{
    assert(i64::MIN * 86_400 <= days * SECONDS_PER_DAY <= i64::MAX * 86_400) by (nonlinear_arith)
        requires
            SECONDS_PER_DAY == 86_400,
            i64::MIN <= days <= i64::MAX,
    ;
    let span: i128 = (days as i128) * (SECONDS_PER_DAY as i128);
    let since: i128 = (now_seconds as i128) - span;
    if since < i64::MIN as i128 || since > i64::MAX as i128 {
        None
    } else {
        Some(since as i64)
    }
}

/// The instant `days` days before the current one, in seconds since the
/// epoch: for some reading `now` of the clock, the result is what
/// `days_before` gives for its whole seconds.
pub fn lookback_start(days: i64) -> (since: Option<i64>)
    ensures
        exists|now: i64|
            since == spec_days_before(#[trigger] spec_seconds_of_millis(now) as i64, days),
{
    let now = utc_now_millis();
    let seconds = seconds_of_millis(now);
    days_before(seconds, days)
}

} // verus!
