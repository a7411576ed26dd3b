//! Elapsed time on a monotonic millisecond clock.
use vstd::prelude::*;

verus! {

/// Time elapsed from `since` to `now`; zero when `now` is earlier, as a
/// monotonic clock's elapsed time saturates.
pub open spec fn elapsed(since: u64, now: u64) -> int {
    if now >= since {
        now - since
    } else {
        0
    }
}

/// Elapsed time is the plain difference when the clock has moved forward,
/// and zero otherwise; it is never negative.
pub proof fn lemma_elapsed(since: u64, now: u64)
    ensures
        elapsed(since, now) >= 0,
        now >= since ==> elapsed(since, now) == now - since,
        now < since ==> elapsed(since, now) == 0,
{
}

/// Milliseconds elapsed from `since_ms` to `now_ms`, saturating at zero.
pub fn elapsed_ms(since_ms: u64, now_ms: u64) -> (r: u64)
    ensures
        r == elapsed(since_ms, now_ms),
{
    if now_ms >= since_ms {
        now_ms - since_ms
    } else {
        0
    }
}

} // verus!
