//! The refresh dispatcher: woken by the change signal, it enforces a
//! minimum interval between refreshes by sleeping out the remainder, then
//! has the refresh callback invoked exactly once per wake cycle, however
//! many coalesced signals caused the wake.

use vstd::prelude::*;

use crate::dashboard::WslDashboard;

verus! {

/// How long a dispatcher woken at `now_ms` must still sleep before
/// refreshing, given the last refresh time and the minimum interval.
pub open spec fn spec_debounce_sleep(last_ms: u64, min_interval_ms: u64, now_ms: u64) -> int {
    if now_ms - last_ms < min_interval_ms {
        min_interval_ms - (now_ms - last_ms)
    } else {
        0
    }
}

/// Debounce state of the refresh loop.
pub struct RefreshDispatcher {
    /// When the last refresh was invoked, in milliseconds of a monotone
    /// clock.
    pub last_refresh_ms: u64,
    /// The minimum interval between two refresh invocations.
    pub min_interval_ms: u64,
}

impl RefreshDispatcher {
    /// A dispatcher that allows an immediate first refresh at or after
    /// `now_ms`.
    pub fn new(min_interval_ms: u64, now_ms: u64) -> (d: Self)
        ensures
            d.min_interval_ms == min_interval_ms,
            d.last_refresh_ms == now_ms,
    {
        RefreshDispatcher { last_refresh_ms: now_ms, min_interval_ms }
    }

    /// Woken at `now_ms`: how long to sleep before invoking the refresh
    /// callback. Zero means refresh at once; otherwise exactly the
    /// remainder of the minimum interval is slept out.
    pub fn sleep_before_refresh(&self, now_ms: u64) -> (sleep_ms: u64)
        requires
            self.last_refresh_ms <= now_ms,
        ensures
            sleep_ms == spec_debounce_sleep(self.last_refresh_ms, self.min_interval_ms, now_ms),
    {
        let elapsed = now_ms - self.last_refresh_ms;
        if elapsed < self.min_interval_ms {
            self.min_interval_ms - elapsed
        } else {
            0
        }
    }

    /// Records that the refresh callback was just invoked, at `now_ms`.
    pub fn mark_refreshed(&mut self, now_ms: u64)
        ensures
            final(self).last_refresh_ms == now_ms,
            final(self).min_interval_ms == old(self).min_interval_ms,
    {
        self.last_refresh_ms = now_ms;
    }
}

/// Law: change signals coalesce. Signaling a change any number of times
/// before a consumer observes the signal leaves the coordinator in exactly
/// the state one signal leaves it in, so the consumer gets one wake-up with
/// no payload, only "re-read the cache".
pub proof fn lemma_change_signal_coalesces(d: WslDashboard)
    ensures
        d.with_change(true).with_change(true) == d.with_change(true),
{
}

/// Law: the debounced dispatcher never refreshes early. Whenever it is
/// woken, the time it sleeps plus the time already elapsed since the last
/// refresh is at least the minimum interval, and when the interval has
/// already passed it refreshes at once.
pub proof fn lemma_debounce_respects_interval(last_ms: u64, min_interval_ms: u64, now_ms: u64)
    requires
        last_ms <= now_ms,
    ensures
        now_ms + spec_debounce_sleep(last_ms, min_interval_ms, now_ms) - last_ms
            >= min_interval_ms || spec_debounce_sleep(last_ms, min_interval_ms, now_ms) == 0,
        now_ms - last_ms >= min_interval_ms ==> spec_debounce_sleep(
            last_ms,
            min_interval_ms,
            now_ms,
        ) == 0,
        now_ms - last_ms < min_interval_ms ==> now_ms + spec_debounce_sleep(
            last_ms,
            min_interval_ms,
            now_ms,
        ) - last_ms == min_interval_ms,
{
}

} // verus!
