//! Decisions of the periodic sync tasks: retrying a failed tick and what
//! follows a finished readings tick.
use vstd::prelude::*;

verus! {

/// What a scheduler does after one attempt of its tick.
#[derive(PartialEq, Eq, Structural, Clone, Copy, Debug)]
pub enum RetryAction {
    /// Wait this many seconds, then try the tick again.
    RetryAfter(u64),
    /// The tick is over.
    Finish { succeeded: bool },
}

/// Retry bookkeeping of one tick.
#[derive(PartialEq, Eq, Structural, Clone, Copy, Debug)]
pub struct RetryPolicy {
    pub max_retries: u32,
    pub delay_seconds: u64,
}

impl RetryPolicy {
    /// After an attempt: a success ends the tick; a failure (rate limiting
    /// included, which counts like any other) is retried after the fixed
    /// delay while the retries so far, this one included, stay within the
    /// cap, and otherwise ends the tick unsuccessfully. Returns the action
    /// and the retry count after this attempt.
    pub fn after_attempt(&self, retries: u32, succeeded: bool) -> (r: (RetryAction, u32))
        ensures
            succeeded ==> r.0 == (RetryAction::Finish { succeeded: true }) && r.1 == retries,
            !succeeded ==> r.1 == if retries == u32::MAX {
                u32::MAX
            } else {
                (retries + 1) as u32
            },
            !succeeded && retries + 1 <= self.max_retries ==> r.0 == RetryAction::RetryAfter(
                self.delay_seconds,
            ),
            !succeeded && retries + 1 > self.max_retries ==> r.0 == (RetryAction::Finish {
                succeeded: false,
            }),
    {
        if succeeded {
            return (RetryAction::Finish { succeeded: true }, retries);
        }
        if retries < self.max_retries {
            (RetryAction::RetryAfter(self.delay_seconds), retries + 1)
        } else {
            let n = if retries == u32::MAX {
                u32::MAX
            } else {
                retries + 1
            };
            (RetryAction::Finish { succeeded: false }, n)
        }
    }
}

/// What follows a finished readings tick.
#[derive(PartialEq, Eq, Structural, Clone, Copy, Debug)]
pub enum TickFollowUp {
    /// Nothing: the tick failed.
    Nothing,
    /// Refresh the hourly rollup over the last day and the daily one over
    /// the last week.
    RefreshRecent,
    /// Stamp every sensor with the full sync, and refresh every rollup in
    /// full.
    MarkFullSyncAndRefreshAll,
}

/// The follow-up of a readings tick.
pub fn follow_up(full: bool, succeeded: bool) -> (r: TickFollowUp)
    ensures
        !succeeded ==> r == TickFollowUp::Nothing,
        succeeded && full ==> r == TickFollowUp::MarkFullSyncAndRefreshAll,
        succeeded && !full ==> r == TickFollowUp::RefreshRecent,
{
    if !succeeded {
        TickFollowUp::Nothing
    } else if full {
        TickFollowUp::MarkFullSyncAndRefreshAll
    } else {
        TickFollowUp::RefreshRecent
    }
}

/// A bounded rollup refresh: the view and the window, in epoch seconds.
#[derive(PartialEq, Eq, Structural, Clone, Copy, Debug)]
pub struct RefreshWindow {
    pub resolution: crate::query::Resolution,
    pub start: i64,
    pub end: i64,
}

/// The bounded refreshes after a successful incremental tick: the hourly
/// rollup over the last 24 hours and the daily one over the last 7 days.
pub fn recent_refresh_windows(now: i64) -> (r: (RefreshWindow, RefreshWindow))
    requires
        now >= i64::MIN + 7 * 86_400,
    ensures
        r.0 == (RefreshWindow { resolution: crate::query::Resolution::Hourly, start: (now - 86_400) as i64, end: now }),
        r.1 == (RefreshWindow { resolution: crate::query::Resolution::Daily, start: (now - 7 * 86_400) as i64, end: now }),
{
    (
        RefreshWindow { resolution: crate::query::Resolution::Hourly, start: now - 86_400, end: now },
        RefreshWindow { resolution: crate::query::Resolution::Daily, start: now - 7 * 86_400, end: now },
    )
}

} // verus!
