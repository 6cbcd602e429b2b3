//! Debounced persistence scheduling.
//!
//! Every store edit records its time here and a delayed check asks `due`:
//! the write happens only when a full delay has passed since the last
//! recorded edit, so a burst of edits collapses to one write after the
//! burst.

use vstd::prelude::*;

verus! {

/// When persistence was last requested, in milliseconds of some monotonic
/// clock.
#[derive(Debug, Clone, Copy)]
pub struct SyncSchedule {
    pub last_scheduled_ms: u64,
}

impl SyncSchedule {
    /// A schedule with nothing requested yet.
    pub fn new() -> (s: Self)
        ensures
            s.last_scheduled_ms == 0,
    {
        SyncSchedule { last_scheduled_ms: 0 }
    }

    /// Records an edit at `now_ms`.
    pub fn schedule(&mut self, now_ms: u64)
        ensures
            final(self).last_scheduled_ms == now_ms,
    {
        self.last_scheduled_ms = now_ms;
    }

    /// Whether a check running at `now_ms` should write: only when at
    /// least `delay_ms` has passed since the last recorded edit.
    pub fn due(&self, now_ms: u64, delay_ms: u64) -> (r: bool)
        ensures
            r == (now_ms as int >= self.last_scheduled_ms as int + delay_ms as int),
    {
        if now_ms >= self.last_scheduled_ms {
            now_ms - self.last_scheduled_ms >= delay_ms
        } else {
            false
        }
    }
}

} // verus!
