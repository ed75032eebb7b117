//! Waiting for the clock: the node polls the synchronization status
//! at a fixed interval and goes on only once the clock is set.
//!
//! Whether the wait may be given up is the caller's choice, made once in the
//! policy: without a limit the node waits for as long as it takes, with a
//! limit it reports a timeout after that many polls.

use vstd::prelude::*;

verus! {

/// Milliseconds between two polls of the synchronization status.
pub const SYNC_POLL_INTERVAL_MS: u32 = 100;

/// How the node polls.
#[derive(Clone, Copy, Debug, PartialEq, Eq, Structural)]
pub struct SyncPolicy {
    /// Milliseconds to wait after a poll that found the clock not yet set.
    pub poll_interval_ms: u32,
    /// Polls after which the node gives up; `None` to never give up.
    pub max_polls: Option<u32>,
}

/// What to do after a poll.
#[derive(Clone, Copy, Debug, PartialEq, Eq, Structural)]
pub enum SyncStep {
    /// The clock is set: go on.
    Synced,
    /// Not yet: wait, then poll again.
    Wait { millis: u32 },
    /// Not yet, and the limit of polls is reached: give up.
    TimedOut,
}

impl SyncPolicy {
    /// The policy that polls every 100 ms and never gives up.
    pub fn unbounded() -> (policy: SyncPolicy)
        ensures
            policy == (SyncPolicy { poll_interval_ms: 100, max_polls: None }),
    {
        SyncPolicy { poll_interval_ms: SYNC_POLL_INTERVAL_MS, max_polls: None }
    }

    /// The policy that polls every 100 ms and gives up after `max_polls`
    /// polls.
    pub fn bounded(max_polls: u32) -> (policy: SyncPolicy)
        ensures
            policy == (SyncPolicy { poll_interval_ms: 100, max_polls: Some(max_polls) }),
    {
        SyncPolicy { poll_interval_ms: SYNC_POLL_INTERVAL_MS, max_polls: Some(max_polls) }
    }

    /// The step after the poll that brought the number of polls made to
    /// `polls` and found the clock set or not.
    pub open spec fn spec_step(self, polls: u32, completed: bool) -> SyncStep {
        if completed {
            SyncStep::Synced
        } else if self.max_polls is Some && polls >= self.max_polls->0 {
            SyncStep::TimedOut
        } else {
            SyncStep::Wait { millis: self.poll_interval_ms }
        }
    }

    /// Decides what follows a poll. `polls` counts the polls made so far,
    /// this one included.
    pub fn step(&self, polls: u32, completed: bool) -> (next: SyncStep)
        ensures
            next == self.spec_step(polls, completed),
            completed <==> next is Synced,
            self.max_polls is None ==> !(next is TimedOut),
            self.max_polls matches Some(max) && polls >= max ==> !(next is Wait),
    {
        if completed {
            return SyncStep::Synced;
        }
        match self.max_polls {
            Some(max) => {
                if polls >= max {
                    SyncStep::TimedOut
                } else {
                    SyncStep::Wait { millis: self.poll_interval_ms }
                }
            },
            None => SyncStep::Wait { millis: self.poll_interval_ms },
        }
    }
}

} // verus!
