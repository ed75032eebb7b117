//! Wake scheduling: the daily wake target and the wall-clock arithmetic that
//! turns "now" into the next wake instant and a deep-sleep duration.
//!
//! The schedule is aligned to the wall clock: the node wakes at the same time
//! of day every day, however long a cycle took. It never sleeps "a day from
//! now", which would drift by each cycle's working time.

use crate::clock::SyncedClock;
use vstd::prelude::*;

verus! {

/// Seconds in one civil day.
pub const SECONDS_PER_DAY: i64 = 86_400;

/// Microseconds in one second.
pub const MICROS_PER_SECOND: i64 = 1_000_000;

/// A time of day, to the second.
#[derive(Clone, Copy, Debug, PartialEq, Eq, Structural)]
pub struct TimeOfDay {
    pub hour: u8,
    pub minute: u8,
    pub second: u8,
}

impl TimeOfDay {
    /// The fields name a time on a 24-hour clock.
    pub open spec fn wf(self) -> bool {
        self.hour < 24 && self.minute < 60 && self.second < 60
    }

    /// Seconds elapsed since midnight.
    pub open spec fn spec_seconds(self) -> int {
        self.hour as int * 3600 + self.minute as int * 60 + self.second as int
    }

    /// Builds a time of day, or `None` when a field is out of range.
    pub fn new(hour: u8, minute: u8, second: u8) -> (r: Option<TimeOfDay>)
        ensures
            r is Some <==> hour < 24 && minute < 60 && second < 60,
            r matches Some(t) ==> t.wf() && t.hour == hour && t.minute == minute && t.second
                == second,
    {
        if hour < 24 && minute < 60 && second < 60 {
            Some(TimeOfDay { hour, minute, second })
        } else {
            None
        }
    }

    /// Seconds elapsed since midnight.
    pub fn seconds(&self) -> (s: i64)
        requires
            self.wf(),
        ensures
            s == self.spec_seconds(),
            0 <= s < SECONDS_PER_DAY,
    {
        let h: i64 = self.hour as i64;
        let m: i64 = self.minute as i64;
        let s: i64 = self.second as i64;
        h * 3600 + m * 60 + s
    }
}

/// The time of day of an instant, in seconds since that day's midnight.
pub open spec fn time_of_day(instant: int) -> int {
    instant % 86_400
}

/// The first instant after `now` whose time of day is `target`: today's
/// occurrence if it still lies ahead, tomorrow's otherwise.
pub open spec fn spec_next_wake(target: TimeOfDay, now: int) -> int {
    let today = now - time_of_day(now) + target.spec_seconds();
    if today > now {
        today
    } else {
        today + 86_400
    }
}

/// The next wake lies strictly after `now`, at most a day after it, and at
/// the target's time of day exactly; no other instant does.
pub proof fn lemma_next_wake(target: TimeOfDay, now: int)
    requires
        target.wf(),
    ensures
        spec_next_wake(target, now) > now,
        spec_next_wake(target, now) - now <= 86_400,
        time_of_day(spec_next_wake(target, now)) == target.spec_seconds(),
        forall|other: int|
            now < other <= now + 86_400 && time_of_day(other) == target.spec_seconds() ==> other
                == spec_next_wake(target, now),
{
}

/// Computes the next wake instant, or `None` where it lies beyond the last
/// instant the clock can hold.
pub fn next_wake(target: TimeOfDay, now: SyncedClock) -> (wake: Option<SyncedClock>)
    requires
        target.wf(),
    ensures
        match wake {
            Some(w) => {
                &&& w@ == spec_next_wake(target, now@)
                &&& w@ > now@
                &&& w@ - now@ <= 86_400
                &&& time_of_day(w@) == target.spec_seconds()
            },
            None => spec_next_wake(target, now@) > i64::MAX,
        },
{
    let current: i64 = now.seconds();
    let elapsed: i64 = match current.checked_rem_euclid(SECONDS_PER_DAY) {
        Some(elapsed) => elapsed,
        None => 0,
    };
    let today: i128 = current as i128 - elapsed as i128 + target.seconds() as i128;
    let wake: i128 = if today > current as i128 {
        today
    } else {
        today + SECONDS_PER_DAY as i128
    };
    proof {
        lemma_next_wake(target, now@);
    }
    if wake <= i64::MAX as i128 {
        Some(SyncedClock::from_seconds(wake as i64))
    } else {
        None
    }
}

/// What the node does when its cycle is over.
#[derive(Clone, Copy, Debug, PartialEq, Eq, Structural)]
pub enum SleepDecision {
    /// Arm the wake timer for this many microseconds and enter deep sleep.
    Sleep { micros: u64 },
    /// Do not sleep: the wake instant is not ahead of the clock, or lies too
    /// far ahead to count in microseconds.
    Skip,
}

/// The decision for a wake instant and a clock reading: sleep for the time
/// between them where the wake lies ahead and its distance in microseconds
/// fits 63 bits; skip otherwise.
pub open spec fn spec_sleep_decision(wake: int, now: int) -> SleepDecision {
    if wake > now && (wake - now) * 1_000_000 <= i64::MAX {
        SleepDecision::Sleep { micros: ((wake - now) * 1_000_000) as u64 }
    } else {
        SleepDecision::Skip
    }
}

/// Decides how long to sleep so as to wake at `wake`, read at `now`.
pub fn sleep_until(wake: SyncedClock, now: SyncedClock) -> (decision: SleepDecision)
    ensures
        decision == spec_sleep_decision(wake@, now@),
        wake@ <= now@ ==> decision is Skip,
        decision matches SleepDecision::Sleep { micros } ==> micros == (wake@ - now@) * 1_000_000
            && micros > 0,
{
    let target: i64 = wake.seconds();
    let current: i64 = now.seconds();
    if target <= current {
        return SleepDecision::Skip;
    }
    let span: i128 = target as i128 - current as i128;
    let micros: i128 = span * MICROS_PER_SECOND as i128;
    if micros <= i64::MAX as i128 {
        SleepDecision::Sleep { micros: micros as u64 }
    } else {
        SleepDecision::Skip
    }
}

/// The decision for a sleep of a fixed length, as taken where the clock was
/// never set and there is no schedule to follow: sleep for that long where
/// the length is not zero and fits 63 bits in microseconds; skip otherwise.
pub open spec fn spec_sleep_for(seconds: int) -> SleepDecision {
    if seconds > 0 && seconds * 1_000_000 <= i64::MAX {
        SleepDecision::Sleep { micros: (seconds * 1_000_000) as u64 }
    } else {
        SleepDecision::Skip
    }
}

/// Decides on a sleep of `seconds` seconds.
pub fn sleep_for(seconds: u64) -> (decision: SleepDecision)
    ensures
        decision == spec_sleep_for(seconds as int),
{
    if seconds == 0 || seconds > 9_223_372_036_854 {
        SleepDecision::Skip
    } else {
        SleepDecision::Sleep { micros: seconds * 1_000_000 }
    }
}

/// A sleep towards the next wake is never skipped while the clock reads an
/// instant before it, and it lasts a day at most.
pub proof fn lemma_scheduled_sleep(target: TimeOfDay, now: int)
    requires
        target.wf(),
    ensures
        spec_sleep_decision(spec_next_wake(target, now), now) matches SleepDecision::Sleep {
            micros,
        } && 0 < micros <= 86_400_000_000,
{
    lemma_next_wake(target, now);
}

} // verus!
