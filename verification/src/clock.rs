//! The synchronized wall clock of the capture node and its textual form.

use vstd::prelude::*;

verus! {

/// A wall-clock reading taken after time synchronization: whole seconds of
/// local civil time since 1970-01-01T00:00:00, every day counting 86 400.
#[derive(Clone, Copy, Debug, PartialEq, Eq, Structural)]
pub struct SyncedClock {
    seconds: i64,
}

impl View for SyncedClock {
    type V = int;

    closed spec fn view(&self) -> int {
        self.seconds as int
    }
}

impl SyncedClock {
    /// The reading that lies `seconds` after 1970-01-01T00:00:00.
    pub fn from_seconds(seconds: i64) -> (clock: SyncedClock)
        ensures
            clock@ == seconds,
    {
        SyncedClock { seconds }
    }

    /// Seconds since 1970-01-01T00:00:00.
    pub fn seconds(&self) -> (seconds: i64)
        ensures
            seconds == self@,
    {
        self.seconds
    }

    /// The reading as `YYYY-MM-DDTHH:MM:SS`, or `None` where the calendar
    /// does not reach.
    pub fn label(&self) -> (text: Option<Vec<u8>>)
        ensures
            match text {
                Some(t) => timestamp_text(self@) == Some(t@),
                None => timestamp_text(self@) is None,
            },
    {
        format_timestamp(self.seconds, TIMESTAMP_PATTERN)
    }
}

/// The pattern under which a reading is written: year, month, day, the
/// letter `T`, hour, minute, second.
pub const TIMESTAMP_PATTERN: &'static str = "%Y-%m-%dT%H:%M:%S";

/// The text that chrono writes for a count of seconds since the epoch under
/// a `strftime` pattern; `None` where chrono has no date for the count or
/// cannot write it under the pattern.
pub uninterp spec fn formatted_time(seconds: int, pattern: Seq<char>) -> Option<Seq<u8>>;

/// The written form of a reading, to the second.
pub open spec fn timestamp_text(seconds: int) -> Option<Seq<u8>> {
    formatted_time(seconds, TIMESTAMP_PATTERN@)
}

/// Calls `chrono::DateTime::from_timestamp` and writes the moment with
/// `DateTime::format` under `pattern`. The contract only gives the outcome
/// its name: the text, or the refusal, is a function of the count of seconds
/// and the pattern alone. It is claimed for the one pattern that this
/// library writes readings under.
#[verifier::external_body]
fn format_timestamp(seconds: i64, pattern: &str) -> (text: Option<Vec<u8>>)
    requires
        pattern@ == TIMESTAMP_PATTERN@,
    ensures
        match text {
            Some(t) => formatted_time(seconds as int, pattern@) == Some(t@),
            None => formatted_time(seconds as int, pattern@) is None,
        },
{
    let moment = match chrono::DateTime::from_timestamp(seconds, 0) {
        Some(moment) => moment,
        None => return None,
    };
    let mut text = String::new();
    match moment.format(pattern).write_to(&mut text) {
        Ok(()) => Some(text.into_bytes()),
        Err(_) => None,
    }
}

} // verus!
