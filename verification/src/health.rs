//! The health log of the ingestion service: one line per sample received,
//! appended in the order of arrival and never rewritten.

use crate::bytes::{first_match, lemma_first_match};
use vstd::prelude::*;

verus! {

/// One battery-health sample as the service received it. The voltage is held
/// in the decimal form in which it is written to the log.
#[derive(Clone, Debug, PartialEq, Eq)]
pub struct HealthSample {
    pub timestamp: Vec<u8>,
    pub voltage: Vec<u8>,
}

/// What a `HealthSample` holds, as sequences.
pub struct HealthSampleModel {
    pub timestamp: Seq<u8>,
    pub voltage: Seq<u8>,
}

impl View for HealthSample {
    type V = HealthSampleModel;

    open spec fn view(&self) -> HealthSampleModel {
        HealthSampleModel { timestamp: self.timestamp@, voltage: self.voltage@ }
    }
}

/// A comma, which parts the two fields of a log line.
pub open spec fn comma() -> Seq<u8> {
    seq![44u8]
}

/// A line feed, which ends a log line.
pub open spec fn newline() -> Seq<u8> {
    seq![10u8]
}

/// The text of a sample's log line, without the line feed.
pub open spec fn log_entry(sample: HealthSampleModel) -> Seq<u8> {
    sample.timestamp + comma() + sample.voltage
}

/// The log line of a sample: `timestamp,voltage` and a line feed.
pub open spec fn log_line(sample: HealthSampleModel) -> Seq<u8> {
    log_entry(sample) + newline()
}

/// Writes the log line of a sample. Neither field is checked or escaped.
pub fn health_log_line(sample: &HealthSample) -> (line: Vec<u8>)
    ensures
        line@ == log_line(sample@),
{
    let mut line: Vec<u8> = Vec::new();
    line.extend_from_slice(sample.timestamp.as_slice());
    line.push(44u8);
    line.extend_from_slice(sample.voltage.as_slice());
    line.push(10u8);
    assert(line@ =~= log_line(sample@));
    line
}

/// The log after the samples of `arrivals` were appended to it, one whole
/// line at a time, in that order.
pub open spec fn log_after(log: Seq<u8>, arrivals: Seq<HealthSampleModel>) -> Seq<u8>
    decreases arrivals.len(),
{
    if arrivals.len() == 0 {
        log
    } else {
        log_after(log, arrivals.drop_last()) + log_line(arrivals.last())
    }
}

/// The complete lines of a log, in order, each without its line feed.
pub open spec fn entries_of(log: Seq<u8>) -> Seq<Seq<u8>>
    decreases log.len(),
    via entries_of_ends
{
    match first_match(log, newline(), 0) {
        Some(end) => seq![log.subrange(0, end)] + entries_of(
            log.subrange(end + 1, log.len() as int),
        ),
        None => Seq::empty(),
    }
}

#[via_fn]
proof fn entries_of_ends(log: Seq<u8>) {
    lemma_first_match(log, newline(), 0);
}

/// The two fields of a log entry, parted at its first comma.
pub open spec fn entry_fields(entry: Seq<u8>) -> Option<HealthSampleModel> {
    match first_match(entry, comma(), 0) {
        Some(at) => Some(
            HealthSampleModel {
                timestamp: entry.subrange(0, at),
                voltage: entry.subrange(at + 1, entry.len() as int),
            },
        ),
        None => None,
    }
}

/// A sample whose log line can be read back: no line feed in either field
/// and no comma in the timestamp.
pub open spec fn loggable(sample: HealthSampleModel) -> bool {
    &&& forall|i: int| 0 <= i < sample.timestamp.len() ==> sample.timestamp[i] != 10
            && sample.timestamp[i] != 44
    &&& forall|i: int| 0 <= i < sample.voltage.len() ==> sample.voltage[i] != 10
}

} // verus!
