//! Laws of the health log: appending never touches what is there, and what
//! was appended can be read back line by line.

use crate::bytes::{first_match, matches_at};
use crate::bytes::{lemma_first_match, lemma_first_match_is, lemma_mismatch};
use crate::health::{comma, entries_of, entry_fields, log_after, log_entry, log_line, loggable};
use crate::health::{newline, HealthSampleModel};
use vstd::prelude::*;

verus! {

/// The entries that a sequence of samples leaves in the log, in order.
pub open spec fn entries_for(arrivals: Seq<HealthSampleModel>) -> Seq<Seq<u8>> {
    Seq::new(arrivals.len(), |i: int| log_entry(arrivals[i]))
}

/// A log that holds whole lines only.
pub open spec fn complete(log: Seq<u8>) -> bool {
    log.len() == 0 || log.last() == 10
}

/// A one-byte pattern occurs exactly where that byte stands.
proof fn lemma_byte_match(s: Seq<u8>, byte: u8, i: int)
    requires
        0 <= i,
    ensures
        matches_at(s, seq![byte], i) == (i < s.len() && s[i] == byte),
{
    if i < s.len() {
        if s[i] == byte {
            assert(s.subrange(i, i + 1) =~= seq![byte]);
        } else {
            lemma_mismatch(s, seq![byte], i, 0);
        }
    }
}

/// The first occurrence of a byte at or after index zero, where there is one.
proof fn lemma_first_byte(s: Seq<u8>, byte: u8, at: int)
    requires
        0 <= at < s.len(),
        s[at] == byte,
        forall|j: int| 0 <= j < at ==> s[j] != byte,
    ensures
        first_match(s, seq![byte], 0) == Some(at),
{
    lemma_byte_match(s, byte, at);
    assert forall|j: int| 0 <= j < at implies !matches_at(s, seq![byte], j) by {
        lemma_byte_match(s, byte, j);
    }
    lemma_first_match_is(s, seq![byte], 0, at);
}

/// Append-only: after any number of arrivals the log still begins with what
/// it held before, byte for byte.
pub proof fn lemma_log_append_only(log: Seq<u8>, arrivals: Seq<HealthSampleModel>)
    ensures
        log_after(log, arrivals).len() >= log.len(),
        log_after(log, arrivals).subrange(0, log.len() as int) == log,
    decreases arrivals.len(),
{
    if arrivals.len() == 0 {
        assert(log.subrange(0, log.len() as int) =~= log);
    } else {
        lemma_log_append_only(log, arrivals.drop_last());
        let before = log_after(log, arrivals.drop_last());
        assert((before + log_line(arrivals.last())).subrange(0, log.len() as int)
            =~= before.subrange(0, log.len() as int));
    }
}

/// Appending whole lines keeps the log made of whole lines.
proof fn lemma_log_complete(log: Seq<u8>, arrivals: Seq<HealthSampleModel>)
    requires
        complete(log),
    ensures
        complete(log_after(log, arrivals)),
    decreases arrivals.len(),
{
    if arrivals.len() > 0 {
        lemma_log_complete(log, arrivals.drop_last());
    }
}

/// A line appended to a log of whole lines is read back as one more entry,
/// after the entries that were there.
proof fn lemma_entries_push(log: Seq<u8>, entry: Seq<u8>)
    requires
        complete(log),
        forall|i: int| 0 <= i < entry.len() ==> entry[i] != 10,
    ensures
        entries_of(log + entry + newline()) == entries_of(log).push(entry),
    decreases log.len(),
{
    let all = log + entry + newline();
    if log.len() == 0 {
        lemma_first_byte(all, 10, entry.len() as int);
        assert(all.subrange(0, entry.len() as int) =~= entry);
        let rest = all.subrange(entry.len() as int + 1, all.len() as int);
        assert(rest.len() == 0);
        lemma_first_match(rest, newline(), 0);
        lemma_first_match(log, newline(), 0);
        assert(entries_of(rest) =~= Seq::<Seq<u8>>::empty());
        assert(entries_of(log) =~= Seq::<Seq<u8>>::empty());
        assert(seq![entry] + Seq::<Seq<u8>>::empty() =~= Seq::<Seq<u8>>::empty().push(entry));
    } else {
        lemma_first_match(log, newline(), 0);
        lemma_byte_match(log, 10, log.len() - 1);
        let end = first_match(log, newline(), 0)->0;
        lemma_byte_match(log, 10, end);
        assert forall|j: int| 0 <= j < end implies all[j] != 10 by {
            lemma_byte_match(log, 10, j);
        }
        lemma_first_byte(all, 10, end);
        let tail = log.subrange(end + 1, log.len() as int);
        assert(all.subrange(0, end) =~= log.subrange(0, end));
        assert(all.subrange(end + 1, all.len() as int) =~= tail + entry + newline());
        lemma_entries_push(tail, entry);
        assert(seq![log.subrange(0, end)] + entries_of(tail).push(entry) =~= (seq![
            log.subrange(0, end),
        ] + entries_of(tail)).push(entry));
    }
}

/// The fields of a sample's entry are the sample's, where its timestamp
/// holds no comma.
pub proof fn lemma_entry_fields(sample: HealthSampleModel)
    requires
        forall|i: int| 0 <= i < sample.timestamp.len() ==> sample.timestamp[i] != 44,
    ensures
        entry_fields(log_entry(sample)) == Some(sample),
{
    let entry = log_entry(sample);
    let at = sample.timestamp.len() as int;
    lemma_first_byte(entry, 44, at);
    assert(entry.subrange(0, at) =~= sample.timestamp);
    assert(entry.subrange(at + 1, entry.len() as int) =~= sample.voltage);
}

/// Whatever the order in which the samples arrive, a log that started empty
/// holds exactly one entry for each, in that order, no entry holds bytes of
/// two samples, and each entry gives back the sample's two fields. This is
/// stated for samples without a line feed in a field or a comma in the
/// timestamp.
pub proof fn lemma_log_reads_back(arrivals: Seq<HealthSampleModel>)
    requires
        forall|i: int| 0 <= i < arrivals.len() ==> loggable(#[trigger] arrivals[i]),
    ensures
        entries_of(log_after(Seq::empty(), arrivals)) == entries_for(arrivals),
        entries_of(log_after(Seq::empty(), arrivals)).len() == arrivals.len(),
        forall|i: int|
            0 <= i < arrivals.len() ==> entry_fields(
                #[trigger] entries_of(log_after(Seq::empty(), arrivals))[i],
            ) == Some(arrivals[i]),
    decreases arrivals.len(),
{
    let log = log_after(Seq::empty(), arrivals);
    if arrivals.len() == 0 {
        lemma_first_match(log, newline(), 0);
        assert(entries_of(log) =~= entries_for(arrivals));
    } else {
        let earlier = arrivals.drop_last();
        let last = arrivals.last();
        assert(loggable(last));
        lemma_log_reads_back(earlier);
        lemma_log_complete(Seq::empty(), earlier);
        let before = log_after(Seq::empty(), earlier);
        assert(log =~= before + log_entry(last) + newline());
        lemma_entries_push(before, log_entry(last));
        assert(entries_for(earlier).push(log_entry(last)) =~= entries_for(arrivals));
    }
    assert forall|i: int| 0 <= i < arrivals.len() implies entry_fields(
        #[trigger] entries_of(log)[i],
    ) == Some(arrivals[i]) by {
        assert(loggable(arrivals[i]));
        lemma_entry_fields(arrivals[i]);
    }
}

} // verus!
