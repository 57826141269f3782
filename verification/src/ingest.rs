//! The ingestion orchestrator's logic.
//!
//! The run drives one loop: skip stream content until the next record's
//! opening tag, extract its fragment, decode it, write it, tally the
//! outcome, and report progress at fixed intervals. The writes themselves
//! are I/O and live with the caller; everything the loop decides — what
//! ends a run, what is recoverable, when to report — is here, together with
//! an in-memory pipeline over the whole document.

use vstd::prelude::*;

use crate::decode::{decode_record, decode_record_spec, DecodeError};
use crate::events::{ev_raw, is_start_named, XmlEvent};
use crate::extract::{extract_from_events, raws_between, scan_from, ExtractError, ScanEnd};
use crate::record::{Release, ReleaseV};
use crate::writer::WriteFailure;

verus! {

/// Why a run stopped before the end of the stream.
#[derive(Clone, Copy, Debug, PartialEq, Eq, Structural)]
pub enum IngestError {
    /// The stream ended inside a record's fragment.
    StreamTruncated,
    /// The stream became unparsable.
    MalformedStream,
    /// A fragment would not decode; malformed input is a fatal
    /// data-quality problem, so the run does not skip the record.
    Decode(DecodeError),
}

/// What the orchestrator does after one record's write attempt.
#[derive(Clone, Copy, Debug, PartialEq, Eq, Structural)]
pub enum RunDirective {
    /// Go on to the next record.
    Continue,
    /// Stop the run: the target store may be inconsistent.
    Abort,
}

/// Decides how the run goes on after one record's write attempt: a clean
/// write and a per-record statement failure both let the run continue (the
/// failure is reported and the record is lost); a failed compensation
/// aborts the whole run.
pub fn directive_after_write(r: &Result<(), WriteFailure>) -> (d: RunDirective)
    ensures
        d == RunDirective::Abort <==> r matches Err(WriteFailure::Compensation { .. }),
{
    match r {
        Ok(()) => RunDirective::Continue,
        Err(WriteFailure::Statement { .. }) => RunDirective::Continue,
        Err(WriteFailure::Compensation { .. }) => RunDirective::Abort,
    }
}

/// The run's record counter.
pub struct RunTally {
    /// How many records were processed.
    pub processed: u64,
}

/// How often a progress report is due, in processed records.
pub const REPORT_EVERY: u64 = 10000;

impl RunTally {
    /// A fresh tally.
    pub fn new() -> (t: Self)
        ensures
            t.processed == 0,
    {
        RunTally { processed: 0 }
    }

    /// Counts one processed record and says whether a progress report is
    /// due: one is due after every [`REPORT_EVERY`]th record.
    pub fn record_processed(&mut self) -> (report: bool)
        requires
            old(self).processed < u64::MAX,
        ensures
            final(self).processed == old(self).processed + 1,
            report == (final(self).processed % REPORT_EVERY == 0),
    {
        self.processed = self.processed + 1;
        self.processed % REPORT_EVERY == 0
    }
}

/// Where a hunt for the next record's opening tag ends.
pub enum FindStart {
    /// The next opening tag named `tag` stands at `at`.
    Found { at: int },
    /// The stream ended cleanly first: the run is complete.
    CleanEnd,
    /// The stream became unparsable first.
    BadEnd,
}

/// Scans from `from` for the next opening tag named `tag`, skipping
/// everything else, up to the stream's end.
pub open spec fn find_start_spec(events: Seq<XmlEvent>, from: int, tag: Seq<u8>) -> FindStart
    decreases events.len() - from,
{
    if from < 0 || from >= events.len() {
        FindStart::CleanEnd
    } else if is_start_named(events[from], tag) {
        FindStart::Found { at: from }
    } else if events[from] is Eof {
        FindStart::CleanEnd
    } else if events[from] is Malformed {
        FindStart::BadEnd
    } else {
        find_start_spec(events, from + 1, tag)
    }
}

/// What [`next_record_start`] found.
#[derive(Debug, Clone, Copy, PartialEq, Eq)]
pub enum NextStart {
    /// The next record's opening tag stands at this index.
    At(usize),
    /// The stream ended cleanly first.
    CleanEnd,
    /// The stream became unparsable first.
    BadEnd,
}

/// Finds the next record's opening tag, exactly as [`find_start_spec`]
/// says.
pub fn next_record_start(events: &Vec<XmlEvent>, from: usize, tag: &Vec<u8>) -> (r: NextStart)
    ensures
        r matches NextStart::At(k) ==> find_start_spec(events@, from as int, tag@)
            == (FindStart::Found { at: k as int }) && from <= k < events@.len(),
        r is CleanEnd <==> find_start_spec(events@, from as int, tag@) is CleanEnd,
        r is BadEnd <==> find_start_spec(events@, from as int, tag@) is BadEnd,
{
    let mut i: usize = from;
    while i < events.len()
        invariant
            from <= i,
            find_start_spec(events@, i as int, tag@) == find_start_spec(events@, from as int, tag@),
        decreases events@.len() - i,
    {
        match &events[i] {
            XmlEvent::Start { name, .. } => {
                if crate::events::bytes_eq(name, tag) {
                    return NextStart::At(i);
                }
            },
            XmlEvent::Eof => {
                return NextStart::CleanEnd;
            },
            XmlEvent::Malformed => {
                return NextStart::BadEnd;
            },
            _ => {},
        }
        i += 1;
    }
    NextStart::CleanEnd
}

/// The records of the whole event stream from `from` on, with `acc` already
/// collected: each record is its fragment's verbatim bytes paired with its
/// decoded release. A truncated or unparsable stream, and a fragment that
/// will not decode, end the run with the matching error.
pub open spec fn collect_from(
    events: Seq<XmlEvent>,
    tag: Seq<u8>,
    from: int,
    acc: Seq<(Seq<u8>, ReleaseV)>,
) -> Result<Seq<(Seq<u8>, ReleaseV)>, IngestError>
    decreases events.len() - from,
{
    match find_start_spec(events, from, tag) {
        FindStart::CleanEnd => Ok(acc),
        FindStart::BadEnd => Err(IngestError::MalformedStream),
        FindStart::Found { at } => match scan_from(events, tag, at + 1, 0) {
            ScanEnd::Truncated => Err(IngestError::StreamTruncated),
            ScanEnd::Malformed => Err(IngestError::MalformedStream),
            ScanEnd::Terminated { end } => if from <= at && at + 2 <= end + 1 <= events.len() {
                match decode_record_spec(events, at, end + 1) {
                    Err(e) => Err(IngestError::Decode(e)),
                    Ok(rv) => collect_from(
                        events,
                        tag,
                        end + 1,
                        acc.push((ev_raw(events[at]) + raws_between(events, at + 1, end + 1), rv)),
                    ),
                }
            } else {
                Err(IngestError::MalformedStream)
            },
        },
    }
}

/// The fragments and releases of a record sequence, seen mathematically.
pub open spec fn records_view(rs: Seq<(Vec<u8>, Release)>) -> Seq<(Seq<u8>, ReleaseV)> {
    rs.map_values(|p: (Vec<u8>, Release)| (p.0@, p.1@))
}

proof fn lemma_find_start_found(events: Seq<XmlEvent>, from: int, tag: Seq<u8>, at: int)
    requires
        find_start_spec(events, from, tag) == (FindStart::Found { at }),
        0 <= from,
    ensures
        from <= at < events.len(),
        is_start_named(events[at], tag),
    decreases events.len() - from,
{
    if from < events.len() && !is_start_named(events[from], tag) && !(events[from] is Eof) && !(
    events[from] is Malformed) {
        lemma_find_start_found(events, from + 1, tag, at);
    }
}

/// Runs the whole in-memory pipeline over one event stream: for every
/// record, extract its fragment and decode it, exactly as [`collect_from`]
/// says.
#[verifier::rlimit(100)]
pub fn collect_records(events: &Vec<XmlEvent>, tag: &Vec<u8>) -> (r: Result<
    Vec<(Vec<u8>, Release)>,
    IngestError,
>)
    ensures
        r matches Ok(v) ==> collect_from(events@, tag@, 0, Seq::empty()) == Ok::<_, IngestError>(
            records_view(v@),
        ),
        r matches Err(e) ==> collect_from(events@, tag@, 0, Seq::empty()) == Err::<
            Seq<(Seq<u8>, ReleaseV)>,
            _,
        >(e),
{
    let mut out: Vec<(Vec<u8>, Release)> = Vec::new();
    let mut from: usize = 0;
    proof {
        assert(records_view(out@) =~= Seq::<(Seq<u8>, ReleaseV)>::empty());
    }
    loop
        invariant
            collect_from(events@, tag@, from as int, records_view(out@)) == collect_from(
                events@,
                tag@,
                0,
                Seq::empty(),
            ),
        decreases events@.len() - from,
    {
        let k = match next_record_start(events, from, tag) {
            NextStart::CleanEnd => {
                return Ok(out);
            },
            NextStart::BadEnd => {
                return Err(IngestError::MalformedStream);
            },
            NextStart::At(k) => k,
        };
        proof {
            lemma_find_start_found(events@, from as int, tag@, k as int);
        }
        let total = events.len();
        assert(k < total);
        let opening = match &events[k] {
            XmlEvent::Start { raw, .. } => raw,
            _ => {
                return Err(IngestError::MalformedStream);
            },
        };
        let (frag, next) = match extract_from_events(events, k + 1, tag, opening) {
            Err(ExtractError::StreamTruncated) => {
                return Err(IngestError::StreamTruncated);
            },
            Err(ExtractError::MalformedStream) => {
                return Err(IngestError::MalformedStream);
            },
            Ok(p) => p,
        };
        let rel = match decode_record(events, k, next) {
            Err(e) => {
                return Err(IngestError::Decode(e));
            },
            Ok(rel) => rel,
        };
        let ghost pre = records_view(out@);
        let ghost pv = (frag@, rel@);
        out.push((frag, rel));
        proof {
            assert(records_view(out@) =~= pre.push(pv));
        }
        from = next;
    }
}

} // verus!
