//! The streaming fragment extractor.
//!
//! Given the event stream of a document, positioned just after the opening
//! tag of one record, the extractor re-serializes every following event
//! verbatim while keeping a nesting counter scoped to the record's tag name:
//! a nested start of the same name raises it, a matching end lowers it, and
//! the end that would take it below zero terminates the fragment. The
//! returned bytes therefore cover the record from its opening tag through
//! its matching closing tag, whatever other elements are nested inside.

use vstd::prelude::*;

use crate::events::{ev_raw, is_end_named, is_start_named, is_stream_end, push_bytes, XmlEvent};

verus! {

/// How a scan for a fragment's terminator ends.
pub enum ScanEnd {
    /// The matching closing tag stands at index `end`.
    Terminated { end: int },
    /// The stream ran out before the matching closing tag.
    Truncated,
    /// The stream became unparsable before the matching closing tag.
    Malformed,
}

/// Scans `events` from index `i` with `depth` unmatched nested starts of
/// `tag` still open, and says how the hunt for the matching closing tag
/// ends.
pub open spec fn scan_from(events: Seq<XmlEvent>, tag: Seq<u8>, i: int, depth: int) -> ScanEnd
    decreases events.len() - i,
{
    if i < 0 || i >= events.len() {
        ScanEnd::Truncated
    } else if events[i] is Eof {
        ScanEnd::Truncated
    } else if events[i] is Malformed {
        ScanEnd::Malformed
    } else if is_end_named(events[i], tag) {
        if depth == 0 {
            ScanEnd::Terminated { end: i }
        } else {
            scan_from(events, tag, i + 1, depth - 1)
        }
    } else if is_start_named(events[i], tag) {
        scan_from(events, tag, i + 1, depth + 1)
    } else {
        scan_from(events, tag, i + 1, depth)
    }
}

/// The verbatim bytes of the events with indices in `[i, j)`.
pub open spec fn raws_between(events: Seq<XmlEvent>, i: int, j: int) -> Seq<u8>
    decreases j - i,
{
    if i < j && 0 <= i < events.len() {
        ev_raw(events[i]) + raws_between(events, i + 1, j)
    } else {
        Seq::empty()
    }
}

proof fn lemma_raws_snoc(events: Seq<XmlEvent>, i: int, j: int)
    requires
        0 <= i <= j < events.len(),
    ensures
        raws_between(events, i, j + 1) == raws_between(events, i, j) + ev_raw(events[j]),
    decreases j - i,
{
    if i == j {
        assert(raws_between(events, i, j) =~= Seq::empty());
        assert(raws_between(events, j + 1, j + 1) =~= Seq::empty());
        assert(raws_between(events, i, j + 1) =~= raws_between(events, i, j) + ev_raw(events[j]));
    } else {
        lemma_raws_snoc(events, i + 1, j);
        assert(raws_between(events, i, j + 1) =~= raws_between(events, i, j) + ev_raw(events[j]));
    }
}

/// How many opening tags named `tag` stand at indices in `[i, j)`.
pub open spec fn count_starts(events: Seq<XmlEvent>, tag: Seq<u8>, i: int, j: int) -> int
    decreases j - i,
{
    if i < j && 0 <= i < events.len() {
        (if is_start_named(events[i], tag) {
            1int
        } else {
            0int
        }) + count_starts(events, tag, i + 1, j)
    } else {
        0
    }
}

/// How many closing tags named `tag` stand at indices in `[i, j)`.
pub open spec fn count_ends(events: Seq<XmlEvent>, tag: Seq<u8>, i: int, j: int) -> int
    decreases j - i,
{
    if i < j && 0 <= i < events.len() {
        (if is_end_named(events[i], tag) {
            1int
        } else {
            0int
        }) + count_ends(events, tag, i + 1, j)
    } else {
        0
    }
}

proof fn lemma_scan_balanced(events: Seq<XmlEvent>, tag: Seq<u8>, i: int, depth: int, end: int)
    requires
        0 <= i,
        0 <= depth,
        scan_from(events, tag, i, depth) == (ScanEnd::Terminated { end }),
    ensures
        i <= end < events.len(),
        is_end_named(events[end], tag),
        count_starts(events, tag, i, end + 1) + depth + 1 == count_ends(events, tag, i, end + 1),
    decreases events.len() - i,
{
    if is_end_named(events[i], tag) && depth == 0 {
        assert(end == i);
    } else if is_end_named(events[i], tag) {
        lemma_scan_balanced(events, tag, i + 1, depth - 1, end);
    } else if is_start_named(events[i], tag) {
        lemma_scan_balanced(events, tag, i + 1, depth + 1, end);
    } else {
        lemma_scan_balanced(events, tag, i + 1, depth, end);
    }
    assert(count_starts(events, tag, i, end + 1) == (if is_start_named(events[i], tag) {
        1int
    } else {
        0int
    }) + count_starts(events, tag, i + 1, end + 1));
    assert(count_ends(events, tag, i, end + 1) == (if is_end_named(events[i], tag) {
        1int
    } else {
        0int
    }) + count_ends(events, tag, i + 1, end + 1));
}

/// Law: an extracted span is balanced. Counting the opening tag that was
/// consumed before extraction began, the span up to and including the
/// terminator holds exactly as many opening as closing tags of the record's
/// name, and the terminator itself is a closing tag of that name.
pub proof fn lemma_fragment_balanced(events: Seq<XmlEvent>, tag: Seq<u8>, end: int)
    requires
        scan_from(events, tag, 0, 0) == (ScanEnd::Terminated { end }),
    ensures
        0 <= end < events.len(),
        is_end_named(events[end], tag),
        1 + count_starts(events, tag, 0, end + 1) == count_ends(events, tag, 0, end + 1),
{
    lemma_scan_balanced(events, tag, 0, 0, end);
}

/// Why an extraction failed.
#[derive(Clone, Copy, Debug, PartialEq, Eq, Structural)]
pub enum ExtractError {
    /// The stream ended before the record's matching closing tag.
    StreamTruncated,
    /// The stream became unparsable inside the record.
    MalformedStream,
}

/// Extracts one fragment from an event sequence.
///
/// `events[start..]` must be the events that follow the record's opening
/// tag, whose verbatim bytes are handed in as `opening`. On success the
/// result holds the fragment — the opening tag followed by every event
/// through the matching closing tag, re-serialized verbatim — and the index
/// of the first event past the fragment.
pub fn extract_from_events(
    events: &Vec<XmlEvent>,
    start: usize,
    tag: &Vec<u8>,
    opening: &Vec<u8>,
) -> (r: Result<(Vec<u8>, usize), ExtractError>)
    ensures
        r matches Ok(p) ==> scan_from(events@, tag@, start as int, 0) == (ScanEnd::Terminated {
            end: p.1 - 1,
        }) && p.0@ == opening@ + raws_between(events@, start as int, p.1 as int) && start < p.1
            <= events@.len(),
        r == Err::<(Vec<u8>, usize), ExtractError>(ExtractError::StreamTruncated) <==> scan_from(
            events@,
            tag@,
            start as int,
            0,
        ) is Truncated,
        r == Err::<(Vec<u8>, usize), ExtractError>(ExtractError::MalformedStream) <==> scan_from(
            events@,
            tag@,
            start as int,
            0,
        ) is Malformed,
{
    if start >= events.len() {
        return Err(ExtractError::StreamTruncated);
    }
    let mut out: Vec<u8> = Vec::new();
    push_bytes(&mut out, opening);
    let mut i: usize = start;
    let mut depth: usize = 0;
    loop
        invariant
            start <= i <= events@.len(),
            depth <= i - start,
            scan_from(events@, tag@, i as int, depth as int) == scan_from(
                events@,
                tag@,
                start as int,
                0,
            ),
            out@ == opening@ + raws_between(events@, start as int, i as int),
        decreases events@.len() - i,
    {
        if i >= events.len() {
            return Err(ExtractError::StreamTruncated);
        }
        proof {
            lemma_raws_snoc(events@, start as int, i as int);
        }
        match &events[i] {
            XmlEvent::Eof => {
                return Err(ExtractError::StreamTruncated);
            },
            XmlEvent::Malformed => {
                return Err(ExtractError::MalformedStream);
            },
            XmlEvent::End { name, raw } => {
                push_bytes(&mut out, raw);
                if crate::events::bytes_eq(name, tag) {
                    if depth == 0 {
                        return Ok((out, i + 1));
                    }
                    depth -= 1;
                }
                assert(out@ == opening@ + raws_between(events@, start as int, i + 1));
            },
            XmlEvent::Start { name, raw, .. } => {
                push_bytes(&mut out, raw);
                if crate::events::bytes_eq(name, tag) {
                    depth += 1;
                }
                assert(out@ == opening@ + raws_between(events@, start as int, i + 1));
            },
            XmlEvent::Empty { raw, .. } => {
                push_bytes(&mut out, raw);
                assert(out@ == opening@ + raws_between(events@, start as int, i + 1));
            },
            XmlEvent::Text { raw, .. } => {
                push_bytes(&mut out, raw);
                assert(out@ == opening@ + raws_between(events@, start as int, i + 1));
            },
            XmlEvent::Other { raw } => {
                push_bytes(&mut out, raw);
                assert(out@ == opening@ + raws_between(events@, start as int, i + 1));
            },
        }
        i += 1;
    }
}

/// What one extraction step decided.
#[derive(Clone, Copy, Debug, PartialEq, Eq, Structural)]
pub enum StepOutcome {
    /// The event was forwarded; the fragment is still open.
    Forwarded,
    /// The event was the matching closing tag; the fragment is complete.
    Complete,
    /// The stream ended before the matching closing tag.
    Truncated,
    /// The stream became unparsable, or same-named elements were nested
    /// beyond any machine-representable depth.
    Malformed,
}

/// An extraction in progress, fed one event at a time.
///
/// The caller observes the record's opening tag, begins an extraction with
/// that tag's name and verbatim bytes, and feeds every following event to
/// [`FragmentExtractor::step`] until it no longer answers
/// [`StepOutcome::Forwarded`]. One growing output buffer and a counter are
/// the whole state, whatever the nesting depth.
pub struct FragmentExtractor {
    /// The record's tag name.
    pub tag: Vec<u8>,
    /// How many nested same-named starts are open.
    pub depth: usize,
    /// The fragment's bytes so far.
    pub buf: Vec<u8>,
}

impl FragmentExtractor {
    /// Starts an extraction for the record whose opening tag, named `tag`,
    /// was just consumed and re-serializes as `opening`.
    pub fn begin(tag: Vec<u8>, opening: Vec<u8>) -> (s: Self)
        ensures
            s.tag@ == tag@,
            s.depth == 0,
            s.buf@ == opening@,
    {
        FragmentExtractor { tag, depth: 0, buf: opening }
    }

    /// Feeds the next event of the stream to the extraction.
    ///
    /// Every ordinary event's verbatim bytes are appended to the buffer; the
    /// nesting counter follows starts and ends of the record's tag name, and
    /// the end that finds it at zero completes the fragment, which then
    /// stands in `buf`.
    pub fn step(&mut self, ev: &XmlEvent) -> (o: StepOutcome)
        ensures
            final(self).tag@ == old(self).tag@,
            is_stream_end(*ev) ==> *final(self) == *old(self) && (ev is Eof ==> o
                == StepOutcome::Truncated) && (ev is Malformed ==> o == StepOutcome::Malformed),
            !is_stream_end(*ev) ==> final(self).buf@ == old(self).buf@ + ev_raw(*ev),
            is_end_named(*ev, old(self).tag@) && old(self).depth == 0 ==> o == StepOutcome::Complete
                && final(self).depth == 0,
            is_end_named(*ev, old(self).tag@) && old(self).depth > 0 ==> o
                == StepOutcome::Forwarded && final(self).depth == old(self).depth - 1,
            is_start_named(*ev, old(self).tag@) && old(self).depth < usize::MAX ==> o
                == StepOutcome::Forwarded && final(self).depth == old(self).depth + 1,
            is_start_named(*ev, old(self).tag@) && old(self).depth == usize::MAX ==> o
                == StepOutcome::Malformed,
            !is_stream_end(*ev) && !is_end_named(*ev, old(self).tag@) && !is_start_named(
                *ev,
                old(self).tag@,
            ) ==> o == StepOutcome::Forwarded && final(self).depth == old(self).depth,
    {
        match ev {
            XmlEvent::Eof => StepOutcome::Truncated,
            XmlEvent::Malformed => StepOutcome::Malformed,
            XmlEvent::End { name, raw } => {
                push_bytes(&mut self.buf, raw);
                if crate::events::bytes_eq(name, &self.tag) {
                    if self.depth == 0 {
                        StepOutcome::Complete
                    } else {
                        self.depth -= 1;
                        StepOutcome::Forwarded
                    }
                } else {
                    StepOutcome::Forwarded
                }
            },
            XmlEvent::Start { name, raw, .. } => {
                push_bytes(&mut self.buf, raw);
                if crate::events::bytes_eq(name, &self.tag) {
                    if self.depth == usize::MAX {
                        return StepOutcome::Malformed;
                    }
                    self.depth += 1;
                }
                StepOutcome::Forwarded
            },
            XmlEvent::Empty { raw, .. } => {
                push_bytes(&mut self.buf, raw);
                StepOutcome::Forwarded
            },
            XmlEvent::Text { raw, .. } => {
                push_bytes(&mut self.buf, raw);
                StepOutcome::Forwarded
            },
            XmlEvent::Other { raw } => {
                push_bytes(&mut self.buf, raw);
                StepOutcome::Forwarded
            },
        }
    }

    /// Hands the finished fragment out.
    pub fn into_fragment(self) -> (b: Vec<u8>)
        ensures
            b@ == self.buf@,
    {
        self.buf
    }
}

} // verus!
