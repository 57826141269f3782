//! Structural XML events, reduced to plain values.
//!
//! The source document is read with `quick_xml`; a handful of trusted
//! wrappers turn each of its events into an [`XmlEvent`], which carries the
//! tag name, the attributes, the textual content and the verbatim
//! re-serialization of the event as plain byte vectors. Everything past the
//! wrappers works on those plain values and is verified.

use vstd::prelude::*;

use quick_xml::events::Event as QEvent;

verus! {

/// One structural event of an XML document, as plain values.
///
/// `raw` is the verbatim re-serialization of the event, so that a span of
/// events can be turned back into the exact bytes it came from.
#[derive(Debug, Clone, PartialEq, Eq)]
pub enum XmlEvent {
    /// An opening tag `<name attr="v">`.
    Start { name: Vec<u8>, attrs: Vec<(Vec<u8>, Vec<u8>)>, raw: Vec<u8> },
    /// A self-closing tag `<name attr="v"/>`.
    Empty { name: Vec<u8>, attrs: Vec<(Vec<u8>, Vec<u8>)>, raw: Vec<u8> },
    /// A closing tag `</name>`.
    End { name: Vec<u8>, raw: Vec<u8> },
    /// Character data: literal text, CDATA, or a resolved entity reference.
    Text { value: Vec<u8>, raw: Vec<u8> },
    /// Anything without structural meaning here: comment, declaration,
    /// processing instruction, doctype.
    Other { raw: Vec<u8> },
    /// The end of the document.
    Eof,
    /// The reader could not parse the document any further.
    Malformed,
}

/// The verbatim bytes of one event; empty for the end of the stream and for
/// an unparsable rest.
pub open spec fn ev_raw(e: XmlEvent) -> Seq<u8> {
    match e {
        XmlEvent::Start { raw, .. } => raw@,
        XmlEvent::Empty { raw, .. } => raw@,
        XmlEvent::End { raw, .. } => raw@,
        XmlEvent::Text { raw, .. } => raw@,
        XmlEvent::Other { raw } => raw@,
        XmlEvent::Eof => Seq::empty(),
        XmlEvent::Malformed => Seq::empty(),
    }
}

/// Whether `e` is an opening tag named `tag`.
pub open spec fn is_start_named(e: XmlEvent, tag: Seq<u8>) -> bool {
    e matches XmlEvent::Start { name, .. } && name@ == tag
}

/// Whether `e` is a closing tag named `tag`.
pub open spec fn is_end_named(e: XmlEvent, tag: Seq<u8>) -> bool {
    e matches XmlEvent::End { name, .. } && name@ == tag
}

/// Whether `e` ends the stream: the document ran out or became unparsable.
pub open spec fn is_stream_end(e: XmlEvent) -> bool {
    e is Eof || e is Malformed
}

/// Byte-vector equality, decided element by element.
pub fn bytes_eq(a: &Vec<u8>, b: &Vec<u8>) -> (r: bool)
    ensures
        r == (a@ == b@),
{
    if a.len() != b.len() {
        assert(a@ != b@) by {
            assert(a@.len() != b@.len());
        }
        return false;
    }
    let mut i: usize = 0;
    while i < a.len()
        invariant
            i <= a.len(),
            a@.len() == b@.len(),
            forall|j: int| 0 <= j < i ==> a@[j] == b@[j],
        decreases a.len() - i,
    {
        if a[i] != b[i] {
            return false;
        }
        i += 1;
    }
    assert(a@ =~= b@);
    true
}

/// Appends all of `src` to `out`.
pub fn push_bytes(out: &mut Vec<u8>, src: &Vec<u8>)
    ensures
        final(out)@ == old(out)@ + src@,
{
    let mut i: usize = 0;
    while i < src.len()
        invariant
            i <= src.len(),
            out@ == old(out)@ + src@.subrange(0, i as int),
        decreases src.len() - i,
    {
        out.push(src[i]);
        assert(old(out)@ + src@.subrange(0, i as int) + seq![src@[i as int]] =~= old(
            out,
        )@ + src@.subrange(0, i + 1));
        i += 1;
    }
    assert(src@.subrange(0, src@.len() as int) =~= src@);
}

#[verifier::external_type_specification]
#[verifier::external_body]
#[verifier::reject_recursive_types(R)]
pub struct ExReader<R>(quick_xml::reader::Reader<R>);

#[verifier::external_type_specification]
#[verifier::external_body]
pub struct ExEvent<'i>(quick_xml::events::Event<'i>);

/// Relies on `quick_xml::reader::Reader::from_reader`: builds a streaming
/// reader over an in-memory byte slice.
#[verifier::external_body]
pub(crate) fn reader_from_bytes<'a>(data: &'a [u8]) -> (r: quick_xml::reader::Reader<&'a [u8]>) {
    quick_xml::reader::Reader::from_reader(data)
}

/// Relies on `quick_xml::reader::Reader::read_event_into`: pulls the next
/// event from the stream; `None` when the document cannot be parsed further.
#[verifier::external_body]
fn read_raw_event<'s, 'b>(
    r: &mut quick_xml::reader::Reader<&'s [u8]>,
    buf: &'b mut Vec<u8>,
) -> (ev: Option<QEvent<'b>>) {
    r.read_event_into(buf).ok()
}

/// Which variant of `quick_xml::events::Event` an event is.
pub(crate) enum RawKind {
    Start,
    End,
    Empty,
    Text,
    CData,
    GeneralRef,
    Other,
    Eof,
}

/// Relies on the variants of `quick_xml::events::Event`: tells them apart.
#[verifier::external_body]
fn raw_kind(ev: &QEvent<'_>) -> (k: RawKind) {
    match ev {
        QEvent::Start(_) => RawKind::Start,
        QEvent::End(_) => RawKind::End,
        QEvent::Empty(_) => RawKind::Empty,
        QEvent::Text(_) => RawKind::Text,
        QEvent::CData(_) => RawKind::CData,
        QEvent::GeneralRef(_) => RawKind::GeneralRef,
        QEvent::Comment(_) => RawKind::Other,
        QEvent::Decl(_) => RawKind::Other,
        QEvent::PI(_) => RawKind::Other,
        QEvent::DocType(_) => RawKind::Other,
        QEvent::Eof => RawKind::Eof,
    }
}

/// Relies on `BytesStart::name` and `BytesEnd::name`: the tag name of a
/// start, empty or end event; empty for the rest.
#[verifier::external_body]
fn raw_name(ev: &QEvent<'_>) -> (n: Vec<u8>) {
    match ev {
        QEvent::Start(e) | QEvent::Empty(e) => e.name().as_ref().as_bytes().to_vec(),
        QEvent::End(e) => e.name().as_ref().as_bytes().to_vec(),
        _ => Vec::new(),
    }
}

/// Relies on `BytesStart::attributes` and `Attribute::normalized_value`: the
/// attribute names and normalized (unescaped) values of a start or empty
/// event, in document order; `None` when an attribute cannot be parsed or
/// normalized.
#[verifier::external_body]
fn raw_attrs(ev: &QEvent<'_>) -> (a: Option<Vec<(Vec<u8>, Vec<u8>)>>) {
    let e = match ev {
        QEvent::Start(e) | QEvent::Empty(e) => e,
        _ => return Some(Vec::new()),
    };
    let mut out = Vec::new();
    for attr in e.attributes() {
        let at = attr.ok()?;
        let v = at.normalized_value(quick_xml::XmlVersion::Implicit1_0).ok()?;
        out.push((at.key.as_ref().as_bytes().to_vec(), v.as_bytes().to_vec()));
    }
    Some(out)
}

/// Relies on `BytesText::xml10_content` and `BytesCData::xml10_content`: the
/// character data of a text or CDATA event; empty for the rest.
#[verifier::external_body]
fn raw_text(ev: &QEvent<'_>) -> (t: Vec<u8>) {
    match ev {
        QEvent::Text(e) => e.xml10_content().as_bytes().to_vec(),
        QEvent::CData(e) => e.xml10_content().as_bytes().to_vec(),
        _ => Vec::new(),
    }
}

/// Relies on `BytesRef::resolve_char_ref` and
/// `quick_xml::escape::resolve_predefined_entity`: the replacement text of a
/// character or predefined entity reference; `None` for an unknown entity or
/// an event that is no reference.
#[verifier::external_body]
fn raw_ref_text(ev: &QEvent<'_>) -> (t: Option<Vec<u8>>) {
    match ev {
        QEvent::GeneralRef(e) => match e.resolve_char_ref() {
            Ok(Some(ch)) => Some(ch.to_string().into_bytes()),
            Ok(None) => quick_xml::escape::resolve_predefined_entity(e.as_ref()).map(
                |s| s.as_bytes().to_vec(),
            ),
            Err(_) => None,
        },
        _ => None,
    }
}

/// Relies on `quick_xml::writer::Writer::write_event`: the verbatim
/// re-serialization of one event.
#[verifier::external_body]
fn raw_bytes(ev: &QEvent<'_>) -> (b: Vec<u8>) {
    let mut out: Vec<u8> = Vec::new();
    let mut w = quick_xml::writer::Writer::new(&mut out);
    let _ = w.write_event(ev.borrow());
    out
}

/// Pulls the next event from the reader and reduces it to plain values.
///
/// An unparsable document, an attribute that cannot be read, and an entity
/// reference that cannot be resolved all come back as
/// [`XmlEvent::Malformed`].
pub(crate) fn next_event(r: &mut quick_xml::reader::Reader<&[u8]>) -> (ev: XmlEvent) {
    let mut buf: Vec<u8> = Vec::new();
    let raw_ev = read_raw_event(r, &mut buf);
    match raw_ev {
        None => XmlEvent::Malformed,
        Some(q) => {
            let raw = raw_bytes(&q);
            match raw_kind(&q) {
                RawKind::Start => match raw_attrs(&q) {
                    Some(attrs) => XmlEvent::Start { name: raw_name(&q), attrs, raw },
                    None => XmlEvent::Malformed,
                },
                RawKind::Empty => match raw_attrs(&q) {
                    Some(attrs) => XmlEvent::Empty { name: raw_name(&q), attrs, raw },
                    None => XmlEvent::Malformed,
                },
                RawKind::End => XmlEvent::End { name: raw_name(&q), raw },
                RawKind::Text => XmlEvent::Text { value: raw_text(&q), raw },
                RawKind::CData => XmlEvent::Text { value: raw_text(&q), raw },
                RawKind::GeneralRef => match raw_ref_text(&q) {
                    Some(value) => XmlEvent::Text { value, raw },
                    None => XmlEvent::Malformed,
                },
                RawKind::Other => XmlEvent::Other { raw },
                RawKind::Eof => XmlEvent::Eof,
            }
        },
    }
}

/// The event sequence that parsing a document's bytes yields: what
/// [`read_document_events`] returns. The parse is a function of the bytes
/// alone — the same bytes give the same events, in every process and on
/// every machine — so the result carries a name that the contracts
/// downstream can speak of.
pub uninterp spec fn events_of(data: Seq<u8>) -> Seq<XmlEvent>;

/// Reads a whole in-memory document into its event sequence.
///
/// Relies on `quick_xml::reader::Reader::read_event_into`: over a byte
/// slice it is deterministic, consumes at least one input byte per event,
/// and yields `Eof` at the slice's end (or an error where the document
/// cannot be parsed further), so the read loop terminates and the returned
/// sequence ends with exactly one stream-ending event — `Eof` for a
/// document read to its end, `Malformed` where the reader gave up — with
/// none of the two anywhere before it.
#[verifier::external_body]
pub fn read_document_events(data: &[u8]) -> (events: Vec<XmlEvent>)
    ensures
        events@ == events_of(data@),
        events@.len() >= 1,
        is_stream_end(events@[events@.len() - 1]),
        forall|i: int| 0 <= i < events@.len() - 1 ==> !is_stream_end(events@[i]),
{
    let mut r = reader_from_bytes(data);
    let mut events: Vec<XmlEvent> = Vec::new();
    loop {
        let ev = next_event(&mut r);
        let done = matches!(ev, XmlEvent::Eof | XmlEvent::Malformed);
        events.push(ev);
        if done {
            return events;
        }
    }
}

} // verus!
