use discogs_release_xml_parser::decode::{decode_fragment, parse_num, DecodeError};
use discogs_release_xml_parser::events::{read_document_events, XmlEvent};
use discogs_release_xml_parser::extract::{
    extract_from_events, ExtractError, FragmentExtractor, StepOutcome,
};
use discogs_release_xml_parser::ingest::{
    collect_records, directive_after_write, next_record_start, IngestError, NextStart, RunDirective,
    RunTally,
};
use discogs_release_xml_parser::record::{derived_year, Artist, Format, Label, Release, Track, Video};
use discogs_release_xml_parser::writer::WriteFailure;

fn tag() -> Vec<u8> {
    b"release".to_vec()
}

/// The (kind, name) shape of a document, re-parsed with quick_xml directly.
fn shape_of(data: &[u8]) -> Vec<(String, Vec<u8>)> {
    let mut r = quick_xml::reader::Reader::from_reader(data);
    let mut buf = Vec::new();
    let mut out = Vec::new();
    loop {
        buf.clear();
        match r.read_event_into(&mut buf).expect("well-formed") {
            quick_xml::events::Event::Start(e) => {
                out.push(("start".to_string(), e.name().as_ref().as_bytes().to_vec()))
            }
            quick_xml::events::Event::End(e) => {
                out.push(("end".to_string(), e.name().as_ref().as_bytes().to_vec()))
            }
            quick_xml::events::Event::Empty(e) => {
                out.push(("empty".to_string(), e.name().as_ref().as_bytes().to_vec()))
            }
            quick_xml::events::Event::Text(e) => out.push((
                "text".to_string(),
                e.xml10_content().as_bytes().to_vec(),
            )),
            quick_xml::events::Event::Eof => return out,
            _ => {}
        }
    }
}

fn first_start(events: &Vec<XmlEvent>, tag: &Vec<u8>) -> usize {
    match next_record_start(events, 0, tag) {
        NextStart::At(k) => k,
        _ => panic!("no record start found"),
    }
}

fn opening_raw(events: &Vec<XmlEvent>, k: usize) -> Vec<u8> {
    match &events[k] {
        XmlEvent::Start { raw, .. } => raw.clone(),
        other => panic!("expected a start tag, got {:?}", other),
    }
}

#[test]
fn extractor_balances_nested_same_name_tags() {
    let doc: &[u8] = b"<db><release><a/><release><b/></release>tail</release><post/></db>";
    let events = read_document_events(doc);
    let k = first_start(&events, &tag());
    let opening = opening_raw(&events, k);
    let (frag, next) = extract_from_events(&events, k + 1, &tag(), &opening).expect("terminator");

    // The span is exactly the record's bytes, opening through matching
    // closing tag, nested same-named element included.
    assert_eq!(
        frag,
        b"<release><a/><release><b/></release>tail</release>".to_vec()
    );

    // Balanced: the span holds as many release start tags as end tags.
    let shape = shape_of(&frag);
    let starts = shape
        .iter()
        .filter(|(k, n)| k == "start" && n == b"release")
        .count();
    let ends = shape
        .iter()
        .filter(|(k, n)| k == "end" && n == b"release")
        .count();
    assert_eq!(starts, 2);
    assert_eq!(ends, 2);

    // Round trip: re-parsing the span yields exactly the source's nested
    // structure over the same span.
    assert_eq!(
        shape,
        vec![
            ("start".to_string(), b"release".to_vec()),
            ("empty".to_string(), b"a".to_vec()),
            ("start".to_string(), b"release".to_vec()),
            ("empty".to_string(), b"b".to_vec()),
            ("end".to_string(), b"release".to_vec()),
            ("text".to_string(), b"tail".to_vec()),
            ("end".to_string(), b"release".to_vec()),
        ]
    );

    // The index after the fragment points at the next sibling.
    assert!(matches!(&events[next], XmlEvent::Empty { name, .. } if name == b"post"));
}

#[test]
fn streaming_extractor_matches_whole_stream_extraction() {
    let doc: &[u8] = b"<db><release><x><release/></x><release>t</release></release></db>";
    let events = read_document_events(doc);
    let k = first_start(&events, &tag());
    let opening = opening_raw(&events, k);
    let (frag, _) = extract_from_events(&events, k + 1, &tag(), &opening).expect("terminator");

    let mut ex = FragmentExtractor::begin(tag(), opening);
    let mut i = k + 1;
    loop {
        match ex.step(&events[i]) {
            StepOutcome::Forwarded => i += 1,
            StepOutcome::Complete => break,
            other => panic!("unexpected outcome {:?}", other),
        }
    }
    assert_eq!(ex.into_fragment(), frag);
}

#[test]
fn truncated_stream_inside_tracklist_is_fatal() {
    // The source ends abruptly inside a record's tracklist subtree.
    let doc: &[u8] = b"<db><release id=\"1\" status=\"A\"><title>T</title><tracklist><track><title>One";
    let events = read_document_events(doc);
    let r = collect_records(&events, &tag());
    assert!(matches!(
        r,
        Err(IngestError::StreamTruncated) | Err(IngestError::MalformedStream)
    ));
    // Nothing before the failure is handed out: the run yields no records.
    assert!(r.is_err());

    // The extractor itself reports the truncation.
    let k = first_start(&events, &tag());
    let opening = opening_raw(&events, k);
    match extract_from_events(&events, k + 1, &tag(), &opening) {
        Err(ExtractError::StreamTruncated) | Err(ExtractError::MalformedStream) => {}
        other => panic!("expected a fatal extraction error, got {:?}", other),
    }
}

fn full_fragment() -> &'static [u8] {
    b"<release id=\"123\" status=\"Accepted\">\
        <title>AC &amp; DC Live</title>\
        <country>UK</country>\
        <released>1999-03-04</released>\
        <data_quality>Correct</data_quality>\
        <artists><artist><id>42</id><name>AC &amp; DC</name></artist>\
                 <artist><id>7</id><name>Crew</name></artist></artists>\
        <labels><label id=\"55\" catno=\"C&lt;1\" name=\"Albert\"/></labels>\
        <formats><format name=\"Vinyl\" qty=\"2\"/></formats>\
        <genres><genre>Rock</genre><genre>Blues</genre></genres>\
        <styles><style>Hard Rock</style></styles>\
        <tracklist><track><title>One</title></track>\
                   <track><title>Two</title></track>\
                   <track><title>Three</title></track></tracklist>\
        <videos><video duration=\"215\" src=\"http://v/1\"><title>Clip</title></video></videos>\
      </release>"
}

#[test]
fn decode_full_release_maps_every_field() {
    let rel = decode_fragment(full_fragment()).expect("decodes");
    let expected = Release {
        id: 123,
        status: b"Accepted".to_vec(),
        data_quality: b"Correct".to_vec(),
        title: b"AC & DC Live".to_vec(),
        country: Some(b"UK".to_vec()),
        date: Some(b"1999-03-04".to_vec()),
        artists: vec![
            Artist { id: 42, name: b"AC & DC".to_vec() },
            Artist { id: 7, name: b"Crew".to_vec() },
        ],
        labels: vec![Label {
            id: 55,
            catno: b"C<1".to_vec(),
            name: b"Albert".to_vec(),
        }],
        formats: vec![Format { name: b"Vinyl".to_vec(), qty: 2 }],
        genres: Some(vec![b"Rock".to_vec(), b"Blues".to_vec()]),
        styles: Some(vec![b"Hard Rock".to_vec()]),
        tracklist: vec![
            Track { title: b"One".to_vec() },
            Track { title: b"Two".to_vec() },
            Track { title: b"Three".to_vec() },
        ],
        videos: Some(vec![Video {
            title: b"Clip".to_vec(),
            duration: 215,
            src: b"http://v/1".to_vec(),
        }]),
    };
    assert_eq!(rel, expected);
}

#[test]
fn absent_optional_groups_decode_unset_not_empty() {
    let frag: &[u8] = b"<release id=\"5\" status=\"Draft\"><title>T</title>\
        <data_quality>Correct</data_quality><tracklist/></release>";
    let rel = decode_fragment(frag).expect("decodes");
    assert_eq!(rel.genres, None);
    assert_eq!(rel.styles, None);
    assert_eq!(rel.videos, None);
    // Absent containers of the plain repeated groups default to empty.
    assert!(rel.artists.is_empty());
    assert!(rel.labels.is_empty());
    assert!(rel.formats.is_empty());
    assert!(rel.tracklist.is_empty());
    // Country and date are optional fields, not errors.
    assert_eq!(rel.country, None);
    assert_eq!(rel.date, None);

    // A present but empty container is distinguishable: set, with nothing in
    // it.
    let frag2: &[u8] = b"<release id=\"5\" status=\"Draft\"><title>T</title>\
        <data_quality>Correct</data_quality><genres></genres><styles/></release>";
    let rel2 = decode_fragment(frag2).expect("decodes");
    assert_eq!(rel2.genres, Some(vec![]));
    assert_eq!(rel2.styles, Some(vec![]));
    assert_eq!(rel2.videos, None);
}

#[test]
fn derived_year_is_first_four_bytes_or_absent() {
    assert_eq!(
        derived_year(&Some(b"1999-03-04".to_vec())),
        Some(b"1999".to_vec())
    );
    assert_eq!(derived_year(&Some(b"1999".to_vec())), Some(b"1999".to_vec()));
    assert_eq!(derived_year(&Some(b"199".to_vec())), None);
    assert_eq!(derived_year(&Some(b"".to_vec())), None);
    assert_eq!(derived_year(&None), None);
}

#[test]
fn decode_error_variants() {
    // A non-numeric identifier.
    let bad_id: &[u8] = b"<release id=\"x9\" status=\"A\"><title>T</title>\
        <data_quality>C</data_quality></release>";
    assert_eq!(decode_fragment(bad_id), Err(DecodeError::InvalidNumber));

    // A missing required field.
    let no_title: &[u8] =
        b"<release id=\"1\" status=\"A\"><data_quality>C</data_quality></release>";
    assert_eq!(decode_fragment(no_title), Err(DecodeError::MissingField));
    let no_status: &[u8] = b"<release id=\"1\"><title>T</title>\
        <data_quality>C</data_quality></release>";
    assert_eq!(decode_fragment(no_status), Err(DecodeError::MissingField));

    // A fragment that is not a well-formed element.
    let truncated: &[u8] = b"<release id=\"1\" status=\"A\"><title>T";
    assert_eq!(decode_fragment(truncated), Err(DecodeError::Malformed));
}

#[test]
fn parse_num_reads_plain_decimals_only() {
    assert_eq!(parse_num(&b"0".to_vec()), Some(0));
    assert_eq!(parse_num(&b"007".to_vec()), Some(7));
    assert_eq!(parse_num(&b"215".to_vec()), Some(215));
    assert_eq!(parse_num(&b"".to_vec()), None);
    assert_eq!(parse_num(&b"12a".to_vec()), None);
    assert_eq!(parse_num(&b"-4".to_vec()), None);
    assert_eq!(parse_num(&b"99999999999999999999999999".to_vec()), None);
}

#[test]
fn collect_records_walks_the_whole_stream() {
    let doc: &[u8] = b"<?xml version=\"1.0\"?><releases>\
        <release id=\"1\" status=\"A\"><title>First</title>\
          <data_quality>C</data_quality></release>\
        <junk>skipped</junk>\
        <release id=\"2\" status=\"B\"><title>Second</title>\
          <data_quality>C</data_quality></release>\
      </releases>";
    let events = read_document_events(doc);
    let records = collect_records(&events, &tag()).expect("both decode");
    assert_eq!(records.len(), 2);
    assert_eq!(records[0].1.id, 1);
    assert_eq!(records[0].1.title, b"First".to_vec());
    assert_eq!(records[1].1.id, 2);
    assert_eq!(records[1].1.title, b"Second".to_vec());
    // Each fragment is the exact byte span of its record.
    assert_eq!(
        records[0].0,
        b"<release id=\"1\" status=\"A\"><title>First</title>\
          <data_quality>C</data_quality></release>"
            .to_vec()
    );
    // Decoding a collected fragment again yields the same record.
    assert_eq!(decode_fragment(&records[1].0).expect("decodes"), records[1].1);
}

#[test]
fn next_record_start_skips_everything_else() {
    let doc: &[u8] = b"<?xml version=\"1.0\"?><!-- c --><db><other/>text<release/></db>";
    let events = read_document_events(doc);
    // The only release element here is self-closing, which is no opening
    // tag, so the hunt ends cleanly.
    assert!(matches!(
        next_record_start(&events, 0, &tag()),
        NextStart::CleanEnd
    ));

    let doc2: &[u8] = b"<db><other>x</other><release id=\"3\" status=\"A\"></release></db>";
    let events2 = read_document_events(doc2);
    match next_record_start(&events2, 0, &tag()) {
        NextStart::At(k) => {
            assert!(matches!(&events2[k], XmlEvent::Start { name, .. } if name == b"release"));
        }
        other => panic!("expected a start, got {:?}", other),
    }
}

#[test]
fn tally_reports_every_ten_thousandth_record() {
    let mut t = RunTally::new();
    let mut reports = 0;
    for i in 1..=20000u64 {
        let due = t.record_processed();
        assert_eq!(due, i % 10000 == 0);
        if due {
            reports += 1;
        }
    }
    assert_eq!(reports, 2);
    assert_eq!(t.processed, 20000);
}

#[test]
fn only_compensation_failures_abort_the_run() {
    assert_eq!(directive_after_write(&Ok(())), RunDirective::Continue);
    assert_eq!(
        directive_after_write(&Err(WriteFailure::Statement { step: 3 })),
        RunDirective::Continue
    );
    assert_eq!(
        directive_after_write(&Err(WriteFailure::Compensation { step: 3 })),
        RunDirective::Abort
    );
}

#[test]
fn extraction_reproduces_entities_verbatim() {
    let doc: &[u8] = b"<db><release id=\"4\" status=\"A\"><title>AC &amp; DC &#38; co</title>\
        <data_quality>C</data_quality></release></db>";
    let events = read_document_events(doc);
    let k = first_start(&events, &tag());
    let opening = opening_raw(&events, k);
    let (frag, _) = extract_from_events(&events, k + 1, &tag(), &opening).expect("terminator");
    // The span is verbatim: references are re-serialized as they stood.
    assert_eq!(
        frag,
        b"<release id=\"4\" status=\"A\"><title>AC &amp; DC &#38; co</title>\
        <data_quality>C</data_quality></release>"
            .to_vec()
    );
    // Decoding the span resolves them.
    let rel = decode_fragment(&frag).expect("decodes");
    assert_eq!(rel.title, b"AC & DC & co".to_vec());
}

#[test]
fn unknown_children_are_ignored_by_the_decoder() {
    let frag: &[u8] = b"<release id=\"6\" status=\"A\"><title>T</title>\
        <data_quality>C</data_quality>\
        <notes>free text <b>markup</b></notes>\
        <release>a nested same-named element</release>\
        <extraartists><artist><id>1</id><name>N</name></artist></extraartists>\
      </release>";
    let rel = decode_fragment(frag).expect("decodes");
    assert_eq!(rel.id, 6);
    assert_eq!(rel.title, b"T".to_vec());
    // The nested same-named element and the unknown containers change
    // nothing.
    assert!(rel.artists.is_empty());
    assert_eq!(rel.genres, None);
}
