//! Streaming ingestion of a music-release XML dump into a relational store,
//! with the two hard pieces verified: the fragment extractor, which finds
//! the exact byte span of each record inside a stream too large to hold in
//! memory, tolerant of same-named nested elements; and the multi-table
//! writer, which persists one decoded record across dependent tables
//! all-or-nothing, undoing a partial write with a single compensating
//! delete that the schema's cascading foreign keys propagate.
//!
//! The stream is read with `quick_xml` behind a small trusted boundary in
//! [`events`]; everything downstream — extraction, decoding, write
//! planning, the compensation protocol, and the run's control decisions —
//! works on plain values and is verified against specification mirrors.
//! The I/O shell (the command line, the file, the store connection) lives
//! outside the library and only executes what the library decided.

pub mod events;
pub mod names;
pub mod extract;
pub mod record;
pub mod decode;
pub mod writer;
pub mod ingest;
