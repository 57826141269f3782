//! The decoded release record.
//!
//! A release is built once from an extracted fragment, is immutable
//! afterwards, and is handed to the writer exactly once. Optional groups
//! (genres, styles, videos) are tri-state: `None` means the group element
//! was absent from the fragment, `Some` of an empty vector means it was
//! present but empty. All text is kept as the fragment's bytes.

use vstd::prelude::*;

verus! {

/// One artist occurrence, scoped to its release.
#[derive(Debug, Clone, PartialEq, Eq)]
pub struct Artist {
    pub id: usize,
    pub name: Vec<u8>,
}

/// One label occurrence: label identity plus the release's catalog number.
#[derive(Debug, Clone, PartialEq, Eq)]
pub struct Label {
    pub id: usize,
    pub catno: Vec<u8>,
    pub name: Vec<u8>,
}

/// One format occurrence: a format name and how many units of it.
#[derive(Debug, Clone, PartialEq, Eq)]
pub struct Format {
    pub name: Vec<u8>,
    pub qty: usize,
}

/// One track; order is the fragment's order.
#[derive(Debug, Clone, PartialEq, Eq)]
pub struct Track {
    pub title: Vec<u8>,
}

/// One video: title, duration in seconds, and source URL.
#[derive(Debug, Clone, PartialEq, Eq)]
pub struct Video {
    pub title: Vec<u8>,
    pub duration: usize,
    pub src: Vec<u8>,
}

/// The central record: one release with all its dependent rows.
#[derive(Debug, Clone, PartialEq, Eq)]
pub struct Release {
    pub id: usize,
    pub status: Vec<u8>,
    pub data_quality: Vec<u8>,
    pub title: Vec<u8>,
    pub country: Option<Vec<u8>>,
    pub date: Option<Vec<u8>>,
    pub artists: Vec<Artist>,
    pub labels: Vec<Label>,
    pub formats: Vec<Format>,
    pub genres: Option<Vec<Vec<u8>>>,
    pub styles: Option<Vec<Vec<u8>>>,
    pub tracklist: Vec<Track>,
    pub videos: Option<Vec<Video>>,
}

/// Mathematical mirror of [`Artist`].
pub struct ArtistV {
    pub id: usize,
    pub name: Seq<u8>,
}

/// Mathematical mirror of [`Label`].
pub struct LabelV {
    pub id: usize,
    pub catno: Seq<u8>,
    pub name: Seq<u8>,
}

/// Mathematical mirror of [`Format`].
pub struct FormatV {
    pub name: Seq<u8>,
    pub qty: usize,
}

/// Mathematical mirror of [`Track`].
pub struct TrackV {
    pub title: Seq<u8>,
}

/// Mathematical mirror of [`Video`].
pub struct VideoV {
    pub title: Seq<u8>,
    pub duration: usize,
    pub src: Seq<u8>,
}

/// Mathematical mirror of [`Release`].
pub struct ReleaseV {
    pub id: usize,
    pub status: Seq<u8>,
    pub data_quality: Seq<u8>,
    pub title: Seq<u8>,
    pub country: Option<Seq<u8>>,
    pub date: Option<Seq<u8>>,
    pub artists: Seq<ArtistV>,
    pub labels: Seq<LabelV>,
    pub formats: Seq<FormatV>,
    pub genres: Option<Seq<Seq<u8>>>,
    pub styles: Option<Seq<Seq<u8>>>,
    pub tracklist: Seq<TrackV>,
    pub videos: Option<Seq<VideoV>>,
}

impl View for Artist {
    type V = ArtistV;

    open spec fn view(&self) -> ArtistV {
        ArtistV { id: self.id, name: self.name@ }
    }
}

impl View for Label {
    type V = LabelV;

    open spec fn view(&self) -> LabelV {
        LabelV { id: self.id, catno: self.catno@, name: self.name@ }
    }
}

impl View for Format {
    type V = FormatV;

    open spec fn view(&self) -> FormatV {
        FormatV { name: self.name@, qty: self.qty }
    }
}

impl View for Track {
    type V = TrackV;

    open spec fn view(&self) -> TrackV {
        TrackV { title: self.title@ }
    }
}

impl View for Video {
    type V = VideoV;

    open spec fn view(&self) -> VideoV {
        VideoV { title: self.title@, duration: self.duration, src: self.src@ }
    }
}

/// The bytes of an optional byte vector.
pub open spec fn opt_bytes(o: Option<Vec<u8>>) -> Option<Seq<u8>> {
    match o {
        Some(v) => Some(v@),
        None => None,
    }
}

/// The views of a sequence's elements.
pub open spec fn views_of<T: View>(s: Seq<T>) -> Seq<T::V> {
    s.map_values(|x: T| x@)
}

/// The byte sequences of a sequence of byte vectors.
pub open spec fn bytes_of(s: Seq<Vec<u8>>) -> Seq<Seq<u8>> {
    s.map_values(|x: Vec<u8>| x@)
}

impl View for Release {
    type V = ReleaseV;

    open spec fn view(&self) -> ReleaseV {
        ReleaseV {
            id: self.id,
            status: self.status@,
            data_quality: self.data_quality@,
            title: self.title@,
            country: opt_bytes(self.country),
            date: opt_bytes(self.date),
            artists: views_of(self.artists@),
            labels: views_of(self.labels@),
            formats: views_of(self.formats@),
            genres: match self.genres {
                Some(g) => Some(bytes_of(g@)),
                None => None,
            },
            styles: match self.styles {
                Some(s) => Some(bytes_of(s@)),
                None => None,
            },
            tracklist: views_of(self.tracklist@),
            videos: match self.videos {
                Some(v) => Some(views_of(v@)),
                None => None,
            },
        }
    }
}

/// The year derived from a release's free-text date: its first four bytes,
/// or nothing when the date is absent or shorter than four bytes.
pub open spec fn derived_year_spec(date: Option<Seq<u8>>) -> Option<Seq<u8>> {
    match date {
        Some(d) => if d.len() >= 4 {
            Some(d.subrange(0, 4))
        } else {
            None
        },
        None => None,
    }
}

/// Derives the year stored at write time from the release's date field.
///
/// For a date of four or more bytes the year is exactly its first four
/// bytes; a shorter or absent date yields no year.
pub fn derived_year(date: &Option<Vec<u8>>) -> (y: Option<Vec<u8>>)
    ensures
        opt_bytes(y) == derived_year_spec(opt_bytes(*date)),
{
    match date {
        None => None,
        Some(d) => {
            if d.len() < 4 {
                None
            } else {
                let mut y: Vec<u8> = Vec::new();
                y.push(d[0]);
                y.push(d[1]);
                y.push(d[2]);
                y.push(d[3]);
                assert(y@ =~= d@.subrange(0, 4));
                Some(y)
            }
        },
    }
}

} // verus!
