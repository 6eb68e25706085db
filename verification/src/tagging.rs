//! Which ID3 frames are written for a finished track.
use vstd::prelude::*;
use crate::text::{parse_i32, parse_i32_spec};

verus! {

broadcast use vstd::string::group_string_axioms;

/// The tags to write into an MP3 file; absent fields are left as they are.
#[derive(Clone)]
pub struct TrackTags {
    pub title: Option<String>,
    pub artist: Option<String>,
    pub album: Option<String>,
    pub genre: Option<String>,
    pub year: Option<String>,
    pub artwork_bytes: Option<Vec<u8>>,
}

/// The frames to set: the text frames that are present, the year when its
/// text is an `i32`, and a front-cover picture (empty when there is no artwork).
pub struct TagPlan {
    pub title: Option<String>,
    pub artist: Option<String>,
    pub album: Option<String>,
    pub genre: Option<String>,
    pub year: Option<i32>,
    pub picture: Vec<u8>,
}

/// The year frame for an optional year text.
pub open spec fn planned_year(year: Option<String>) -> Option<i32> {
    match year {
        Some(y) => parse_i32_spec(y@),
        None => None,
    }
}

/// The picture bytes for optional artwork.
pub open spec fn planned_picture(art: Option<Vec<u8>>) -> Seq<u8> {
    match art {
        Some(b) => b@,
        None => Seq::empty(),
    }
}

/// The frames to write for `tags`.
pub fn plan_tags(tags: TrackTags) -> (p: TagPlan)
    ensures
        p.title == tags.title,
        p.artist == tags.artist,
        p.album == tags.album,
        p.genre == tags.genre,
        p.year == planned_year(tags.year),
        p.picture@ == planned_picture(tags.artwork_bytes),
{
    let year = match &tags.year {
        Some(y) => parse_i32(y.as_str()),
        None => None,
    };
    let picture = match tags.artwork_bytes {
        Some(b) => b,
        None => Vec::new(),
    };
    TagPlan { title: tags.title, artist: tags.artist, album: tags.album, genre: tags.genre, year, picture }
}

} // verus!
