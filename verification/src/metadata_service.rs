//! Track metadata from the first result of a music catalogue search.
use vstd::prelude::*;
use crate::text::{chars_of, string_of, replace_all, replace_all_exec, byte_cut_ok, byte_prefix, byte_prefix_exec};
use crate::downloader::{or_empty, opt_seq, unwrap_or_empty};

verus! {

broadcast use vstd::string::group_string_axioms;

/// Title, artist, album, genre, year and cover address of a track.
#[derive(Debug)]
pub struct TrackMetadata {
    pub title: String,
    pub artist: String,
    pub album: String,
    pub genre: String,
    pub year: String,
    pub artwork_url: String,
}

/// The fields of a catalogue search result that the metadata is made from;
/// each is absent when the result lacks it or it is not text.
pub struct CatalogueFields {
    pub track_name: Option<String>,
    pub artist_name: Option<String>,
    pub collection_name: Option<String>,
    pub primary_genre_name: Option<String>,
    pub artwork_url_100: Option<String>,
    pub release_date: Option<String>,
}

/// The cover address in the large size: every `100x100bb` becomes `600x600bb`.
pub open spec fn large_artwork(url: Seq<char>) -> Seq<char> {
    replace_all(url, "100x100bb"@, "600x600bb"@)
}

/// Taking the year (the first four bytes of the release date) does not panic.
pub open spec fn year_cut_ok(fields: CatalogueFields) -> bool {
    byte_cut_ok(or_empty(opt_seq(fields.release_date)), 4)
}

/// Whether the year can be cut from this release date: the first four bytes
/// of the date (or all of it, when shorter) end on a character boundary.
pub fn release_year_cut_ok(release_date: &str) -> (b: bool)
    ensures
        b == byte_cut_ok(release_date@, 4),
{
    let cs = chars_of(release_date);
    byte_prefix_exec(cs.as_slice(), 4).0
}

/// The metadata of a search result: each text field as it is (empty when
/// missing), the cover address in the large size, and as the year the first
/// four bytes of the release date.
pub fn track_metadata_from_fields(fields: CatalogueFields) -> (r: TrackMetadata)
    requires
        year_cut_ok(fields),
    ensures
        r.title@ == or_empty(opt_seq(fields.track_name)),
        r.artist@ == or_empty(opt_seq(fields.artist_name)),
        r.album@ == or_empty(opt_seq(fields.collection_name)),
        r.genre@ == or_empty(opt_seq(fields.primary_genre_name)),
        r.artwork_url@ == large_artwork(or_empty(opt_seq(fields.artwork_url_100))),
        r.year@ == byte_prefix(or_empty(opt_seq(fields.release_date)), 4),
{
    let artwork_raw = unwrap_or_empty(fields.artwork_url_100);
    let art = chars_of(artwork_raw.as_str());
    let from = chars_of("100x100bb");
    proof {
        reveal_strlit("100x100bb");
    }
    let to = chars_of("600x600bb");
    let large = replace_all_exec(art.as_slice(), from.as_slice(), to.as_slice());
    let release = unwrap_or_empty(fields.release_date);
    let rd = chars_of(release.as_str());
    let (_, year) = byte_prefix_exec(rd.as_slice(), 4);
    TrackMetadata {
        title: unwrap_or_empty(fields.track_name),
        artist: unwrap_or_empty(fields.artist_name),
        album: unwrap_or_empty(fields.collection_name),
        genre: unwrap_or_empty(fields.primary_genre_name),
        year: string_of(year.as_slice()),
        artwork_url: string_of(large.as_slice()),
    }
}

} // verus!
