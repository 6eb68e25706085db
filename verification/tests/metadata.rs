use simple_music_bot::metadata_service::{release_year_cut_ok, track_metadata_from_fields, CatalogueFields};
use simple_music_bot::tagging::{plan_tags, TrackTags};

#[test]
fn catalogue_result_to_metadata() {
    let m = track_metadata_from_fields(CatalogueFields {
        track_name: Some("Song".into()),
        artist_name: Some("Artist".into()),
        collection_name: None,
        primary_genre_name: Some("Rock".into()),
        artwork_url_100: Some("https://is1.mzstatic.com/a/100x100bb.jpg".into()),
        release_date: Some("1975-10-31T12:00:00Z".into()),
    });
    assert_eq!(m.title, "Song");
    assert_eq!(m.artist, "Artist");
    assert_eq!(m.album, "");
    assert_eq!(m.genre, "Rock");
    assert_eq!(m.year, "1975");
    assert_eq!(m.artwork_url, "https://is1.mzstatic.com/a/600x600bb.jpg");
    let m = track_metadata_from_fields(CatalogueFields {
        track_name: None,
        artist_name: None,
        collection_name: None,
        primary_genre_name: None,
        artwork_url_100: None,
        release_date: Some("19".into()),
    });
    assert_eq!(m.year, "19");
}

#[test]
fn year_cut_checks() {
    assert!(release_year_cut_ok("2020-01-01"));
    assert!(release_year_cut_ok(""));
    assert!(release_year_cut_ok("é12"));
    assert!(!release_year_cut_ok("abc€"));
    assert!(release_year_cut_ok("a€€"));
    assert!(!release_year_cut_ok("ab€"));
}

#[test]
fn tag_plan() {
    let p = plan_tags(TrackTags {
        title: Some("T".into()),
        artist: None,
        album: Some("A".into()),
        genre: None,
        year: Some("1999".into()),
        artwork_bytes: None,
    });
    assert_eq!(p.title.as_deref(), Some("T"));
    assert_eq!(p.artist, None);
    assert_eq!(p.album.as_deref(), Some("A"));
    assert_eq!(p.year, Some(1999));
    assert!(p.picture.is_empty());
    let p = plan_tags(TrackTags {
        title: None,
        artist: None,
        album: None,
        genre: None,
        year: Some("1999-05".into()),
        artwork_bytes: Some(vec![1, 2, 3]),
    });
    assert_eq!(p.year, None);
    assert_eq!(p.picture, vec![1, 2, 3]);
}
