use simple_music_bot::downloader::PlaylistEntry;
use simple_music_bot::resolvers::{
    bandcamp_query, best_bandcamp_url, best_match_index, best_soundcloud_candidate, match_score,
    score_beats, score_good_enough, soundcloud_queries, soundcloud_search, tokenize,
    track_not_found, resolve_start, resolve_step, BandcampResult, MatchScore, ResolveAction,
    ResolveEvent, ResolveStage,
};

fn sorted(mut v: Vec<String>) -> Vec<String> {
    v.sort();
    v
}

#[test]
fn words_are_lowercased_and_distinct() {
    assert_eq!(sorted(tokenize("Don't Stop_Me Now NOW")), vec!["don't", "now", "stop_me"]);
    // empty pieces between separators count as a word too
    assert_eq!(sorted(tokenize("A  B")), vec!["", "a", "b"]);
    assert_eq!(tokenize(""), vec![""]);
    assert_eq!(sorted(tokenize("Привет, Мир")), vec!["", "мир", "привет"]);
}

#[test]
fn scores() {
    assert_eq!(match_score("Queen - Bohemian Rhapsody", "Queen", "Bohemian Rhapsody"), MatchScore { matched: 3, wanted: 3 });
    assert_eq!(match_score("queen live", "Queen", "Bohemian Rhapsody"), MatchScore { matched: 1, wanted: 3 });
    assert!(score_beats(MatchScore { matched: 2, wanted: 3 }, MatchScore { matched: 1, wanted: 2 }));
    assert!(!score_beats(MatchScore { matched: 1, wanted: 2 }, MatchScore { matched: 2, wanted: 4 }));
    assert!(score_good_enough(MatchScore { matched: 1, wanted: 2 }));
    assert!(!score_good_enough(MatchScore { matched: 1, wanted: 3 }));
    assert!(!score_good_enough(MatchScore { matched: 0, wanted: 0 }));
}

fn entry(url: &str, title: &str) -> PlaylistEntry {
    PlaylistEntry { url: url.to_string(), title: title.to_string() }
}

#[test]
fn soundcloud_takes_the_first_best_candidate() {
    let c = vec![
        entry("u1", "Queen cover band"),
        entry("u2", "Queen - Bohemian Rhapsody"),
        entry("u3", "Bohemian Rhapsody Queen"),
    ];
    assert_eq!(best_soundcloud_candidate(c, "Queen", "Bohemian Rhapsody").unwrap().url, "u2");
    let c = vec![entry("u1", "something else"), entry("u2", "queen")];
    assert!(best_soundcloud_candidate(c, "Queen", "Bohemian Rhapsody").is_none());
    assert!(best_soundcloud_candidate(Vec::new(), "a", "b").is_none());
}

#[test]
fn best_index_skips_missing_titles() {
    let t = vec![None, Some("x y".to_string()), Some("x".to_string())];
    assert_eq!(best_match_index(&t, "x", "y"), Some(1));
}

fn bc(kind: &str, band: &str, name: &str, root: Option<&str>, url: Option<&str>) -> BandcampResult {
    BandcampResult {
        kind: Some(kind.to_string()),
        name: Some(name.to_string()),
        band_name: Some(band.to_string()),
        item_url_root: root.map(String::from),
        url: url.map(String::from),
    }
}

#[test]
fn bandcamp_takes_tracks_and_albums_only() {
    let r = vec![
        bc("b", "Artist", "Song", Some("https://band"), None),
        bc("t", "Artist", "Song", None, Some("https://artist.bandcamp.com/track/song")),
    ];
    assert_eq!(best_bandcamp_url(r, "Artist", "Song").as_deref(), Some("https://artist.bandcamp.com/track/song"));
    let r = vec![bc("a", "Artist", "Song", Some("https://root"), Some("https://u"))];
    assert_eq!(best_bandcamp_url(r, "Artist", "Song").as_deref(), Some("https://root"));
    let r = vec![bc("t", "Other", "Thing", Some("https://root"), None)];
    assert_eq!(best_bandcamp_url(r, "Artist", "Song"), None);
}

#[test]
fn searches() {
    assert_eq!(soundcloud_queries(" Artist ", "Song "), vec!["Artist  Song".to_string(), "Song".to_string()]);
    assert_eq!(soundcloud_queries("", "  "), Vec::<String>::new());
    assert_eq!(soundcloud_queries("Artist", ""), vec!["Artist".to_string()]);
    assert_eq!(soundcloud_search("a b", None), "scsearch5:a b");
    assert_eq!(soundcloud_search("q", Some(12)), "scsearch12:q");
    assert_eq!(bandcamp_query("A", "B").as_deref(), Some("A B"));
    assert_eq!(bandcamp_query(" ", ""), None);
    assert_eq!(track_not_found("https://youtu.be/x").youtube_url, "https://youtu.be/x");
}

fn listing(action: &ResolveAction) -> Option<String> {
    match action {
        ResolveAction::ListSoundcloud { search } => Some(search.clone()),
        _ => None,
    }
}

fn download(action: &ResolveAction) -> Option<String> {
    match action {
        ResolveAction::Download { url } => Some(url.clone()),
        _ => None,
    }
}

#[test]
fn search_walks_soundcloud_then_bandcamp() {
    let yt = "https://youtu.be/x";
    let (stage, action) = resolve_start("Queen", "Bohemian Rhapsody", yt);
    assert_eq!(stage, ResolveStage::Soundcloud { index: 0 });
    assert_eq!(listing(&action).as_deref(), Some("scsearch5:Queen Bohemian Rhapsody"));

    // nothing scores well enough: the title alone is tried next
    let weak = vec![entry("https://soundcloud.com/a", "something else")];
    let (stage, action) = resolve_step("Queen", "Bohemian Rhapsody", yt, stage, ResolveEvent::Listed(Some(weak)));
    assert_eq!(stage, ResolveStage::Soundcloud { index: 1 });
    assert_eq!(listing(&action).as_deref(), Some("scsearch5:Bohemian Rhapsody"));

    // a good match is downloaded
    let good = vec![
        entry("https://soundcloud.com/b", "Queen - Bohemian"),
        entry("https://soundcloud.com/c", "Queen - Bohemian Rhapsody"),
    ];
    let (stage, action) = resolve_step("Queen", "Bohemian Rhapsody", yt, stage, ResolveEvent::Listed(Some(good)));
    assert_eq!(stage, ResolveStage::Soundcloud { index: 1 });
    assert_eq!(download(&action).as_deref(), Some("https://soundcloud.com/c"));

    // the download fails: Bandcamp is searched with artist and title
    let (stage, action) = resolve_step("Queen", "Bohemian Rhapsody", yt, stage, ResolveEvent::DownloadFailed);
    assert_eq!(stage, ResolveStage::Bandcamp);
    match &action {
        ResolveAction::SearchBandcamp { query } => assert_eq!(query, "Queen Bohemian Rhapsody"),
        _ => panic!("expected a Bandcamp search"),
    }
    let (stage, action) = resolve_step(
        "Queen",
        "Bohemian Rhapsody",
        yt,
        stage,
        ResolveEvent::BandcampChose(Some("https://queen.bandcamp.com/track/br".to_string())),
    );
    assert_eq!(stage, ResolveStage::Bandcamp);
    assert_eq!(download(&action).as_deref(), Some("https://queen.bandcamp.com/track/br"));

    // that download fails too: the search gives up with the YouTube address
    let (stage, action) = resolve_step("Queen", "Bohemian Rhapsody", yt, stage, ResolveEvent::DownloadFailed);
    assert_eq!(stage, ResolveStage::Exhausted);
    match action {
        ResolveAction::GiveUp { error } => assert_eq!(error.youtube_url, yt),
        _ => panic!("expected the search to give up"),
    }
}

#[test]
fn search_with_nothing_to_look_for_gives_up() {
    let (stage, action) = resolve_start("  ", " ", "Y");
    assert_eq!(stage, ResolveStage::Exhausted);
    assert!(matches!(action, ResolveAction::GiveUp { ref error } if error.youtube_url == "Y"));
    // a failed listing moves on; no Bandcamp choice ends the search
    let (stage, action) = resolve_start("", "Song", "Y");
    assert_eq!(stage, ResolveStage::Soundcloud { index: 0 });
    assert_eq!(listing(&action).as_deref(), Some("scsearch5:Song"));
    // the title alone is the same search here, and is tried again
    let (stage, action) = resolve_step("", "Song", "Y", stage, ResolveEvent::Listed(None));
    assert_eq!(stage, ResolveStage::Soundcloud { index: 1 });
    assert_eq!(listing(&action).as_deref(), Some("scsearch5:Song"));
    let (stage, _) = resolve_step("", "Song", "Y", stage, ResolveEvent::Listed(None));
    assert_eq!(stage, ResolveStage::Bandcamp);
    let (stage, _) = resolve_step("", "Song", "Y", stage, ResolveEvent::BandcampChose(None));
    assert_eq!(stage, ResolveStage::Exhausted);
}

#[test]
fn scores_are_fractions_symmetric_in_artist_and_title() {
    for (c, a, t) in [
        ("Daft Punk One", "Daft Punk", "One More Time"),
        ("queen live", "Queen", "Bohemian Rhapsody"),
        ("", "", ""),
    ] {
        let s = match_score(c, a, t);
        assert!(s.matched <= s.wanted);
        assert_eq!(s, match_score(c, t, a));
    }
}
