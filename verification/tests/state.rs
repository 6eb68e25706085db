use simple_music_bot::state::{
    get_mode, pop_problem_track, register_problem_track, toggle_mode, ChatModes, DownloadMode,
    ProblemTracks,
};

#[test]
fn modes_start_direct_and_toggle() {
    let mut m = ChatModes::new();
    assert_eq!(get_mode(&m, 7), DownloadMode::Direct);
    // the first switch of a chat that never switched turns on the fallback
    assert_eq!(toggle_mode(&mut m, 7), DownloadMode::Resolve);
    assert_eq!(get_mode(&m, 7), DownloadMode::Resolve);
    assert_eq!(get_mode(&m, 8), DownloadMode::Direct);
    assert_eq!(toggle_mode(&mut m, 7), DownloadMode::Direct);
    assert_eq!(get_mode(&m, 7), DownloadMode::Direct);
    assert_eq!(toggle_mode(&mut m, 7), DownloadMode::Resolve);
    assert_eq!(get_mode(&m, 7), DownloadMode::Resolve);
}

#[test]
fn problem_tracks_come_back_once() {
    let mut t = ProblemTracks::new();
    let a = register_problem_track(&mut t, "https://youtu.be/a".into(), 1, "single".into());
    let b = register_problem_track(&mut t, "https://youtu.be/b".into(), 2, "auto".into());
    assert_eq!(a.chars().count(), 10);
    for (i, c) in a.chars().enumerate() {
        if i == 8 {
            assert_eq!(c, '-');
        } else {
            assert!(c.is_ascii_hexdigit() && !c.is_ascii_uppercase());
        }
    }
    assert_ne!(a, b);
    let got = pop_problem_track(&mut t, &b).unwrap();
    assert_eq!((got.url.as_str(), got.chat_id, got.context.as_str()), ("https://youtu.be/b", 2, "auto"));
    assert!(pop_problem_track(&mut t, &b).is_none());
    let got = pop_problem_track(&mut t, &a).unwrap();
    assert_eq!(got.url, "https://youtu.be/a");
    assert!(pop_problem_track(&mut t, "unknown").is_none());
}
