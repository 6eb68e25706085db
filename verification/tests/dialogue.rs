use simple_music_bot::dialogue::{
    advance_after_direct_failure, advance_after_skip, advance_playlist, apply_manual_input,
    audio_send_names, auto_summary_text, choose_tags, confirm_after_direct_download,
    confirmation_caption, confirmation_state, dialogue_step, fallback_context, fallback_state,
    meta_from_itunes, metadata_query, mode_switch_text, next_track_text, playlist_done_text,
    playlist_found_text, playlist_mode_state, playlist_queue, problem_id_from_callback,
    progress_start_text, progress_text, record_track, route_callback, route_message,
    search_names, should_report_progress, source_tags, track_tags_for, usable_oembed,
    use_alternate_sources, video_file_name, video_url_from_command, with_fallback_artwork,
    AutoProgress, CallbackRoute, DialogueAction, DialogueEvent, MessageRoute, PlaylistContext,
    PlaylistStep, State, TrackMeta,
};
use simple_music_bot::downloader::{PlaylistEntry, YoutubeOembed};
use simple_music_bot::metadata_service::TrackMetadata;
use simple_music_bot::state::DownloadMode;

fn meta(artist: &str, title: &str) -> TrackMeta {
    TrackMeta {
        title: title.into(),
        artist: artist.into(),
        album: "Album".into(),
        genre: "Pop".into(),
        year: "2001".into(),
        artwork_url: "".into(),
    }
}

fn confirming(playlist: Option<PlaylistContext>) -> State {
    confirmation_state("d/x.mp3".into(), meta("A", "T"), meta("SA", "ST"), playlist)
}

#[test]
fn callback_routes() {
    let c = confirming(None);
    assert_eq!(route_callback(&c, Some("confirm")), CallbackRoute::ConfirmTags);
    assert_eq!(route_callback(&c, Some("edit")), CallbackRoute::AskManualInput);
    assert_eq!(route_callback(&c, Some("use_source")), CallbackRoute::UseSourceTags);
    assert_eq!(route_callback(&c, Some("cancel")), CallbackRoute::CancelTags);
    assert_eq!(route_callback(&c, Some("pl_auto")), CallbackRoute::Unhandled);
    assert_eq!(route_callback(&State::Idle, Some("confirm")), CallbackRoute::Unhandled);
    let m = playlist_mode_state(vec!["u".into()]).unwrap();
    assert_eq!(route_callback(&m, Some("pl_auto")), CallbackRoute::PlaylistAuto);
    assert_eq!(route_callback(&m, Some("pl_manual")), CallbackRoute::PlaylistManual);
    assert_eq!(route_callback(&State::Idle, Some("ytdirect:abc")), CallbackRoute::DirectDownload);
    assert_eq!(route_callback(&c, Some("ytskip:abc")), CallbackRoute::Skip);
    assert_eq!(route_callback(&State::Idle, None), CallbackRoute::Unhandled);
}

#[test]
fn message_routes() {
    let typing = match dialogue_step(confirming(None), DialogueEvent::Button(CallbackRoute::AskManualInput)) {
        (Some(s), DialogueAction::AskForTags) => s,
        _ => panic!("expected the typed-tags state"),
    };
    assert_eq!(route_message(&typing, false, Some("youtu.be/x")), MessageRoute::ManualInput);
    assert_eq!(route_message(&typing, true, Some("/start")), MessageRoute::Command);
    assert_eq!(route_message(&State::Idle, false, Some("https://youtube.com/watch?v=1&list=PL1")), MessageRoute::PlaylistLink);
    assert_eq!(route_message(&State::Idle, false, Some("https://youtube.com/watch?v=1")), MessageRoute::MediaLink);
    assert_eq!(route_message(&State::Idle, false, Some("hi")), MessageRoute::Unhandled);
    assert_eq!(route_message(&State::Idle, false, None), MessageRoute::Unhandled);
}

#[test]
fn typed_tags_replace_given_fields() {
    let t = apply_manual_input(meta("A", "T"), "New Artist -  New Title ");
    assert_eq!((t.artist.as_str(), t.title.as_str(), t.album.as_str(), t.year.as_str()), ("New Artist", "New Title", "Album", "2001"));
    let t = apply_manual_input(meta("A", "T"), " - X - Y - 1999 - extra");
    assert_eq!((t.artist.as_str(), t.title.as_str(), t.album.as_str(), t.year.as_str()), ("A", "X", "Y", "1999"));
    assert_eq!(t.genre, "Pop");
}

#[test]
fn dialogue_steps() {
    match dialogue_step(confirming(None), DialogueEvent::Button(CallbackRoute::ConfirmTags)) {
        (None, DialogueAction::Finalize { mp3_path, tags, playlist }) => {
            assert_eq!(mp3_path, "d/x.mp3");
            assert_eq!(tags.artist, "A");
            assert!(playlist.is_none());
        }
        _ => panic!("expected finalize"),
    }
    match dialogue_step(confirming(None), DialogueEvent::Button(CallbackRoute::UseSourceTags)) {
        (None, DialogueAction::Finalize { tags, .. }) => assert_eq!(tags.artist, "SA"),
        _ => panic!("expected finalize"),
    }
    match dialogue_step(confirming(None), DialogueEvent::Button(CallbackRoute::CancelTags)) {
        (None, DialogueAction::CancelTrack { mp3_path, .. }) => assert_eq!(mp3_path, "d/x.mp3"),
        _ => panic!("expected cancel"),
    }
    let typing = match dialogue_step(confirming(None), DialogueEvent::Button(CallbackRoute::AskManualInput)) {
        (Some(s), DialogueAction::AskForTags) => s,
        _ => panic!("expected ask"),
    };
    match dialogue_step(typing, DialogueEvent::TypedTags("X - Y".into())) {
        (None, DialogueAction::Finalize { tags, .. }) => {
            assert_eq!((tags.artist.as_str(), tags.title.as_str()), ("X", "Y"))
        }
        _ => panic!("expected finalize"),
    }
    let m = playlist_mode_state(vec!["u1".into(), "u2".into()]).unwrap();
    match dialogue_step(m.clone(), DialogueEvent::Button(CallbackRoute::PlaylistAuto)) {
        (Some(State::Idle), DialogueAction::RunAutomatic { queue, total }) => {
            assert_eq!(queue.len(), 2);
            assert_eq!(total, 2);
        }
        _ => panic!("expected automatic run"),
    }
    match dialogue_step(m, DialogueEvent::Button(CallbackRoute::PlaylistManual)) {
        (None, DialogueAction::StartManual { url, context }) => {
            assert_eq!(url, "u1");
            assert_eq!((context.index, context.total), (0, 2));
        }
        _ => panic!("expected manual start"),
    }
    assert!(matches!(
        dialogue_step(State::Idle, DialogueEvent::Button(CallbackRoute::ConfirmTags)),
        (None, DialogueAction::Nothing)
    ));
    assert!(playlist_mode_state(Vec::new()).is_none());
    assert!(matches!(fallback_state(None), State::WaitingTrackFallback { playlist: None }));
}

#[test]
fn playlist_advances_to_the_end() {
    let ctx = PlaylistContext { queue: vec!["a".into(), "b".into()], index: 0, total: 2 };
    let next = match advance_playlist(Some(ctx)) {
        PlaylistStep::Next { url, context } => {
            assert_eq!(url, "b");
            context
        }
        _ => panic!("expected next"),
    };
    assert!(matches!(advance_playlist(Some(next)), PlaylistStep::Finished { processed: 2, total: 2 }));
    assert!(matches!(advance_playlist(None), PlaylistStep::Stop));
}

#[test]
fn playlist_messages() {
    assert_eq!(playlist_found_text(3), "Нашёл 3 треков.");
    assert_eq!(
        playlist_found_text(100),
        "Нашёл 100 треков.\n\n(показаны первые 100 треков — плейлист может быть длиннее)"
    );
    assert_eq!(playlist_done_text(4, 4), "✅ Плейлист обработан: 4/4 треков пройдено.");
    assert_eq!(next_track_text(2, 5), "➡️ Трек 2/5...");
    assert_eq!(progress_start_text(7), "🎧 0/7 готово");
    let p = record_track(record_track(AutoProgress { sent: 0, failed: 0 }, true), false);
    assert_eq!(p, AutoProgress { sent: 1, failed: 1 });
    assert_eq!(progress_text(3, 7, p), "🎧 3/7 обработано (1 отправлено, 1 ошибок)");
    assert_eq!(auto_summary_text(7, p), "✅ Готово: 1/7 треков отправлено, 1 с ошибками");
    assert_eq!(auto_summary_text(2, AutoProgress { sent: 2, failed: 0 }), "✅ Готово: 2/2 треков отправлено");
    assert!(should_report_progress(3, 7));
    assert!(should_report_progress(7, 7));
    assert!(!should_report_progress(4, 7));
    let q = playlist_queue(vec![PlaylistEntry { url: "u".into(), title: "t".into() }]);
    assert_eq!(q, vec!["u".to_string()]);
}

#[test]
fn tag_choice() {
    let src = source_tags("Guess", "Title", "thumb");
    let found = TrackMetadata {
        title: "T".into(),
        artist: "A".into(),
        album: "Al".into(),
        genre: "G".into(),
        year: "2000".into(),
        artwork_url: "art".into(),
    };
    let t = choose_tags(Some(found), src.clone());
    assert_eq!((t.title.as_str(), t.album.as_str()), ("T", "Al"));
    let empty = TrackMetadata {
        title: "".into(),
        artist: "A".into(),
        album: "".into(),
        genre: "".into(),
        year: "".into(),
        artwork_url: "".into(),
    };
    let t = choose_tags(Some(empty), src.clone());
    assert_eq!((t.artist.as_str(), t.artwork_url.as_str()), ("Guess", "thumb"));
    let t = choose_tags(None, src);
    assert_eq!(t.title, "Title");
    let m = meta_from_itunes(TrackMetadata {
        title: "1".into(),
        artist: "2".into(),
        album: "3".into(),
        genre: "4".into(),
        year: "5".into(),
        artwork_url: "6".into(),
    });
    assert_eq!(m.genre, "4");
    assert_eq!(metadata_query("A", "B"), "A B");
    let (a, t) = search_names(&source_tags("", "X", ""), "GA", "GT");
    assert_eq!((a.as_str(), t.as_str()), ("GA", "X"));
    let t = with_fallback_artwork(source_tags("a", "b", ""), "thumb");
    assert_eq!(t.artwork_url, "thumb");
    let t = with_fallback_artwork(source_tags("a", "b", "own"), "thumb");
    assert_eq!(t.artwork_url, "own");
    let d = TrackMeta::default();
    assert!(d.title.is_empty() && d.artwork_url.is_empty());
}

#[test]
fn routes_for_youtube_links() {
    assert!(use_alternate_sources("https://youtu.be/x", DownloadMode::Resolve));
    assert!(!use_alternate_sources("https://youtu.be/x", DownloadMode::Direct));
    assert!(!use_alternate_sources("https://soundcloud.com/x", DownloadMode::Resolve));
    assert!(usable_oembed(Some(YoutubeOembed { title: "".into(), author_name: "a".into() })).is_none());
    assert!(usable_oembed(Some(YoutubeOembed { title: "t".into(), author_name: "a".into() })).is_some());
    assert!(usable_oembed(None).is_none());
}

#[test]
fn fallback_decisions() {
    assert_eq!(problem_id_from_callback(Some("ytdirect:abc"), "ytdirect:"), "abc");
    assert_eq!(problem_id_from_callback(Some("ytdirect:ytdirect:x"), "ytdirect:"), "x");
    assert_eq!(problem_id_from_callback(None, "ytskip:"), "");
    assert_eq!(problem_id_from_callback(Some("abc"), ""), "abc");
    assert_eq!(fallback_context(true), "manual");
    assert_eq!(fallback_context(false), "single");
    assert!(advance_after_direct_failure("manual"));
    assert!(!advance_after_direct_failure("auto"));
    assert!(confirm_after_direct_download("single"));
    assert!(confirm_after_direct_download("manual"));
    assert!(!confirm_after_direct_download("auto"));
    assert!(advance_after_skip(Some("manual")));
    assert!(!advance_after_skip(None));
}

#[test]
fn sending_names_and_tags() {
    let (p, t, f) = audio_send_names(&meta("AC/DC", ""));
    assert_eq!((p.as_str(), t.as_str(), f.as_str()), ("AC/DC", "Unknown", "AC-DC - Unknown.mp3"));
    let tags = track_tags_for(&meta("A", ""), Some(vec![9]));
    assert_eq!(tags.artist.as_deref(), Some("A"));
    assert_eq!(tags.title, None);
    assert_eq!(tags.artwork_bytes, Some(vec![9]));
    assert_eq!(
        confirmation_caption(&meta("A", "")),
        "Нашёл вот такой вариант:\n\n🎤 Исполнитель: A\n🎵 Название: —\n💿 Альбом: Album\n📅 Год: 2001\n\nВсё верно?"
    );
}

#[test]
fn video_command_and_names() {
    assert_eq!(video_url_from_command(Some("/video https://vimeo.com/1 x")).as_deref(), Some("https://vimeo.com/1"));
    assert_eq!(video_url_from_command(Some("/video")), None);
    assert_eq!(video_url_from_command(None), None);
    assert_eq!(video_file_name("  a/b  "), "a-b.mp4");
    assert_eq!(video_file_name("   "), "video.mp4");
    assert!(mode_switch_text(DownloadMode::Direct).contains("<b>direct</b>"));
    assert!(mode_switch_text(DownloadMode::Resolve).contains("<b>resolve</b>"));
}
