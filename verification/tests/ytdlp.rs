use base64::Engine;
use simple_music_bot::downloader::{
    after_failed_attempt, bad_metadata_message, download_args, download_info_from_output,
    is_retryable, join_path, playlist_entries_from_output,
    json_lines, last_json_line, missing_output_message, no_metadata_message, oembed_from_fields,
    plan_download, playlist_entry_from_fields, playlist_listing_args, ytdlp_failure_message,
    MediaKind, RetryDecision, MAX_ATTEMPTS,
};
use simple_music_bot::ytdlp_config::{
    base_ydl_cli_args, cookies_file_content, pot_provider_extractor_tags,
    youtube_client_extractor_tags,
};
use std::io::Write;

fn strs(v: &[&str]) -> Vec<String> {
    v.iter().map(|x| x.to_string()).collect()
}

#[test]
fn youtube_extractor_argument() {
    let a = youtube_client_extractor_tags();
    assert_eq!(a.player_client, strs(&["tv", "web_safari", "web", "android_vr"]));
    assert_eq!(a.formats, strs(&["missing_pot"]));
    assert_eq!(
        a.to_extractor_arg_string(),
        "youtube:player_client=tv,web_safari,web,android_vr;formats=missing_pot"
    );
}

#[test]
fn pot_provider_argument() {
    assert!(pot_provider_extractor_tags(None).is_none());
    let p = pot_provider_extractor_tags(Some("http://pot:4416".to_string())).unwrap();
    assert_eq!(p.to_extractor_arg_string(), "youtubepot-bgutilhttp:base_url=http://pot:4416");
}

#[test]
fn base_arguments_in_order() {
    let yt = "youtube:player_client=tv,web_safari,web,android_vr;formats=missing_pot";
    assert_eq!(base_ydl_cli_args(None, None), strs(&["--extractor-args", yt]));
    assert_eq!(
        base_ydl_cli_args(Some("http://p".into()), Some("/tmp/c.txt".into())),
        strs(&[
            "--extractor-args",
            yt,
            "--extractor-args",
            "youtubepot-bgutilhttp:base_url=http://p",
            "--cookies",
            "/tmp/c.txt"
        ])
    );
    assert_eq!(
        base_ydl_cli_args(None, Some("c".into())),
        strs(&["--extractor-args", yt, "--cookies", "c"])
    );
}

#[test]
fn cookies_plain_and_gzipped() {
    let plain = base64::engine::general_purpose::STANDARD.encode("# Netscape cookies\nx");
    assert_eq!(cookies_file_content(&plain).as_deref(), Some("# Netscape cookies\nx"));
    let mut enc = flate2::write::GzEncoder::new(Vec::new(), flate2::Compression::default());
    enc.write_all(b"zipped cookies").unwrap();
    let gz = enc.finish().unwrap();
    let packed = base64::engine::general_purpose::STANDARD.encode(gz);
    assert_eq!(cookies_file_content(&packed).as_deref(), Some("zipped cookies"));
    assert_eq!(cookies_file_content(""), None);
    assert_eq!(cookies_file_content("***not base64***"), None);
    let bad_utf8 = base64::engine::general_purpose::STANDARD.encode([0xffu8, 0xfe]);
    assert_eq!(cookies_file_content(&bad_utf8), None);
}

#[test]
fn paths_are_joined_like_pathbuf() {
    for (d, n) in [("downloads", "a.mp3"), ("downloads/", "a.mp3"), ("", "a.mp3"), ("/tmp", "/abs.mp3")] {
        let want = std::path::Path::new(d).join(n).to_string_lossy().to_string();
        assert_eq!(join_path(d, n), want);
    }
}

#[test]
fn audio_and_video_arguments() {
    let base = strs(&["--extractor-args", "X"]);
    assert_eq!(
        download_args(MediaKind::Audio, "d/id.%(ext)s", base.clone(), "URL"),
        strs(&[
            "--no-simulate", "--print-json", "-f", "bestaudio/best", "--extract-audio",
            "--audio-format", "mp3", "--audio-quality", "192", "-o", "d/id.%(ext)s",
            "--no-playlist", "--quiet", "--no-warnings", "--extractor-args", "X", "URL"
        ])
    );
    assert_eq!(
        download_args(MediaKind::Video, "t", Vec::new(), "U"),
        strs(&[
            "--no-simulate", "--print-json", "-f", "bv*[ext=mp4]+ba[ext=m4a]/best[ext=mp4]/best",
            "--merge-output-format", "mp4", "-o", "t", "--no-playlist", "--quiet",
            "--no-warnings", "U"
        ])
    );
}

#[test]
fn planned_download_uses_a_fresh_id() {
    let p = plan_download(MediaKind::Audio, "downloads", Vec::new(), "URL");
    assert_eq!(p.file_id.len(), 36);
    for (i, c) in p.file_id.chars().enumerate() {
        if [8, 13, 18, 23].contains(&i) {
            assert_eq!(c, '-');
        } else {
            assert!(c.is_ascii_hexdigit() && !c.is_ascii_uppercase());
        }
    }
    assert_eq!(p.file_id.chars().nth(14), Some('4'));
    assert!("89ab".contains(p.file_id.chars().nth(19).unwrap()));
    assert_eq!(p.expected_path, format!("downloads/{}.mp3", p.file_id));
    assert_eq!(p.args[10], format!("downloads/{}.%(ext)s", p.file_id));
    let q = plan_download(MediaKind::Video, "downloads", Vec::new(), "URL");
    assert_ne!(p.file_id, q.file_id);
    assert_eq!(q.expected_path, format!("downloads/{}.mp4", q.file_id));
}

#[test]
fn listing_arguments() {
    assert_eq!(
        playlist_listing_args(strs(&["B"]), Some(100), "L"),
        strs(&["--flat-playlist", "--dump-json", "--quiet", "--no-warnings", "B", "--playlist-end", "100", "L"])
    );
    assert_eq!(
        playlist_listing_args(Vec::new(), None, "scsearch5:q"),
        strs(&["--flat-playlist", "--dump-json", "--quiet", "--no-warnings", "scsearch5:q"])
    );
}

#[test]
fn metadata_line_is_the_last_object_line() {
    let out = "[info] x\n{\"a\":1}\n  {\"title\":\"t\"}  \r\nDeleting\n\n";
    assert_eq!(last_json_line(out).as_deref(), Some("{\"title\":\"t\"}"));
    assert_eq!(last_json_line("no json\nhere"), None);
    assert_eq!(last_json_line(""), None);
}

#[test]
fn entry_lines_are_the_object_lines() {
    let out = "{\"id\":\"a\"}\nwarn\n {\"id\":\"b\"}\r\n";
    assert_eq!(json_lines(out), strs(&["{\"id\":\"a\"}", "{\"id\":\"b\"}"]));
    assert!(json_lines("").is_empty());
}

#[test]
fn failure_messages() {
    assert_eq!(ytdlp_failure_message("  ERROR: 403 Forbidden \n", Some(1)), "ERROR: 403 Forbidden");
    assert_eq!(ytdlp_failure_message(" \n", Some(2)), "yt-dlp завершился с кодом Some(2)");
    assert_eq!(ytdlp_failure_message("", Some(-9)), "yt-dlp завершился с кодом Some(-9)");
    assert_eq!(ytdlp_failure_message("", None), "yt-dlp завершился с кодом None");
    assert_eq!(no_metadata_message(), "yt-dlp не вернул JSON с метаданными");
    assert_eq!(bad_metadata_message("eof"), "Не удалось распарсить JSON от yt-dlp: eof");
    assert_eq!(missing_output_message("mp3"), "Файл не был создан после обработки утилитой (mp3)");
}

#[test]
fn retries_only_for_passing_failures() {
    assert!(is_retryable("HTTP Error 403: Forbidden"));
    assert!(is_retryable("ERROR: Requested format is not available"));
    assert!(is_retryable("Sign in to confirm you're not a bot"));
    assert!(!is_retryable("Video unavailable"));
    assert_eq!(MAX_ATTEMPTS, 3);
    assert_eq!(after_failed_attempt(0, "403"), RetryDecision::Retry);
    assert_eq!(after_failed_attempt(1, "403"), RetryDecision::Retry);
    assert_eq!(after_failed_attempt(2, "403"), RetryDecision::GiveUp);
    assert_eq!(after_failed_attempt(0, "Private video"), RetryDecision::GiveUp);
}

#[test]
fn listed_entries() {
    let e = playlist_entry_from_fields(Some("u".into()), Some("w".into()), Some("i".into()), Some("T".into())).unwrap();
    assert_eq!((e.url.as_str(), e.title.as_str()), ("u", "T"));
    let e = playlist_entry_from_fields(None, Some("w".into()), None, None).unwrap();
    assert_eq!((e.url.as_str(), e.title.as_str()), ("w", ""));
    let e = playlist_entry_from_fields(None, None, Some("abc".into()), None).unwrap();
    assert_eq!(e.url, "https://www.youtube.com/watch?v=abc");
    assert!(playlist_entry_from_fields(None, None, None, Some("t".into())).is_none());
}

#[test]
fn oembed_fields() {
    let o = oembed_from_fields(Some("Song".into()), None);
    assert_eq!((o.title.as_str(), o.author_name.as_str()), ("Song", ""));
}

#[test]
fn listing_output_gives_entries() {
    let out = [
        "[info] something\n",
        "{\"url\": \"https://youtu.be/a\", \"title\": \"A\"}\n",
        "  {\"webpage_url\": \"https://youtu.be/b\", \"title\": 7}\r\n",
        "{\"id\": \"cc\"}\n",
        "{\"title\": \"no address\"}\n",
        "{ not json\n",
        "{\"url\": 5, \"webpage_url\": \"https://w\"}\n",
    ]
    .concat();
    let out = out.as_str();
    let got: Vec<(String, String)> =
        playlist_entries_from_output(out).into_iter().map(|e| (e.url, e.title)).collect();
    assert_eq!(
        got,
        vec![
            ("https://youtu.be/a".to_string(), "A".to_string()),
            ("https://youtu.be/b".to_string(), "".to_string()),
            ("https://www.youtube.com/watch?v=cc".to_string(), "".to_string()),
            ("https://w".to_string(), "".to_string()),
        ]
    );
    assert!(playlist_entries_from_output("").is_empty());
}

#[test]
fn download_output_gives_metadata() {
    let out = [
        "{\"title\": \"old\"}\n",
        "{\"title\": \"T\", \"uploader\": \"U\", \"thumbnail\": \"http://i\", \"width\": 640, \"height\": 360, \"duration\": 1.5}\n",
        "done\n",
    ]
    .concat();
    let out = out.as_str();
    let a = download_info_from_output(out, MediaKind::Audio).ok().unwrap();
    assert_eq!((a.title.as_str(), a.uploader.as_str(), a.thumbnail.as_str(), a.width, a.height), ("T", "U", "http://i", 0, 0));
    let v = download_info_from_output(out, MediaKind::Video).ok().unwrap();
    assert_eq!((v.width, v.height), (640, 360));
    let m = download_info_from_output("{\"id\": 1}", MediaKind::Video).ok().unwrap();
    assert_eq!((m.title.as_str(), m.uploader.as_str(), m.width), ("", "", 0));
    assert_eq!(download_info_from_output("no json", MediaKind::Audio).err(), Some(no_metadata_message()));
    let e = download_info_from_output("{ broken", MediaKind::Audio).err().unwrap();
    assert!(e.starts_with("Не удалось распарсить JSON от yt-dlp: "));
    assert!(e.len() > bad_metadata_message("").len());
}
