use regex::Regex;
use simple_music_bot::downloader::{
    extract_media_link, extract_playlist_link, guess_artist_title, is_media_link,
    is_playlist_link, is_youtube_link,
};

const MEDIA: &str = r"(?i)(https?://)?(www\.)?(m\.)?(youtube\.com|youtu\.be|music\.youtube\.com|soundcloud\.com|snd\.sc|bandcamp\.com|vimeo\.com|mixcloud\.com|audiomack\.com|twitch\.tv|twitter\.com|x\.com|tiktok\.com|vt\.tiktok\.com|vm\.tiktok\.com)/\S+";
const YOUTUBE: &str = r"(?i)(https?://)?(www\.)?(m\.)?(music\.)?(youtube\.com|youtu\.be)/";
const PLAYLIST: &str = r"(?i)(https?://)?(www\.)?(m\.)?(music\.)?(youtube\.com|youtu\.be)/\S*[?&]list=[\w-]+";

fn corpus() -> Vec<String> {
    let mut v: Vec<String> = vec![
        "",
        "hello",
        "https://www.youtube.com/watch?v=abc",
        "look https://youtu.be/xyz and more",
        "HTTPS://WWW.YOUTUBE.COM/watch?v=1",
        "http://m.youtube.com/watch?v=2 trailing",
        "music.youtube.com/watch?v=3",
        "https://music.youtube.com/playlist?list=PLabc_-12",
        "https://www.youtube.com/watch?v=a&list=PL1&index=2",
        "youtube.com/watch?list=&list=ok",
        "youtube.com/?list=",
        "youtube.com/ ?list=x",
        "soundcloud.com/artist/track",
        "snd.sc/x",
        "https://artist.bandcamp.com/track/x",
        "bandcamp.com/",
        "bandcamp.com/ x",
        "vimeo.com/123",
        "mixcloud.com/a/b",
        "audiomack.com/x",
        "twitch.tv/v",
        "twitter.com/u/status/1",
        "x.com/u",
        "vm.tiktok.com/ZM",
        "vt.tiktok.com/ZS",
        "tiktok.com/@u/video/1",
        "myyoutube.com/x",
        "wwwyoutube.com/x",
        "m.x.com/a",
        "https://m.m.youtube.com/x",
        "\u{212A}",
        "youtube.co\u{212A}/x",
        "https://www.youtube.com/watch?v=a\u{00A0}rest",
        "https://www.youtube.com/watch?v=a\u{3000}rest",
        "youtube.com/watch?li\u{017F}t=abc",
        "youtube.com/watch?list=\u{0434}\u{0430}\u{0301}x y",
        "youtube.com/watch?list=a\u{200D}b",
        "text youtu.be/abc?list=z1 youtube.com/p?list=z2",
        "youtu.be/a?list=b?list=c",
        "youtube.com/a&list=-",
        "YOUTU.BE/Q?LIST=W",
        "http://youtube.com",
        "http:/youtube.com/x",
        "https://www.soundcloud.com/a",
        "https://ww.youtube.com/x",
        "\tsoundcloud.com/\u{85}x",
    ]
    .into_iter()
    .map(String::from)
    .collect();
    let parts = ["", "https://", "http://", "www.", "m.", "music.", "youtube.com", "youtu.be", "/", "?", "&", "list=", "x", "-", " ", "\u{17F}", "\u{212A}", "é", "\n"];
    // a deterministic sweep over short combinations of the grammar's pieces
    let mut seed: u64 = 12345;
    for _ in 0..4000 {
        let mut s = String::new();
        let n = (seed % 7) as usize + 1;
        for _ in 0..n {
            seed = seed.wrapping_mul(6364136223846793005).wrapping_add(1442695040888963407);
            s.push_str(parts[((seed >> 33) % parts.len() as u64) as usize]);
        }
        v.push(s);
    }
    v
}

#[test]
fn media_links_agree_with_the_pattern() {
    let re = Regex::new(MEDIA).unwrap();
    for t in corpus() {
        let want = re.find(&t).map(|m| m.as_str().to_string());
        assert_eq!(extract_media_link(&t), want, "text {:?}", t);
        assert_eq!(is_media_link(Some(&t)), re.is_match(&t), "text {:?}", t);
    }
    assert!(!is_media_link(None));
}

#[test]
fn youtube_links_agree_with_the_pattern() {
    let re = Regex::new(YOUTUBE).unwrap();
    for t in corpus() {
        assert_eq!(is_youtube_link(Some(&t)), re.is_match(&t), "text {:?}", t);
    }
    assert!(!is_youtube_link(None));
}

#[test]
fn playlist_links_agree_with_the_pattern() {
    let re = Regex::new(PLAYLIST).unwrap();
    for t in corpus() {
        let want = re.find(&t).map(|m| m.as_str().to_string());
        assert_eq!(extract_playlist_link(&t), want, "text {:?}", t);
        assert_eq!(is_playlist_link(Some(&t)), re.is_match(&t), "text {:?}", t);
    }
    assert!(!is_playlist_link(None));
}

#[test]
fn media_link_is_cut_at_whitespace() {
    assert_eq!(
        extract_media_link("listen: https://youtu.be/abc123 now").as_deref(),
        Some("https://youtu.be/abc123")
    );
    assert_eq!(extract_media_link("no link here"), None);
}

#[test]
fn playlist_link_keeps_the_list_id() {
    assert_eq!(
        extract_playlist_link("https://www.youtube.com/watch?v=x&list=PLa-b_c rest").as_deref(),
        Some("https://www.youtube.com/watch?v=x&list=PLa-b_c")
    );
}

#[test]
fn artist_and_title_are_split_at_the_first_separator() {
    assert_eq!(
        guess_artist_title("  Artist - Song - Live ", "Uploader"),
        ("Artist".to_string(), "Song - Live".to_string())
    );
    assert_eq!(
        guess_artist_title("A – B", "U"),
        ("A".to_string(), "B".to_string())
    );
    assert_eq!(
        guess_artist_title("A | B - C", "U"),
        ("A | B".to_string(), "C".to_string())
    );
    assert_eq!(
        guess_artist_title(" Just a title ", " Channel "),
        ("Channel".to_string(), "Just a title".to_string())
    );
}

#[test]
fn detection_and_extraction_agree() {
    for t in corpus() {
        assert_eq!(is_media_link(Some(&t)), extract_media_link(&t).is_some(), "text {:?}", t);
        assert_eq!(is_playlist_link(Some(&t)), extract_playlist_link(&t).is_some(), "text {:?}", t);
    }
}

#[test]
fn playlist_links_are_youtube_and_media_links() {
    for t in corpus() {
        if is_playlist_link(Some(&t)) {
            assert!(is_youtube_link(Some(&t)), "text {:?}", t);
            assert!(is_media_link(Some(&t)), "text {:?}", t);
        }
    }
    let t = "see m.music.youtu.be/x?list=PL1";
    assert!(is_playlist_link(Some(t)) && is_youtube_link(Some(t)) && is_media_link(Some(t)));
}
