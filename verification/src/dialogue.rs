//! The chat dialogue: its states, which handler an update goes to, and the
//! decisions each handler makes between the calls that talk to the chat, the
//! downloader and the catalogue.
use vstd::prelude::*;
use crate::text::{
    chars_of, string_of, copy_range, trim, trimmed, split, split_exec, views, string_views, owned,
    concat2, concat3, replace_char, replace_char_exec, decimal, decimal_exec, starts_with,
    starts_with_exec, is_white_space, is_whitespace,
};
use crate::downloader::{
    PlaylistEntry, YoutubeOembed, opt_seq, or_empty, media_link_in, extract_media_link,
    first_playlist_from, has_media_link, is_playlist_link, is_media_link, is_youtube_link,
    has_youtube_link,
};
use crate::metadata_service::TrackMetadata;
use crate::state::DownloadMode;
use crate::tagging::TrackTags;
use vstd::string::StringExecFns;

verus! {

broadcast use vstd::string::group_string_axioms;

/// The tags of a track as the dialogue shows and edits them.
#[derive(Clone)]
pub struct TrackMeta {
    pub title: String,
    pub artist: String,
    pub album: String,
    pub genre: String,
    pub year: String,
    pub artwork_url: String,
}

/// The fields of a `TrackMeta`, as plain values.
pub open spec fn meta_view(m: TrackMeta) -> (Seq<char>, Seq<char>, Seq<char>, Seq<char>, Seq<char>, Seq<char>) {
    (m.title@, m.artist@, m.album@, m.genre@, m.year@, m.artwork_url@)
}

impl Default for TrackMeta {
    /// All fields empty.
    fn default() -> (r: TrackMeta)
        ensures
            r.title@.len() == 0 && r.artist@.len() == 0 && r.album@.len() == 0 && r.genre@.len() == 0
                && r.year@.len() == 0 && r.artwork_url@.len() == 0,
    {
        TrackMeta {
            title: String::new(),
            artist: String::new(),
            album: String::new(),
            genre: String::new(),
            year: String::new(),
            artwork_url: String::new(),
        }
    }
}

/// Where a playlist being worked through track by track stands.
#[derive(Clone)]
pub struct PlaylistContext {
    pub queue: Vec<String>,
    pub index: usize,
    pub total: usize,
}

/// The context points at a track of its queue.
pub open spec fn playlist_wf(p: PlaylistContext) -> bool {
    p.index < p.queue@.len()
}

/// The state of the dialogue with one chat.
#[derive(Clone, Default)]
pub enum State {
    /// Nothing pending.
    #[default]
    Idle,
    /// A downloaded track waits for its tags to be confirmed.
    WaitingConfirmation {
        mp3_path: String,
        tags: TrackMeta,
        source_tags: TrackMeta,
        playlist: Option<PlaylistContext>,
    },
    /// A downloaded track waits for tags typed by the user.
    WaitingManualInput {
        mp3_path: String,
        tags: TrackMeta,
        source_tags: TrackMeta,
        playlist: Option<PlaylistContext>,
    },
    /// A playlist waits for the choice between automatic and manual tagging.
    WaitingPlaylistMode { queue: Vec<String>, total: usize },
    /// A track that no alternate source had waits for the fallback choice.
    WaitingTrackFallback { playlist: Option<PlaylistContext> },
}

// ---------------------------------------------------------------------------
// Routing
// ---------------------------------------------------------------------------

/// The handler that a button press goes to.
#[derive(Debug, Clone, Copy, PartialEq, Eq, Structural)]
pub enum CallbackRoute {
    ConfirmTags,
    AskManualInput,
    UseSourceTags,
    CancelTags,
    PlaylistAuto,
    PlaylistManual,
    DirectDownload,
    Skip,
    Unhandled,
}

/// The handler that a message goes to.
#[derive(Debug, Clone, Copy, PartialEq, Eq, Structural)]
pub enum MessageRoute {
    Command,
    ManualInput,
    PlaylistLink,
    MediaLink,
    Unhandled,
}

/// The route of a button press with data `data` in state `s`: the four
/// confirmation buttons while a confirmation is pending, the two playlist
/// buttons while the playlist mode is pending, then the fallback buttons by
/// their `ytdirect:` / `ytskip:` prefix, in that order.
pub open spec fn callback_route_spec(s: State, data: Option<Seq<char>>) -> CallbackRoute {
    let d = or_empty(data);
    let has = data is Some;
    if s is WaitingConfirmation && has && d == "confirm"@ {
        CallbackRoute::ConfirmTags
    } else if s is WaitingConfirmation && has && d == "edit"@ {
        CallbackRoute::AskManualInput
    } else if s is WaitingConfirmation && has && d == "use_source"@ {
        CallbackRoute::UseSourceTags
    } else if s is WaitingConfirmation && has && d == "cancel"@ {
        CallbackRoute::CancelTags
    } else if s is WaitingPlaylistMode && has && d == "pl_auto"@ {
        CallbackRoute::PlaylistAuto
    } else if s is WaitingPlaylistMode && has && d == "pl_manual"@ {
        CallbackRoute::PlaylistManual
    } else if has && starts_with(d, "ytdirect:"@) {
        CallbackRoute::DirectDownload
    } else if has && starts_with(d, "ytskip:"@) {
        CallbackRoute::Skip
    } else {
        CallbackRoute::Unhandled
    }
}

/// The route of a message in state `s`: commands first, then typed tags while
/// they are awaited, then playlist links, then media links.
pub open spec fn message_route_spec(s: State, is_command: bool, text: Option<Seq<char>>) -> MessageRoute {
    if is_command {
        MessageRoute::Command
    } else if s is WaitingManualInput {
        MessageRoute::ManualInput
    } else if text matches Some(t) && first_playlist_from(t, 0) is Some {
        MessageRoute::PlaylistLink
    } else if text matches Some(t) && has_media_link(t) {
        MessageRoute::MediaLink
    } else {
        MessageRoute::Unhandled
    }
}

/// The optional view of an optional text.
pub open spec fn opt_str(o: Option<&str>) -> Option<Seq<char>> {
    match o {
        Some(s) => Some(s@),
        None => None,
    }
}

/// Whether `s` is exactly `lit`.
fn is_literal(s: &str, lit: &str) -> (b: bool)
    ensures
        b == (s@ == lit@),
{
    let a = owned(s);
    let l = owned(lit);
    a == l
}

/// The handler for a button press with data `data` while the dialogue is in
/// state `state`.
pub fn route_callback(state: &State, data: Option<&str>) -> (r: CallbackRoute)
    ensures
        r == callback_route_spec(*state, opt_str(data)),
{
    let d = match data {
        Some(d) => d,
        None => return CallbackRoute::Unhandled,
    };
    let confirming = match state {
        State::WaitingConfirmation { .. } => true,
        _ => false,
    };
    let choosing = match state {
        State::WaitingPlaylistMode { .. } => true,
        _ => false,
    };
    if confirming && is_literal(d, "confirm") {
        return CallbackRoute::ConfirmTags;
    }
    if confirming && is_literal(d, "edit") {
        return CallbackRoute::AskManualInput;
    }
    if confirming && is_literal(d, "use_source") {
        return CallbackRoute::UseSourceTags;
    }
    if confirming && is_literal(d, "cancel") {
        return CallbackRoute::CancelTags;
    }
    if choosing && is_literal(d, "pl_auto") {
        return CallbackRoute::PlaylistAuto;
    }
    if choosing && is_literal(d, "pl_manual") {
        return CallbackRoute::PlaylistManual;
    }
    let dc = chars_of(d);
    let p1 = chars_of("ytdirect:");
    if starts_with_exec(dc.as_slice(), p1.as_slice()) {
        return CallbackRoute::DirectDownload;
    }
    let p2 = chars_of("ytskip:");
    if starts_with_exec(dc.as_slice(), p2.as_slice()) {
        return CallbackRoute::Skip;
    }
    CallbackRoute::Unhandled
}

/// The handler for a message (`is_command` when it parses as a bot command)
/// while the dialogue is in state `state`.
pub fn route_message(state: &State, is_command: bool, text: Option<&str>) -> (r: MessageRoute)
    ensures
        r == message_route_spec(*state, is_command, opt_str(text)),
{
    if is_command {
        return MessageRoute::Command;
    }
    if let State::WaitingManualInput { .. } = state {
        return MessageRoute::ManualInput;
    }
    if is_playlist_link(text) {
        return MessageRoute::PlaylistLink;
    }
    if is_media_link(text) {
        return MessageRoute::MediaLink;
    }
    MessageRoute::Unhandled
}


// ---------------------------------------------------------------------------
// Tags
// ---------------------------------------------------------------------------

/// The dialogue's tags from catalogue metadata, field by field.
pub fn meta_from_itunes(m: TrackMetadata) -> (r: TrackMeta)
    ensures
        r.title@ == m.title@ && r.artist@ == m.artist@ && r.album@ == m.album@ && r.genre@
            == m.genre@ && r.year@ == m.year@ && r.artwork_url@ == m.artwork_url@,
{
    TrackMeta {
        title: m.title,
        artist: m.artist,
        album: m.album,
        genre: m.genre,
        year: m.year,
        artwork_url: m.artwork_url,
    }
}

/// The tags offered for a track: the catalogue's when it found the track with a
/// title, else those guessed from the source.
pub fn choose_tags(found: Option<TrackMetadata>, source: TrackMeta) -> (r: TrackMeta)
    ensures
        match found {
            Some(m) => if m.title@.len() > 0 {
                r.title@ == m.title@ && r.artist@ == m.artist@ && r.album@ == m.album@ && r.genre@
                    == m.genre@ && r.year@ == m.year@ && r.artwork_url@ == m.artwork_url@
            } else {
                meta_view(r) == meta_view(source)
            },
            None => meta_view(r) == meta_view(source),
        },
{
    match found {
        Some(m) => {
            if m.title.as_str().is_empty() {
                source
            } else {
                meta_from_itunes(m)
            }
        },
        None => source,
    }
}

/// Tags guessed from the source: artist, title and cover, nothing else.
pub fn source_tags(artist: &str, title: &str, artwork_url: &str) -> (r: TrackMeta)
    ensures
        r.artist@ == artist@ && r.title@ == title@ && r.artwork_url@ == artwork_url@ && r.album@.len()
            == 0 && r.genre@.len() == 0 && r.year@.len() == 0,
{
    TrackMeta {
        title: owned(title),
        artist: owned(artist),
        album: String::new(),
        genre: String::new(),
        year: String::new(),
        artwork_url: owned(artwork_url),
    }
}

/// The catalogue search for a guessed artist and title: `<artist> <title>`.
pub fn metadata_query(artist: &str, title: &str) -> (r: String)
    ensures
        r@ == artist@ + " "@ + title@,
{
    concat3(artist, " ", title)
}

/// `s` unless it is empty, `fallback` then.
pub open spec fn or_if_empty(s: Seq<char>, fallback: Seq<char>) -> Seq<char> {
    if s.len() == 0 {
        fallback
    } else {
        s
    }
}

/// The artist and title to look for on the alternate sources: those of the
/// offered tags, each replaced by the guess when empty.
pub fn search_names(tags: &TrackMeta, guessed_artist: &str, guessed_title: &str) -> (r: (String, String))
    ensures
        r.0@ == or_if_empty(tags.artist@, guessed_artist@),
        r.1@ == or_if_empty(tags.title@, guessed_title@),
{
    let a = if tags.artist.as_str().is_empty() {
        owned(guessed_artist)
    } else {
        tags.artist.clone()
    };
    let t = if tags.title.as_str().is_empty() {
        owned(guessed_title)
    } else {
        tags.title.clone()
    };
    (a, t)
}

/// The offered tags with the thumbnail of the download as cover when they
/// have none.
pub fn with_fallback_artwork(tags: TrackMeta, thumbnail: &str) -> (r: TrackMeta)
    ensures
        r.artwork_url@ == or_if_empty(tags.artwork_url@, thumbnail@),
        r.title@ == tags.title@ && r.artist@ == tags.artist@ && r.album@ == tags.album@ && r.genre@
            == tags.genre@ && r.year@ == tags.year@,
{
    let mut tags = tags;
    if tags.artwork_url.as_str().is_empty() {
        tags.artwork_url = owned(thumbnail);
    }
    tags
}

/// YouTube links in a chat set to `Resolve` are looked up on the alternate
/// sources; everything else is downloaded directly.
pub fn use_alternate_sources(url: &str, mode: DownloadMode) -> (b: bool)
    ensures
        b == (has_youtube_link(url@) && mode == DownloadMode::Resolve),
{
    is_youtube_link(Some(url)) && mode == DownloadMode::Resolve
}

/// The video title from oEmbed, when it gave a non-empty one.
pub fn usable_oembed(o: Option<YoutubeOembed>) -> (r: Option<YoutubeOembed>)
    ensures
        r matches Some(x) ==> o matches Some(y) && x == y && x.title@.len() > 0,
        r is None ==> !(o matches Some(y) && y.title@.len() > 0),
{
    match o {
        Some(x) => {
            if x.title.as_str().is_empty() {
                None
            } else {
                Some(x)
            }
        },
        None => None,
    }
}

/// The error when oEmbed gave no title.
pub fn oembed_failure_message() -> (r: String)
    ensures
        r@ == "Не удалось получить название видео с YouTube (oEmbed)"@,
{
    owned("Не удалось получить название видео с YouTube (oEmbed)")
}

// ---------------------------------------------------------------------------
// Typed tags
// ---------------------------------------------------------------------------

/// The trimmed parts of a typed line, split at `" - "`.
pub open spec fn manual_parts(text: Seq<char>) -> Seq<Seq<char>> {
    split(text, " - "@).map_values(|p: Seq<char>| trim(p))
}

/// Part `i` of the typed line replaces `old` when it exists and is not empty.
pub open spec fn typed_field(parts: Seq<Seq<char>>, i: int, old: Seq<char>) -> Seq<char> {
    if i < parts.len() && parts[i].len() > 0 {
        parts[i]
    } else {
        old
    }
}

/// The tags after the user typed `Artist - Title - Album - Year`: each part
/// that is there and not empty replaces its field; the rest stay.
pub fn apply_manual_input(tags: TrackMeta, text: &str) -> (r: TrackMeta)
    ensures
        r.artist@ == typed_field(manual_parts(text@), 0, tags.artist@),
        r.title@ == typed_field(manual_parts(text@), 1, tags.title@),
        r.album@ == typed_field(manual_parts(text@), 2, tags.album@),
        r.year@ == typed_field(manual_parts(text@), 3, tags.year@),
        r.genre@ == tags.genre@,
        r.artwork_url@ == tags.artwork_url@,
{
    let cs = chars_of(text);
    let sep = chars_of(" - ");
    proof {
        reveal_strlit(" - ");
    }
    let raw = split_exec(cs.as_slice(), sep.as_slice());
    let ghost ps = manual_parts(text@);
    assert(views(raw@) == split(text@, " - "@));
    let mut parts: Vec<Vec<char>> = Vec::new();
    let mut i: usize = 0;
    while i < raw.len()
        invariant
            i <= raw@.len(),
            views(raw@) == split(text@, " - "@),
            ps == manual_parts(text@),
            views(parts@) == ps.take(i as int),
            ps.len() == raw@.len(),
        decreases raw@.len() - i,
    {
        let t = trimmed(raw[i].as_slice());
        let ghost prev = views(parts@);
        parts.push(t);
        assert(views(parts@) =~= prev.push(t@));
        assert(ps[i as int] == trim(raw@[i as int]@));
        assert(views(parts@) =~= ps.take(i + 1));
        i = i + 1;
    }
    assert(ps.take(raw@.len() as int) =~= ps);
    let mut tags = tags;
    if parts.len() > 0 && parts[0].len() > 0 {
        tags.artist = string_of(parts[0].as_slice());
    }
    if parts.len() > 1 && parts[1].len() > 0 {
        tags.title = string_of(parts[1].as_slice());
    }
    if parts.len() > 2 && parts[2].len() > 0 {
        tags.album = string_of(parts[2].as_slice());
    }
    if parts.len() > 3 && parts[3].len() > 0 {
        tags.year = string_of(parts[3].as_slice());
    }
    tags
}

/// A typed line `a + " - " + b` whose only `" - "` (space, hyphen, space) is
/// the one after `a` has two parts, `a` and `b` trimmed: the artist becomes `a`
/// and the title `b` (each when not empty), album and year stay; a hyphen that
/// is not set off by spaces stays inside its field.
pub proof fn law_typed_line_split_at_spaced_hyphen(
    text: Seq<char>,
    a: Seq<char>,
    b: Seq<char>,
    old: (Seq<char>, Seq<char>, Seq<char>, Seq<char>),
)
    requires
        text == a + " - "@ + b,
        forall|j: int|
            0 <= j && j + 3 <= text.len() && j != a.len() ==> #[trigger] text.subrange(j, j + 3) != " - "@,
    ensures
        manual_parts(text) == seq![trim(a), trim(b)],
        typed_field(manual_parts(text), 0, old.0) == if trim(a).len() > 0 {
            trim(a)
        } else {
            old.0
        },
        typed_field(manual_parts(text), 1, old.1) == if trim(b).len() > 0 {
            trim(b)
        } else {
            old.1
        },
        typed_field(manual_parts(text), 2, old.2) == old.2,
        typed_field(manual_parts(text), 3, old.3) == old.3,
{
    reveal_strlit(" - ");
    let sep = " - "@;
    let n = a.len() as int;
    assert(text.subrange(n, n + 3) =~= sep);
    assert(text.subrange(0, n) =~= a);
    assert(text.subrange(n + 3, text.len() as int) =~= b);
    crate::text::lemma_find_from(text, sep, 0);
    match crate::text::find_from(text, sep, 0) {
        Some(k) => {
            if k < n {
                assert(text.subrange(k, k + 3) == sep);
            }
        },
        None => {
            assert(crate::text::occurs_at(text, sep, n));
        },
    }
    assert(crate::text::find_from(text, sep, 0) == Some(n));
    crate::text::lemma_find_from(text, sep, n + 3);
    if let Some(k) = crate::text::find_from(text, sep, n + 3) {
        assert(text.subrange(k, k + 3) == sep);
    }
    assert(crate::text::find_from(text, sep, n + 3) is None);
    reveal_with_fuel(crate::text::split_from, 2);
    assert(split(text, sep) =~= seq![a, b]);
    assert(manual_parts(text) =~= seq![trim(a), trim(b)]);
}

/// A typed line without `" - "` is one part: only the artist is set (when the
/// trimmed line is not empty); title, album and year stay.
pub proof fn law_typed_line_without_separator(text: Seq<char>, old: (Seq<char>, Seq<char>, Seq<char>, Seq<char>))
    requires
        forall|j: int| 0 <= j && j + 3 <= text.len() ==> #[trigger] text.subrange(j, j + 3) != " - "@,
    ensures
        manual_parts(text) == seq![trim(text)],
        typed_field(manual_parts(text), 0, old.0) == if trim(text).len() > 0 {
            trim(text)
        } else {
            old.0
        },
        typed_field(manual_parts(text), 1, old.1) == old.1,
        typed_field(manual_parts(text), 2, old.2) == old.2,
        typed_field(manual_parts(text), 3, old.3) == old.3,
{
    reveal_strlit(" - ");
    let sep = " - "@;
    crate::text::lemma_find_from(text, sep, 0);
    if let Some(k) = crate::text::find_from(text, sep, 0) {
        assert(text.subrange(k, k + 3) == sep);
    }
    assert(text.subrange(0, text.len() as int) =~= text);
    assert(split(text, sep) =~= seq![text]);
    assert(manual_parts(text) =~= seq![trim(text)]);
}

// ---------------------------------------------------------------------------
// Playlists
// ---------------------------------------------------------------------------

/// The most tracks taken from one playlist.
pub const MAX_PLAYLIST_TRACKS: usize = 100;

/// What comes after a track of the dialogue is done.
pub enum PlaylistStep {
    /// The track was not part of a playlist: the dialogue ends.
    Stop,
    /// It was the playlist's last track: `processed` of `total` were gone through.
    Finished { processed: usize, total: usize },
    /// The next track of the playlist.
    Next { url: String, context: PlaylistContext },
}

/// The step after the current track of `playlist`.
pub fn advance_playlist(playlist: Option<PlaylistContext>) -> (r: PlaylistStep)
    requires
        playlist matches Some(p) ==> playlist_wf(p),
    ensures
        match playlist {
            None => r is Stop,
            Some(p) => if p.index + 1 >= p.queue@.len() {
                (r matches PlaylistStep::Finished { processed, total } && processed == p.index + 1
                    && total == p.total)
            } else {
                (r matches PlaylistStep::Next { url, context } && context.index == p.index + 1
                    && context.queue@ == p.queue@ && context.total == p.total && url@
                    == p.queue@[p.index + 1]@ && playlist_wf(context))
            },
        },
{
    match playlist {
        None => PlaylistStep::Stop,
        Some(pl) => {
            let n = pl.queue.len();
            assert(pl.index < n);
            let next_index = pl.index + 1;
            if next_index >= pl.queue.len() {
                PlaylistStep::Finished { processed: next_index, total: pl.total }
            } else {
                let url = pl.queue[next_index].clone();
                PlaylistStep::Next {
                    url,
                    context: PlaylistContext { queue: pl.queue, index: next_index, total: pl.total },
                }
            }
        },
    }
}

/// Walking a playlist with `advance_playlist` from any well-formed context moves
/// one track forward at a time over the same queue, so it reaches the end
/// after at most as many steps as the queue has tracks.
pub proof fn law_playlist_progress(p: PlaylistContext, next: PlaylistContext)
    requires
        playlist_wf(p),
        next.index == p.index + 1,
        next.queue@ == p.queue@,
        next.total == p.total,
    ensures
        next.queue@.len() - next.index < p.queue@.len() - p.index,
        next.index < next.queue@.len() ==> playlist_wf(next),
{
}

/// The addresses of the listed entries, in order.
pub fn playlist_queue(entries: Vec<PlaylistEntry>) -> (r: Vec<String>)
    ensures
        string_views(r@) == entries@.map_values(|e: PlaylistEntry| e.url@),
{
    let mut r: Vec<String> = Vec::new();
    let mut k: usize = 0;
    while k < entries.len()
        invariant
            k <= entries@.len(),
            string_views(r@) == entries@.map_values(|e: PlaylistEntry| e.url@).take(k as int),
        decreases entries@.len() - k,
    {
        let u = entries[k].url.clone();
        let ghost prev = string_views(r@);
        r.push(u);
        assert(string_views(r@) =~= prev.push(u@));
        assert(string_views(r@) =~= entries@.map_values(|e: PlaylistEntry| e.url@).take(k + 1));
        k = k + 1;
    }
    assert(entries@.map_values(|e: PlaylistEntry| e.url@).take(entries@.len() as int)
        =~= entries@.map_values(|e: PlaylistEntry| e.url@));
    r
}

/// A decimal number as a `String`.
fn number_text(n: usize) -> (r: String)
    ensures
        r@ == decimal(n as nat),
{
    let d = decimal_exec(n as u64);
    string_of(d.as_slice())
}

/// The message after listing a playlist: how many tracks were found, and a
/// note when the listing stopped at the limit.
pub fn playlist_found_text(total: usize) -> (r: String)
    ensures
        r@ == "Нашёл "@ + decimal(total as nat) + " треков."@ + (if total >= MAX_PLAYLIST_TRACKS {
            "\n\n(показаны первые "@ + decimal(MAX_PLAYLIST_TRACKS as nat)
                + " треков — плейлист может быть длиннее)"@
        } else {
            Seq::empty()
        }),
{
    let mut r = owned("Нашёл ");
    let n = number_text(total);
    r.append(n.as_str());
    r.append(" треков.");
    if total >= MAX_PLAYLIST_TRACKS {
        r.append("\n\n(показаны первые ");
        let m = number_text(MAX_PLAYLIST_TRACKS);
        r.append(m.as_str());
        r.append(" треков — плейлист может быть длиннее)");
    }
    r
}

/// The message when a playlist has been gone through.
pub fn playlist_done_text(processed: usize, total: usize) -> (r: String)
    ensures
        r@ == "✅ Плейлист обработан: "@ + decimal(processed as nat) + "/"@ + decimal(total as nat)
            + " треков пройдено."@,
{
    let mut r = owned("✅ Плейлист обработан: ");
    let a = number_text(processed);
    r.append(a.as_str());
    r.append("/");
    let b = number_text(total);
    r.append(b.as_str());
    r.append(" треков пройдено.");
    r
}

/// The message before the next track of a playlist (`position` counted from 1).
pub fn next_track_text(position: usize, total: usize) -> (r: String)
    ensures
        r@ == "➡️ Трек "@ + decimal(position as nat) + "/"@ + decimal(total as nat) + "..."@,
{
    let mut r = owned("➡️ Трек ");
    let a = number_text(position);
    r.append(a.as_str());
    r.append("/");
    let b = number_text(total);
    r.append(b.as_str());
    r.append("...");
    r
}

/// Counts of an automatic playlist run.
#[derive(Debug, Clone, Copy, PartialEq, Eq, Structural)]
pub struct AutoProgress {
    pub sent: usize,
    pub failed: usize,
}

/// The counts after one more track: sent when it was sent, failed otherwise.
pub fn record_track(p: AutoProgress, sent: bool) -> (r: AutoProgress)
    requires
        p.sent + p.failed < usize::MAX,
    ensures
        sent ==> r.sent == p.sent + 1 && r.failed == p.failed,
        !sent ==> r.failed == p.failed + 1 && r.sent == p.sent,
        r.sent + r.failed == p.sent + p.failed + 1,
{
    if sent {
        AutoProgress { sent: p.sent + 1, failed: p.failed }
    } else {
        AutoProgress { sent: p.sent, failed: p.failed + 1 }
    }
}

/// Progress is reported after every third track and after the last one.
pub fn should_report_progress(done: usize, total: usize) -> (b: bool)
    ensures
        b == (done % 3 == 0 || done == total),
{
    done % 3 == 0 || done == total
}

/// The progress message of an automatic run.
pub fn progress_text(done: usize, total: usize, p: AutoProgress) -> (r: String)
    ensures
        r@ == "🎧 "@ + decimal(done as nat) + "/"@ + decimal(total as nat) + " обработано ("@
            + decimal(p.sent as nat) + " отправлено, "@ + decimal(p.failed as nat) + " ошибок)"@,
{
    let mut r = owned("🎧 ");
    let a = number_text(done);
    r.append(a.as_str());
    r.append("/");
    let b = number_text(total);
    r.append(b.as_str());
    r.append(" обработано (");
    let c = number_text(p.sent);
    r.append(c.as_str());
    r.append(" отправлено, ");
    let d = number_text(p.failed);
    r.append(d.as_str());
    r.append(" ошибок)");
    r
}

/// The first progress message of an automatic run.
pub fn progress_start_text(total: usize) -> (r: String)
    ensures
        r@ == "🎧 0/"@ + decimal(total as nat) + " готово"@,
{
    let mut r = owned("🎧 0/");
    let b = number_text(total);
    r.append(b.as_str());
    r.append(" готово");
    r
}

/// The closing message of an automatic run: how many tracks were sent, and
/// how many failed when some did.
pub fn auto_summary_text(total: usize, p: AutoProgress) -> (r: String)
    ensures
        r@ == "✅ Готово: "@ + decimal(p.sent as nat) + "/"@ + decimal(total as nat)
            + " треков отправлено"@ + (if p.failed > 0 {
            ", "@ + decimal(p.failed as nat) + " с ошибками"@
        } else {
            Seq::empty()
        }),
{
    let mut r = owned("✅ Готово: ");
    let a = number_text(p.sent);
    r.append(a.as_str());
    r.append("/");
    let b = number_text(total);
    r.append(b.as_str());
    r.append(" треков отправлено");
    if p.failed > 0 {
        r.append(", ");
        let c = number_text(p.failed);
        r.append(c.as_str());
        r.append(" с ошибками");
    }
    r
}

// ---------------------------------------------------------------------------
// Fallback after a failed lookup
// ---------------------------------------------------------------------------

/// `s` with every leading copy of `p` removed (`str::trim_start_matches`);
/// an empty `p` removes nothing.
pub open spec fn strip_prefixes(s: Seq<char>, p: Seq<char>) -> Seq<char>
    decreases s.len(),
{
    if p.len() > 0 && starts_with(s, p) {
        strip_prefixes(s.subrange(p.len() as int, s.len() as int), p)
    } else {
        s
    }
}

/// The problem id carried by a fallback button: its data (empty when there
/// is none) without the leading copies of `prefix`.
pub fn problem_id_from_callback(data: Option<&str>, prefix: &str) -> (r: String)
    ensures
        r@ == strip_prefixes(or_empty(opt_str(data)), prefix@),
{
    let d = match data {
        Some(d) => chars_of(d),
        None => Vec::new(),
    };
    let p = chars_of(prefix);
    let ghost full = d@;
    assert(full == or_empty(opt_str(data)));
    if p.len() == 0 {
        return string_of(d.as_slice());
    }
    let mut start: usize = 0;
    assert(full.subrange(0, full.len() as int) =~= full);
    loop
        invariant
            start <= d@.len(),
            p@ == prefix@,
            p@.len() > 0,
            d@ == full,
            full == or_empty(opt_str(data)),
            strip_prefixes(full, p@) == strip_prefixes(full.subrange(start as int, full.len() as int), p@),
        decreases d@.len() - start,
    {
        let rest = copy_range(d.as_slice(), start, d.len());
        if starts_with_exec(rest.as_slice(), p.as_slice()) {
            assert(rest@.subrange(p@.len() as int, rest@.len() as int) =~= full.subrange(
                start + p@.len(),
                full.len() as int,
            ));
            start = start + p.len();
        } else {
            return string_of(rest.as_slice());
        }
    }
}

/// The fallback context of a track: part of a playlist worked through by
/// hand, or a single link.
pub fn fallback_context(in_playlist: bool) -> (r: String)
    ensures
        r@ == if in_playlist {
            "manual"@
        } else {
            "single"@
        },
{
    if in_playlist {
        owned("manual")
    } else {
        owned("single")
    }
}

/// After the direct download failed too: the playlist moves on only for a
/// track of a playlist worked through by hand.
pub fn advance_after_direct_failure(context: &str) -> (b: bool)
    ensures
        b == (context@ == "manual"@),
{
    is_literal(context, "manual")
}

/// After the direct download worked: tracks of a single link or of a playlist
/// worked through by hand go to confirmation; those of an automatic run are
/// sent at once.
pub fn confirm_after_direct_download(context: &str) -> (b: bool)
    ensures
        b == (context@ == "single"@ || context@ == "manual"@),
{
    is_literal(context, "single") || is_literal(context, "manual")
}

/// After a skip: the playlist moves on only when the skipped track was known
/// and part of a playlist worked through by hand.
pub fn advance_after_skip(context: Option<&str>) -> (b: bool)
    ensures
        b == (context matches Some(c) && c@ == "manual"@),
{
    match context {
        Some(c) => is_literal(c, "manual"),
        None => false,
    }
}

// ---------------------------------------------------------------------------
// Sending a finished track
// ---------------------------------------------------------------------------

/// A text field as an optional tag: absent when empty.
pub open spec fn optional_tag(s: Seq<char>) -> Option<Seq<char>> {
    if s.len() == 0 {
        None
    } else {
        Some(s)
    }
}

/// A text field as an optional tag.
fn optional_field(s: &String) -> (r: Option<String>)
    ensures
        opt_seq(r) == optional_tag(s@),
{
    if s.as_str().is_empty() {
        None
    } else {
        Some(s.clone())
    }
}

/// The tags written into the file: every non-empty text field, and the
/// downloaded cover.
pub fn track_tags_for(tags: &TrackMeta, artwork: Option<Vec<u8>>) -> (r: TrackTags)
    ensures
        opt_seq(r.title) == optional_tag(tags.title@),
        opt_seq(r.artist) == optional_tag(tags.artist@),
        opt_seq(r.album) == optional_tag(tags.album@),
        opt_seq(r.genre) == optional_tag(tags.genre@),
        opt_seq(r.year) == optional_tag(tags.year@),
        r.artwork_bytes == artwork,
{
    TrackTags {
        title: optional_field(&tags.title),
        artist: optional_field(&tags.artist),
        album: optional_field(&tags.album),
        genre: optional_field(&tags.genre),
        year: optional_field(&tags.year),
        artwork_bytes: artwork,
    }
}

/// The performer, title and file name under which a track is sent: missing
/// names become `Unknown`, the file is `<artist> - <title>.mp3` with every `/`
/// turned into `-`.
pub fn audio_send_names(tags: &TrackMeta) -> (r: (String, String, String))
    ensures
        r.0@ == or_if_empty(tags.artist@, "Unknown"@),
        r.1@ == or_if_empty(tags.title@, "Unknown"@),
        r.2@ == replace_char(r.0@ + " - "@ + r.1@ + ".mp3"@, '/', '-'),
{
    let artist = if tags.artist.as_str().is_empty() {
        owned("Unknown")
    } else {
        tags.artist.clone()
    };
    let title = if tags.title.as_str().is_empty() {
        owned("Unknown")
    } else {
        tags.title.clone()
    };
    let mut name = artist.clone();
    name.append(" - ");
    name.append(title.as_str());
    name.append(".mp3");
    let nc = chars_of(name.as_str());
    let safe = replace_char_exec(nc.as_slice(), '/', '-');
    (artist, title, string_of(safe.as_slice()))
}

/// A tag shown in the confirmation: `—` when empty.
pub open spec fn shown(s: Seq<char>) -> Seq<char> {
    if s.len() == 0 {
        "—"@
    } else {
        s
    }
}

/// A tag as shown in the confirmation.
fn shown_exec(s: &String) -> (r: String)
    ensures
        r@ == shown(s@),
{
    if s.as_str().is_empty() {
        owned("—")
    } else {
        s.clone()
    }
}

/// The confirmation message for the offered tags.
pub fn confirmation_caption(tags: &TrackMeta) -> (r: String)
    ensures
        r@ == "Нашёл вот такой вариант:\n\n🎤 Исполнитель: "@ + shown(tags.artist@)
            + "\n🎵 Название: "@ + shown(tags.title@) + "\n💿 Альбом: "@ + shown(tags.album@)
            + "\n📅 Год: "@ + shown(tags.year@) + "\n\nВсё верно?"@,
{
    let mut r = owned("Нашёл вот такой вариант:\n\n🎤 Исполнитель: ");
    let a = shown_exec(&tags.artist);
    r.append(a.as_str());
    r.append("\n🎵 Название: ");
    let t = shown_exec(&tags.title);
    r.append(t.as_str());
    r.append("\n💿 Альбом: ");
    let al = shown_exec(&tags.album);
    r.append(al.as_str());
    r.append("\n📅 Год: ");
    let y = shown_exec(&tags.year);
    r.append(y.as_str());
    r.append("\n\nВсё верно?");
    r
}

// ---------------------------------------------------------------------------
// Videos
// ---------------------------------------------------------------------------

/// The part of a command after its first whitespace character (empty when
/// there is none): `splitn(2, char::is_whitespace).nth(1)`.
pub open spec fn command_argument(text: Seq<char>) -> Seq<char> {
    match first_white(text, 0) {
        Some(i) => text.subrange(i + 1, text.len() as int),
        None => Seq::empty(),
    }
}

/// The first whitespace index at or after `i`.
pub open spec fn first_white(text: Seq<char>, i: int) -> Option<int>
    decreases text.len() - i,
{
    if i < 0 || i >= text.len() {
        None
    } else if is_white_space(text[i]) {
        Some(i)
    } else {
        first_white(text, i + 1)
    }
}

/// The media link given after the video command, if any.
pub fn video_url_from_command(text: Option<&str>) -> (r: Option<String>)
    ensures
        r matches Some(u) ==> media_link_in(command_argument(or_empty(opt_str(text)))) == Some(u@),
        r is None ==> media_link_in(command_argument(or_empty(opt_str(text)))) is None,
{
    let cs = match text {
        Some(t) => chars_of(t),
        None => Vec::new(),
    };
    let mut i: usize = 0;
    while i < cs.len() && !is_whitespace(cs[i])
        invariant
            i <= cs@.len(),
            first_white(cs@, 0) == first_white(cs@, i as int),
        decreases cs@.len() - i,
    {
        i = i + 1;
    }
    let arg = if i < cs.len() {
        copy_range(cs.as_slice(), i + 1, cs.len())
    } else {
        Vec::new()
    };
    let a = string_of(arg.as_slice());
    extract_media_link(a.as_str())
}

/// The file name under which a video is sent: its trimmed title (`video` when
/// empty) with every `/` turned into `-`, then `.mp4`.
pub fn video_file_name(title: &str) -> (r: String)
    ensures
        r@ == replace_char(or_if_empty(trim(title@), "video"@), '/', '-') + ".mp4"@,
{
    let tc = chars_of(title);
    let t = trimmed(tc.as_slice());
    let base = if t.len() == 0 {
        chars_of("video")
    } else {
        t
    };
    let safe = replace_char_exec(base.as_slice(), '/', '-');
    let s = string_of(safe.as_slice());
    concat2(s.as_str(), ".mp4")
}

// ---------------------------------------------------------------------------
// Commands
// ---------------------------------------------------------------------------

/// The reply to the mode-switch command, for the mode now set.
pub fn mode_switch_text(mode: DownloadMode) -> (r: String)
    ensures
        mode == DownloadMode::Resolve ==> r@ == "🔀 Режим переключён: <b>resolve</b>.\n\nДля YouTube-ссылок теперь беру название/исполнителя через oEmbed (без скачивания с YouTube), а сам файл ищу и качаю с SoundCloud/Bandcamp.\n\nВернуть скачивание напрямую с YouTube — снова /source"@,
        mode == DownloadMode::Direct ==> r@ == "🔀 Режим переключён: <b>direct</b>.\n\nСкачиваю треки напрямую с YouTube, как раньше."@,
{
    match mode {
        DownloadMode::Resolve => owned("🔀 Режим переключён: <b>resolve</b>.\n\nДля YouTube-ссылок теперь беру название/исполнителя через oEmbed (без скачивания с YouTube), а сам файл ищу и качаю с SoundCloud/Bandcamp.\n\nВернуть скачивание напрямую с YouTube — снова /source"),
        DownloadMode::Direct => owned("🔀 Режим переключён: <b>direct</b>.\n\nСкачиваю треки напрямую с YouTube, как раньше."),
    }
}


// ---------------------------------------------------------------------------
// The dialogue as a state machine
// ---------------------------------------------------------------------------

/// The state is well formed: a pending playlist has tracks, and a playlist
/// being worked through points at one of its tracks.
pub open spec fn state_wf(s: State) -> bool {
    match s {
        State::Idle => true,
        State::WaitingConfirmation { playlist, .. } => playlist matches Some(p) ==> playlist_wf(p),
        State::WaitingManualInput { playlist, .. } => playlist matches Some(p) ==> playlist_wf(p),
        State::WaitingPlaylistMode { queue, .. } => queue@.len() > 0,
        State::WaitingTrackFallback { playlist } => playlist matches Some(p) ==> playlist_wf(p),
    }
}

/// What the user did.
pub enum DialogueEvent {
    /// Pressed a button that was routed to a handler.
    Button(CallbackRoute),
    /// Sent a text message while tags were awaited.
    TypedTags(String),
}

/// What the bot does next, outside the dialogue state.
pub enum DialogueAction {
    /// Nothing (the press did not fit the state).
    Nothing,
    /// Write these tags into the file, send it, then move on in the playlist.
    Finalize { mp3_path: String, tags: TrackMeta, playlist: Option<PlaylistContext> },
    /// Ask the user to type the tags.
    AskForTags,
    /// Delete the file, then move on in the playlist.
    CancelTrack { mp3_path: String, playlist: Option<PlaylistContext> },
    /// Process the whole playlist without questions.
    RunAutomatic { queue: Vec<String>, total: usize },
    /// Start with the first track of the playlist, asking for each.
    StartManual { url: String, context: PlaylistContext },
}

/// The dialogue step for `event` in state `state`: the state to store when the
/// handler changes it (none when the stored state stays), and the work to do.
///
/// * Confirm / use-source while confirming: finalize with the offered / the
///   source tags; the state stays until the track is done.
/// * Edit while confirming: ask for tags; the state becomes "awaiting typed
///   tags" with the same file, tags and playlist.
/// * Cancel while confirming: delete the file and move on.
/// * Automatic while choosing the playlist mode: the dialogue ends and the
///   whole queue is processed.
/// * Manual while choosing: the first track starts with a fresh playlist context.
/// * Typed tags while awaited: finalize with the typed fields applied.
/// * Anything else: nothing happens and the state stays.
pub fn dialogue_step(state: State, event: DialogueEvent) -> (r: (Option<State>, DialogueAction))
    requires
        state_wf(state),
    ensures
        r.0 matches Some(s) ==> state_wf(s),
        r.1 matches DialogueAction::StartManual { context, .. } ==> playlist_wf(context),
        r.1 matches DialogueAction::Finalize { playlist, .. } ==> (playlist matches Some(p) ==> playlist_wf(p)),
        r.1 matches DialogueAction::CancelTrack { playlist, .. } ==> (playlist matches Some(p) ==> playlist_wf(p)),
        match (state, event) {
            (
                State::WaitingConfirmation { mp3_path, tags, source_tags, playlist },
                DialogueEvent::Button(CallbackRoute::ConfirmTags),
            ) => r.0 is None && (r.1 matches DialogueAction::Finalize { mp3_path: m, tags: t, playlist: p }
                && m == mp3_path && t == tags && p == playlist),
            (
                State::WaitingConfirmation { mp3_path, tags, source_tags, playlist },
                DialogueEvent::Button(CallbackRoute::UseSourceTags),
            ) => r.0 is None && (r.1 matches DialogueAction::Finalize { mp3_path: m, tags: t, playlist: p }
                && m == mp3_path && t == source_tags && p == playlist),
            (
                State::WaitingConfirmation { mp3_path, tags, source_tags, playlist },
                DialogueEvent::Button(CallbackRoute::AskManualInput),
            ) => r.0 == Some(State::WaitingManualInput { mp3_path, tags, source_tags, playlist })
                && r.1 is AskForTags,
            (
                State::WaitingConfirmation { mp3_path, tags, source_tags, playlist },
                DialogueEvent::Button(CallbackRoute::CancelTags),
            ) => r.0 is None && (r.1 matches DialogueAction::CancelTrack { mp3_path: m, playlist: p }
                && m == mp3_path && p == playlist),
            (
                State::WaitingPlaylistMode { queue, total },
                DialogueEvent::Button(CallbackRoute::PlaylistAuto),
            ) => r.0 == Some(State::Idle) && (r.1 matches DialogueAction::RunAutomatic { queue: q, total: t }
                && q == queue && t == total),
            (
                State::WaitingPlaylistMode { queue, total },
                DialogueEvent::Button(CallbackRoute::PlaylistManual),
            ) => r.0 is None && (r.1 matches DialogueAction::StartManual { url, context }
                && url@ == queue@[0]@ && context.queue == queue && context.index == 0
                && context.total == total),
            (
                State::WaitingManualInput { mp3_path, tags, source_tags, playlist },
                DialogueEvent::TypedTags(text),
            ) => r.0 is None && (r.1 matches DialogueAction::Finalize { mp3_path: m, tags: t, playlist: p }
                && m == mp3_path && p == playlist && t.artist@ == typed_field(manual_parts(text@), 0, tags.artist@)
                && t.title@ == typed_field(manual_parts(text@), 1, tags.title@)
                && t.album@ == typed_field(manual_parts(text@), 2, tags.album@)
                && t.year@ == typed_field(manual_parts(text@), 3, tags.year@)
                && t.genre@ == tags.genre@ && t.artwork_url@ == tags.artwork_url@),
            _ => r.0 is None && r.1 is Nothing,
        },
{
    match event {
        DialogueEvent::Button(route) => match state {
            State::WaitingConfirmation { mp3_path, tags, source_tags, playlist } => match route {
                CallbackRoute::ConfirmTags => (None, DialogueAction::Finalize { mp3_path, tags, playlist }),
                CallbackRoute::UseSourceTags => (
                    None,
                    DialogueAction::Finalize { mp3_path, tags: source_tags, playlist },
                ),
                CallbackRoute::AskManualInput => (
                    Some(State::WaitingManualInput { mp3_path, tags, source_tags, playlist }),
                    DialogueAction::AskForTags,
                ),
                CallbackRoute::CancelTags => (None, DialogueAction::CancelTrack { mp3_path, playlist }),
                _ => (None, DialogueAction::Nothing),
            },
            State::WaitingPlaylistMode { queue, total } => match route {
                CallbackRoute::PlaylistAuto => (Some(State::Idle), DialogueAction::RunAutomatic { queue, total }),
                CallbackRoute::PlaylistManual => {
                    let url = queue[0].clone();
                    (
                        None,
                        DialogueAction::StartManual {
                            url,
                            context: PlaylistContext { queue, index: 0, total },
                        },
                    )
                },
                _ => (None, DialogueAction::Nothing),
            },
            _ => (None, DialogueAction::Nothing),
        },
        DialogueEvent::TypedTags(text) => match state {
            State::WaitingManualInput { mp3_path, tags, source_tags, playlist } => {
                let typed = apply_manual_input(tags, text.as_str());
                (None, DialogueAction::Finalize { mp3_path, tags: typed, playlist })
            },
            _ => (None, DialogueAction::Nothing),
        },
    }
}

/// The state while a downloaded track waits for its tags to be confirmed.
pub fn confirmation_state(
    mp3_path: String,
    tags: TrackMeta,
    source_tags: TrackMeta,
    playlist: Option<PlaylistContext>,
) -> (s: State)
    requires
        playlist matches Some(p) ==> playlist_wf(p),
    ensures
        state_wf(s),
        s == (State::WaitingConfirmation { mp3_path, tags, source_tags, playlist }),
{
    State::WaitingConfirmation { mp3_path, tags, source_tags, playlist }
}

/// The state while a listed playlist waits for the choice of mode; none for
/// an empty listing (the bot then reports that the playlist is empty).
pub fn playlist_mode_state(queue: Vec<String>) -> (s: Option<State>)
    ensures
        queue@.len() == 0 ==> s is None,
        queue@.len() > 0 ==> (s matches Some(st) && state_wf(st) && st == (State::WaitingPlaylistMode {
            total: queue@.len() as usize,
            queue,
        })),
{
    if queue.len() == 0 {
        None
    } else {
        let total = queue.len();
        Some(State::WaitingPlaylistMode { queue, total })
    }
}

/// The state while a track that no alternate source had waits for the
/// fallback choice.
pub fn fallback_state(playlist: Option<PlaylistContext>) -> (s: State)
    requires
        playlist matches Some(p) ==> playlist_wf(p),
    ensures
        state_wf(s),
        s == (State::WaitingTrackFallback { playlist }),
{
    State::WaitingTrackFallback { playlist }
}

} // verus!
