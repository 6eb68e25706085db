//! Link recognition, artist/title guessing and the pure parts of driving the
//! downloader tool: its command lines, its output and its retry policy.
//!
//! The three link grammars are case-insensitive (Unicode simple case folding, so
//! `K` also matches KELVIN SIGN and `s` also matches LONG S) and are searched for
//! leftmost-first, as a regular-expression search does:
//!
//! * media link: `(https?://)?(www\.)?(m\.)?(DOMAIN)/\S+` over the media domains;
//! * YouTube link: `(https?://)?(www\.)?(m\.)?(music\.)?(youtube\.com|youtu\.be)/`;
//! * YouTube playlist link: the YouTube prefix, then `\S*[?&]list=[\w-]+`.
use vstd::prelude::*;
use crate::text::{
    is_white_space, is_whitespace, chars_of, string_of, copy_range, trim, find_from, find_from_exec,
    trimmed, string_views, owned, concat2, concat3, split, split_exec, views, contains, contains_exec,
    decimal, decimal_exec, signed_decimal, signed_decimal_exec, occurs_at,
};
use crate::state::{uuid_v4_text, uuid_v4_shape};
use vstd::string::StringExecFns;

verus! {

broadcast use vstd::string::group_string_axioms;

// ---------------------------------------------------------------------------
// Character classes
// ---------------------------------------------------------------------------

/// Name for `regex_syntax::is_word_character`: membership in the Unicode word
/// class `\w` (Alphabetic, Mark, Decimal_Number, Connector_Punctuation,
/// Join_Control).
pub uninterp spec fn is_word_char(c: char) -> bool;

/// Calls `regex_syntax::is_word_character`; claims only that the answer is the
/// value of `is_word_char` at `c`.
#[verifier::external_body]
fn word_character(c: char) -> (b: bool)
    ensures
        b == is_word_char(c),
{
    regex_syntax::is_word_character(c)
}

/// Case-insensitive equality of a text character with a pattern character that
/// is not an upper-case letter.
pub open spec fn ci_eq(c: char, l: char) -> bool {
    ||| c == l
    ||| (0x61 <= l as u32 <= 0x7A && c as u32 == l as u32 - 32)
    ||| (l == 'k' && c as u32 == 0x212A)
    ||| (l == 's' && c as u32 == 0x17F)
}

/// The pattern literal `lit` matches `s` case-insensitively at index `i`.
pub open spec fn lit_ci(s: Seq<char>, i: int, lit: Seq<char>) -> bool {
    &&& 0 <= i
    &&& i + lit.len() <= s.len()
    &&& forall|k: int| 0 <= k < lit.len() ==> ci_eq(#[trigger] s[i + k], lit[k])
}

/// End of the run of non-whitespace characters that starts at `i`.
pub open spec fn run_end(s: Seq<char>, i: int) -> int
    decreases s.len() - i,
{
    if 0 <= i < s.len() && !is_white_space(s[i]) {
        run_end(s, i + 1)
    } else {
        i
    }
}

/// `c` is in the class `[\w-]`.
pub open spec fn is_word_or_hyphen(c: char) -> bool {
    c == '-' || is_word_char(c)
}

/// End of the run of `[\w-]` characters that starts at `i`.
pub open spec fn word_run_end(s: Seq<char>, i: int) -> int
    decreases s.len() - i,
{
    if 0 <= i < s.len() && is_word_or_hyphen(s[i]) {
        word_run_end(s, i + 1)
    } else {
        i
    }
}

// ---------------------------------------------------------------------------
// Media links
// ---------------------------------------------------------------------------

/// The domains of the media-link grammar, in the order of the alternation.
pub open spec fn media_domain(k: int) -> Seq<char> {
    if k == 0 {
        "youtube.com"@
    } else if k == 1 {
        "youtu.be"@
    } else if k == 2 {
        "music.youtube.com"@
    } else if k == 3 {
        "soundcloud.com"@
    } else if k == 4 {
        "snd.sc"@
    } else if k == 5 {
        "bandcamp.com"@
    } else if k == 6 {
        "vimeo.com"@
    } else if k == 7 {
        "mixcloud.com"@
    } else if k == 8 {
        "audiomack.com"@
    } else if k == 9 {
        "twitch.tv"@
    } else if k == 10 {
        "twitter.com"@
    } else if k == 11 {
        "x.com"@
    } else if k == 12 {
        "tiktok.com"@
    } else if k == 13 {
        "vt.tiktok.com"@
    } else {
        "vm.tiktok.com"@
    }
}

/// The number of media domains.
pub open spec fn media_domain_count() -> int {
    15
}

/// `/` followed by at least one non-whitespace character at index `j`.
pub open spec fn path_follows(s: Seq<char>, j: int) -> bool {
    0 <= j && j + 1 < s.len() && s[j] == '/' && !is_white_space(s[j + 1])
}

/// One of the media domains `k..` followed by a path matches at `i`.
pub open spec fn media_domain_from(s: Seq<char>, i: int, k: int) -> bool
    decreases media_domain_count() - k,
{
    if k < 0 || k >= media_domain_count() {
        false
    } else {
        (lit_ci(s, i, media_domain(k)) && path_follows(s, i + media_domain(k).len()))
            || media_domain_from(s, i, k + 1)
    }
}

/// `(m\.)?(DOMAIN)/\S` matches at `i`.
pub open spec fn media_after_m(s: Seq<char>, i: int) -> bool {
    (lit_ci(s, i, "m."@) && media_domain_from(s, i + "m."@.len(), 0)) || media_domain_from(
        s,
        i,
        0,
    )
}

/// `(www\.)?(m\.)?(DOMAIN)/\S` matches at `i`.
pub open spec fn media_after_www(s: Seq<char>, i: int) -> bool {
    (lit_ci(s, i, "www."@) && media_after_m(s, i + "www."@.len())) || media_after_m(s, i)
}

/// The media-link grammar matches at index `i`.
pub open spec fn media_at(s: Seq<char>, i: int) -> bool {
    ||| (lit_ci(s, i, "https://"@) && media_after_www(s, i + "https://"@.len()))
    ||| (lit_ci(s, i, "http://"@) && media_after_www(s, i + "http://"@.len()))
    ||| media_after_www(s, i)
}

/// The leftmost index at or after `i` where the media-link grammar matches.
pub open spec fn first_media_from(s: Seq<char>, i: int) -> Option<int>
    decreases s.len() - i,
{
    if i < 0 || i >= s.len() {
        None
    } else if media_at(s, i) {
        Some(i)
    } else {
        first_media_from(s, i + 1)
    }
}

/// The first media link in `s`: from the leftmost place where the grammar
/// matches to the end of that run of non-whitespace characters.
pub open spec fn media_link_in(s: Seq<char>) -> Option<Seq<char>> {
    match first_media_from(s, 0) {
        Some(p) => Some(s.subrange(p, run_end(s, p))),
        None => None,
    }
}

// ---------------------------------------------------------------------------
// YouTube links
// ---------------------------------------------------------------------------

/// `(youtube\.com|youtu\.be)/` matches at `i`.
pub open spec fn yt_domain(s: Seq<char>, i: int) -> bool {
    lit_ci(s, i, "youtube.com/"@) || lit_ci(s, i, "youtu.be/"@)
}

/// `(music\.)?` then a YouTube domain matches at `i`.
pub open spec fn yt_after_music(s: Seq<char>, i: int) -> bool {
    (lit_ci(s, i, "music."@) && yt_domain(s, i + "music."@.len())) || yt_domain(s, i)
}

/// `(m\.)?(music\.)?` then a YouTube domain matches at `i`.
pub open spec fn yt_after_m(s: Seq<char>, i: int) -> bool {
    (lit_ci(s, i, "m."@) && yt_after_music(s, i + "m."@.len())) || yt_after_music(s, i)
}

/// `(www\.)?(m\.)?(music\.)?` then a YouTube domain matches at `i`.
pub open spec fn yt_after_www(s: Seq<char>, i: int) -> bool {
    (lit_ci(s, i, "www."@) && yt_after_m(s, i + "www."@.len())) || yt_after_m(s, i)
}

/// The YouTube-link grammar matches at index `i`.
pub open spec fn youtube_at(s: Seq<char>, i: int) -> bool {
    ||| (lit_ci(s, i, "https://"@) && yt_after_www(s, i + "https://"@.len()))
    ||| (lit_ci(s, i, "http://"@) && yt_after_www(s, i + "http://"@.len()))
    ||| yt_after_www(s, i)
}

/// `s` holds a YouTube link somewhere.
pub open spec fn has_youtube_link(s: Seq<char>) -> bool {
    exists|i: int| 0 <= i < s.len() && youtube_at(s, i)
}

/// `s` holds a media link somewhere.
pub open spec fn has_media_link(s: Seq<char>) -> bool {
    exists|i: int| 0 <= i < s.len() && media_at(s, i)
}

// ---------------------------------------------------------------------------
// Playlist links
// ---------------------------------------------------------------------------

/// The first alternative that succeeds.
pub open spec fn first_some(a: Option<int>, b: Option<int>) -> Option<int> {
    if a is Some {
        a
    } else {
        b
    }
}

/// `a` when `cond` holds, else no match.
pub open spec fn when(cond: bool, a: Option<int>) -> Option<int> {
    if cond {
        a
    } else {
        None
    }
}

/// `[?&]list=` followed by a `[\w-]` character starts at `k`.
pub open spec fn list_param_at(s: Seq<char>, k: int) -> bool {
    &&& 0 <= k < s.len()
    &&& (s[k] == '?' || s[k] == '&')
    &&& lit_ci(s, k + 1, "list="@)
    &&& k + 1 + "list="@.len() < s.len()
    &&& is_word_or_hyphen(s[k + 1 + "list="@.len()])
}

/// The largest `k` with `q <= k < hi` at which the list parameter starts, and
/// where the match then ends.
pub open spec fn last_list_param(s: Seq<char>, q: int, hi: int) -> Option<int>
    decreases hi - q,
{
    if hi <= q {
        None
    } else if list_param_at(s, hi - 1) {
        Some(word_run_end(s, hi - 1 + 1 + "list="@.len()))
    } else {
        last_list_param(s, q, hi - 1)
    }
}

/// `\S*[?&]list=[\w-]+` matched from `q`: where the greedy match ends.
pub open spec fn playlist_tail(s: Seq<char>, q: int) -> Option<int> {
    last_list_param(s, q, run_end(s, q))
}

/// `(youtube\.com|youtu\.be)/` then the tail, from `i`.
pub open spec fn pl_domain(s: Seq<char>, i: int) -> Option<int> {
    first_some(
        when(lit_ci(s, i, "youtube.com/"@), playlist_tail(s, i + "youtube.com/"@.len())),
        when(lit_ci(s, i, "youtu.be/"@), playlist_tail(s, i + "youtu.be/"@.len())),
    )
}

/// `(music\.)?` then the rest of the playlist grammar, from `i`.
pub open spec fn pl_after_music(s: Seq<char>, i: int) -> Option<int> {
    first_some(when(lit_ci(s, i, "music."@), pl_domain(s, i + "music."@.len())), pl_domain(s, i))
}

/// `(m\.)?` then the rest of the playlist grammar, from `i`.
pub open spec fn pl_after_m(s: Seq<char>, i: int) -> Option<int> {
    first_some(when(lit_ci(s, i, "m."@), pl_after_music(s, i + "m."@.len())), pl_after_music(s, i))
}

/// `(www\.)?` then the rest of the playlist grammar, from `i`.
pub open spec fn pl_after_www(s: Seq<char>, i: int) -> Option<int> {
    first_some(when(lit_ci(s, i, "www."@), pl_after_m(s, i + "www."@.len())), pl_after_m(s, i))
}

/// Where the playlist grammar, matched leftmost-first from `i`, ends.
pub open spec fn playlist_at(s: Seq<char>, i: int) -> Option<int> {
    first_some(
        when(lit_ci(s, i, "https://"@), pl_after_www(s, i + "https://"@.len())),
        first_some(
            when(lit_ci(s, i, "http://"@), pl_after_www(s, i + "http://"@.len())),
            pl_after_www(s, i),
        ),
    )
}

/// The leftmost index at or after `i` where the playlist grammar matches.
pub open spec fn first_playlist_from(s: Seq<char>, i: int) -> Option<int>
    decreases s.len() - i,
{
    if i < 0 || i >= s.len() {
        None
    } else if playlist_at(s, i) is Some {
        Some(i)
    } else {
        first_playlist_from(s, i + 1)
    }
}

/// The first playlist link in `s`.
pub open spec fn playlist_link_in(s: Seq<char>) -> Option<Seq<char>> {
    match first_playlist_from(s, 0) {
        Some(p) => Some(s.subrange(p, playlist_at(s, p)->0)),
        None => None,
    }
}


// ---------------------------------------------------------------------------
// Executable recognizers
// ---------------------------------------------------------------------------

/// `ci_eq`, computed.
fn ci_eq_exec(c: char, l: char) -> (b: bool)
    ensures
        b == ci_eq(c, l),
{
    let cu = c as u32;
    let lu = l as u32;
    c == l || (0x61 <= lu && lu <= 0x7A && cu == lu - 32) || (l == 'k' && cu == 0x212A) || (l
        == 's' && cu == 0x17F)
}

/// `lit_ci`, computed: the index just past the literal when it matches.
fn lit_ci_exec(s: &[char], i: usize, lit: &str) -> (r: Option<usize>)
    ensures
        (r is Some) == lit_ci(s@, i as int, lit@),
        r matches Some(e) ==> e == i + lit@.len() && e <= s@.len(),
{
    let n = lit.unicode_len();
    if i > s.len() || n > s.len() - i {
        return None;
    }
    let mut k: usize = 0;
    while k < n
        invariant
            n == lit@.len(),
            i + n <= s@.len(),
            s@.len() == s.len(),
            k <= n,
            forall|j: int| 0 <= j < k ==> ci_eq(#[trigger] s@[i + j], lit@[j]),
        decreases n - k,
    {
        if !ci_eq_exec(s[i + k], lit.get_char(k)) {
            return None;
        }
        k = k + 1;
    }
    Some(i + n)
}

/// `run_end`, computed.
fn run_end_exec(s: &[char], i: usize) -> (r: usize)
    requires
        i <= s@.len(),
    ensures
        r as int == run_end(s@, i as int),
        i <= r <= s@.len(),
{
    let mut j = i;
    while j < s.len() && !is_whitespace(s[j])
        invariant
            i <= j <= s@.len(),
            run_end(s@, i as int) == run_end(s@, j as int),
        decreases s@.len() - j,
    {
        j = j + 1;
    }
    j
}

/// `word_run_end`, computed.
fn word_run_end_exec(s: &[char], i: usize) -> (r: usize)
    requires
        i <= s@.len(),
    ensures
        r as int == word_run_end(s@, i as int),
        i <= r <= s@.len(),
{
    let mut j = i;
    while j < s.len() && (s[j] == '-' || word_character(s[j]))
        invariant
            i <= j <= s@.len(),
            word_run_end(s@, i as int) == word_run_end(s@, j as int),
        decreases s@.len() - j,
    {
        j = j + 1;
    }
    j
}

/// The `k`-th media domain.
fn media_domain_exec(k: usize) -> (d: &'static str)
    requires
        k < 15,
    ensures
        d@ == media_domain(k as int),
{
    match k {
        0 => "youtube.com",
        1 => "youtu.be",
        2 => "music.youtube.com",
        3 => "soundcloud.com",
        4 => "snd.sc",
        5 => "bandcamp.com",
        6 => "vimeo.com",
        7 => "mixcloud.com",
        8 => "audiomack.com",
        9 => "twitch.tv",
        10 => "twitter.com",
        11 => "x.com",
        12 => "tiktok.com",
        13 => "vt.tiktok.com",
        _ => "vm.tiktok.com",
    }
}

/// `path_follows`, computed.
fn path_follows_exec(s: &[char], j: usize) -> (b: bool)
    ensures
        b == path_follows(s@, j as int),
{
    j < s.len() && s.len() - j > 1 && s[j] == '/' && !is_whitespace(s[j + 1])
}

/// `media_domain_from(s, i, 0)`, computed.
fn media_domain_exec_at(s: &[char], i: usize) -> (b: bool)
    ensures
        b == media_domain_from(s@, i as int, 0),
{
    let mut k: usize = 0;
    while k < 15
        invariant
            k <= 15,
            media_domain_from(s@, i as int, 0) == media_domain_from(s@, i as int, k as int),
        decreases 15 - k,
    {
        let d = media_domain_exec(k);
        if let Some(e) = lit_ci_exec(s, i, d) {
            if path_follows_exec(s, e) {
                return true;
            }
        }
        k = k + 1;
    }
    false
}

/// `media_after_m`, computed.
fn media_after_m_exec(s: &[char], i: usize) -> (b: bool)
    ensures
        b == media_after_m(s@, i as int),
{
    (match lit_ci_exec(s, i, "m.") { Some(e) => media_domain_exec_at(s, e), None => false })
        || media_domain_exec_at(s, i)
}

/// `media_after_www`, computed.
fn media_after_www_exec(s: &[char], i: usize) -> (b: bool)
    ensures
        b == media_after_www(s@, i as int),
{
    (match lit_ci_exec(s, i, "www.") { Some(e) => media_after_m_exec(s, e), None => false })
        || media_after_m_exec(s, i)
}

/// `media_at`, computed.
fn media_at_exec(s: &[char], i: usize) -> (b: bool)
    ensures
        b == media_at(s@, i as int),
{
    (match lit_ci_exec(s, i, "https://") { Some(e) => media_after_www_exec(s, e), None => false })
        || (match lit_ci_exec(s, i, "http://") { Some(e) => media_after_www_exec(s, e), None => false })
        || media_after_www_exec(s, i)
}

/// `first_media_from(s, 0)`, computed.
fn first_media_exec(s: &[char]) -> (r: Option<usize>)
    ensures
        r matches Some(p) ==> first_media_from(s@, 0) == Some(p as int) && p < s@.len(),
        r is None ==> first_media_from(s@, 0) is None,
{
    let mut i: usize = 0;
    while i < s.len()
        invariant
            i <= s@.len(),
            first_media_from(s@, 0) == first_media_from(s@, i as int),
        decreases s@.len() - i,
    {
        if media_at_exec(s, i) {
            return Some(i);
        }
        i = i + 1;
    }
    None
}

/// The first media link in `text`, from the leftmost place where the media-link
/// grammar matches to the end of that run of non-whitespace characters.
pub fn extract_media_link(text: &str) -> (r: Option<String>)
    ensures
        r matches Some(link) ==> media_link_in(text@) == Some(link@),
        r is None ==> media_link_in(text@) is None,
{
    let cs = chars_of(text);
    match first_media_exec(cs.as_slice()) {
        Some(p) => {
            let e = run_end_exec(cs.as_slice(), p);
            let link = copy_range(cs.as_slice(), p, e);
            Some(string_of(link.as_slice()))
        },
        None => None,
    }
}

/// `first_media_from` finds a match exactly when the grammar matches somewhere
/// at or after `i`.
pub proof fn lemma_first_media(s: Seq<char>, i: int)
    requires
        0 <= i,
    ensures
        (first_media_from(s, i) is Some) == (exists|j: int| i <= j < s.len() && media_at(s, j)),
        first_media_from(s, i) matches Some(p) ==> i <= p < s.len() && media_at(s, p),
    decreases s.len() - i,
{
    if i < s.len() && !media_at(s, i) {
        lemma_first_media(s, i + 1);
        assert forall|j: int| i <= j < s.len() && media_at(s, j) implies i + 1 <= j by {}
    }
}

/// A text is recognised as holding a media link exactly when a media link can
/// be extracted from it, so `is_media_link(Some(t))` and
/// `extract_media_link(t).is_some()` always agree.
pub proof fn law_media_link_detected_iff_extracted(t: Seq<char>)
    ensures
        has_media_link(t) == (media_link_in(t) is Some),
{
    lemma_first_media(t, 0);
}

/// Whether `text` is present and holds a media link.
pub fn is_media_link(text: Option<&str>) -> (b: bool)
    ensures
        b == (text matches Some(t) && has_media_link(t@)),
{
    match text {
        Some(t) => {
            let cs = chars_of(t);
            let r = first_media_exec(cs.as_slice());
            proof {
                lemma_first_media(t@, 0);
            }
            r.is_some()
        },
        None => false,
    }
}


/// `yt_domain`, computed.
fn yt_domain_exec(s: &[char], i: usize) -> (b: bool)
    ensures
        b == yt_domain(s@, i as int),
{
    lit_ci_exec(s, i, "youtube.com/").is_some() || lit_ci_exec(s, i, "youtu.be/").is_some()
}

/// `yt_after_music`, computed.
fn yt_after_music_exec(s: &[char], i: usize) -> (b: bool)
    ensures
        b == yt_after_music(s@, i as int),
{
    (match lit_ci_exec(s, i, "music.") {
        Some(e) => yt_domain_exec(s, e),
        None => false,
    }) || yt_domain_exec(s, i)
}

/// `yt_after_m`, computed.
fn yt_after_m_exec(s: &[char], i: usize) -> (b: bool)
    ensures
        b == yt_after_m(s@, i as int),
{
    (match lit_ci_exec(s, i, "m.") {
        Some(e) => yt_after_music_exec(s, e),
        None => false,
    }) || yt_after_music_exec(s, i)
}

/// `yt_after_www`, computed.
fn yt_after_www_exec(s: &[char], i: usize) -> (b: bool)
    ensures
        b == yt_after_www(s@, i as int),
{
    (match lit_ci_exec(s, i, "www.") {
        Some(e) => yt_after_m_exec(s, e),
        None => false,
    }) || yt_after_m_exec(s, i)
}

/// `youtube_at`, computed.
fn youtube_at_exec(s: &[char], i: usize) -> (b: bool)
    ensures
        b == youtube_at(s@, i as int),
{
    (match lit_ci_exec(s, i, "https://") {
        Some(e) => yt_after_www_exec(s, e),
        None => false,
    }) || (match lit_ci_exec(s, i, "http://") {
        Some(e) => yt_after_www_exec(s, e),
        None => false,
    }) || yt_after_www_exec(s, i)
}

/// `has_youtube_link`, computed.
fn has_youtube_exec(s: &[char]) -> (b: bool)
    ensures
        b == has_youtube_link(s@),
{
    let mut i: usize = 0;
    while i < s.len()
        invariant
            i <= s@.len(),
            forall|j: int| 0 <= j < i ==> !youtube_at(s@, j),
        decreases s@.len() - i,
    {
        if youtube_at_exec(s, i) {
            assert(0 <= i < s@.len() && youtube_at(s@, i as int));
            return true;
        }
        i = i + 1;
    }
    false
}

/// Whether `url` is present and holds a YouTube link.
pub fn is_youtube_link(url: Option<&str>) -> (b: bool)
    ensures
        b == (url matches Some(u) && has_youtube_link(u@)),
{
    match url {
        Some(u) => {
            let cs = chars_of(u);
            has_youtube_exec(cs.as_slice())
        },
        None => false,
    }
}

/// `last_list_param(s, q, hi)`, computed.
fn last_list_param_exec(s: &[char], q: usize, hi: usize) -> (r: Option<usize>)
    requires
        hi <= s@.len(),
    ensures
        r matches Some(e) ==> last_list_param(s@, q as int, hi as int) == Some(e as int) && q <= e
            <= s@.len(),
        r is None ==> last_list_param(s@, q as int, hi as int) is None,
{
    let mut h = hi;
    while h > q
        invariant
            h <= hi <= s@.len(),
            last_list_param(s@, q as int, hi as int) == last_list_param(s@, q as int, h as int),
        decreases h - q,
    {
        let k = h - 1;
        if s[k] == '?' || s[k] == '&' {
            if let Some(e) = lit_ci_exec(s, k + 1, "list=") {
                if e < s.len() && (s[e] == '-' || word_character(s[e])) {
                    let w = word_run_end_exec(s, e);
                    return Some(w);
                }
            }
        }
        h = h - 1;
    }
    None
}

/// `playlist_tail`, computed.
fn playlist_tail_exec(s: &[char], q: usize) -> (r: Option<usize>)
    requires
        q <= s@.len(),
    ensures
        r matches Some(e) ==> playlist_tail(s@, q as int) == Some(e as int) && q <= e <= s@.len(),
        r is None ==> playlist_tail(s@, q as int) is None,
{
    let hi = run_end_exec(s, q);
    last_list_param_exec(s, q, hi)
}

/// `pl_domain`, computed.
fn pl_domain_exec(s: &[char], i: usize) -> (r: Option<usize>)
    ensures
        r matches Some(e) ==> pl_domain(s@, i as int) == Some(e as int) && i <= e <= s@.len(),
        r is None ==> pl_domain(s@, i as int) is None,
{
    if let Some(e) = lit_ci_exec(s, i, "youtube.com/") {
        let t = playlist_tail_exec(s, e);
        if t.is_some() {
            return t;
        }
    }
    match lit_ci_exec(s, i, "youtu.be/") {
        Some(e) => playlist_tail_exec(s, e),
        None => None,
    }
}

/// `pl_after_music`, computed.
fn pl_after_music_exec(s: &[char], i: usize) -> (r: Option<usize>)
    ensures
        r matches Some(e) ==> pl_after_music(s@, i as int) == Some(e as int) && i <= e <= s@.len(),
        r is None ==> pl_after_music(s@, i as int) is None,
{
    if let Some(e) = lit_ci_exec(s, i, "music.") {
        let t = pl_domain_exec(s, e);
        if t.is_some() {
            return t;
        }
    }
    pl_domain_exec(s, i)
}

/// `pl_after_m`, computed.
fn pl_after_m_exec(s: &[char], i: usize) -> (r: Option<usize>)
    ensures
        r matches Some(e) ==> pl_after_m(s@, i as int) == Some(e as int) && i <= e <= s@.len(),
        r is None ==> pl_after_m(s@, i as int) is None,
{
    if let Some(e) = lit_ci_exec(s, i, "m.") {
        let t = pl_after_music_exec(s, e);
        if t.is_some() {
            return t;
        }
    }
    pl_after_music_exec(s, i)
}

/// `pl_after_www`, computed.
fn pl_after_www_exec(s: &[char], i: usize) -> (r: Option<usize>)
    ensures
        r matches Some(e) ==> pl_after_www(s@, i as int) == Some(e as int) && i <= e <= s@.len(),
        r is None ==> pl_after_www(s@, i as int) is None,
{
    if let Some(e) = lit_ci_exec(s, i, "www.") {
        let t = pl_after_m_exec(s, e);
        if t.is_some() {
            return t;
        }
    }
    pl_after_m_exec(s, i)
}

/// `playlist_at`, computed.
fn playlist_at_exec(s: &[char], i: usize) -> (r: Option<usize>)
    ensures
        r matches Some(e) ==> playlist_at(s@, i as int) == Some(e as int) && i <= e <= s@.len(),
        r is None ==> playlist_at(s@, i as int) is None,
{
    if let Some(e) = lit_ci_exec(s, i, "https://") {
        let t = pl_after_www_exec(s, e);
        if t.is_some() {
            return t;
        }
    }
    if let Some(e) = lit_ci_exec(s, i, "http://") {
        let t = pl_after_www_exec(s, e);
        if t.is_some() {
            return t;
        }
    }
    pl_after_www_exec(s, i)
}

/// The leftmost playlist match: its start and end.
fn first_playlist_exec(s: &[char]) -> (r: Option<(usize, usize)>)
    ensures
        r matches Some((p, e)) ==> first_playlist_from(s@, 0) == Some(p as int) && playlist_at(
            s@,
            p as int,
        ) == Some(e as int) && p <= e <= s@.len(),
        r is None ==> first_playlist_from(s@, 0) is None,
{
    let mut i: usize = 0;
    while i < s.len()
        invariant
            i <= s@.len(),
            first_playlist_from(s@, 0) == first_playlist_from(s@, i as int),
        decreases s@.len() - i,
    {
        if let Some(e) = playlist_at_exec(s, i) {
            return Some((i, e));
        }
        i = i + 1;
    }
    None
}

/// Whether `text` is present and holds a YouTube playlist link.
pub fn is_playlist_link(text: Option<&str>) -> (b: bool)
    ensures
        b == (text matches Some(t) && first_playlist_from(t@, 0) is Some),
{
    match text {
        Some(t) => {
            let cs = chars_of(t);
            first_playlist_exec(cs.as_slice()).is_some()
        },
        None => false,
    }
}

/// A text is recognised as holding a playlist link exactly when a playlist
/// link can be extracted from it.
pub proof fn law_playlist_link_detected_iff_extracted(t: Seq<char>)
    ensures
        (first_playlist_from(t, 0) is Some) == (playlist_link_in(t) is Some),
{
}

/// `first_playlist_from` finds a match exactly where the grammar matches.
proof fn lemma_first_playlist(s: Seq<char>, i: int)
    requires
        0 <= i,
    ensures
        first_playlist_from(s, i) matches Some(p) ==> i <= p < s.len() && playlist_at(s, p) is Some,
    decreases s.len() - i,
{
    if i < s.len() && playlist_at(s, i) is None {
        lemma_first_playlist(s, i + 1);
    }
}

/// A literal that matches also matches with its prefix.
proof fn lemma_lit_prefix(s: Seq<char>, i: int, lit: Seq<char>, n: int)
    requires
        lit_ci(s, i, lit),
        0 <= n <= lit.len(),
    ensures
        lit_ci(s, i, lit.subrange(0, n)),
{
    assert forall|k: int| 0 <= k < n implies ci_eq(#[trigger] s[i + k], lit.subrange(0, n)[k]) by {
        assert(ci_eq(s[i + k], lit[k]));
    }
}

/// The tail of a playlist link starts with a character that is not whitespace.
proof fn lemma_tail_starts(s: Seq<char>, q: int)
    requires
        playlist_tail(s, q) is Some,
    ensures
        0 <= q < s.len(),
        !is_white_space(s[q]),
{
    assert(run_end(s, q) > q);
}

/// A domain literal ending in `/`, followed by a playlist tail, is that
/// domain followed by a path.
proof fn lemma_domain_then_tail(s: Seq<char>, j: int, with_slash: Seq<char>, domain: Seq<char>)
    requires
        lit_ci(s, j, with_slash),
        with_slash == domain.push('/'),
        playlist_tail(s, j + with_slash.len()) is Some,
    ensures
        lit_ci(s, j, domain),
        path_follows(s, j + domain.len()),
{
    lemma_lit_prefix(s, j, with_slash, domain.len() as int);
    assert(with_slash.subrange(0, domain.len() as int) =~= domain);
    assert(ci_eq(s[j + domain.len()], with_slash[domain.len() as int]));
    lemma_tail_starts(s, j + with_slash.len());
}

/// Where the playlist domain matches, a YouTube domain and a media link match.
proof fn lemma_pl_domain(s: Seq<char>, j: int)
    requires
        pl_domain(s, j) is Some,
    ensures
        yt_domain(s, j),
        0 <= j < s.len(),
        media_at(s, j),
{
    reveal_strlit("youtube.com/");
    reveal_strlit("youtube.com");
    reveal_strlit("youtu.be/");
    reveal_strlit("youtu.be");
    reveal_with_fuel(media_domain_from, 3);
    if lit_ci(s, j, "youtube.com/"@) && playlist_tail(s, j + "youtube.com/"@.len()) is Some {
        assert("youtube.com/"@ =~= "youtube.com"@.push('/'));
        lemma_domain_then_tail(s, j, "youtube.com/"@, "youtube.com"@);
        assert(media_domain_from(s, j, 0));
    } else {
        assert("youtu.be/"@ =~= "youtu.be"@.push('/'));
        lemma_domain_then_tail(s, j, "youtu.be/"@, "youtu.be"@);
        assert(media_domain_from(s, j, 1));
        assert(media_domain_from(s, j, 0));
    }
    assert(media_after_m(s, j));
}

/// `(music\.)?` and a playlist domain: a YouTube prefix there, and a media
/// link at the returned index.
proof fn lemma_pl_after_music(s: Seq<char>, j: int) -> (k: int)
    requires
        pl_after_music(s, j) is Some,
    ensures
        yt_after_music(s, j),
        0 <= k < s.len(),
        media_at(s, k),
{
    if lit_ci(s, j, "music."@) && pl_domain(s, j + "music."@.len()) is Some {
        lemma_pl_domain(s, j + "music."@.len());
        j + "music."@.len()
    } else {
        lemma_pl_domain(s, j);
        j
    }
}

/// `(m\.)?` and the rest, as above.
proof fn lemma_pl_after_m(s: Seq<char>, j: int) -> (k: int)
    requires
        pl_after_m(s, j) is Some,
    ensures
        yt_after_m(s, j),
        0 <= k < s.len(),
        media_at(s, k),
{
    if lit_ci(s, j, "m."@) && pl_after_music(s, j + "m."@.len()) is Some {
        lemma_pl_after_music(s, j + "m."@.len())
    } else {
        lemma_pl_after_music(s, j)
    }
}

/// `(www\.)?` and the rest, as above.
proof fn lemma_pl_after_www(s: Seq<char>, j: int) -> (k: int)
    requires
        pl_after_www(s, j) is Some,
    ensures
        yt_after_www(s, j),
        0 <= k < s.len(),
        media_at(s, k),
{
    if lit_ci(s, j, "www."@) && pl_after_m(s, j + "www."@.len()) is Some {
        lemma_pl_after_m(s, j + "www."@.len())
    } else {
        lemma_pl_after_m(s, j)
    }
}

/// Where the playlist grammar matches, the YouTube grammar matches too, and the
/// media grammar matches at the returned index.
proof fn lemma_playlist_at(s: Seq<char>, i: int) -> (k: int)
    requires
        playlist_at(s, i) is Some,
    ensures
        youtube_at(s, i),
        0 <= k < s.len(),
        media_at(s, k),
{
    if lit_ci(s, i, "https://"@) && pl_after_www(s, i + "https://"@.len()) is Some {
        lemma_pl_after_www(s, i + "https://"@.len())
    } else if lit_ci(s, i, "http://"@) && pl_after_www(s, i + "http://"@.len()) is Some {
        lemma_pl_after_www(s, i + "http://"@.len())
    } else {
        lemma_pl_after_www(s, i)
    }
}

/// A text that holds a playlist link also holds a YouTube link and a media
/// link: whatever `is_playlist_link` accepts, `is_youtube_link` and
/// `is_media_link` accept as well.
pub proof fn law_playlist_link_is_youtube_and_media_link(t: Seq<char>)
    requires
        first_playlist_from(t, 0) is Some,
    ensures
        has_youtube_link(t),
        has_media_link(t),
{
    lemma_first_playlist(t, 0);
    let p = first_playlist_from(t, 0)->0;
    let k = lemma_playlist_at(t, p);
    assert(youtube_at(t, p));
    assert(media_at(t, k));
}

/// The first YouTube playlist link in `text`.
pub fn extract_playlist_link(text: &str) -> (r: Option<String>)
    ensures
        r matches Some(link) ==> playlist_link_in(text@) == Some(link@),
        r is None ==> playlist_link_in(text@) is None,
{
    let cs = chars_of(text);
    match first_playlist_exec(cs.as_slice()) {
        Some((p, e)) => {
            let link = copy_range(cs.as_slice(), p, e);
            Some(string_of(link.as_slice()))
        },
        None => None,
    }
}


// ---------------------------------------------------------------------------
// Artist and title from a video title
// ---------------------------------------------------------------------------

/// The separators tried between artist and title, in order.
pub open spec fn title_separator(k: int) -> Seq<char> {
    if k == 0 {
        " - "@
    } else if k == 1 {
        " – "@
    } else if k == 2 {
        " — "@
    } else {
        " | "@
    }
}

/// The guess made from separator `k` on: split at the first occurrence of the
/// first separator that occurs, else the uploader is the artist.
pub open spec fn guess_from(title: Seq<char>, uploader: Seq<char>, k: int) -> (Seq<char>, Seq<char>)
    decreases 4 - k,
{
    if k < 0 || k >= 4 {
        (trim(uploader), trim(title))
    } else {
        match find_from(title, title_separator(k), 0) {
            Some(i) => (
                trim(title.subrange(0, i)),
                trim(title.subrange(i + title_separator(k).len(), title.len() as int)),
            ),
            None => guess_from(title, uploader, k + 1),
        }
    }
}

/// The `k`-th separator.
fn title_separator_exec(k: usize) -> (r: &'static str)
    requires
        k < 4,
    ensures
        r@ == title_separator(k as int),
{
    match k {
        0 => " - ",
        1 => " – ",
        2 => " — ",
        _ => " | ",
    }
}

/// Guesses `(artist, title)` from a video title and its uploader: the title is
/// split at the first of `" - "`, `" – "`, `" — "`, `" | "` that occurs in it
/// (tried in that order), else the uploader is taken as the artist; both parts
/// are trimmed.
pub fn guess_artist_title(source_title: &str, uploader: &str) -> (r: (String, String))
    ensures
        (r.0@, r.1@) == guess_from(source_title@, uploader@, 0),
{
    let t = chars_of(source_title);
    let mut k: usize = 0;
    while k < 4
        invariant
            k <= 4,
            t@ == source_title@,
            guess_from(source_title@, uploader@, 0) == guess_from(source_title@, uploader@, k as int),
        decreases 4 - k,
    {
        let sep = chars_of(title_separator_exec(k));
        match find_from_exec(t.as_slice(), sep.as_slice(), 0) {
            Some(i) => {
                proof {
                    crate::text::lemma_find_from(t@, sep@, 0);
                }
                let n = t.len();
                assert(i + sep@.len() <= n);
                let head = copy_range(t.as_slice(), 0, i);
                let tail = copy_range(t.as_slice(), i + sep.len(), n);
                let a = trimmed(head.as_slice());
                let b = trimmed(tail.as_slice());
                return (string_of(a.as_slice()), string_of(b.as_slice()));
            },
            None => {},
        }
        k = k + 1;
    }
    let u = chars_of(uploader);
    let a = trimmed(u.as_slice());
    let b = trimmed(t.as_slice());
    (string_of(a.as_slice()), string_of(b.as_slice()))
}


/// A three-character separator found first at `i` is what the search finds.
proof fn lemma_first_sep(t: Seq<char>, p: Seq<char>, i: int)
    requires
        p.len() == 3,
        0 <= i,
        i + 3 <= t.len(),
        t.subrange(i, i + 3) == p,
        forall|j: int| 0 <= j < i ==> #[trigger] t.subrange(j, j + 3) != p,
    ensures
        find_from(t, p, 0) == Some(i),
{
    crate::text::lemma_find_from(t, p, 0);
    assert(occurs_at(t, p, i));
    match find_from(t, p, 0) {
        Some(k) => {
            if k < i {
                assert(t.subrange(k, k + 3) == p);
            }
        },
        None => {},
    }
}

/// A three-character separator that occurs nowhere is not found.
proof fn lemma_no_sep(t: Seq<char>, p: Seq<char>)
    requires
        p.len() == 3,
        forall|j: int| 0 <= j && j + 3 <= t.len() ==> #[trigger] t.subrange(j, j + 3) != p,
    ensures
        find_from(t, p, 0) is None,
{
    crate::text::lemma_find_from(t, p, 0);
    if let Some(k) = find_from(t, p, 0) {
        assert(t.subrange(k, k + 3) == p);
    }
}

/// A title whose first `" - "` is at `i` is split there: the artist is the
/// trimmed text before it, the title the trimmed text after it.
pub proof fn law_guess_splits_at_hyphen(t: Seq<char>, uploader: Seq<char>, i: int)
    requires
        0 <= i,
        i + 3 <= t.len(),
        t.subrange(i, i + 3) == " - "@,
        forall|j: int| 0 <= j < i ==> #[trigger] t.subrange(j, j + 3) != " - "@,
    ensures
        guess_from(t, uploader, 0) == (trim(t.subrange(0, i)), trim(t.subrange(i + 3, t.len() as int))),
{
    reveal_strlit(" - ");
    lemma_first_sep(t, " - "@, i);
}

/// A title without `" - "` whose first `" – "` (en dash) is at `i` is split
/// there.
pub proof fn law_guess_splits_at_en_dash(t: Seq<char>, uploader: Seq<char>, i: int)
    requires
        forall|j: int| 0 <= j && j + 3 <= t.len() ==> #[trigger] t.subrange(j, j + 3) != " - "@,
        0 <= i,
        i + 3 <= t.len(),
        t.subrange(i, i + 3) == " – "@,
        forall|j: int| 0 <= j < i ==> #[trigger] t.subrange(j, j + 3) != " – "@,
    ensures
        guess_from(t, uploader, 0) == (trim(t.subrange(0, i)), trim(t.subrange(i + 3, t.len() as int))),
{
    reveal_strlit(" - ");
    reveal_strlit(" – ");
    lemma_no_sep(t, " - "@);
    lemma_first_sep(t, " – "@, i);
    reveal_with_fuel(guess_from, 2);
}

/// A title with neither `" - "` nor `" – "` whose first `" — "` (em dash) is
/// at `i` is split there.
pub proof fn law_guess_splits_at_em_dash(t: Seq<char>, uploader: Seq<char>, i: int)
    requires
        forall|j: int| 0 <= j && j + 3 <= t.len() ==> #[trigger] t.subrange(j, j + 3) != " - "@,
        forall|j: int| 0 <= j && j + 3 <= t.len() ==> #[trigger] t.subrange(j, j + 3) != " – "@,
        0 <= i,
        i + 3 <= t.len(),
        t.subrange(i, i + 3) == " — "@,
        forall|j: int| 0 <= j < i ==> #[trigger] t.subrange(j, j + 3) != " — "@,
    ensures
        guess_from(t, uploader, 0) == (trim(t.subrange(0, i)), trim(t.subrange(i + 3, t.len() as int))),
{
    reveal_strlit(" - ");
    reveal_strlit(" – ");
    reveal_strlit(" — ");
    lemma_no_sep(t, " - "@);
    lemma_no_sep(t, " – "@);
    lemma_first_sep(t, " — "@, i);
    reveal_with_fuel(guess_from, 3);
}

/// A title with none of `" - "`, `" – "`, `" — "` whose first `" | "` is at
/// `i` is split there.
pub proof fn law_guess_splits_at_bar(t: Seq<char>, uploader: Seq<char>, i: int)
    requires
        forall|j: int| 0 <= j && j + 3 <= t.len() ==> #[trigger] t.subrange(j, j + 3) != " - "@,
        forall|j: int| 0 <= j && j + 3 <= t.len() ==> #[trigger] t.subrange(j, j + 3) != " – "@,
        forall|j: int| 0 <= j && j + 3 <= t.len() ==> #[trigger] t.subrange(j, j + 3) != " — "@,
        0 <= i,
        i + 3 <= t.len(),
        t.subrange(i, i + 3) == " | "@,
        forall|j: int| 0 <= j < i ==> #[trigger] t.subrange(j, j + 3) != " | "@,
    ensures
        guess_from(t, uploader, 0) == (trim(t.subrange(0, i)), trim(t.subrange(i + 3, t.len() as int))),
{
    reveal_strlit(" - ");
    reveal_strlit(" – ");
    reveal_strlit(" — ");
    reveal_strlit(" | ");
    lemma_no_sep(t, " - "@);
    lemma_no_sep(t, " – "@);
    lemma_no_sep(t, " — "@);
    lemma_first_sep(t, " | "@, i);
    reveal_with_fuel(guess_from, 4);
}

/// A title with none of the four separators keeps whole as the title, and the
/// uploader is the artist (both trimmed).
pub proof fn law_guess_without_separator(t: Seq<char>, uploader: Seq<char>)
    requires
        forall|j: int| 0 <= j && j + 3 <= t.len() ==> #[trigger] t.subrange(j, j + 3) != " - "@,
        forall|j: int| 0 <= j && j + 3 <= t.len() ==> #[trigger] t.subrange(j, j + 3) != " – "@,
        forall|j: int| 0 <= j && j + 3 <= t.len() ==> #[trigger] t.subrange(j, j + 3) != " — "@,
        forall|j: int| 0 <= j && j + 3 <= t.len() ==> #[trigger] t.subrange(j, j + 3) != " | "@,
    ensures
        guess_from(t, uploader, 0) == (trim(uploader), trim(t)),
{
    reveal_strlit(" - ");
    reveal_strlit(" – ");
    reveal_strlit(" — ");
    reveal_strlit(" | ");
    lemma_no_sep(t, " - "@);
    lemma_no_sep(t, " – "@);
    lemma_no_sep(t, " — "@);
    lemma_no_sep(t, " | "@);
    reveal_with_fuel(guess_from, 5);
}

// ---------------------------------------------------------------------------
// Downloader command lines
// ---------------------------------------------------------------------------

/// `PathBuf::push` on Unix: an absolute name replaces the directory, a
/// relative one is appended after a `/` unless the directory is empty or
/// already ends with one.
pub open spec fn path_join(dir: Seq<char>, name: Seq<char>) -> Seq<char> {
    if name.len() > 0 && name[0] == '/' {
        name
    } else if dir.len() == 0 || dir.last() == '/' {
        dir + name
    } else {
        dir + "/"@ + name
    }
}

/// `Path::new(dir).join(name)`, as text.
pub fn join_path(dir: &str, name: &str) -> (r: String)
    ensures
        r@ == path_join(dir@, name@),
{
    let d = chars_of(dir);
    let n = chars_of(name);
    if n.len() > 0 && n[0] == '/' {
        owned(name)
    } else if d.len() == 0 || d[d.len() - 1] == '/' {
        concat2(dir, name)
    } else {
        concat3(dir, "/", name)
    }
}

/// What is downloaded: the audio track or the whole video.
#[derive(Debug, Clone, Copy, PartialEq, Eq, Structural)]
pub enum MediaKind {
    Audio,
    Video,
}

/// The extension of the file that the downloader leaves behind.
pub open spec fn kind_extension(kind: MediaKind) -> Seq<char> {
    match kind {
        MediaKind::Audio => "mp3"@,
        MediaKind::Video => "mp4"@,
    }
}

/// The output template handed to the downloader for file id `id`.
pub open spec fn output_template(dir: Seq<char>, id: Seq<char>) -> Seq<char> {
    path_join(dir, id + ".%(ext)s"@)
}

/// The path of the file that a finished download of kind `kind` leaves.
pub open spec fn output_file(dir: Seq<char>, id: Seq<char>, kind: MediaKind) -> Seq<char> {
    path_join(dir, id + "."@ + kind_extension(kind))
}

/// The downloader arguments for `url`: the options of the kind, the output
/// template, the shared arguments `base`, then the URL.
pub open spec fn download_args_spec(kind: MediaKind, template: Seq<char>, base: Seq<Seq<char>>, url: Seq<char>) -> Seq<Seq<char>> {
    kind_options(kind, template) + base + seq![url]
}

/// The options of a download of the given kind, with output template `template`.
pub open spec fn kind_options(kind: MediaKind, template: Seq<char>) -> Seq<Seq<char>> {
    match kind {
        MediaKind::Audio => seq![
            "--no-simulate"@, "--print-json"@, "-f"@, "bestaudio/best"@, "--extract-audio"@,
            "--audio-format"@, "mp3"@, "--audio-quality"@, "192"@, "-o"@, template,
            "--no-playlist"@, "--quiet"@, "--no-warnings"@,
        ],
        MediaKind::Video => seq![
            "--no-simulate"@, "--print-json"@, "-f"@, "bv*[ext=mp4]+ba[ext=m4a]/best[ext=mp4]/best"@,
            "--merge-output-format"@, "mp4"@, "-o"@, template, "--no-playlist"@, "--quiet"@,
            "--no-warnings"@,
        ],
    }
}

/// Appends every string of `tail` to `v`.
fn append_strings(v: &mut Vec<String>, tail: Vec<String>)
    ensures
        string_views(final(v)@) == string_views(old(v)@) + string_views(tail@),
{
    let mut tail = tail;
    let ghost t = tail@;
    v.append(&mut tail);
    assert(string_views(v@) =~= string_views(old(v)@) + string_views(t));
}

/// The downloader arguments for a download of `url` of the given kind, with
/// output template `template`.
pub fn download_args(kind: MediaKind, template: &str, base_args: Vec<String>, url: &str) -> (r: Vec<String>)
    ensures
        string_views(r@) == download_args_spec(kind, template@, string_views(base_args@), url@),
{
    let mut args: Vec<String> = Vec::new();
    match kind {
        MediaKind::Audio => {
            args.push(owned("--no-simulate"));
            args.push(owned("--print-json"));
            args.push(owned("-f"));
            args.push(owned("bestaudio/best"));
            args.push(owned("--extract-audio"));
            args.push(owned("--audio-format"));
            args.push(owned("mp3"));
            args.push(owned("--audio-quality"));
            args.push(owned("192"));
            args.push(owned("-o"));
            args.push(owned(template));
            args.push(owned("--no-playlist"));
            args.push(owned("--quiet"));
            args.push(owned("--no-warnings"));
            assert(string_views(args@) =~= kind_options(kind, template@));
        },
        MediaKind::Video => {
            args.push(owned("--no-simulate"));
            args.push(owned("--print-json"));
            args.push(owned("-f"));
            args.push(owned("bv*[ext=mp4]+ba[ext=m4a]/best[ext=mp4]/best"));
            args.push(owned("--merge-output-format"));
            args.push(owned("mp4"));
            args.push(owned("-o"));
            args.push(owned(template));
            args.push(owned("--no-playlist"));
            args.push(owned("--quiet"));
            args.push(owned("--no-warnings"));
            assert(string_views(args@) =~= kind_options(kind, template@));
        },
    }
    append_strings(&mut args, base_args);
    let ghost mid = string_views(args@);
    args.push(owned(url));
    assert(string_views(args@) =~= mid.push(url@));
    assert(string_views(args@) =~= download_args_spec(kind, template@, string_views(base_args@), url@));
    args
}

/// The extension for a kind.
fn kind_extension_exec(kind: MediaKind) -> (r: &'static str)
    ensures
        r@ == kind_extension(kind),
{
    match kind {
        MediaKind::Audio => "mp3",
        MediaKind::Video => "mp4",
    }
}

/// A planned download: a fresh file id, the downloader arguments and the file
/// that the download must leave behind.
pub struct DownloadPlan {
    pub file_id: String,
    pub args: Vec<String>,
    pub expected_path: String,
}

/// Plans the download of `url` into `out_dir` under a fresh random file id.
pub fn plan_download(kind: MediaKind, out_dir: &str, base_args: Vec<String>, url: &str) -> (p: DownloadPlan)
    ensures
        uuid_v4_shape(p.file_id@),
        string_views(p.args@) == download_args_spec(
            kind,
            output_template(out_dir@, p.file_id@),
            string_views(base_args@),
            url@,
        ),
        p.expected_path@ == output_file(out_dir@, p.file_id@, kind),
{
    let file_id = uuid_v4_text();
    let name = concat2(file_id.as_str(), ".%(ext)s");
    let template = join_path(out_dir, name.as_str());
    let args = download_args(kind, template.as_str(), base_args, url);
    let file_name = concat3(file_id.as_str(), ".", kind_extension_exec(kind));
    let expected_path = join_path(out_dir, file_name.as_str());
    DownloadPlan { file_id, args, expected_path }
}

/// The arguments that list the entries of a playlist (or of a search), at most
/// `limit` of them when a limit is given.
pub open spec fn listing_args_spec(base: Seq<Seq<char>>, limit: Option<usize>, url: Seq<char>) -> Seq<Seq<char>> {
    seq!["--flat-playlist"@, "--dump-json"@, "--quiet"@, "--no-warnings"@] + base + match limit {
        Some(n) => seq!["--playlist-end"@, decimal(n as nat)],
        None => Seq::empty(),
    } + seq![url]
}

/// The downloader arguments that list the entries of `url`.
pub fn playlist_listing_args(base_args: Vec<String>, limit: Option<usize>, url: &str) -> (r: Vec<String>)
    ensures
        string_views(r@) == listing_args_spec(string_views(base_args@), limit, url@),
{
    let mut args: Vec<String> = Vec::new();
    args.push(owned("--flat-playlist"));
    args.push(owned("--dump-json"));
    args.push(owned("--quiet"));
    args.push(owned("--no-warnings"));
    assert(string_views(args@) =~= seq!["--flat-playlist"@, "--dump-json"@, "--quiet"@, "--no-warnings"@]);
    append_strings(&mut args, base_args);
    let ghost mid = string_views(args@);
    if let Some(n) = limit {
        args.push(owned("--playlist-end"));
        let digits = decimal_exec(n as u64);
        args.push(string_of(digits.as_slice()));
    }
    assert(string_views(args@) =~= mid + match limit {
        Some(n) => seq!["--playlist-end"@, decimal(n as nat)],
        None => Seq::<Seq<char>>::empty(),
    });
    let ghost before_url = string_views(args@);
    args.push(owned(url));
    assert(string_views(args@) =~= before_url.push(url@));
    args
}

// ---------------------------------------------------------------------------
// Downloader output
// ---------------------------------------------------------------------------

/// `s` is not empty and starts with `{`.
pub open spec fn opens_object(s: Seq<char>) -> bool {
    s.len() > 0 && s[0] == '{'
}

/// The last of the first `k` lines that, trimmed, starts with `{`, trimmed.
pub open spec fn last_json_in(lines: Seq<Seq<char>>, k: int) -> Option<Seq<char>>
    decreases k,
{
    if k <= 0 || k > lines.len() {
        None
    } else if opens_object(trim(lines[k - 1])) {
        Some(trim(lines[k - 1]))
    } else {
        last_json_in(lines, k - 1)
    }
}

/// The trimmed lines among the first `k` that start with `{`, in order.
pub open spec fn json_lines_in(lines: Seq<Seq<char>>, k: int) -> Seq<Seq<char>>
    decreases k,
{
    if k <= 0 || k > lines.len() {
        Seq::empty()
    } else if opens_object(trim(lines[k - 1])) {
        json_lines_in(lines, k - 1).push(trim(lines[k - 1]))
    } else {
        json_lines_in(lines, k - 1)
    }
}

/// The lines of `s` (split at `\n`; every line is trimmed before use, so a
/// `\r` before the `\n` and an empty last line make no difference).
pub open spec fn lines_of(s: Seq<char>) -> Seq<Seq<char>> {
    split(s, seq!['\n'])
}

/// The line holding the downloader's metadata: the last line of its output
/// that, trimmed, starts with `{`.
pub fn last_json_line(stdout: &str) -> (r: Option<String>)
    ensures
        opt_seq(r) == last_json_in(lines_of(stdout@), lines_of(stdout@).len() as int),
{
    let cs = chars_of(stdout);
    let mut nl: Vec<char> = Vec::new();
    nl.push('\n');
    assert(nl@ =~= seq!['\n']);
    let lines = split_exec(cs.as_slice(), nl.as_slice());
    let ghost ls = lines_of(stdout@);
    assert(views(lines@) == ls);
    assert(ls.len() == lines@.len());
    let mut k = lines.len();
    while k > 0
        invariant
            k <= lines@.len(),
            views(lines@) == ls,
            ls == lines_of(stdout@),
            ls.len() == lines@.len(),
            last_json_in(ls, ls.len() as int) == last_json_in(ls, k as int),
        decreases k,
    {
        let t = trimmed(lines[k - 1].as_slice());
        assert(lines@[k - 1]@ == ls[k - 1]);
        if t.len() > 0 && t[0] == '{' {
            assert(opens_object(trim(ls[k - 1])));
            return Some(string_of(t.as_slice()));
        }
        k = k - 1;
    }
    None
}

/// The view of an optional string.
pub open spec fn opt_seq(o: Option<String>) -> Option<Seq<char>> {
    match o {
        Some(s) => Some(s@),
        None => None,
    }
}

/// The lines of the downloader's output that, trimmed, start with `{`
/// (one JSON object per playlist entry), trimmed, in order.
pub fn json_lines(stdout: &str) -> (r: Vec<String>)
    ensures
        string_views(r@) == json_lines_in(lines_of(stdout@), lines_of(stdout@).len() as int),
{
    let cs = chars_of(stdout);
    let mut nl: Vec<char> = Vec::new();
    nl.push('\n');
    assert(nl@ =~= seq!['\n']);
    let lines = split_exec(cs.as_slice(), nl.as_slice());
    let ghost ls = lines_of(stdout@);
    assert(ls.len() == lines@.len());
    let mut r: Vec<String> = Vec::new();
    let mut k: usize = 0;
    while k < lines.len()
        invariant
            k <= lines@.len(),
            views(lines@) == ls,
            ls.len() == lines@.len(),
            string_views(r@) == json_lines_in(ls, k as int),
        decreases lines@.len() - k,
    {
        let t = trimmed(lines[k].as_slice());
        assert(lines@[k as int]@ == ls[k as int]);
        if t.len() > 0 && t[0] == '{' {
            r.push(string_of(t.as_slice()));
        }
        assert(string_views(r@) =~= json_lines_in(ls, k + 1));
        k = k + 1;
    }
    r
}

/// How a failed downloader run is reported: its trimmed error output, or,
/// when that is empty, its exit code as `Some(n)` / `None`.
pub open spec fn failure_message_spec(stderr: Seq<char>, code: Option<i32>) -> Seq<char> {
    if trim(stderr).len() == 0 {
        "yt-dlp завершился с кодом "@ + match code {
            Some(n) => "Some("@ + signed_decimal(n as int) + ")"@,
            None => "None"@,
        }
    } else {
        trim(stderr)
    }
}

/// The error message for a downloader run that did not succeed.
pub fn ytdlp_failure_message(stderr: &str, code: Option<i32>) -> (r: String)
    ensures
        r@ == failure_message_spec(stderr@, code),
{
    let cs = chars_of(stderr);
    let t = trimmed(cs.as_slice());
    if t.len() > 0 {
        return string_of(t.as_slice());
    }
    let mut r = owned("yt-dlp завершился с кодом ");
    match code {
        Some(n) => {
            r.append("Some(");
            let d = signed_decimal_exec(n as i64);
            let ds = string_of(d.as_slice());
            r.append(ds.as_str());
            r.append(")");
        },
        None => {
            r.append("None");
        },
    }
    r
}

/// The message when no output line holds the downloader's metadata.
pub fn no_metadata_message() -> (r: String)
    ensures
        r@ == "yt-dlp не вернул JSON с метаданными"@,
{
    owned("yt-dlp не вернул JSON с метаданными")
}

/// The message when the metadata line is not valid JSON; `detail` is the
/// parser's description of the problem.
pub fn bad_metadata_message(detail: &str) -> (r: String)
    ensures
        r@ == "Не удалось распарсить JSON от yt-dlp: "@ + detail@,
{
    concat2("Не удалось распарсить JSON от yt-dlp: ", detail)
}

// ---------------------------------------------------------------------------
// Retries
// ---------------------------------------------------------------------------

/// How many times the downloader is run at most for one download.
pub const MAX_ATTEMPTS: u32 = 3;

/// A failure that a new run may get past: a 403, a format that was not
/// available, or a sign-in check.
pub open spec fn retryable(err: Seq<char>) -> bool {
    ||| contains(err, "403"@)
    ||| contains(err, "Requested format is not available"@)
    ||| contains(err, "Sign in to confirm"@)
}

/// What to do after a failed run.
#[derive(Debug, Clone, Copy, PartialEq, Eq, Structural)]
pub enum RetryDecision {
    /// Run the downloader again.
    Retry,
    /// Report the error.
    GiveUp,
}

/// Whether the failure `err` may go away on a new run.
pub fn is_retryable(err: &str) -> (b: bool)
    ensures
        b == retryable(err@),
{
    let e = chars_of(err);
    let a = chars_of("403");
    let b = chars_of("Requested format is not available");
    let c = chars_of("Sign in to confirm");
    contains_exec(e.as_slice(), a.as_slice()) || contains_exec(e.as_slice(), b.as_slice())
        || contains_exec(e.as_slice(), c.as_slice())
}

/// The decision after run number `attempt` (counted from 0) failed with
/// `err`: give up after the last allowed run or on a failure that a new run
/// cannot help, retry otherwise. A retry always leaves room for one more run,
/// so the downloader never runs more than `MAX_ATTEMPTS` times.
pub fn after_failed_attempt(attempt: u32, err: &str) -> (d: RetryDecision)
    requires
        attempt < MAX_ATTEMPTS,
    ensures
        (d == RetryDecision::GiveUp) == (attempt + 1 == MAX_ATTEMPTS || !retryable(err@)),
        d == RetryDecision::Retry ==> attempt + 1 < MAX_ATTEMPTS,
{
    if attempt + 1 == MAX_ATTEMPTS || !is_retryable(err) {
        RetryDecision::GiveUp
    } else {
        RetryDecision::Retry
    }
}

/// A failure whose text mentions `403`, `Requested format is not available` or
/// `Sign in to confirm` anywhere (before and after it any texts `a`, `b`) may
/// go away on a new run.
pub proof fn law_retryable_anywhere(a: Seq<char>, b: Seq<char>)
    ensures
        retryable(a + "403"@ + b),
        retryable(a + "Requested format is not available"@ + b),
        retryable(a + "Sign in to confirm"@ + b),
{
    let l1 = "403"@;
    let l2 = "Requested format is not available"@;
    let l3 = "Sign in to confirm"@;
    assert((a + l1 + b).subrange(a.len() as int, (a.len() + l1.len()) as int) =~= l1);
    assert((a + l2 + b).subrange(a.len() as int, (a.len() + l2.len()) as int) =~= l2);
    assert((a + l3 + b).subrange(a.len() as int, (a.len() + l3.len()) as int) =~= l3);
    assert(occurs_at(a + l1 + b, l1, a.len() as int));
    assert(occurs_at(a + l2 + b, l2, a.len() as int));
    assert(occurs_at(a + l3 + b, l3, a.len() as int));
}

/// A failure whose text mentions none of `403`, `Requested format is not
/// available` and `Sign in to confirm` is not retried.
pub proof fn law_not_retryable_without_markers(err: Seq<char>)
    requires
        forall|j: int|
            #![trigger err.subrange(j, j + "403"@.len())]
            0 <= j ==> (j + "403"@.len() > err.len() || err.subrange(j, j + "403"@.len()) != "403"@) && (j
                + "Requested format is not available"@.len() > err.len() || err.subrange(
                j,
                j + "Requested format is not available"@.len(),
            ) != "Requested format is not available"@) && (j + "Sign in to confirm"@.len() > err.len()
                || err.subrange(j, j + "Sign in to confirm"@.len()) != "Sign in to confirm"@),
    ensures
        !retryable(err),
{
    if contains(err, "403"@) {
        let i = choose|i: int| occurs_at(err, "403"@, i);
        assert(err.subrange(i, i + "403"@.len()) == "403"@);
    }
    if contains(err, "Requested format is not available"@) {
        let i = choose|i: int| occurs_at(err, "Requested format is not available"@, i);
        assert(err.subrange(i, i + "403"@.len()) == err.subrange(i, i + "403"@.len()));
    }
    if contains(err, "Sign in to confirm"@) {
        let i = choose|i: int| occurs_at(err, "Sign in to confirm"@, i);
        assert(err.subrange(i, i + "403"@.len()) == err.subrange(i, i + "403"@.len()));
    }
}

/// The message when the run succeeded but left no file of the expected kind.
pub fn missing_output_message(extension: &str) -> (r: String)
    ensures
        r@ == "Файл не был создан после обработки утилитой ("@ + extension@ + ")"@,
{
    concat3("Файл не был создан после обработки утилитой (", extension, ")")
}

// ---------------------------------------------------------------------------
// Metadata records
// ---------------------------------------------------------------------------

/// Title and channel of a YouTube video, as its oEmbed answer gives them.
pub struct YoutubeOembed {
    pub title: String,
    pub author_name: String,
}

/// An optional text, empty when absent.
pub open spec fn or_empty(o: Option<Seq<char>>) -> Seq<char> {
    match o {
        Some(s) => s,
        None => Seq::empty(),
    }
}

/// An optional string, empty when absent.
pub fn unwrap_or_empty(o: Option<String>) -> (r: String)
    ensures
        r@ == or_empty(opt_seq(o)),
{
    match o {
        Some(s) => s,
        None => String::new(),
    }
}

/// The oEmbed record from its `title` and `author_name` fields (each empty
/// when missing or not text).
pub fn oembed_from_fields(title: Option<String>, author_name: Option<String>) -> (r: YoutubeOembed)
    ensures
        r.title@ == or_empty(opt_seq(title)),
        r.author_name@ == or_empty(opt_seq(author_name)),
{
    YoutubeOembed { title: unwrap_or_empty(title), author_name: unwrap_or_empty(author_name) }
}

/// One entry of a playlist or search listing.
pub struct PlaylistEntry {
    pub url: String,
    pub title: String,
}

/// The address of a listed entry: its `url`, else its `webpage_url`, else the
/// watch page of its `id`; none when it has none of them.
pub open spec fn entry_url_spec(url: Option<Seq<char>>, webpage_url: Option<Seq<char>>, id: Option<Seq<char>>) -> Option<Seq<char>> {
    match url {
        Some(u) => Some(u),
        None => match webpage_url {
            Some(w) => Some(w),
            None => match id {
                Some(i) => Some("https://www.youtube.com/watch?v="@ + i),
                None => None,
            },
        },
    }
}

/// The entry for one listed item, from its `url`, `webpage_url`, `id` and
/// `title` fields; none when no address can be made.
pub fn playlist_entry_from_fields(
    url: Option<String>,
    webpage_url: Option<String>,
    id: Option<String>,
    title: Option<String>,
) -> (r: Option<PlaylistEntry>)
    ensures
        r is Some == entry_url_spec(opt_seq(url), opt_seq(webpage_url), opt_seq(id)) is Some,
        r matches Some(e) ==> Some(e.url@) == entry_url_spec(opt_seq(url), opt_seq(webpage_url), opt_seq(id))
            && e.title@ == or_empty(opt_seq(title)),
{
    let address = match url {
        Some(u) => u,
        None => match webpage_url {
            Some(w) => w,
            None => match id {
                Some(i) => concat2("https://www.youtube.com/watch?v=", i.as_str()),
                None => return None,
            },
        },
    };
    Some(PlaylistEntry { url: address, title: unwrap_or_empty(title) })
}

// ---------------------------------------------------------------------------
// The downloader's JSON records
// ---------------------------------------------------------------------------

/// Name for what `serde_json` reads from one line of the downloader's output
/// at `key`: the parser's error text when the line is not JSON, else the string
/// at that key (none when the key is missing or its value is not a string).
pub uninterp spec fn json_string_field(line: Seq<char>, key: Seq<char>) -> Result<Option<Seq<char>>, Seq<char>>;

/// Name for the unsigned integer that `serde_json` reads from a line at `key`
/// (none when the line is not JSON, or the value is missing or not a `u64`).
pub uninterp spec fn json_u64_field(line: Seq<char>, key: Seq<char>) -> Option<u64>;

/// Parses `line` with `serde_json::from_str` into a `Value` and reads the
/// string at `key` with `Value::as_str`, or gives the parse error as text;
/// claims that the result is `json_string_field(line, key)`.
#[verifier::external_body]
pub(crate) fn json_string_field_of(line: &str, key: &str) -> (r: Result<Option<String>, String>)
    ensures
        match r {
            Ok(f) => json_string_field(line@, key@) == Ok::<Option<Seq<char>>, Seq<char>>(opt_seq(f)),
            Err(e) => json_string_field(line@, key@) == Err::<Option<Seq<char>>, Seq<char>>(e@),
        },
{
    match serde_json::from_str::<serde_json::Value>(line) {
        Ok(v) => Ok(v[key].as_str().map(String::from)),
        Err(e) => Err(e.to_string()),
    }
}

/// Parses `line` with `serde_json::from_str` into a `Value` and reads the
/// number at `key` with `Value::as_u64`; claims that the result is
/// `json_u64_field(line, key)`.
#[verifier::external_body]
pub(crate) fn json_u64_field_of(line: &str, key: &str) -> (r: Option<u64>)
    ensures
        r == json_u64_field(line@, key@),
{
    match serde_json::from_str::<serde_json::Value>(line) {
        Ok(v) => v[key].as_u64(),
        Err(_) => None,
    }
}

/// A string field of a JSON line; none when the line is not JSON.
pub open spec fn field_or_none(line: Seq<char>, key: Seq<char>) -> Option<Seq<char>> {
    match json_string_field(line, key) {
        Ok(f) => f,
        Err(_) => None,
    }
}

/// The field read from a line, none when the line did not parse.
fn field_value(r: Result<Option<String>, String>) -> (o: Option<String>)
    ensures
        opt_seq(o) == match r {
            Ok(f) => opt_seq(f),
            Err(_) => None,
        },
{
    match r {
        Ok(f) => f,
        Err(_) => None,
    }
}

/// The listing entry (address, title) of one JSON line: none when the line is
/// not JSON or no address can be made from its `url`, `webpage_url` and `id`.
pub open spec fn entry_of_line(line: Seq<char>) -> Option<(Seq<char>, Seq<char>)> {
    if json_string_field(line, "url"@) is Err {
        None
    } else {
        match entry_url_spec(
            field_or_none(line, "url"@),
            field_or_none(line, "webpage_url"@),
            field_or_none(line, "id"@),
        ) {
            Some(u) => Some((u, or_empty(field_or_none(line, "title"@)))),
            None => None,
        }
    }
}

/// The entries of the first `k` JSON lines, in order, leaving out the lines
/// that give none.
pub open spec fn entries_of_lines(ls: Seq<Seq<char>>, k: int) -> Seq<(Seq<char>, Seq<char>)>
    decreases k,
{
    if k <= 0 || k > ls.len() {
        Seq::empty()
    } else {
        match entry_of_line(ls[k - 1]) {
            Some(e) => entries_of_lines(ls, k - 1).push(e),
            None => entries_of_lines(ls, k - 1),
        }
    }
}

/// The entries of a listing run's output: one per JSON line that parses and
/// has an address.
pub open spec fn listing_entries(stdout: Seq<char>) -> Seq<(Seq<char>, Seq<char>)> {
    let jl = json_lines_in(lines_of(stdout), lines_of(stdout).len() as int);
    entries_of_lines(jl, jl.len() as int)
}

/// Entries as (address, title) pairs.
pub open spec fn entry_views(v: Seq<PlaylistEntry>) -> Seq<(Seq<char>, Seq<char>)> {
    v.map_values(|e: PlaylistEntry| (e.url@, e.title@))
}

/// The entries listed in the output of a listing run (`--flat-playlist
/// --dump-json`): one per line that is a JSON object with an address.
pub fn playlist_entries_from_output(stdout: &str) -> (r: Vec<PlaylistEntry>)
    ensures
        entry_views(r@) == listing_entries(stdout@),
{
    let lines = json_lines(stdout);
    let ghost jl = json_lines_in(lines_of(stdout@), lines_of(stdout@).len() as int);
    let mut r: Vec<PlaylistEntry> = Vec::new();
    let mut k: usize = 0;
    while k < lines.len()
        invariant
            k <= lines@.len(),
            string_views(lines@) == jl,
            entry_views(r@) == entries_of_lines(jl, k as int),
        decreases lines@.len() - k,
    {
        let line = lines[k].as_str();
        assert(line@ == jl[k as int]);
        let ghost before = entry_views(r@);
        match json_string_field_of(line, "url") {
            Err(_) => {},
            Ok(url) => {
                let web = field_value(json_string_field_of(line, "webpage_url"));
                let id = field_value(json_string_field_of(line, "id"));
                let title = field_value(json_string_field_of(line, "title"));
                match playlist_entry_from_fields(url, web, id, title) {
                    Some(e) => {
                        r.push(e);
                        assert(entry_views(r@) =~= before.push((e.url@, e.title@)));
                    },
                    None => {},
                }
            },
        }
        k = k + 1;
    }
    r
}

/// What the downloader's metadata tells of a finished download.
pub struct DownloadInfo {
    pub title: String,
    pub uploader: String,
    pub thumbnail: String,
    pub width: u64,
    pub height: u64,
}

/// A frame size of a download: 0 for audio; for video the number at `key`,
/// 0 when there is none.
pub open spec fn dimension(line: Seq<char>, key: Seq<char>, kind: MediaKind) -> u64 {
    match kind {
        MediaKind::Audio => 0,
        MediaKind::Video => match json_u64_field(line, key) {
            Some(n) => n,
            None => 0,
        },
    }
}

/// What a download run's output gives: from its last JSON line the title,
/// uploader and thumbnail (each empty when missing) and the frame size; an
/// error when there is no such line or it is not JSON.
pub open spec fn download_info_spec(stdout: Seq<char>, kind: MediaKind) -> Result<
    (Seq<char>, Seq<char>, Seq<char>, u64, u64),
    Seq<char>,
> {
    match last_json_in(lines_of(stdout), lines_of(stdout).len() as int) {
        None => Err("yt-dlp не вернул JSON с метаданными"@),
        Some(line) => match json_string_field(line, "title"@) {
            Err(e) => Err("Не удалось распарсить JSON от yt-dlp: "@ + e),
            Ok(t) => Ok(
                (
                    or_empty(t),
                    or_empty(field_or_none(line, "uploader"@)),
                    or_empty(field_or_none(line, "thumbnail"@)),
                    dimension(line, "width"@, kind),
                    dimension(line, "height"@, kind),
                ),
            ),
        },
    }
}

/// The frame size at `key`, as `dimension` says.
fn dimension_of(line: &str, key: &str, kind: MediaKind) -> (n: u64)
    ensures
        n == dimension(line@, key@, kind),
{
    match kind {
        MediaKind::Audio => 0,
        MediaKind::Video => match json_u64_field_of(line, key) {
            Some(n) => n,
            None => 0,
        },
    }
}

/// The metadata of a finished download of kind `kind`, from the downloader's
/// output.
pub fn download_info_from_output(stdout: &str, kind: MediaKind) -> (r: Result<DownloadInfo, String>)
    ensures
        match r {
            Ok(i) => download_info_spec(stdout@, kind) == Ok::<(Seq<char>, Seq<char>, Seq<char>, u64, u64), Seq<char>>(
                (i.title@, i.uploader@, i.thumbnail@, i.width, i.height),
            ),
            Err(e) => download_info_spec(stdout@, kind) == Err::<(Seq<char>, Seq<char>, Seq<char>, u64, u64), Seq<char>>(e@),
        },
{
    let line = match last_json_line(stdout) {
        Some(l) => l,
        None => return Err(no_metadata_message()),
    };
    let l = line.as_str();
    match json_string_field_of(l, "title") {
        Err(e) => Err(bad_metadata_message(e.as_str())),
        Ok(title) => {
            let uploader = field_value(json_string_field_of(l, "uploader"));
            let thumbnail = field_value(json_string_field_of(l, "thumbnail"));
            Ok(DownloadInfo {
                title: unwrap_or_empty(title),
                uploader: unwrap_or_empty(uploader),
                thumbnail: unwrap_or_empty(thumbnail),
                width: dimension_of(l, "width", kind),
                height: dimension_of(l, "height", kind),
            })
        },
    }
}

} // verus!
