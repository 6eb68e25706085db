//! Per-chat download mode and the registry of tracks that could not be found on
//! the alternate sources (kept until the user picks a fallback).
use vstd::prelude::*;
use std::collections::HashMap;
use crate::text::{chars_of, string_of, copy_range};

verus! {

broadcast use vstd::std_specs::hash::group_hash_axioms;

/// How YouTube links are downloaded in a chat.
#[derive(Debug, Clone, Copy, PartialEq, Eq, Structural)]
pub enum DownloadMode {
    /// Straight from YouTube.
    Direct,
    /// Title from YouTube, audio from SoundCloud or Bandcamp.
    Resolve,
}

/// The download mode of every chat that has switched it.
pub struct ChatModes {
    modes: HashMap<i64, DownloadMode>,
}

impl View for ChatModes {
    type V = Map<i64, DownloadMode>;

    closed spec fn view(&self) -> Map<i64, DownloadMode> {
        self.modes@
    }
}

/// The mode of `chat`: the stored one, `Direct` for a chat never seen.
pub open spec fn mode_of(m: Map<i64, DownloadMode>, chat: i64) -> DownloadMode {
    if m.contains_key(chat) {
        m[chat]
    } else {
        DownloadMode::Direct
    }
}

/// The mode that a toggle stores: the other mode than the one the chat reads
/// (so the first toggle of a chat never seen turns on `Resolve`).
pub open spec fn toggled_mode(m: Map<i64, DownloadMode>, chat: i64) -> DownloadMode {
    if mode_of(m, chat) == DownloadMode::Direct {
        DownloadMode::Resolve
    } else {
        DownloadMode::Direct
    }
}

impl ChatModes {
    /// No chat has a stored mode.
    pub fn new() -> (r: ChatModes)
        ensures
            r@ == Map::<i64, DownloadMode>::empty(),
    {
        ChatModes { modes: HashMap::new() }
    }
}

/// The download mode of `chat_id` (`Direct` unless it was toggled).
pub fn get_mode(modes: &ChatModes, chat_id: i64) -> (m: DownloadMode)
    ensures
        m == mode_of(modes@, chat_id),
{
    match modes.modes.get(&chat_id) {
        Some(m) => *m,
        None => DownloadMode::Direct,
    }
}

/// Switches the mode of `chat_id` and returns the mode now stored.
pub fn toggle_mode(modes: &mut ChatModes, chat_id: i64) -> (m: DownloadMode)
    ensures
        m == toggled_mode(old(modes)@, chat_id),
        final(modes)@ == old(modes)@.insert(chat_id, m),
{
    let new_mode = match modes.modes.get(&chat_id) {
        Some(DownloadMode::Resolve) => DownloadMode::Direct,
        _ => DownloadMode::Resolve,
    };
    modes.modes.insert(chat_id, new_mode);
    new_mode
}

/// After a toggle the chat reads back the mode that the toggle returned, and
/// every other chat keeps its mode.
pub proof fn law_toggle_then_get(m: Map<i64, DownloadMode>, chat: i64, other: i64)
    requires
        other != chat,
    ensures
        mode_of(m.insert(chat, toggled_mode(m, chat)), chat) == toggled_mode(m, chat),
        mode_of(m.insert(chat, toggled_mode(m, chat)), other) == mode_of(m, other),
{
}

/// A toggle flips the mode that a chat reads, and two toggles give the mode
/// back.
pub proof fn law_toggle_flips(m: Map<i64, DownloadMode>, chat: i64)
    ensures
        mode_of(m.insert(chat, toggled_mode(m, chat)), chat) != mode_of(m, chat),
        ({
            let m1 = m.insert(chat, toggled_mode(m, chat));
            mode_of(m1.insert(chat, toggled_mode(m1, chat)), chat) == mode_of(m, chat)
        }),
{
    let m1 = m.insert(chat, toggled_mode(m, chat));
    assert(m1.contains_key(chat));
    match mode_of(m, chat) {
        DownloadMode::Direct => {},
        DownloadMode::Resolve => {},
    }
}

// ---------------------------------------------------------------------------
// Problem tracks
// ---------------------------------------------------------------------------

/// A track that no alternate source had, waiting for the user's choice.
#[derive(Debug, Clone)]
pub struct ProblemTrack {
    pub url: String,
    pub chat_id: i64,
    pub context: String,
}

/// What a problem track holds, as plain values.
pub open spec fn track_view(t: ProblemTrack) -> (Seq<char>, i64, Seq<char>) {
    (t.url@, t.chat_id, t.context@)
}

/// Problem tracks by the short id handed to the user.
pub struct ProblemTracks {
    entries: Vec<(String, ProblemTrack)>,
}

/// Some entry has the key `k`.
pub open spec fn has_key(s: Seq<(String, ProblemTrack)>, k: Seq<char>) -> bool {
    exists|i: int| 0 <= i < s.len() && (#[trigger] s[i]).0@ == k
}

/// The index of an entry with key `k`.
pub open spec fn key_index(s: Seq<(String, ProblemTrack)>, k: Seq<char>) -> int {
    choose|i: int| 0 <= i < s.len() && (#[trigger] s[i]).0@ == k
}

/// No two entries share a key.
pub open spec fn keys_distinct(s: Seq<(String, ProblemTrack)>) -> bool {
    forall|i: int, j: int| 0 <= i < s.len() && 0 <= j < s.len() && i != j ==> (#[trigger] s[i]).0@
        != (#[trigger] s[j]).0@
}

/// The map that the entries stand for.
pub open spec fn entries_map(s: Seq<(String, ProblemTrack)>) -> Map<Seq<char>, (Seq<char>, i64, Seq<char>)> {
    Map::new(|k: Seq<char>| has_key(s, k), |k: Seq<char>| track_view(s[key_index(s, k)].1))
}

impl View for ProblemTracks {
    type V = Map<Seq<char>, (Seq<char>, i64, Seq<char>)>;

    closed spec fn view(&self) -> Map<Seq<char>, (Seq<char>, i64, Seq<char>)> {
        entries_map(self.entries@)
    }
}

impl ProblemTracks {
    /// The registry is well formed: no id occurs twice.
    pub closed spec fn wf(&self) -> bool {
        keys_distinct(self.entries@)
    }

    /// An empty registry.
    pub fn new() -> (r: ProblemTracks)
        ensures
            r.wf(),
            r@ == Map::<Seq<char>, (Seq<char>, i64, Seq<char>)>::empty(),
    {
        let r = ProblemTracks { entries: Vec::new() };
        assert(entries_map(r.entries@) =~= Map::empty());
        r
    }

    /// The index of the entry whose id is `pid`.
    fn position(&self, pid: &String) -> (r: Option<usize>)
        requires
            self.wf(),
        ensures
            r matches Some(i) ==> i < self.entries@.len() && self.entries@[i as int].0@ == pid@,
            r is None ==> !has_key(self.entries@, pid@),
    {
        let mut i: usize = 0;
        while i < self.entries.len()
            invariant
                i <= self.entries@.len(),
                forall|j: int| 0 <= j < i ==> (#[trigger] self.entries@[j]).0@ != pid@,
            decreases self.entries@.len() - i,
        {
            if self.entries[i].0 == *pid {
                return Some(i);
            }
            i = i + 1;
        }
        None
    }
}

/// With distinct keys, the entry found for a key is the one at any index that
/// holds it.
proof fn lemma_key_index(s: Seq<(String, ProblemTrack)>, i: int)
    requires
        keys_distinct(s),
        0 <= i < s.len(),
    ensures
        has_key(s, s[i].0@),
        key_index(s, s[i].0@) == i,
{
    assert(has_key(s, s[i].0@));
}

/// A lower-case hexadecimal digit.
pub open spec fn is_lower_hex(c: char) -> bool {
    ('0' <= c && c <= '9') || ('a' <= c && c <= 'f')
}

/// The text of a random (version 4) UUID in hyphenated lower-case form:
/// 32 hex digits in groups of 8-4-4-4-12, the version digit `4`, and a variant
/// digit among `8`, `9`, `a`, `b`.
pub open spec fn uuid_v4_shape(s: Seq<char>) -> bool {
    &&& s.len() == 36
    &&& forall|i: int|
        0 <= i < 36 ==> if i == 8 || i == 13 || i == 18 || i == 23 {
            s[i] == '-'
        } else {
            is_lower_hex(s[i])
        }
    &&& s[14] == '4'
    &&& (s[19] == '8' || s[19] == '9' || s[19] == 'a' || s[19] == 'b')
}

/// A problem id: the first ten characters of such a UUID text, that is eight
/// hex digits, a hyphen and one more hex digit.
pub open spec fn problem_id_shape(s: Seq<char>) -> bool {
    &&& s.len() == 10
    &&& forall|i: int| 0 <= i < 10 ==> if i == 8 {
        s[i] == '-'
    } else {
        is_lower_hex(s[i])
    }
}

/// A new problem id: ten characters of a fresh random UUID.
fn new_problem_id() -> (r: String)
    ensures
        problem_id_shape(r@),
{
    let u = uuid_v4_text();
    let cs = chars_of(u.as_str());
    let head = copy_range(cs.as_slice(), 0, 10);
    let r = string_of(head.as_slice());
    assert forall|i: int| 0 <= i < 10 implies (if i == 8 {
        r@[i] == '-'
    } else {
        is_lower_hex(r@[i])
    }) by {
        assert(r@[i] == u@[i]);
    }
    r
}

/// Calls `uuid::Uuid::new_v4` and formats it with `to_string`: the hyphenated
/// lower-case form of a random UUID with the version and variant bits of a
/// version 4 UUID set. The value is random; only its shape is stated.
#[verifier::external_body]
pub(crate) fn uuid_v4_text() -> (r: String)
    ensures
        uuid_v4_shape(r@),
{
    uuid::Uuid::new_v4().to_string()
}

/// Stores `track` under `pid`, replacing what `pid` had.
fn insert_track(tracks: &mut ProblemTracks, pid: String, track: ProblemTrack)
    requires
        old(tracks).wf(),
    ensures
        final(tracks).wf(),
        final(tracks)@ == old(tracks)@.insert(pid@, track_view(track)),
{
    let ghost key = pid@;
    let ghost tv = track_view(track);
    let ghost old_s = tracks.entries@;
    match tracks.position(&pid) {
        Some(i) => {
            tracks.entries.set(i, (pid, track));
            let ghost s = tracks.entries@;
            assert(keys_distinct(s)) by {
                assert forall|a: int, b: int|
                    0 <= a < s.len() && 0 <= b < s.len() && a != b implies (#[trigger] s[a]).0@
                    != (#[trigger] s[b]).0@ by {
                    if a != i && b != i {
                        assert(s[a] == old_s[a] && s[b] == old_s[b]);
                    } else if a == i {
                        assert(s[b] == old_s[b]);
                        assert(old_s[i as int].0@ == key);
                    } else {
                        assert(s[a] == old_s[a]);
                        assert(old_s[i as int].0@ == key);
                    }
                }
            }
            assert(entries_map(s) =~= entries_map(old_s).insert(key, tv)) by {
                assert forall|k: Seq<char>| #[trigger] has_key(s, k) == (has_key(old_s, k) || k == key) by {
                    if has_key(old_s, k) {
                        let j = choose|j: int| 0 <= j < old_s.len() && (#[trigger] old_s[j]).0@ == k;
                        if j != i {
                            assert(s[j] == old_s[j]);
                        } else {
                            assert(s[i as int].0@ == k);
                        }
                    }
                    if has_key(s, k) {
                        let j = choose|j: int| 0 <= j < s.len() && (#[trigger] s[j]).0@ == k;
                        if j != i {
                            assert(s[j] == old_s[j]);
                        }
                    }
                    assert(s[i as int].0@ == key);
                }
                assert forall|k: Seq<char>| has_key(s, k) implies track_view(s[key_index(s, k)].1)
                    == entries_map(old_s).insert(key, tv)[k] by {
                    let j = key_index(s, k);
                    lemma_key_index(s, j);
                    if k == key {
                        lemma_key_index(s, i as int);
                    } else {
                        assert(j != i);
                        assert(s[j] == old_s[j]);
                        lemma_key_index(old_s, j);
                    }
                }
            }
        },
        None => {
            tracks.entries.push((pid, track));
            let ghost s = tracks.entries@;
            assert(forall|j: int| 0 <= j < old_s.len() ==> s[j] == old_s[j]);
            assert(keys_distinct(s)) by {
                assert forall|a: int, b: int|
                    0 <= a < s.len() && 0 <= b < s.len() && a != b implies (#[trigger] s[a]).0@
                    != (#[trigger] s[b]).0@ by {
                    if a == old_s.len() {
                        assert(!has_key(old_s, key));
                        assert(s[b] == old_s[b]);
                    } else if b == old_s.len() {
                        assert(!has_key(old_s, key));
                        assert(s[a] == old_s[a]);
                    }
                }
            }
            assert(entries_map(s) =~= entries_map(old_s).insert(key, tv)) by {
                let n = old_s.len() as int;
                assert forall|k: Seq<char>| #[trigger] has_key(s, k) == (has_key(old_s, k) || k == key) by {
                    if has_key(old_s, k) {
                        let j = choose|j: int| 0 <= j < old_s.len() && (#[trigger] old_s[j]).0@ == k;
                        assert(s[j] == old_s[j]);
                    }
                    if has_key(s, k) {
                        let j = choose|j: int| 0 <= j < s.len() && (#[trigger] s[j]).0@ == k;
                        if j < n {
                            assert(s[j] == old_s[j]);
                        }
                    }
                    assert(s[n].0@ == key);
                }
                assert forall|k: Seq<char>| has_key(s, k) implies track_view(s[key_index(s, k)].1)
                    == entries_map(old_s).insert(key, tv)[k] by {
                    let j = key_index(s, k);
                    lemma_key_index(s, j);
                    if k == key {
                        lemma_key_index(s, n);
                    } else {
                        assert(j != n);
                        assert(s[j] == old_s[j]);
                        lemma_key_index(old_s, j);
                    }
                }
            }
        },
    }
}

/// Registers a track that could not be found and returns the fresh id under
/// which it is kept.
pub fn register_problem_track(tracks: &mut ProblemTracks, url: String, chat_id: i64, context: String) -> (pid: String)
    requires
        old(tracks).wf(),
    ensures
        final(tracks).wf(),
        problem_id_shape(pid@),
        final(tracks)@ == old(tracks)@.insert(pid@, (url@, chat_id, context@)),
{
    let pid = new_problem_id();
    let key = pid.clone();
    insert_track(tracks, key, ProblemTrack { url, chat_id, context });
    pid
}

/// Takes out the track registered under `pid`, if any.
pub fn pop_problem_track(tracks: &mut ProblemTracks, pid: &str) -> (r: Option<ProblemTrack>)
    requires
        old(tracks).wf(),
    ensures
        final(tracks).wf(),
        final(tracks)@ == old(tracks)@.remove(pid@),
        r matches Some(t) ==> old(tracks)@.contains_key(pid@) && track_view(t) == old(tracks)@[pid@],
        r is None ==> !old(tracks)@.contains_key(pid@),
{
    let key = String::from_str(pid);
    let ghost old_s = tracks.entries@;
    match tracks.position(&key) {
        Some(i) => {
            let (_, t) = tracks.entries.remove(i);
            let ghost s = tracks.entries@;
            assert(forall|j: int| 0 <= j < i ==> s[j] == old_s[j]);
            assert(forall|j: int| i <= j < s.len() ==> s[j] == old_s[j + 1]);
            proof {
                lemma_key_index(old_s, i as int);
            }
            assert(keys_distinct(s)) by {
                assert forall|a: int, b: int|
                    0 <= a < s.len() && 0 <= b < s.len() && a != b implies (#[trigger] s[a]).0@
                    != (#[trigger] s[b]).0@ by {
                    let a1 = if a < i { a } else { a + 1 };
                    let b1 = if b < i { b } else { b + 1 };
                    assert(s[a] == old_s[a1] && s[b] == old_s[b1]);
                }
            }
            assert(entries_map(s) =~= entries_map(old_s).remove(pid@)) by {
                assert forall|k: Seq<char>| #[trigger] has_key(s, k) == (has_key(old_s, k) && k != pid@) by {
                    if has_key(old_s, k) && k != pid@ {
                        let j = choose|j: int| 0 <= j < old_s.len() && (#[trigger] old_s[j]).0@ == k;
                        assert(j != i);
                        if j < i {
                            assert(s[j] == old_s[j]);
                        } else {
                            assert(s[j - 1] == old_s[j]);
                        }
                    }
                    if has_key(s, k) {
                        let j = choose|j: int| 0 <= j < s.len() && (#[trigger] s[j]).0@ == k;
                        let j1 = if j < i { j } else { j + 1 };
                        assert(s[j] == old_s[j1]);
                        assert(j1 != i);
                    }
                }
                assert forall|k: Seq<char>| has_key(s, k) implies track_view(s[key_index(s, k)].1)
                    == entries_map(old_s)[k] by {
                    let j = key_index(s, k);
                    lemma_key_index(s, j);
                    let j1 = if j < i { j } else { j + 1 };
                    assert(s[j] == old_s[j1]);
                    lemma_key_index(old_s, j1);
                }
            }
            Some(t)
        },
        None => {
            assert(entries_map(old_s) =~= entries_map(old_s).remove(pid@));
            None
        },
    }
}

/// Registering or taking out a track under another id leaves the track kept
/// under `pid` as it is; so, whatever other registrations and pops come in
/// between, taking out `pid` gives back what was registered under it, once.
pub proof fn law_other_ids_keep_track(
    m: Map<Seq<char>, (Seq<char>, i64, Seq<char>)>,
    pid: Seq<char>,
    other: Seq<char>,
    track: (Seq<char>, i64, Seq<char>),
)
    requires
        other != pid,
    ensures
        m.insert(other, track).contains_key(pid) == m.contains_key(pid),
        m.remove(other).contains_key(pid) == m.contains_key(pid),
        m.contains_key(pid) ==> m.insert(other, track)[pid] == m[pid] && m.remove(other)[pid] == m[pid],
{
}

/// A track registered under an id is what taking out that id gives back, and
/// afterwards the id is gone while every other id keeps its track.
pub proof fn law_register_then_pop(
    m: Map<Seq<char>, (Seq<char>, i64, Seq<char>)>,
    pid: Seq<char>,
    track: (Seq<char>, i64, Seq<char>),
    other: Seq<char>,
)
    requires
        other != pid,
    ensures
        m.insert(pid, track).contains_key(pid),
        m.insert(pid, track)[pid] == track,
        !m.insert(pid, track).remove(pid).contains_key(pid),
        m.insert(pid, track).remove(pid).contains_key(other) == m.contains_key(other),
        m.contains_key(other) ==> m.insert(pid, track).remove(pid)[other] == m[other],
{
}

} // verus!
