//! Finding a track on the alternate sources (SoundCloud, Bandcamp): how a
//! candidate's title is scored against the wanted artist and title, which
//! candidate is taken, and which searches are made.
use vstd::prelude::*;
use crate::text::{
    chars_of, string_of, copy_range, trim, trimmed, string_views, owned, concat2, concat3, decimal,
    decimal_exec,
};
use vstd::string::StringExecFns;
use crate::downloader::{PlaylistEntry, opt_seq, or_empty};

verus! {

broadcast use {
    vstd::string::group_string_axioms,
    vstd::set::group_set_axioms,
    vstd::seq_lib::group_seq_properties,
    vstd::seq_lib::seq_to_set_is_finite,
};

/// The track was on none of the alternate sources.
#[derive(Debug)]
pub struct TrackNotFoundError {
    pub youtube_url: String,
}

// ---------------------------------------------------------------------------
// Tokens
// ---------------------------------------------------------------------------

/// Name for `char::is_alphabetic`: the character has the Unicode `Alphabetic`
/// property.
pub uninterp spec fn is_alphabetic_char(c: char) -> bool;

/// Name for `str::to_lowercase`: the Unicode lower-case mapping of a text.
pub uninterp spec fn lowercase(s: Seq<char>) -> Seq<char>;

/// Calls `char::is_alphabetic`; claims that the answer is `is_alphabetic_char(c)`.
#[verifier::external_body]
fn alphabetic(c: char) -> (b: bool)
    ensures
        b == is_alphabetic_char(c),
{
    c.is_alphabetic()
}

/// Calls `str::to_lowercase`; claims that the result is `lowercase(s)`.
#[verifier::external_body]
fn to_lowercase(s: &str) -> (r: String)
    ensures
        r@ == lowercase(s@),
{
    s.to_lowercase()
}

/// Characters that belong to a word: letters, `_` and `'`.
pub open spec fn is_token_char(c: char) -> bool {
    is_alphabetic_char(c) || c == '_' || c == '\''
}

/// The first index at or after `i` holding a character that is not part of a
/// word, or the length of `s`.
pub open spec fn next_break(s: Seq<char>, i: int) -> int
    decreases s.len() - i,
{
    if i < 0 || i >= s.len() {
        s.len() as int
    } else if !is_token_char(s[i]) {
        i
    } else {
        next_break(s, i + 1)
    }
}

/// The pieces of `s[i..]` between characters that are not part of a word
/// (`str::split` with a predicate; empty pieces included).
pub open spec fn pieces_from(s: Seq<char>, i: int) -> Seq<Seq<char>>
    decreases s.len() + 1 - i,
{
    let j = next_break(s, i);
    if i < 0 || i > s.len() || j < i {
        Seq::empty()
    } else if j >= s.len() {
        seq![s.subrange(i, s.len() as int)]
    } else {
        seq![s.subrange(i, j)] + pieces_from(s, j + 1)
    }
}

/// The pieces of `s` between characters that are not part of a word.
pub open spec fn pieces(s: Seq<char>) -> Seq<Seq<char>> {
    pieces_from(s, 0)
}

/// The length filter on pieces: `!n > 1` (bitwise not) on the piece's
/// character count `n`, which holds for every count below `usize::MAX - 1`.
pub open spec fn keep_piece(p: Seq<char>) -> bool {
    !(p.len() as usize) > 1
}

/// The lower-cased pieces among the first `k` that pass the length filter.
pub open spec fn tokens_upto(ps: Seq<Seq<char>>, k: int) -> Set<Seq<char>>
    decreases k,
{
    if k <= 0 || k > ps.len() {
        Set::empty()
    } else if keep_piece(ps[k - 1]) {
        tokens_upto(ps, k - 1).insert(lowercase(ps[k - 1]))
    } else {
        tokens_upto(ps, k - 1)
    }
}

/// The set of lower-cased words of `s`.
pub open spec fn tokens(s: Seq<char>) -> Set<Seq<char>> {
    tokens_upto(pieces(s), pieces(s).len() as int)
}

/// `next_break`, computed.
fn next_break_exec(s: &[char], i: usize) -> (r: usize)
    requires
        i <= s@.len(),
    ensures
        r as int == next_break(s@, i as int),
        i <= r <= s@.len(),
{
    let mut j = i;
    while j < s.len() && (alphabetic(s[j]) || s[j] == '_' || s[j] == '\'')
        invariant
            i <= j <= s@.len(),
            next_break(s@, i as int) == next_break(s@, j as int),
        decreases s@.len() - j,
    {
        j = j + 1;
    }
    j
}

/// The pieces of `s`.
fn pieces_exec(s: &[char]) -> (r: Vec<Vec<char>>)
    ensures
        crate::text::views(r@) == pieces(s@),
{
    let mut r: Vec<Vec<char>> = Vec::new();
    let mut i: usize = 0;
    loop
        invariant
            i <= s@.len(),
            crate::text::views(r@) + pieces_from(s@, i as int) == pieces(s@),
        decreases s@.len() + 1 - i,
    {
        let j = next_break_exec(s, i);
        let piece = copy_range(s, i, j);
        let ghost old_r = crate::text::views(r@);
        r.push(piece);
        assert(crate::text::views(r@) =~= old_r.push(piece@));
        if j >= s.len() {
            assert(old_r + pieces_from(s@, i as int) =~= crate::text::views(r@));
            return r;
        }
        assert(old_r + pieces_from(s@, i as int) =~= crate::text::views(r@) + pieces_from(
            s@,
            j + 1,
        ));
        i = j + 1;
    }
}

/// Whether the string `x` is among `v`.
fn contains_string(v: &Vec<String>, x: &String) -> (b: bool)
    ensures
        b == string_views(v@).contains(x@),
{
    let mut i: usize = 0;
    while i < v.len()
        invariant
            i <= v@.len(),
            forall|j: int| 0 <= j < i ==> v@[j]@ != x@,
        decreases v@.len() - i,
    {
        if v[i] == *x {
            assert(string_views(v@)[i as int] == x@);
            return true;
        }
        i = i + 1;
    }
    assert(!string_views(v@).contains(x@)) by {
        if string_views(v@).contains(x@) {
            let j = choose|j: int| 0 <= j < string_views(v@).len() && string_views(v@)[j] == x@;
            assert(v@[j]@ == x@);
        }
    }
    false
}

/// The length filter, as written: `!n > 1` on the character count.
fn keep_count(n: usize) -> (b: bool)
    ensures
        b == (!n > 1),
{
    !n > 1
}

/// Adds `x` to `v` unless it is already there.
fn add_distinct(v: &mut Vec<String>, x: String)
    requires
        string_views(old(v)@).no_duplicates(),
    ensures
        string_views(final(v)@).no_duplicates(),
        string_views(final(v)@).to_set() == string_views(old(v)@).to_set().insert(x@),
{
    if !contains_string(v, &x) {
        let ghost before = string_views(v@);
        v.push(x);
        assert(string_views(v@) =~= before.push(x@));
        assert(string_views(v@).to_set() =~= before.to_set().insert(x@));
    } else {
        assert(string_views(v@).to_set() =~= string_views(v@).to_set().insert(x@));
    }
}

/// The distinct lower-cased words of `text` (each word once).
pub fn tokenize(text: &str) -> (r: Vec<String>)
    ensures
        string_views(r@).no_duplicates(),
        string_views(r@).to_set() == tokens(text@),
{
    let cs = chars_of(text);
    let ps = pieces_exec(cs.as_slice());
    let ghost pv = pieces(text@);
    let mut r: Vec<String> = Vec::new();
    let mut k: usize = 0;
    assert(string_views(r@).to_set() =~= Set::empty());
    while k < ps.len()
        invariant
            k <= ps@.len(),
            crate::text::views(ps@) == pv,
            pv.len() == ps@.len(),
            string_views(r@).no_duplicates(),
            string_views(r@).to_set() == tokens_upto(pv, k as int),
        decreases ps@.len() - k,
    {
        assert(ps@[k as int]@ == pv[k as int]);
        if keep_count(ps[k].len()) {
            let piece = string_of(ps[k].as_slice());
            let lower = to_lowercase(piece.as_str());
            add_distinct(&mut r, lower);
        }
        k = k + 1;
    }
    r
}

// ---------------------------------------------------------------------------
// Scores
// ---------------------------------------------------------------------------

/// How well a candidate title matches: `matched` of the `wanted` words are in
/// it. The score is `matched / wanted`, and 0 when nothing is wanted.
#[derive(Debug, Clone, Copy, PartialEq, Eq, Structural)]
pub struct MatchScore {
    pub matched: usize,
    pub wanted: usize,
}

/// The words wanted for an artist and a title.
pub open spec fn wanted_words(artist: Seq<char>, title: Seq<char>) -> Set<Seq<char>> {
    tokens(artist).union(tokens(title))
}

/// The score of `candidate` for `artist` and `title`.
pub open spec fn score_spec(candidate: Seq<char>, artist: Seq<char>, title: Seq<char>) -> (int, int) {
    (
        wanted_words(artist, title).intersect(tokens(candidate)).len() as int,
        wanted_words(artist, title).len() as int,
    )
}

/// The denominator of a score, 1 when nothing is wanted.
pub open spec fn denominator(s: (int, int)) -> int {
    if s.1 == 0 {
        1
    } else {
        s.1
    }
}

/// Score `a` is higher than score `b`.
pub open spec fn beats(a: (int, int), b: (int, int)) -> bool {
    a.0 * denominator(b) > b.0 * denominator(a)
}

/// The score is at least one half (the bar that a candidate must reach).
pub open spec fn good_enough(a: (int, int)) -> bool {
    2 * a.0 >= denominator(a)
}

/// The view of a score.
pub open spec fn score_view(s: MatchScore) -> (int, int) {
    (s.matched as int, s.wanted as int)
}

/// The words wanted for `artist` and `title`, each once.
fn wanted_list(artist: &str, title: &str) -> (r: Vec<String>)
    ensures
        string_views(r@).no_duplicates(),
        string_views(r@).to_set() == wanted_words(artist@, title@),
{
    let mut w = tokenize(artist);
    let t = tokenize(title);
    let ghost a = string_views(w@).to_set();
    let mut k: usize = 0;
    while k < t.len()
        invariant
            k <= t@.len(),
            string_views(w@).no_duplicates(),
            string_views(w@).to_set() == a.union(string_views(t@).take(k as int).to_set()),
        decreases t@.len() - k,
    {
        let x = t[k].clone();
        assert(string_views(t@).take(k + 1) =~= string_views(t@).take(k as int).push(x@));
        add_distinct(&mut w, x);
        assert(a.union(string_views(t@).take(k + 1).to_set()) =~= a.union(
            string_views(t@).take(k as int).to_set(),
        ).insert(x@));
        k = k + 1;
    }
    assert(string_views(t@).take(t@.len() as int) =~= string_views(t@));
    assert(string_views(w@).to_set() =~= wanted_words(artist@, title@));
    w
}

/// The score of a candidate against the wanted words `wanted`.
fn score_against(wanted: &Vec<String>, candidate: &str) -> (r: MatchScore)
    requires
        string_views(wanted@).no_duplicates(),
    ensures
        r.wanted == wanted@.len(),
        r.matched as int == string_views(wanted@).to_set().intersect(tokens(candidate@)).len(),
{
    let found = tokenize(candidate);
    let ghost w = string_views(wanted@);
    let ghost f = string_views(found@).to_set();
    let ghost mut common: Seq<Seq<char>> = Seq::empty();
    let mut count: usize = 0;
    let mut k: usize = 0;
    assert(common.to_set() =~= w.take(0).to_set().intersect(f));
    while k < wanted.len()
        invariant
            k <= wanted@.len(),
            w == string_views(wanted@),
            w.no_duplicates(),
            f == string_views(found@).to_set(),
            common.no_duplicates(),
            count == common.len(),
            count <= k,
            common.to_set() == w.take(k as int).to_set().intersect(f),
        decreases wanted@.len() - k,
    {
        let x = &wanted[k];
        assert(w.take(k + 1) =~= w.take(k as int).push(x@));
        if contains_string(&found, x) {
            proof {
                assert(!w.take(k as int).contains(x@)) by {
                    if w.take(k as int).contains(x@) {
                        let j = choose|j: int| 0 <= j < k && w.take(k as int)[j] == x@;
                        assert(w[j] == w[k as int]);
                    }
                }
                assert(!common.contains(x@)) by {
                    if common.contains(x@) {
                        let j = choose|j: int| 0 <= j < common.len() && common[j] == x@;
                        assert(common.to_set().contains(x@));
                    }
                }
                let prev = common;
                common = common.push(x@);
                assert(common.to_set() =~= prev.to_set().insert(x@));
                assert(w.take(k + 1).to_set() =~= w.take(k as int).to_set().insert(x@));
                assert(f.contains(x@));
            }
            count = count + 1;
            assert(common.to_set() =~= w.take(k + 1).to_set().intersect(f));
        } else {
            assert(w.take(k + 1).to_set() =~= w.take(k as int).to_set().insert(x@));
            assert(!f.contains(x@));
            assert(common.to_set() =~= w.take(k + 1).to_set().intersect(f));
        }
        k = k + 1;
    }
    assert(w.take(wanted@.len() as int) =~= w);
    proof {
        common.unique_seq_to_set();
    }
    MatchScore { matched: count, wanted: wanted.len() }
}

/// The score of `candidate_title` for `artist` and `title`: how many of the
/// words of artist and title (lower-cased, each counted once) occur in the
/// candidate, out of how many there are.
pub fn match_score(candidate_title: &str, artist: &str, title: &str) -> (r: MatchScore)
    ensures
        score_view(r) == score_spec(candidate_title@, artist@, title@),
{
    let wanted = wanted_list(artist, title);
    proof {
        string_views(wanted@).unique_seq_to_set();
    }
    score_against(&wanted, candidate_title)
}

/// The words of a text form a finite set.
proof fn lemma_tokens_finite(ps: Seq<Seq<char>>, k: int)
    ensures
        tokens_upto(ps, k).finite(),
    decreases k,
{
    if k > 0 && k <= ps.len() {
        lemma_tokens_finite(ps, k - 1);
    }
}

/// A score lies between 0 and 1: no more words are matched than are wanted;
/// and it does not depend on which of artist and title a word came from, so
/// swapping artist and title gives the same score.
pub proof fn law_score_bounds_and_symmetry(candidate: Seq<char>, artist: Seq<char>, title: Seq<char>)
    ensures
        0 <= score_spec(candidate, artist, title).0 <= score_spec(candidate, artist, title).1,
        score_spec(candidate, artist, title) == score_spec(candidate, title, artist),
{
    lemma_tokens_finite(pieces(artist), pieces(artist).len() as int);
    lemma_tokens_finite(pieces(title), pieces(title).len() as int);
    let w = wanted_words(artist, title);
    assert(w.finite());
    vstd::set_lib::lemma_len_intersect(w, tokens(candidate));
    assert(wanted_words(artist, title) =~= wanted_words(title, artist));
}

/// Whether score `a` is higher than score `b`.
pub fn score_beats(a: MatchScore, b: MatchScore) -> (r: bool)
    ensures
        r == beats(score_view(a), score_view(b)),
{
    let da: u128 = if a.wanted == 0 {
        1
    } else {
        a.wanted as u128
    };
    let db: u128 = if b.wanted == 0 {
        1
    } else {
        b.wanted as u128
    };
    let am = a.matched as u128;
    let bm = b.matched as u128;
    assert(am * db <= 0xffff_ffff_ffff_ffff * 0xffff_ffff_ffff_ffff) by (nonlinear_arith)
        requires
            am <= 0xffff_ffff_ffff_ffff,
            db <= 0xffff_ffff_ffff_ffff,
    ;
    assert(bm * da <= 0xffff_ffff_ffff_ffff * 0xffff_ffff_ffff_ffff) by (nonlinear_arith)
        requires
            bm <= 0xffff_ffff_ffff_ffff,
            da <= 0xffff_ffff_ffff_ffff,
    ;
    am * db > bm * da
}

/// Whether score `a` reaches one half.
pub fn score_good_enough(a: MatchScore) -> (r: bool)
    ensures
        r == good_enough(score_view(a)),
{
    let d: u128 = if a.wanted == 0 {
        1
    } else {
        a.wanted as u128
    };
    2 * (a.matched as u128) >= d
}


// ---------------------------------------------------------------------------
// Choosing a candidate
// ---------------------------------------------------------------------------

/// The score of candidate `i` (candidates that take no part have no title).
pub open spec fn candidate_score(titles: Seq<Option<Seq<char>>>, i: int, artist: Seq<char>, title: Seq<char>) -> (int, int) {
    score_spec(titles[i]->0, artist, title)
}

/// Candidate `i` is the one taken: it takes part, its score reaches one half,
/// no candidate scores higher, and every earlier candidate scores lower.
pub open spec fn is_best(titles: Seq<Option<Seq<char>>>, i: int, artist: Seq<char>, title: Seq<char>) -> bool {
    &&& 0 <= i < titles.len()
    &&& titles[i] is Some
    &&& good_enough(candidate_score(titles, i, artist, title))
    &&& forall|j: int|
        0 <= j < titles.len() && (#[trigger] titles[j]) is Some ==> !beats(
            candidate_score(titles, j, artist, title),
            candidate_score(titles, i, artist, title),
        )
    &&& forall|j: int|
        0 <= j < i && (#[trigger] titles[j]) is Some ==> beats(
            candidate_score(titles, i, artist, title),
            candidate_score(titles, j, artist, title),
        )
}

/// No candidate that takes part reaches one half.
pub open spec fn none_good_enough(titles: Seq<Option<Seq<char>>>, artist: Seq<char>, title: Seq<char>) -> bool {
    forall|j: int|
        0 <= j < titles.len() && (#[trigger] titles[j]) is Some ==> !good_enough(
            candidate_score(titles, j, artist, title),
        )
}

/// Beating is transitive.
proof fn lemma_beats_transitive(a0: int, da: int, b0: int, db: int, c0: int, dc: int)
    by (nonlinear_arith)
    requires
        da > 0,
        db > 0,
        dc > 0,
        a0 * db > b0 * da,
        b0 * dc > c0 * db,
    ensures
        a0 * dc > c0 * da,
{
}

/// A score that does not beat one below one half is below one half too.
proof fn lemma_below_half(a0: int, da: int, b0: int, db: int)
    by (nonlinear_arith)
    requires
        da > 0,
        db > 0,
        a0 >= 0,
        b0 >= 0,
        a0 * db <= b0 * da,
        2 * b0 < db,
    ensures
        2 * a0 < da,
{
}

/// A positive score beats a zero one.
proof fn lemma_beats_zero(a0: int, da: int, db: int)
    by (nonlinear_arith)
    requires
        da > 0,
        db > 0,
        a0 > 0,
    ensures
        a0 * db > 0 * da,
{
}

/// The titles as the selection sees them.
pub open spec fn opt_views(v: Seq<Option<String>>) -> Seq<Option<Seq<char>>> {
    v.map_values(|o: Option<String>| opt_seq(o))
}

/// The index of the candidate taken: the first one with the highest score,
/// when that score reaches one half; candidates without a title take no part.
pub fn best_match_index(titles: &Vec<Option<String>>, artist: &str, title: &str) -> (r: Option<usize>)
    ensures
        r matches Some(i) ==> is_best(opt_views(titles@), i as int, artist@, title@),
        r is None ==> none_good_enough(opt_views(titles@), artist@, title@),
{
    let ghost t = opt_views(titles@);
    let wanted = wanted_list(artist, title);
    proof {
        string_views(wanted@).unique_seq_to_set();
    }
    let mut best: Option<usize> = None;
    let mut best_score = MatchScore { matched: 0, wanted: 0 };
    let mut k: usize = 0;
    while k < titles.len()
        invariant
            k <= titles@.len(),
            t == opt_views(titles@),
            t.len() == titles@.len(),
            string_views(wanted@).no_duplicates(),
            string_views(wanted@).to_set() == wanted_words(artist@, title@),
            wanted@.len() == string_views(wanted@).to_set().len(),
            best is None ==> best_score == (MatchScore { matched: 0, wanted: 0 }) && forall|j: int|
                0 <= j < k && (#[trigger] t[j]) is Some ==> candidate_score(t, j, artist@, title@).0
                    == 0,
            best matches Some(b) ==> b < k && t[b as int] is Some && score_view(best_score)
                == candidate_score(t, b as int, artist@, title@) && (forall|j: int|
                0 <= j < k && (#[trigger] t[j]) is Some ==> !beats(
                    candidate_score(t, j, artist@, title@),
                    candidate_score(t, b as int, artist@, title@),
                )) && (forall|j: int|
                0 <= j < b && (#[trigger] t[j]) is Some ==> beats(
                    candidate_score(t, b as int, artist@, title@),
                    candidate_score(t, j, artist@, title@),
                )),
        decreases titles@.len() - k,
    {
        assert(t[k as int] == opt_seq(titles@[k as int]));
        match &titles[k] {
            Some(cand) => {
                let sc = score_against(&wanted, cand.as_str());
                assert(score_view(sc) == candidate_score(t, k as int, artist@, title@));
                let ghost prev = score_view(best_score);
                if score_beats(sc, best_score) {
                    proof {
                        let sk = candidate_score(t, k as int, artist@, title@);
                        assert(sk.0 >= 0 && sk.1 >= 0);
                        match best {
                            None => {
                                assert forall|j: int|
                                    0 <= j < k && (#[trigger] t[j]) is Some implies beats(
                                    sk,
                                    candidate_score(t, j, artist@, title@),
                                ) by {
                                    let sj = candidate_score(t, j, artist@, title@);
                                    lemma_beats_zero(sk.0, denominator(sk), denominator(sj));
                                }
                            },
                            Some(b) => {
                                let sb = candidate_score(t, b as int, artist@, title@);
                                assert forall|j: int|
                                    0 <= j < k && (#[trigger] t[j]) is Some implies beats(
                                    sk,
                                    candidate_score(t, j, artist@, title@),
                                ) || !beats(candidate_score(t, j, artist@, title@), sk) by {
                                    let sj = candidate_score(t, j, artist@, title@);
                                    if beats(sj, sk) {
                                        lemma_beats_transitive(
                                            sj.0,
                                            denominator(sj),
                                            sk.0,
                                            denominator(sk),
                                            sb.0,
                                            denominator(sb),
                                        );
                                    }
                                }
                                assert forall|j: int|
                                    0 <= j < b && (#[trigger] t[j]) is Some implies beats(
                                    sk,
                                    candidate_score(t, j, artist@, title@),
                                ) by {
                                    let sj = candidate_score(t, j, artist@, title@);
                                    lemma_beats_transitive(
                                        sk.0,
                                        denominator(sk),
                                        sb.0,
                                        denominator(sb),
                                        sj.0,
                                        denominator(sj),
                                    );
                                }
                                assert forall|j: int|
                                    b <= j < k && (#[trigger] t[j]) is Some implies beats(
                                    sk,
                                    candidate_score(t, j, artist@, title@),
                                ) by {
                                    let sj = candidate_score(t, j, artist@, title@);
                                    assert(!beats(sj, sb));
                                    if !beats(sk, sj) {
                                        // sk <= sj <= sb, yet sk beats sb
                                        assert(sk.0 * denominator(sj) <= sj.0 * denominator(sk));
                                        assert(sj.0 * denominator(sb) <= sb.0 * denominator(sj));
                                        lemma_le_transitive(
                                            sk.0,
                                            denominator(sk),
                                            sj.0,
                                            denominator(sj),
                                            sb.0,
                                            denominator(sb),
                                        );
                                    }
                                }
                            },
                        }
                    }
                    best = Some(k);
                    best_score = sc;
                } else {
                    proof {
                        if best is None {
                            let sk = candidate_score(t, k as int, artist@, title@);
                            assert(denominator(prev) == 1);
                            assert(0 * denominator(sk) == 0);
                            assert(sk.0 * 1 == sk.0);
                            assert(sk.0 == 0);
                        }
                    }
                }
            },
            None => {},
        }
        k = k + 1;
    }
    match best {
        None => {
            assert forall|j: int| 0 <= j < t.len() && (#[trigger] t[j]) is Some implies !good_enough(
                candidate_score(t, j, artist@, title@),
            ) by {
                let sj = candidate_score(t, j, artist@, title@);
                assert(sj.0 == 0);
            }
            None
        },
        Some(b) => {
            if score_good_enough(best_score) {
                Some(b)
            } else {
                assert forall|j: int|
                    0 <= j < t.len() && (#[trigger] t[j]) is Some implies !good_enough(
                    candidate_score(t, j, artist@, title@),
                ) by {
                    let sj = candidate_score(t, j, artist@, title@);
                    let sb = candidate_score(t, b as int, artist@, title@);
                    lemma_below_half(sj.0, denominator(sj), sb.0, denominator(sb));
                }
                None
            }
        },
    }
}

/// Not beating is transitive.
proof fn lemma_le_transitive(a0: int, da: int, b0: int, db: int, c0: int, dc: int)
    by (nonlinear_arith)
    requires
        da > 0,
        db > 0,
        dc > 0,
        a0 * db <= b0 * da,
        b0 * dc <= c0 * db,
    ensures
        a0 * dc <= c0 * da,
{
}


/// The titles of listing entries, all taking part.
pub open spec fn entry_titles(v: Seq<PlaylistEntry>) -> Seq<Option<Seq<char>>> {
    v.map_values(|e: PlaylistEntry| Some(e.title@))
}

/// The SoundCloud search result to download: the first one with the highest
/// score for `artist` and `title`, when that score reaches one half.
pub fn best_soundcloud_candidate(candidates: Vec<PlaylistEntry>, artist: &str, title: &str) -> (r: Option<PlaylistEntry>)
    ensures
        r matches Some(e) ==> exists|i: int|
            is_best(entry_titles(candidates@), i, artist@, title@) && candidates@[i] == e,
        r is None ==> none_good_enough(entry_titles(candidates@), artist@, title@),
{
    let mut titles: Vec<Option<String>> = Vec::new();
    let mut k: usize = 0;
    while k < candidates.len()
        invariant
            k <= candidates@.len(),
            opt_views(titles@) == entry_titles(candidates@).take(k as int),
        decreases candidates@.len() - k,
    {
        let ghost prev = titles@;
        let t = candidates[k].title.clone();
        assert(t@ == candidates@[k as int].title@);
        titles.push(Some(t));
        assert(titles@ =~= prev.push(Some(t)));
        assert(opt_views(titles@) =~= opt_views(prev).push(Some(t@)));
        assert(opt_views(titles@) =~= entry_titles(candidates@).take(k + 1));
        k = k + 1;
    }
    assert(entry_titles(candidates@).take(candidates@.len() as int) =~= entry_titles(candidates@));
    match best_match_index(&titles, artist, title) {
        Some(i) => {
            let mut candidates = candidates;
            let ghost all = candidates@;
            let e = candidates.remove(i);
            assert(is_best(entry_titles(all), i as int, artist@, title@) && all[i as int] == e);
            Some(e)
        },
        None => None,
    }
}

/// One result of a Bandcamp search, as its fields come (each absent when
/// missing or not text).
pub struct BandcampResult {
    pub kind: Option<String>,
    pub name: Option<String>,
    pub band_name: Option<String>,
    pub item_url_root: Option<String>,
    pub url: Option<String>,
}

/// Tracks (`t`) and albums (`a`) take part; other results do not.
pub open spec fn bandcamp_eligible(r: BandcampResult) -> bool {
    let k = or_empty(opt_seq(r.kind));
    k == "t"@ || k == "a"@
}

/// The title that a result is scored by: band name, a space, then name.
pub open spec fn bandcamp_title(r: BandcampResult) -> Seq<char> {
    or_empty(opt_seq(r.band_name)) + " "@ + or_empty(opt_seq(r.name))
}

/// The titles of Bandcamp results; results that do not take part have none.
pub open spec fn bandcamp_titles(v: Seq<BandcampResult>) -> Seq<Option<Seq<char>>> {
    v.map_values(|r: BandcampResult| if bandcamp_eligible(r) {
        Some(bandcamp_title(r))
    } else {
        None
    })
}

/// The address of a result: its `item_url_root`, else its `url`.
pub open spec fn bandcamp_address(r: BandcampResult) -> Option<Seq<char>> {
    match r.item_url_root {
        Some(u) => Some(u@),
        None => opt_seq(r.url),
    }
}

/// Scores compare as the fractions `matched / wanted` (with 0 when nothing is
/// wanted): a score is taken over another only when it is strictly greater,
/// and a candidate is good enough exactly when its fraction is at least one half.
pub proof fn law_scores_compare_as_fractions(m1: int, w1: int, m2: int, w2: int)
    requires
        w1 > 0,
        w2 > 0,
    ensures
        beats((m1, w1), (m2, w2)) == (m1 * w2 > m2 * w1),
        beats((m1, w1), (0, 0)) == (m1 > 0),
        good_enough((m1, w1)) == (2 * m1 >= w1),
        !good_enough((0, 0)),
{
}

/// A Bandcamp result takes part exactly when its type is `t` (a track) or `a`
/// (an album), and it is then scored by its band name, a space and its name
/// (each empty when missing).
pub proof fn law_bandcamp_scored_by_band_and_name(
    v: Seq<BandcampResult>,
    i: int,
    artist: Seq<char>,
    title: Seq<char>,
)
    requires
        0 <= i < v.len(),
    ensures
        (opt_seq(v[i].kind) == Some("t"@) || opt_seq(v[i].kind) == Some("a"@)) ==> bandcamp_titles(v)[i]
            == Some(
            match v[i].band_name {
                Some(b) => b@,
                None => Seq::<char>::empty(),
            } + " "@ + match v[i].name {
                Some(n) => n@,
                None => Seq::<char>::empty(),
            },
        ) && candidate_score(bandcamp_titles(v), i, artist, title) == score_spec(
            match v[i].band_name {
                Some(b) => b@,
                None => Seq::<char>::empty(),
            } + " "@ + match v[i].name {
                Some(n) => n@,
                None => Seq::<char>::empty(),
            },
            artist,
            title,
        ),
        !(opt_seq(v[i].kind) == Some("t"@) || opt_seq(v[i].kind) == Some("a"@)) ==> bandcamp_titles(v)[i]
            is None,
{
    reveal_strlit("t");
    reveal_strlit("a");
    assert("t"@.len() == 1);
    assert("a"@.len() == 1);
    if v[i].kind is None {
        assert(Seq::<char>::empty().len() == 0);
    }
}

/// A single Bandcamp track or album whose band name and name, together, score
/// at least one half for `artist` and `title` is the result taken.
pub proof fn law_single_bandcamp_result_taken(r: BandcampResult, artist: Seq<char>, title: Seq<char>)
    requires
        opt_seq(r.kind) == Some("t"@) || opt_seq(r.kind) == Some("a"@),
        ({
            let sc = score_spec(
                match r.band_name {
                    Some(b) => b@,
                    None => Seq::<char>::empty(),
                } + " "@ + match r.name {
                    Some(n) => n@,
                    None => Seq::<char>::empty(),
                },
                artist,
                title,
            );
            2 * sc.0 >= if sc.1 == 0 {
                1
            } else {
                sc.1
            }
        }),
    ensures
        is_best(bandcamp_titles(seq![r]), 0, artist, title),
{
    law_bandcamp_scored_by_band_and_name(seq![r], 0, artist, title);
    let t = bandcamp_titles(seq![r]);
    assert(t.len() == 1);
    assert forall|j: int| 0 <= j < t.len() && (#[trigger] t[j]) is Some implies !beats(
        candidate_score(t, j, artist, title),
        candidate_score(t, 0, artist, title),
    ) by {
        assert(j == 0);
    }
}

/// A SoundCloud entry is scored by its title.
pub proof fn law_soundcloud_scored_by_title(v: Seq<PlaylistEntry>, i: int, artist: Seq<char>, title: Seq<char>)
    requires
        0 <= i < v.len(),
    ensures
        entry_titles(v)[i] == Some(v[i].title@),
        candidate_score(entry_titles(v), i, artist, title) == score_spec(v[i].title@, artist, title),
{
}

/// Whether `s` is exactly `lit`.
fn equals_literal(s: &String, lit: &str) -> (b: bool)
    ensures
        b == (s@ == lit@),
{
    let l = owned(lit);
    *s == l
}

/// The address to download from the Bandcamp results: that of the first track
/// or album with the highest score for `artist` and `title`, when that score
/// reaches one half (and the result has an address).
pub fn best_bandcamp_url(results: Vec<BandcampResult>, artist: &str, title: &str) -> (r: Option<String>)
    ensures
        r matches Some(u) ==> exists|i: int|
            is_best(bandcamp_titles(results@), i, artist@, title@) && bandcamp_address(results@[i])
                == Some(u@),
        r is None ==> none_good_enough(bandcamp_titles(results@), artist@, title@) || exists|i: int|
            is_best(bandcamp_titles(results@), i, artist@, title@) && bandcamp_address(results@[i])
                is None,
{
    let mut titles: Vec<Option<String>> = Vec::new();
    let mut k: usize = 0;
    while k < results.len()
        invariant
            k <= results@.len(),
            opt_views(titles@) == bandcamp_titles(results@).take(k as int),
        decreases results@.len() - k,
    {
        let ghost prev = titles@;
        let res = &results[k];
        let kind = match &res.kind {
            Some(x) => x.clone(),
            None => String::new(),
        };
        if equals_literal(&kind, "t") || equals_literal(&kind, "a") {
            let band = match &res.band_name {
                Some(x) => x.clone(),
                None => String::new(),
            };
            let name = match &res.name {
                Some(x) => x.clone(),
                None => String::new(),
            };
            let t = concat3(band.as_str(), " ", name.as_str());
            assert(t@ == bandcamp_title(results@[k as int]));
            titles.push(Some(t));
            assert(titles@ =~= prev.push(Some(t)));
            assert(opt_views(titles@) =~= opt_views(prev).push(Some(t@)));
        } else {
            titles.push(None);
            assert(titles@ =~= prev.push(None));
            assert(opt_views(titles@) =~= opt_views(prev).push(None));
        }
        assert(opt_views(titles@) =~= bandcamp_titles(results@).take(k + 1));
        k = k + 1;
    }
    assert(bandcamp_titles(results@).take(results@.len() as int) =~= bandcamp_titles(results@));
    match best_match_index(&titles, artist, title) {
        Some(i) => {
            let res = &results[i];
            match &res.item_url_root {
                Some(u) => Some(u.clone()),
                None => match &res.url {
                    Some(u) => Some(u.clone()),
                    None => None,
                },
            }
        },
        None => None,
    }
}

// ---------------------------------------------------------------------------
// Searches
// ---------------------------------------------------------------------------

/// Artist and title as one search text, trimmed.
pub open spec fn full_query(artist: Seq<char>, title: Seq<char>) -> Seq<char> {
    trim(artist + " "@ + title)
}

/// The SoundCloud searches, in order: artist and title, then the title alone
/// (each trimmed), leaving out empty ones.
pub open spec fn soundcloud_queries_spec(artist: Seq<char>, title: Seq<char>) -> Seq<Seq<char>> {
    (if full_query(artist, title).len() > 0 {
        seq![full_query(artist, title)]
    } else {
        Seq::empty()
    }) + (if trim(title).len() > 0 {
        seq![trim(title)]
    } else {
        Seq::empty()
    })
}

/// The SoundCloud searches to try for `artist` and `title`.
pub fn soundcloud_queries(artist: &str, title: &str) -> (r: Vec<String>)
    ensures
        string_views(r@) == soundcloud_queries_spec(artist@, title@),
{
    let mut r: Vec<String> = Vec::new();
    let joined = concat3(artist, " ", title);
    let jc = chars_of(joined.as_str());
    let full = trimmed(jc.as_slice());
    if full.len() > 0 {
        r.push(string_of(full.as_slice()));
    }
    let ghost mid = string_views(r@);
    let tc = chars_of(title);
    let t = trimmed(tc.as_slice());
    if t.len() > 0 {
        r.push(string_of(t.as_slice()));
    }
    assert(string_views(r@) =~= soundcloud_queries_spec(artist@, title@));
    r
}

/// The search handed to the downloader: `scsearch<limit>:<query>`, with 5
/// results when no limit is given.
pub fn soundcloud_search(query: &str, limit: Option<usize>) -> (r: String)
    ensures
        r@ == "scsearch"@ + decimal(match limit {
            Some(n) => n as nat,
            None => 5,
        }) + ":"@ + query@,
{
    let n: usize = match limit {
        Some(n) => n,
        None => 5,
    };
    let digits = decimal_exec(n as u64);
    let ds = string_of(digits.as_slice());
    let mut r = owned("scsearch");
    r.append(ds.as_str());
    r.append(":");
    r.append(query);
    r
}

/// The Bandcamp search for `artist` and `title`: the trimmed artist and title,
/// none when that is empty.
pub fn bandcamp_query(artist: &str, title: &str) -> (r: Option<String>)
    ensures
        r matches Some(q) ==> q@ == full_query(artist@, title@) && q@.len() > 0,
        r is None ==> full_query(artist@, title@).len() == 0,
{
    let joined = concat3(artist, " ", title);
    let jc = chars_of(joined.as_str());
    let full = trimmed(jc.as_slice());
    if full.len() > 0 {
        Some(string_of(full.as_slice()))
    } else {
        None
    }
}

/// The error for a track that no alternate source had.
pub fn track_not_found(youtube_url: &str) -> (e: TrackNotFoundError)
    ensures
        e.youtube_url@ == youtube_url@,
{
    TrackNotFoundError { youtube_url: owned(youtube_url) }
}

// ---------------------------------------------------------------------------
// The search, step by step
// ---------------------------------------------------------------------------

/// Where the search for a track on the alternate sources stands.
#[derive(Debug, Clone, Copy, PartialEq, Eq, Structural)]
pub enum ResolveStage {
    /// Working on SoundCloud search number `index` (listing or downloading).
    Soundcloud { index: usize },
    /// Working on the Bandcamp search (searching or downloading).
    Bandcamp,
    /// Nothing is left to try.
    Exhausted,
}

/// What the outside work reported.
pub enum ResolveEvent {
    /// The SoundCloud listing of the current search; none when listing failed.
    Listed(Option<Vec<PlaylistEntry>>),
    /// The address that the Bandcamp search chose, if any.
    BandcampChose(Option<String>),
    /// Downloading the chosen address failed.
    DownloadFailed,
}

/// The outside work to do next.
pub enum ResolveAction {
    /// List the SoundCloud results of this search.
    ListSoundcloud { search: String },
    /// Search Bandcamp for this text.
    SearchBandcamp { query: String },
    /// Download this address; when that succeeds the search is over.
    Download { url: String },
    /// Nothing was found.
    GiveUp { error: TrackNotFoundError },
}

/// The search ends without a track, reporting the YouTube address.
pub open spec fn gave_up(youtube_url: Seq<char>, r: (ResolveStage, ResolveAction)) -> bool {
    &&& r.0 == ResolveStage::Exhausted
    &&& r.1 matches ResolveAction::GiveUp { error } && error.youtube_url@ == youtube_url
}

/// The search moves on to SoundCloud search number `index`, or, past the
/// last one, to Bandcamp, or, when there is no Bandcamp search, gives up.
pub open spec fn moved_on(
    artist: Seq<char>,
    title: Seq<char>,
    youtube_url: Seq<char>,
    index: int,
    r: (ResolveStage, ResolveAction),
) -> bool {
    let qs = soundcloud_queries_spec(artist, title);
    if index < qs.len() {
        &&& r.0 == (ResolveStage::Soundcloud { index: index as usize })
        &&& r.1 matches ResolveAction::ListSoundcloud { search } && search@ == "scsearch"@ + decimal(5)
            + ":"@ + qs[index]
    } else if full_query(artist, title).len() > 0 {
        &&& r.0 == ResolveStage::Bandcamp
        &&& r.1 matches ResolveAction::SearchBandcamp { query } && query@ == full_query(artist, title)
    } else {
        gave_up(youtube_url, r)
    }
}

/// The order of the stages: SoundCloud searches by number, then Bandcamp,
/// then the end.
pub open spec fn stage_rank(s: ResolveStage) -> int {
    match s {
        ResolveStage::Soundcloud { index } => index as int,
        ResolveStage::Bandcamp => usize::MAX + 1,
        ResolveStage::Exhausted => usize::MAX + 2,
    }
}

/// Moves on to SoundCloud search number `index` or what follows it.
fn move_on(artist: &str, title: &str, youtube_url: &str, index: usize) -> (r: (ResolveStage, ResolveAction))
    ensures
        moved_on(artist@, title@, youtube_url@, index as int, r),
{
    let queries = soundcloud_queries(artist, title);
    if index < queries.len() {
        assert(string_views(queries@)[index as int] == queries@[index as int]@);
        let search = soundcloud_search(queries[index].as_str(), None);
        (ResolveStage::Soundcloud { index }, ResolveAction::ListSoundcloud { search })
    } else {
        match bandcamp_query(artist, title) {
            Some(query) => (ResolveStage::Bandcamp, ResolveAction::SearchBandcamp { query }),
            None => (ResolveStage::Exhausted, ResolveAction::GiveUp { error: track_not_found(youtube_url) }),
        }
    }
}

/// The first step of the search for `artist` and `title` (found on YouTube at
/// `youtube_url`): the first SoundCloud search, else Bandcamp, else nothing.
pub fn resolve_start(artist: &str, title: &str, youtube_url: &str) -> (r: (ResolveStage, ResolveAction))
    ensures
        moved_on(artist@, title@, youtube_url@, 0, r),
{
    move_on(artist, title, youtube_url, 0)
}

/// The next step of the search after `event` at `stage`.
///
/// * A SoundCloud listing: download its best entry when one scores at least
///   one half; otherwise (or when listing failed) move on to the next search.
/// * A failed download of a SoundCloud entry: move on to the next search.
/// * A Bandcamp choice: download it; no choice, or a failed download: give up.
/// * Anything that does not fit the stage: give up.
///
/// Every step either moves to a later stage, or asks for one download at the
/// same stage (never right after a failed one), or stays given up; so the
/// search ends after at most two steps per stage.
pub fn resolve_step(
    artist: &str,
    title: &str,
    youtube_url: &str,
    stage: ResolveStage,
    event: ResolveEvent,
) -> (r: (ResolveStage, ResolveAction))
    requires
        stage matches ResolveStage::Soundcloud { index } ==> index < usize::MAX,
    ensures
        match (stage, event) {
            (ResolveStage::Soundcloud { index }, ResolveEvent::Listed(Some(cands))) => if none_good_enough(
                entry_titles(cands@),
                artist@,
                title@,
            ) {
                moved_on(artist@, title@, youtube_url@, index + 1, r)
            } else {
                r.0 == stage && (r.1 matches ResolveAction::Download { url } && exists|i: int|
                    is_best(entry_titles(cands@), i, artist@, title@) && url@ == cands@[i].url@)
            },
            (ResolveStage::Soundcloud { index }, ResolveEvent::Listed(None)) => moved_on(
                artist@,
                title@,
                youtube_url@,
                index + 1,
                r,
            ),
            (ResolveStage::Soundcloud { index }, ResolveEvent::DownloadFailed) => moved_on(
                artist@,
                title@,
                youtube_url@,
                index + 1,
                r,
            ),
            (ResolveStage::Bandcamp, ResolveEvent::BandcampChose(Some(u))) => r.0 == ResolveStage::Bandcamp
                && (r.1 matches ResolveAction::Download { url } && url@ == u@),
            _ => gave_up(youtube_url@, r),
        },
        stage_rank(r.0) > stage_rank(stage) || (r.0 == stage && r.1 is Download && !(event is DownloadFailed))
            || (stage is Exhausted && gave_up(youtube_url@, r)),
{
    match stage {
        ResolveStage::Soundcloud { index } => match event {
            ResolveEvent::Listed(Some(cands)) => {
                let ghost all = cands@;
                match best_soundcloud_candidate(cands, artist, title) {
                    Some(e) => {
                        proof {
                            let i = choose|i: int| is_best(entry_titles(all), i, artist@, title@) && all[i] == e;
                            assert(good_enough(candidate_score(entry_titles(all), i, artist@, title@)));
                            assert(entry_titles(all)[i] is Some);
                        }
                        (stage, ResolveAction::Download { url: e.url })
                    },
                    None => move_on(artist, title, youtube_url, index + 1),
                }
            },
            ResolveEvent::Listed(None) => move_on(artist, title, youtube_url, index + 1),
            ResolveEvent::DownloadFailed => move_on(artist, title, youtube_url, index + 1),
            ResolveEvent::BandcampChose(_) => (
                ResolveStage::Exhausted,
                ResolveAction::GiveUp { error: track_not_found(youtube_url) },
            ),
        },
        ResolveStage::Bandcamp => match event {
            ResolveEvent::BandcampChose(Some(u)) => (ResolveStage::Bandcamp, ResolveAction::Download { url: u }),
            _ => (ResolveStage::Exhausted, ResolveAction::GiveUp { error: track_not_found(youtube_url) }),
        },
        ResolveStage::Exhausted => (
            ResolveStage::Exhausted,
            ResolveAction::GiveUp { error: track_not_found(youtube_url) },
        ),
    }
}

} // verus!
