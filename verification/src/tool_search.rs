//! Scoring deferred tools against a search query.
//!
//! Matches are evaluated at the token level (the text split at every
//! non-alphanumeric character), so a query like "art" does not match the
//! middle of "start", and snake_case names split at their underscores.

use vstd::prelude::*;
use crate::tool::OpenAITool;
use crate::text::{char_is_alphanumeric, chars_of, is_alphanumeric_char, range_eq};

verus! {

/// Whether a token of `h` starts at `i`: at the start, or right after a
/// separator.
pub open spec fn is_token_start(h: Seq<char>, i: int) -> bool {
    0 <= i <= h.len() && (i == 0 || !is_alphanumeric_char(h[i - 1]))
}

/// End of the token running from `i`: the next separator, or the end.
pub open spec fn token_end(h: Seq<char>, i: int) -> int
    decreases h.len() - i,
{
    if i < 0 || i >= h.len() || !is_alphanumeric_char(h[i]) {
        if i < 0 { 0 } else if i > h.len() { h.len() as int } else { i }
    } else {
        token_end(h, i + 1)
    }
}

/// Whether the token starting at `i` equals `w`.
pub open spec fn token_is(h: Seq<char>, w: Seq<char>, i: int) -> bool {
    is_token_start(h, i) && h.subrange(i, token_end(h, i)) == w
}

/// Whether the token starting at `i` starts with `w`.
pub open spec fn token_starts_with(h: Seq<char>, w: Seq<char>, i: int) -> bool {
    is_token_start(h, i) && token_end(h, i) - i >= w.len() && h.subrange(i, i + w.len()) == w
}

/// The score of `word` against the tokens of `haystack`: `exact` when a
/// token equals it, `prefix` (if positive) when a token starts with it, else
/// 0; and 0 for an empty haystack or word.
pub open spec fn token_score_spec(h: Seq<char>, w: Seq<char>, exact: i64, prefix: i64) -> i64 {
    if h.len() == 0 || w.len() == 0 {
        0
    } else if exists|i: int| #[trigger] token_is(h, w, i) {
        exact
    } else if prefix > 0 && exists|i: int| #[trigger] token_starts_with(h, w, i) {
        prefix
    } else {
        0
    }
}

proof fn lemma_token_end(h: Seq<char>, i: int)
    requires
        0 <= i <= h.len(),
    ensures
        i <= token_end(h, i) <= h.len(),
        forall|k: int| i <= k < token_end(h, i) ==> is_alphanumeric_char(#[trigger] h[k]),
        token_end(h, i) < h.len() ==> !is_alphanumeric_char(h[token_end(h, i)]),
    decreases h.len() - i,
{
    if i < h.len() && is_alphanumeric_char(h[i]) {
        lemma_token_end(h, i + 1);
    }
}

proof fn lemma_token_end_inside(h: Seq<char>, i: int, k: int)
    requires
        0 <= i <= k <= h.len(),
        forall|m: int| i <= m < k ==> is_alphanumeric_char(#[trigger] h[m]),
    ensures
        token_end(h, i) == token_end(h, k),
    decreases k - i,
{
    if i < k {
        lemma_token_end_inside(h, i + 1, k);
    }
}

/// Whether the token starting at `start` (a token start whose characters
/// up to `end` are alphanumeric, with `end` a separator or the end) equals
/// `w`, and whether it starts with `w`.
fn check_token(h: &Vec<char>, w: &Vec<char>, start: usize, end: usize) -> (r: (bool, bool))
    requires
        start <= end <= h@.len(),
        is_token_start(h@, start as int),
        forall|k: int| start <= k < end ==> is_alphanumeric_char(#[trigger] h@[k]),
        end < h@.len() ==> !is_alphanumeric_char(h@[end as int]),
    ensures
        r.0 == token_is(h@, w@, start as int),
        r.1 == token_starts_with(h@, w@, start as int),
{
    proof {
        lemma_token_end_inside(h@, start as int, end as int);
        lemma_token_end(h@, end as int);
        assert(token_end(h@, start as int) == end);
    }
    let len = end - start;
    let exact = len == w.len() && range_eq(h, start, end, w);
    let pre = len >= w.len() && range_eq(h, start, start + w.len(), w);
    (exact, pre)
}

/// Score `word` against the tokens in `haystack`.
pub fn token_score(haystack: &str, word: &str, exact_score: i64, prefix_score: i64) -> (r: i64)
    ensures
        r == token_score_spec(haystack@, word@, exact_score, prefix_score),
{
    if haystack.is_empty() || word.is_empty() {
        return 0;
    }
    let h = chars_of(haystack);
    let w = chars_of(word);
    let n = h.len();
    assert(haystack@.len() > 0 && word@.len() > 0);
    let mut best: i64 = 0;
    let mut start: usize = 0;
    let mut i: usize = 0;
    while i < n
        invariant
            h@ == haystack@,
            w@ == word@,
            n == h@.len(),
            start <= i <= n,
            is_token_start(h@, start as int),
            forall|k: int| start <= k < i ==> is_alphanumeric_char(#[trigger] h@[k]),
            forall|t: int| 0 <= t < start ==> !#[trigger] token_is(h@, w@, t),
            best == 0 || best == prefix_score,
            prefix_score <= 0 ==> best == 0,
            haystack@.len() > 0,
            word@.len() > 0,
            (best == prefix_score && prefix_score > 0) ==> exists|t: int| #[trigger] token_starts_with(h@, w@, t),
            (prefix_score > 0 && best != prefix_score) ==> forall|t: int| 0 <= t < start ==> !#[trigger] token_starts_with(h@, w@, t),
        decreases n - i,
    {
        if !char_is_alphanumeric(h[i]) {
            let (ex, pre) = check_token(&h, &w, start, i);
            if ex {
                assert(token_is(h@, w@, start as int));
                assert(haystack@.len() > 0 && word@.len() > 0);
                return exact_score;
            }
            if best < prefix_score && pre {
                best = prefix_score;
            }
            proof {
                assert forall|t: int| start < t <= i implies !is_token_start(h@, t) by {
                    assert(is_alphanumeric_char(h@[t - 1]));
                }
            }
            start = i + 1;
        }
        i += 1;
    }
    let (ex, pre) = check_token(&h, &w, start, n);
    if ex {
        assert(token_is(h@, w@, start as int));
        return exact_score;
    }
    if best < prefix_score && pre {
        best = prefix_score;
    }
    proof {
        assert forall|t: int| start < t <= n implies !is_token_start(h@, t) by {
            assert(is_alphanumeric_char(h@[t - 1]));
        }
        assert forall|t: int| !#[trigger] token_is(h@, w@, t) by {
            if token_is(h@, w@, t) {
                assert(0 <= t <= n);
            }
        }
        assert(!(exists|t: int| #[trigger] token_is(h@, w@, t)));
        if prefix_score > 0 && best != prefix_score {
            assert forall|t: int| !#[trigger] token_starts_with(h@, w@, t) by {
                if token_starts_with(h@, w@, t) {
                    assert(0 <= t <= n);
                }
            }
            assert(!(exists|t: int| #[trigger] token_starts_with(h@, w@, t)));
        }
    }
    best
}

/// A deferred tool as the search sees it.
#[derive(Debug, Clone)]
pub struct SearchEntry {
    pub name: String,
    pub name_lower: String,
    pub description_lower: String,
    pub param_names: Vec<String>,
    /// The tool's definition, handed to the model once it is discovered.
    pub definition: OpenAITool,
}

pub open spec fn max_i64(a: i64, b: i64) -> i64 {
    if a >= b { a } else { b }
}

/// What the search reads of an entry: its lowercased name, its lowercased
/// description and its lowercased parameter names.
pub type EntryView = (Seq<char>, Seq<char>, Seq<Seq<char>>);

pub open spec fn entry_view(e: SearchEntry) -> EntryView {
    (e.name_lower@, e.description_lower@, e.param_names@.map_values(|p: String| p@))
}

/// The best parameter-name score among the first `n` parameters.
pub open spec fn params_score(ps: Seq<Seq<char>>, w: Seq<char>, n: int) -> i64
    decreases n,
{
    if n <= 0 {
        0
    } else {
        max_i64(params_score(ps, w, n - 1), token_score_spec(ps[n - 1], w, 30, 15))
    }
}

/// The score of one query word: the best of the name (100 for the whole
/// name or a token, 50 for a token prefix), the description (40 / 20) and
/// the parameter names (30 / 15).
pub open spec fn word_score(e: EntryView, w: Seq<char>) -> i64 {
    let name = if e.0 == w { 100 } else { token_score_spec(e.0, w, 100, 50) };
    max_i64(max_i64(name, token_score_spec(e.1, w, 40, 20)), params_score(e.2, w, e.2.len() as int))
}

proof fn lemma_token_score_range(h: Seq<char>, w: Seq<char>, exact: i64, prefix: i64)
    requires
        0 <= prefix <= exact <= 100,
    ensures
        0 <= token_score_spec(h, w, exact, prefix) <= 100,
{
}

proof fn lemma_params_score_range(ps: Seq<Seq<char>>, w: Seq<char>, n: int)
    ensures
        0 <= params_score(ps, w, n) <= 30,
    decreases n,
{
    if n > 0 {
        lemma_params_score_range(ps, w, n - 1);
        lemma_token_score_range(ps[n - 1], w, 30, 15);
    }
}

/// Score one query word against an entry.
pub fn score_word(entry: &SearchEntry, word: &str) -> (r: i64)
    ensures
        r == word_score(entry_view(*entry), word@),
        0 <= r <= 100,
{
    proof {
        lemma_token_score_range(entry.name_lower@, word@, 100, 50);
        lemma_token_score_range(entry.description_lower@, word@, 40, 20);
        lemma_params_score_range(entry_view(*entry).2, word@, entry.param_names@.len() as int);
    }
    let ghost ps = entry_view(*entry).2;
    let name_score = if crate::text::str_eq(entry.name_lower.as_str(), word) { 100 } else { token_score(entry.name_lower.as_str(), word, 100, 50) };
    let desc = token_score(entry.description_lower.as_str(), word, 40, 20);
    let mut params: i64 = 0;
    let mut k: usize = 0;
    while k < entry.param_names.len()
        invariant
            k <= entry.param_names@.len(),
            ps == entry_view(*entry).2,
            params == params_score(ps, word@, k as int),
        decreases entry.param_names@.len() - k,
    {
        let s = token_score(entry.param_names[k].as_str(), word, 30, 15);
        assert(ps[k as int] == entry.param_names@[k as int]@);
        if s > params {
            params = s;
        }
        k += 1;
    }
    let a = if name_score >= desc { name_score } else { desc };
    if a >= params { a } else { params }
}

/// The total score of the first `n` words, or `None` when one of them does
/// not match.
pub open spec fn entry_score(e: EntryView, words: Seq<Seq<char>>, n: int) -> Option<int>
    decreases n,
{
    if n <= 0 {
        Some(0)
    } else {
        match entry_score(e, words, n - 1) {
            None => None,
            Some(t) => if word_score(e, words[n - 1]) == 0 { None } else { Some(t + word_score(e, words[n - 1])) },
        }
    }
}

proof fn lemma_entry_score_bound(e: EntryView, words: Seq<Seq<char>>, n: int)
    requires
        0 <= n,
    ensures
        entry_score(e, words, n) matches Some(t) ==> 0 <= t <= 100 * n,
    decreases n,
{
    if n > 0 {
        lemma_entry_score_bound(e, words, n - 1);
        let w = words[n - 1];
        assert(0 <= word_score(e, w) <= 100) by {
            lemma_token_score_range(e.0, w, 100, 50);
            lemma_token_score_range(e.1, w, 40, 20);
            lemma_params_score_range(e.2, w, e.2.len() as int);
        }
    }
}

/// The most query words a score is summed over: a total of at most 100
/// per word stays well inside `i64`.
pub open spec fn max_query_words() -> int {
    10_000_000_000_000_000
}

pub open spec fn word_views(ws: Seq<&str>) -> Seq<Seq<char>> {
    ws.map_values(|w: &str| w@)
}

/// Score an entry against lowercased query words: the sum of the word
/// scores, or `None` when some word does not match.
pub fn score_entry(entry: &SearchEntry, words: &[&str]) -> (r: Option<i64>)
    requires
        words@.len() <= max_query_words(),
    ensures
        r == (match entry_score(entry_view(*entry), word_views(words@), words@.len() as int) {
            Some(t) => Some(t as i64),
            None => None,
        }),
        r matches Some(v) ==> entry_score(entry_view(*entry), word_views(words@), words@.len() as int) == Some(v as int),
{
    let mut total: i64 = 0;
    let mut k: usize = 0;
    while k < words.len()
        invariant
            k <= words@.len() <= max_query_words(),
            entry_score(entry_view(*entry), word_views(words@), k as int) == Some(total as int),
        decreases words@.len() - k,
    {
        proof { lemma_entry_score_bound(entry_view(*entry), word_views(words@), k as int); }
        let s = score_word(entry, words[k]);
        assert(word_views(words@)[k as int] == words@[k as int]@);
        if s == 0 {
            proof {
                lemma_entry_score_none(entry_view(*entry), word_views(words@), k as int + 1, words@.len() as int);
            }
            return None;
        }
        total = total + s;
        k += 1;
    }
    Some(total)
}

proof fn lemma_entry_score_none(e: EntryView, words: Seq<Seq<char>>, m: int, n: int)
    requires
        0 < m <= n,
        entry_score(e, words, m) is None,
    ensures
        entry_score(e, words, n) is None,
    decreases n - m,
{
    if m < n {
        lemma_entry_score_none(e, words, m + 1, n);
    }
}


/// Whether a token of `h` begins at `i` with the characters of `w`: `i` is
/// the start of `h` or follows a non-alphanumeric character, and `w` stands
/// at `i` made of alphanumeric characters only.
pub open spec fn begins_token(h: Seq<char>, w: Seq<char>, i: int) -> bool {
    &&& 0 <= i
    &&& i + w.len() <= h.len()
    &&& (i == 0 || !is_alphanumeric_char(h[i - 1]))
    &&& h.subrange(i, i + w.len()) == w
    &&& forall|k: int| i <= k < i + w.len() ==> is_alphanumeric_char(#[trigger] h[k])
}

/// Whether `w` is a whole token of `h` at `i`: it begins a token there, and
/// the token ends right after it.
pub open spec fn whole_token(h: Seq<char>, w: Seq<char>, i: int) -> bool {
    &&& begins_token(h, w, i)
    &&& (i + w.len() == h.len() || !is_alphanumeric_char(h[i + w.len()]))
}

proof fn lemma_token_forms(h: Seq<char>, w: Seq<char>, i: int)
    requires
        w.len() > 0,
    ensures
        begins_token(h, w, i) <==> token_starts_with(h, w, i),
        whole_token(h, w, i) <==> token_is(h, w, i),
{
    if 0 <= i <= h.len() {
        lemma_token_end(h, i);
        let te = token_end(h, i);
        if i + w.len() <= h.len() && forall|k: int| i <= k < i + w.len() ==> is_alphanumeric_char(#[trigger] h[k]) {
            lemma_token_end_inside(h, i, i + w.len());
            lemma_token_end(h, i + w.len());
            if i + w.len() < h.len() && !is_alphanumeric_char(h[i + w.len()]) {
                assert(token_end(h, i + w.len()) == i + w.len());
            }
        }
        if token_starts_with(h, w, i) {
            assert forall|k: int| i <= k < i + w.len() implies is_alphanumeric_char(#[trigger] h[k]) by {}
        }
        if token_is(h, w, i) {
            assert(te - i == w.len());
            assert(h.subrange(i, i + w.len()) == w);
            assert forall|k: int| i <= k < i + w.len() implies is_alphanumeric_char(#[trigger] h[k]) by {}
        }
    }
}

proof fn lemma_token_score_levels(h: Seq<char>, w: Seq<char>, exact: i64, prefix: i64)
    requires
        w.len() > 0,
        0 < prefix <= exact,
    ensures
        (exists|i: int| whole_token(h, w, i)) ==> token_score_spec(h, w, exact, prefix) == exact,
        (exists|i: int| begins_token(h, w, i)) ==> token_score_spec(h, w, exact, prefix) >= prefix,
        !(exists|i: int| begins_token(h, w, i)) ==> token_score_spec(h, w, exact, prefix) == 0,
{
    if exists|i: int| whole_token(h, w, i) {
        let i = choose|i: int| whole_token(h, w, i);
        lemma_token_forms(h, w, i);
        assert(token_is(h, w, i));
    }
    if exists|i: int| begins_token(h, w, i) {
        let i = choose|i: int| begins_token(h, w, i);
        lemma_token_forms(h, w, i);
        assert(token_starts_with(h, w, i));
    } else {
        assert forall|i: int| !#[trigger] token_starts_with(h, w, i) by {
            lemma_token_forms(h, w, i);
            assert(!begins_token(h, w, i));
        }
        assert forall|i: int| !#[trigger] token_is(h, w, i) by {
            lemma_token_forms(h, w, i);
            assert(!begins_token(h, w, i));
        }
        assert(!exists|i: int| #[trigger] token_is(h, w, i));
        assert(!exists|i: int| #[trigger] token_starts_with(h, w, i));
    }
}

proof fn lemma_params_score_levels(ps: Seq<Seq<char>>, w: Seq<char>, n: int)
    requires
        w.len() > 0,
        0 <= n <= ps.len(),
    ensures
        forall|j: int| 0 <= j < n ==> params_score(ps, w, n) >= #[trigger] token_score_spec(ps[j], w, 30, 15),
        (forall|j: int| 0 <= j < n ==> #[trigger] token_score_spec(ps[j], w, 30, 15) == 0) ==> params_score(ps, w, n) == 0,
    decreases n,
{
    if n > 0 {
        lemma_params_score_levels(ps, w, n - 1);
    }
}

/// How one query word scores against an entry. A word that is the whole
/// name or a whole token of it scores 100; one that begins a token of the
/// name scores at least 50; a whole token or token beginning of the
/// description at least 40 or 20; of a parameter name at least 30 or 15.
/// A word scores 0, and so does not match, exactly when it is not the name
/// and begins no token of the name, the description or any parameter name.
pub proof fn lemma_word_score_levels(e: EntryView, w: Seq<char>)
    requires
        w.len() > 0,
    ensures
        (e.0 == w || exists|i: int| whole_token(e.0, w, i)) ==> word_score(e, w) == 100,
        (exists|i: int| begins_token(e.0, w, i)) ==> word_score(e, w) >= 50,
        (exists|i: int| whole_token(e.1, w, i)) ==> word_score(e, w) >= 40,
        (exists|i: int| begins_token(e.1, w, i)) ==> word_score(e, w) >= 20,
        (exists|j: int, i: int| 0 <= j < e.2.len() && whole_token(e.2[j], w, i)) ==> word_score(e, w) >= 30,
        (exists|j: int, i: int| 0 <= j < e.2.len() && begins_token(e.2[j], w, i)) ==> word_score(e, w) >= 15,
        word_score(e, w) == 0 <==> (e.0 != w
            && !(exists|i: int| begins_token(e.0, w, i))
            && !(exists|i: int| begins_token(e.1, w, i))
            && !(exists|j: int, i: int| 0 <= j < e.2.len() && begins_token(e.2[j], w, i))),
{
    lemma_token_score_levels(e.0, w, 100, 50);
    lemma_token_score_levels(e.1, w, 40, 20);
    lemma_params_score_levels(e.2, w, e.2.len() as int);
    lemma_params_score_range(e.2, w, e.2.len() as int);
    lemma_token_score_range(e.0, w, 100, 50);
    lemma_token_score_range(e.1, w, 40, 20);
    if exists|j: int, i: int| 0 <= j < e.2.len() && whole_token(e.2[j], w, i) {
        let (j, i) = choose|j: int, i: int| 0 <= j < e.2.len() && whole_token(e.2[j], w, i);
        lemma_token_score_levels(e.2[j], w, 30, 15);
    }
    if exists|j: int, i: int| 0 <= j < e.2.len() && begins_token(e.2[j], w, i) {
        let (j, i) = choose|j: int, i: int| 0 <= j < e.2.len() && begins_token(e.2[j], w, i);
        lemma_token_score_levels(e.2[j], w, 30, 15);
    } else {
        assert forall|j: int| 0 <= j < e.2.len() implies #[trigger] token_score_spec(e.2[j], w, 30, 15) == 0 by {
            lemma_token_score_levels(e.2[j], w, 30, 15);
            if exists|i: int| begins_token(e.2[j], w, i) {
                let i = choose|i: int| begins_token(e.2[j], w, i);
                assert(0 <= j < e.2.len() && begins_token(e.2[j], w, i));
            }
        }
    }
}

/// An entry matches a query whose words each begin a token of its name,
/// with a score of at least 50 a word.
pub proof fn lemma_name_prefixes_match(e: EntryView, words: Seq<Seq<char>>, n: int)
    requires
        0 <= n <= words.len(),
        forall|k: int| 0 <= k < n ==> (#[trigger] words[k]).len() > 0 && exists|i: int| begins_token(e.0, words[k], i),
    ensures
        entry_score(e, words, n) matches Some(t) && t >= 50 * n,
    decreases n,
{
    if n > 0 {
        lemma_name_prefixes_match(e, words, n - 1);
        let w = words[n - 1];
        assert(w.len() > 0 && exists|i: int| begins_token(e.0, w, i));
        lemma_word_score_levels(e, w);
    }
}


/// The score a text gives a word by its tokens: `exact` when the word is a
/// whole token of it, `prefix` when it only begins one, else 0.
pub open spec fn token_level(h: Seq<char>, w: Seq<char>, exact: i64, prefix: i64) -> i64 {
    if exists|i: int| whole_token(h, w, i) {
        exact
    } else if exists|i: int| begins_token(h, w, i) {
        prefix
    } else {
        0
    }
}

/// The best parameter-name level among the first `n` parameters: 30 when
/// the word is a whole token of one, 15 when it only begins one, else 0.
pub open spec fn params_level(ps: Seq<Seq<char>>, w: Seq<char>, n: int) -> i64 {
    if exists|j: int, i: int| 0 <= j < n && #[trigger] whole_token(ps[j], w, i) {
        30
    } else if exists|j: int, i: int| 0 <= j < n && #[trigger] begins_token(ps[j], w, i) {
        15
    } else {
        0
    }
}

proof fn lemma_token_score_is_level(h: Seq<char>, w: Seq<char>, exact: i64, prefix: i64)
    requires
        w.len() > 0,
        0 < prefix <= exact,
    ensures
        token_score_spec(h, w, exact, prefix) == token_level(h, w, exact, prefix),
{
    lemma_token_score_levels(h, w, exact, prefix);
    if !(exists|i: int| whole_token(h, w, i)) {
        assert forall|i: int| !#[trigger] token_is(h, w, i) by {
            lemma_token_forms(h, w, i);
        }
    }
}

proof fn lemma_params_score_is_level(ps: Seq<Seq<char>>, w: Seq<char>, n: int)
    requires
        w.len() > 0,
        0 <= n <= ps.len(),
    ensures
        params_score(ps, w, n) == params_level(ps, w, n),
    decreases n,
{
    if n > 0 {
        lemma_params_score_is_level(ps, w, n - 1);
        let p = ps[n - 1];
        lemma_token_score_is_level(p, w, 30, 15);
        if exists|j: int, i: int| 0 <= j < n && #[trigger] whole_token(ps[j], w, i) {
            let (j, i) = choose|j: int, i: int| 0 <= j < n && #[trigger] whole_token(ps[j], w, i);
            if j < n - 1 {
                assert(0 <= j < n - 1 && whole_token(ps[j], w, i));
            } else {
                assert(whole_token(p, w, i));
            }
        } else if exists|j: int, i: int| 0 <= j < n && #[trigger] begins_token(ps[j], w, i) {
            let (j, i) = choose|j: int, i: int| 0 <= j < n && #[trigger] begins_token(ps[j], w, i);
            if j < n - 1 {
                assert(0 <= j < n - 1 && begins_token(ps[j], w, i));
            } else {
                assert(begins_token(p, w, i));
            }
            assert(!exists|j: int, i: int| 0 <= j < n - 1 && #[trigger] whole_token(ps[j], w, i));
            assert(!exists|i: int| whole_token(p, w, i)) by {
                if exists|i: int| whole_token(p, w, i) {
                    let i = choose|i: int| whole_token(p, w, i);
                    assert(0 <= n - 1 < n && whole_token(p, w, i));
                }
            }
        } else {
            assert(!exists|j: int, i: int| 0 <= j < n - 1 && #[trigger] whole_token(ps[j], w, i));
            assert(!exists|j: int, i: int| 0 <= j < n - 1 && #[trigger] begins_token(ps[j], w, i));
            assert(!exists|i: int| whole_token(p, w, i)) by {
                if exists|i: int| whole_token(p, w, i) {
                    let i = choose|i: int| whole_token(p, w, i);
                    assert(0 <= n - 1 < n && whole_token(p, w, i));
                }
            }
            assert(!exists|i: int| begins_token(p, w, i)) by {
                if exists|i: int| begins_token(p, w, i) {
                    let i = choose|i: int| begins_token(p, w, i);
                    assert(0 <= n - 1 < n && begins_token(p, w, i));
                }
            }
        }
    }
}

/// A word's score is exactly the best of three levels: the name's (100
/// when the word is the whole name or one of its tokens, 50 when it begins
/// a token), the description's (40 / 20) and the parameter names' (30 /
/// 15).
pub proof fn lemma_word_score_exact(e: EntryView, w: Seq<char>)
    requires
        w.len() > 0,
    ensures
        word_score(e, w) == max_i64(
            max_i64(if e.0 == w { 100 } else { token_level(e.0, w, 100, 50) }, token_level(e.1, w, 40, 20)),
            params_level(e.2, w, e.2.len() as int)),
{
    lemma_token_score_is_level(e.0, w, 100, 50);
    lemma_token_score_is_level(e.1, w, 40, 20);
    lemma_params_score_is_level(e.2, w, e.2.len() as int);
}

} // verus!
