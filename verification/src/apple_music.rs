//! Best-effort extraction of a track identifier from an Apple Music URL:
//! on the `music.apple.com` domain the `i` query parameter names the track;
//! failing that, the album-page shape is searched for the digits of an
//! album or song identifier.

use vstd::prelude::*;

use crate::text::{has_prefix, has_prefix_at, opt_view};

verus! {

/// What `url::Url::domain` answers for a string: the domain name when the
/// string parses as an absolute URL with a domain host, and nothing when it
/// does not parse or its host is no domain.
pub uninterp spec fn url_domain_of(s: Seq<char>) -> Option<Seq<char>>;

/// Relies on `url::Url::parse` and `url::Url::domain`: parsing is a pure
/// function of the input string, and the domain is read off the parsed
/// value, so the answer depends on the input alone.
#[verifier::external_body]
fn url_domain(input: &str) -> (r: Option<String>)
    ensures
        opt_view(r) == url_domain_of(input@),
{
    match url::Url::parse(input) {
        Ok(url) => url.domain().map(|domain| domain.to_string()),
        Err(_) => None,
    }
}

/// The view of a sequence of string pairs.
pub open spec fn pairs_view(ps: Seq<(String, String)>) -> Seq<(Seq<char>, Seq<char>)> {
    ps.map_values(|p: (String, String)| (p.0@, p.1@))
}

/// What `url::Url::query_pairs` answers for a string: the decoded (key,
/// value) pairs of the query when the string parses as an absolute URL, in
/// order, and nothing when it does not parse.
pub uninterp spec fn url_query_pairs_of(s: Seq<char>) -> Option<Seq<(Seq<char>, Seq<char>)>>;

/// Relies on `url::Url::parse` and `url::Url::query_pairs`: the
/// form-urlencoded decoding of the query is a pure function of the input
/// string. It parses exactly when `url::Url::parse` does, which
/// [`crate::validate::url_parse_diag`] names.
#[verifier::external_body]
fn url_query_pairs(input: &str) -> (r: Option<Vec<(String, String)>>)
    ensures
        match r {
            Some(pairs) => url_query_pairs_of(input@) == Some(pairs_view(pairs@))
                && crate::validate::url_parse_diag(input@) is None,
            None => url_query_pairs_of(input@) is None && crate::validate::url_parse_diag(
                input@,
            ) is Some,
        },
{
    match url::Url::parse(input) {
        Ok(url) => Some(
            url.query_pairs().map(|(k, v)| (k.into_owned(), v.into_owned())).collect(),
        ),
        Err(_) => None,
    }
}

/// ASCII digits, the alphabet of numeric identifiers.
pub open spec fn is_digit_char(c: char) -> bool {
    0x30 <= c as u32 && c as u32 <= 0x39
}

/// No newline stands in `s` between `a` (inclusive) and `b` (exclusive).
pub open spec fn no_newline(s: Seq<char>, a: int, b: int) -> bool {
    forall|j: int| a <= j < b ==> s[j] != '\n'
}

/// The position after the segment word when `/song/` or `/album/` occurs at
/// position `p`.
pub open spec fn apple_segment_end(s: Seq<char>, p: int) -> Option<int> {
    if has_prefix_at(s, p, "/song/"@) {
        Some(p + 6)
    } else if has_prefix_at(s, p, "/album/"@) {
        Some(p + 7)
    } else {
        None
    }
}

/// Whether a non-empty newline-free stretch runs from `q` to `r`, with a
/// slash at `r` and a digit after it.
pub open spec fn apple_tail_ok(s: Seq<char>, q: int, r: int) -> bool {
    q < r && r + 1 < s.len() && no_newline(s, q, r) && s[r] == '/' && is_digit_char(s[r + 1])
}

/// The last position at or before `r` where the tail shape holds after `q`:
/// the greedy middle stretch claims as much as it can.
pub open spec fn apple_last_tail(s: Seq<char>, q: int, r: int) -> Option<int>
    decreases r - q,
{
    if r <= q {
        None
    } else if apple_tail_ok(s, q, r) {
        Some(r)
    } else {
        apple_last_tail(s, q, r - 1)
    }
}

/// Whether the shape after the host matches with the middle stretch ending
/// at position `p`: a newline-free stretch from `i + 16` to `p`, a segment
/// word at `p`, and a tail after it.
pub open spec fn apple_p_ok(s: Seq<char>, i: int, p: int) -> bool {
    &&& i + 16 <= p < s.len()
    &&& no_newline(s, i + 16, p)
    &&& match apple_segment_end(s, p) {
        Some(q) => apple_last_tail(s, q, s.len() - 2) is Some,
        None => false,
    }
}

/// The last position at or before `p` where the shape after the host
/// matches: the greedy leading stretch claims as much as it can.
pub open spec fn apple_last_p(s: Seq<char>, i: int, p: int) -> Option<int>
    decreases p - i,
{
    if p < i + 16 {
        None
    } else if apple_p_ok(s, i, p) {
        Some(p)
    } else {
        apple_last_p(s, i, p - 1)
    }
}

/// Whether the whole album-page shape occurs at position `i`.
pub open spec fn apple_match_at(s: Seq<char>, i: int) -> bool {
    has_prefix_at(s, i, "music.apple.com/"@) && apple_last_p(s, i, s.len() - 1) is Some
}

/// The first position at or after `i` where the album-page shape occurs.
pub open spec fn apple_first_match_from(s: Seq<char>, i: int) -> Option<int>
    decreases s.len() - i,
{
    if i >= s.len() {
        None
    } else if apple_match_at(s, i) {
        Some(i)
    } else {
        apple_first_match_from(s, i + 1)
    }
}

/// The end of the run of digits that starts at `j`.
pub open spec fn digit_run_end(s: Seq<char>, j: int) -> int
    decreases s.len() - j,
{
    if j < s.len() && is_digit_char(s[j]) {
        digit_run_end(s, j + 1)
    } else {
        j
    }
}

/// The identifier the album-page shape yields: at the leftmost occurrence,
/// with the greedy stretches, the longest run of digits after the last
/// slash.
pub open spec fn spec_apple_fallback_id(s: Seq<char>) -> Option<Seq<char>> {
    match apple_first_match_from(s, 0) {
        Some(i) => match apple_last_p(s, i, s.len() - 1) {
            Some(p) => match apple_segment_end(s, p) {
                Some(q) => match apple_last_tail(s, q, s.len() - 2) {
                    Some(r) => Some(s.subrange(r + 1, digit_run_end(s, r + 1))),
                    None => None,
                },
                None => None,
            },
            None => None,
        },
        None => None,
    }
}

/// The track identifier an Apple Music URL carries: the `i` query parameter
/// of a `music.apple.com` URL when one is present, else whatever the
/// album-page shape yields.
pub open spec fn spec_apple_track_id(s: Seq<char>) -> Option<Seq<char>> {
    if url_domain_of(s) != Some("music.apple.com"@) {
        None
    } else {
        match url_query_pairs_of(s) {
            Some(pairs) => match first_query_value(pairs, "i"@) {
                Some(v) => Some(v),
                None => spec_apple_fallback_id(s),
            },
            None => None,
        }
    }
}

/// The value of the first pair whose key is `key`.
pub open spec fn first_query_value(pairs: Seq<(Seq<char>, Seq<char>)>, key: Seq<char>) -> Option<
    Seq<char>,
>
    decreases pairs.len(),
{
    if pairs.len() == 0 {
        None
    } else if pairs[0].0 == key {
        Some(pairs[0].1)
    } else {
        first_query_value(pairs.drop_first(), key)
    }
}

/// A scan that reached `Some` stopped at a matching position.
proof fn lemma_last_p_some(s: Seq<char>, i: int, top: int, p: int)
    requires
        i <= top,
        apple_last_p(s, i, top) == Some(p),
    ensures
        apple_p_ok(s, i, p),
        i + 16 <= p <= top,
    decreases top - i,
{
    if top >= i + 16 && !apple_p_ok(s, i, top) {
        lemma_last_p_some(s, i, top - 1, p);
    }
}

/// A tail scan that reached `Some` stopped at a matching position.
proof fn lemma_last_tail_some(s: Seq<char>, q: int, top: int, r: int)
    requires
        q <= top,
        apple_last_tail(s, q, top) == Some(r),
    ensures
        apple_tail_ok(s, q, r),
        q < r <= top,
    decreases top - q,
{
    if top > q && !apple_tail_ok(s, q, top) {
        lemma_last_tail_some(s, q, top - 1, r);
    }
}

/// Scanning past positions where the shape does not occur does not change
/// the first match.
proof fn lemma_apple_first_match_skip(s: Seq<char>, i: int)
    requires
        0 <= i <= s.len(),
        forall|k: int| 0 <= k < i ==> !apple_match_at(s, k),
    ensures
        apple_first_match_from(s, 0) == apple_first_match_from(s, i),
    decreases i,
{
    if i > 0 {
        lemma_apple_first_match_skip(s, i - 1);
    }
}

/// Searching past pairs whose keys miss `key` does not change the result.
proof fn lemma_first_query_skip(pairs: Seq<(Seq<char>, Seq<char>)>, key: Seq<char>, i: int)
    requires
        0 <= i <= pairs.len(),
        forall|j: int| 0 <= j < i ==> (#[trigger] pairs[j]).0 != key,
    ensures
        first_query_value(pairs, key) == first_query_value(pairs.skip(i), key),
    decreases i,
{
    if i > 0 {
        assert(pairs.drop_first() =~= pairs.skip(1));
        assert(pairs.skip(1).skip(i - 1) =~= pairs.skip(i));
        lemma_first_query_skip(pairs.skip(1), key, i - 1);
    } else {
        assert(pairs.skip(0) =~= pairs);
    }
}

/// A run of digits from `start` to `e`, with `e` at the end of the string or
/// at a character outside the alphabet, ends exactly at `e`.
proof fn lemma_digit_run(s: Seq<char>, start: int, e: int)
    requires
        0 <= start <= e <= s.len(),
        forall|j: int| start <= j < e ==> is_digit_char(s[j]),
        e < s.len() ==> !is_digit_char(s[e]),
    ensures
        digit_run_end(s, start) == e,
    decreases e - start,
{
    if start < e {
        lemma_digit_run(s, start + 1, e);
    }
}

/// Whether `c` is an ASCII digit.
fn is_digit(c: char) -> (r: bool)
    ensures
        r == is_digit_char(c),
{
    let u = c as u32;
    0x30 <= u && u <= 0x39
}

/// Whether no newline stands between `a` (inclusive) and `b` (exclusive).
fn no_newline_between(s: &str, a: usize, b: usize) -> (r: bool)
    requires
        a <= b <= s@.len(),
    ensures
        r == no_newline(s@, a as int, b as int),
{
    let mut j = a;
    while j < b
        invariant
            a <= j <= b <= s@.len(),
            forall|k: int| a <= k < j ==> s@[k] != '\n',
        decreases b - j,
    {
        if s.get_char(j) == '\n' {
            return false;
        }
        j += 1;
    }
    true
}

/// The position after the segment word when one occurs at `p`.
fn segment_end(s: &str, p: usize) -> (r: Option<usize>)
    ensures
        match r {
            Some(q) => apple_segment_end(s@, p as int) == Some(q as int) && q <= s@.len(),
            None => apple_segment_end(s@, p as int) is None,
        },
{
    proof {
        reveal_strlit("/song/");
        reveal_strlit("/album/");
        assert(("/song/"@).len() == 6);
        assert(("/album/"@).len() == 7);
    }
    let n = s.unicode_len();
    if has_prefix(s, p, "/song/") {
        Some(p + 6)
    } else if has_prefix(s, p, "/album/") {
        Some(p + 7)
    } else {
        None
    }
}

/// Whether the tail shape holds from `q` to `r`.
fn tail_ok(s: &str, q: usize, r: usize) -> (ok: bool)
    requires
        q <= s@.len(),
        r <= s@.len(),
    ensures
        ok == apple_tail_ok(s@, q as int, r as int),
{
    let n = s.unicode_len();
    q < r && r < n && r + 1 < n && no_newline_between(s, q, r) && s.get_char(r) == '/' && is_digit(
        s.get_char(r + 1),
    )
}

/// The greedy tail: the last position where the tail shape holds after `q`.
fn last_tail(s: &str, q: usize) -> (r: Option<usize>)
    requires
        q <= s@.len(),
    ensures
        match r {
            Some(t) => apple_last_tail(s@, q as int, s@.len() - 2) == Some(t as int) && t
                < s@.len(),
            None => apple_last_tail(s@, q as int, s@.len() - 2) is None,
        },
{
    let n = s.unicode_len();
    if n < 2 || n - 2 <= q {
        return None;
    }
    let mut r: usize = n - 2;
    while r > q
        invariant
            n == s@.len(),
            q <= r <= n - 2,
            apple_last_tail(s@, q as int, s@.len() - 2) == apple_last_tail(
                s@,
                q as int,
                r as int,
            ),
        decreases r,
    {
        if tail_ok(s, q, r) {
            return Some(r);
        }
        r -= 1;
    }
    None
}

/// Whether the shape after the host matches with the middle stretch ending
/// at `p`.
fn p_ok(s: &str, i: usize, p: usize) -> (ok: bool)
    requires
        p < s@.len(),
    ensures
        ok == apple_p_ok(s@, i as int, p as int),
{
    if p < 16 || i > p - 16 {
        proof {
            assert(!apple_p_ok(s@, i as int, p as int));
        }
        return false;
    }
    if !no_newline_between(s, i + 16, p) {
        return false;
    }
    match segment_end(s, p) {
        Some(q) => match last_tail(s, q) {
            Some(_) => true,
            None => false,
        },
        None => false,
    }
}

/// The greedy middle stretch: the last position where the shape after the
/// host matches.
fn last_p(s: &str, i: usize) -> (r: Option<usize>)
    requires
        i <= s@.len(),
    ensures
        match r {
            Some(p) => apple_last_p(s@, i as int, s@.len() - 1) == Some(p as int) && apple_p_ok(
                s@,
                i as int,
                p as int,
            ),
            None => apple_last_p(s@, i as int, s@.len() - 1) is None,
        },
{
    let n = s.unicode_len();
    if n - i < 17 {
        return None;
    }
    let mut p: usize = n - 1;
    while p >= i + 16
        invariant
            n == s@.len(),
            n - i >= 17,
            i + 16 <= p + 1,
            p <= n - 1,
            apple_last_p(s@, i as int, s@.len() - 1) == apple_last_p(s@, i as int, p as int),
        decreases p,
    {
        if p_ok(s, i, p) {
            return Some(p);
        }
        p -= 1;
    }
    None
}

/// The identifier the album-page shape yields, at its leftmost occurrence.
fn apple_fallback_id(input: &str) -> (r: Option<String>)
    ensures
        opt_view(r) == spec_apple_fallback_id(input@),
{
    proof {
        reveal_strlit("music.apple.com/");
        assert(("music.apple.com/"@).len() == 16);
    }
    let n = input.unicode_len();
    let mut i: usize = 0;
    while i < n
        invariant
            n == input@.len(),
            i <= n,
            forall|k: int| 0 <= k < i ==> !apple_match_at(input@, k),
        decreases n - i,
    {
        if has_prefix(input, i, "music.apple.com/") {
            match last_p(input, i) {
                Some(p) => {
                    proof {
                        lemma_apple_first_match_skip(input@, i as int);
                    }
                    let q = match segment_end(input, p) {
                        Some(q) => q,
                        None => {
                            proof {
                                assert(false);
                            }
                            return None;
                        },
                    };
                    let r = match last_tail(input, q) {
                        Some(r) => r,
                        None => {
                            proof {
                                assert(false);
                            }
                            return None;
                        },
                    };
                    let start = r + 1;
                    let mut e: usize = start;
                    while e < n && is_digit(input.get_char(e))
                        invariant
                            n == input@.len(),
                            start <= e <= n,
                            forall|j: int| start <= j < e ==> is_digit_char(input@[j]),
                        decreases n - e,
                    {
                        e += 1;
                    }
                    proof {
                        lemma_last_tail_some(input@, q as int, input@.len() - 2, r as int);
                        lemma_digit_run(input@, start as int, e as int);
                    }
                    return Some(input.substring_char(start, e).to_owned());
                },
                None => {},
            }
        }
        i += 1;
    }
    proof {
        lemma_apple_first_match_skip(input@, n as int);
    }
    None
}

/// Pulls the track identifier out of an Apple Music URL, best-effort: the
/// result is exactly [`spec_apple_track_id`] of the input.
pub fn parse_apple_music_track_id(input: &str) -> (r: Option<String>)
    ensures
        opt_view(r) == spec_apple_track_id(input@),
{
    let on_domain = match url_domain(input) {
        Some(domain) => crate::text::str_eq(domain.as_str(), "music.apple.com"),
        None => false,
    };
    if !on_domain {
        return None;
    }
    let pairs = match url_query_pairs(input) {
        Some(pairs) => pairs,
        None => {
            return None;
        },
    };
    let m = pairs.len();
    let mut k: usize = 0;
    while k < m
        invariant
            m == pairs@.len(),
            k <= m,
            url_domain_of(input@) == Some("music.apple.com"@),
            url_query_pairs_of(input@) == Some(pairs_view(pairs@)),
            forall|j: int| 0 <= j < k ==> (#[trigger] pairs_view(pairs@)[j]).0 != "i"@,
        decreases m - k,
    {
        let pair = &pairs[k];
        if crate::text::str_eq(pair.0.as_str(), "i") {
            proof {
                assert(pairs_view(pairs@).len() == pairs@.len());
                assert(pairs_view(pairs@)[k as int] == (pairs@[k as int].0@, pairs@[k as int].1@));
                lemma_first_query_skip(pairs_view(pairs@), "i"@, k as int);
                assert(pairs_view(pairs@).skip(k as int)[0] == pairs_view(pairs@)[k as int]);
                assert(first_query_value(pairs_view(pairs@), "i"@) == Some(pairs@[k as int].1@));
            }
            return Some(pair.1.clone());
        }
        proof {
            assert(pairs_view(pairs@)[k as int] == (pairs@[k as int].0@, pairs@[k as int].1@));
        }
        k += 1;
    }
    proof {
        lemma_first_query_skip(pairs_view(pairs@), "i"@, m as int);
        assert(pairs_view(pairs@).skip(m as int) =~= Seq::<(Seq<char>, Seq<char>)>::empty());
    }
    apple_fallback_id(input)
}

} // verus!
