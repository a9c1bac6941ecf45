//! Best-effort extraction of a track identifier from a Spotify URL: the
//! leftmost occurrence of the track-page shape, with an optional locale
//! segment, followed by the longest run of alphanumeric characters.

use vstd::prelude::*;

use crate::text::{has_prefix_at, has_prefix, opt_view};

verus! {

/// ASCII letters and digits, the alphabet of track identifiers.
pub open spec fn is_alnum_char(c: char) -> bool {
    let u = c as u32;
    (0x30 <= u && u <= 0x39) || (0x41 <= u && u <= 0x5A) || (0x61 <= u && u <= 0x7A)
}

/// ASCII small letters, the alphabet of locale codes.
pub open spec fn is_lower_alpha_char(c: char) -> bool {
    let u = c as u32;
    0x61 <= u && u <= 0x7A
}

/// Whether a locale segment (`intl-` plus two small letters and a slash)
/// occurs at position `j`.
pub open spec fn spotify_locale_at(s: Seq<char>, j: int) -> bool {
    &&& has_prefix_at(s, j, "intl-"@)
    &&& j + 8 <= s.len()
    &&& is_lower_alpha_char(s[j + 5])
    &&& is_lower_alpha_char(s[j + 6])
    &&& s[j + 7] == '/'
}

/// Whether the track segment with at least one identifier character occurs
/// at position `j`.
pub open spec fn spotify_track_at(s: Seq<char>, j: int) -> bool {
    has_prefix_at(s, j, "track/"@) && j + 6 < s.len() && is_alnum_char(s[j + 6])
}

/// Whether the whole track-page shape occurs at position `i`.
pub open spec fn spotify_match_at(s: Seq<char>, i: int) -> bool {
    has_prefix_at(s, i, "open.spotify.com/"@) && (spotify_locale_at(s, i + 17) && spotify_track_at(
        s,
        i + 25,
    ) || spotify_track_at(s, i + 17))
}

/// Where the identifier starts for a match at position `i`.
pub open spec fn spotify_id_start(s: Seq<char>, i: int) -> int {
    if spotify_locale_at(s, i + 17) {
        i + 31
    } else {
        i + 23
    }
}

/// The end of the run of identifier characters that starts at `j`.
pub open spec fn alnum_run_end(s: Seq<char>, j: int) -> int
    decreases s.len() - j,
{
    if j < s.len() && is_alnum_char(s[j]) {
        alnum_run_end(s, j + 1)
    } else {
        j
    }
}

/// The first position at or after `i` where the track-page shape occurs.
pub open spec fn spotify_first_match_from(s: Seq<char>, i: int) -> Option<int>
    decreases s.len() - i,
{
    if i >= s.len() {
        None
    } else if spotify_match_at(s, i) {
        Some(i)
    } else {
        spotify_first_match_from(s, i + 1)
    }
}

/// The track identifier a string carries: at the leftmost occurrence of the
/// track-page shape, the longest run of identifier characters.
pub open spec fn spec_spotify_track_id(s: Seq<char>) -> Option<Seq<char>> {
    match spotify_first_match_from(s, 0) {
        Some(i) => {
            let start = spotify_id_start(s, i);
            Some(s.subrange(start, alnum_run_end(s, start)))
        },
        None => None,
    }
}

/// Scanning past positions where the shape does not occur does not change
/// the first match.
proof fn lemma_first_match_skip(s: Seq<char>, i: int)
    requires
        0 <= i <= s.len(),
        forall|k: int| 0 <= k < i ==> !spotify_match_at(s, k),
    ensures
        spotify_first_match_from(s, 0) == spotify_first_match_from(s, i),
    decreases i,
{
    if i > 0 {
        lemma_first_match_skip(s, i - 1);
    }
}

/// Whether `c` is an ASCII letter or digit.
fn is_alnum(c: char) -> (r: bool)
    ensures
        r == is_alnum_char(c),
{
    let u = c as u32;
    (0x30 <= u && u <= 0x39) || (0x41 <= u && u <= 0x5A) || (0x61 <= u && u <= 0x7A)
}

/// Whether `c` is an ASCII small letter.
fn is_lower_alpha(c: char) -> (r: bool)
    ensures
        r == is_lower_alpha_char(c),
{
    let u = c as u32;
    0x61 <= u && u <= 0x7A
}

/// Where the identifier starts when the whole track-page shape occurs at
/// position `i`, and nothing when it does not.
fn match_id_start(s: &str, i: usize) -> (r: Option<usize>)
    requires
        i <= s@.len(),
    ensures
        match r {
            Some(start) => spotify_match_at(s@, i as int) && start == spotify_id_start(
                s@,
                i as int,
            ) && start <= s@.len(),
            None => !spotify_match_at(s@, i as int),
        },
{
    proof {
        reveal_strlit("open.spotify.com/");
        reveal_strlit("intl-");
        reveal_strlit("track/");
        assert(("open.spotify.com/"@).len() == 17);
        assert(("intl-"@).len() == 5);
        assert(("track/"@).len() == 6);
    }
    let n = s.unicode_len();
    if !has_prefix(s, i, "open.spotify.com/") {
        return None;
    }
    let j = i + 17;
    let locale = has_prefix(s, j, "intl-") && n - j >= 8 && is_lower_alpha(s.get_char(j + 5))
        && is_lower_alpha(s.get_char(j + 6)) && s.get_char(j + 7) == '/';
    proof {
        assert(locale == spotify_locale_at(s@, j as int));
    }
    let t = if locale {
        j + 8
    } else {
        j
    };
    if has_prefix(s, t, "track/") && n - t > 6 && is_alnum(s.get_char(t + 6)) {
        Some(t + 6)
    } else {
        proof {
            if locale {
                assert(s@[j as int] == 'i') by {
                    assert(s@.subrange(j as int, j + 5)[0] == s@[j as int]);
                }
                assert(!spotify_track_at(s@, j as int)) by {
                    if has_prefix_at(s@, j as int, "track/"@) {
                        assert(s@.subrange(j as int, j + 6)[0] == s@[j as int]);
                    }
                }
            }
        }
        None
    }
}

/// Pulls the track identifier out of a Spotify track URL, best-effort: the
/// result is exactly [`spec_spotify_track_id`] of the input.
pub fn parse_spotify_track_id(input: &str) -> (r: Option<String>)
    ensures
        opt_view(r) == spec_spotify_track_id(input@),
{
    let n = input.unicode_len();
    let mut i: usize = 0;
    while i < n
        invariant
            n == input@.len(),
            i <= n,
            forall|k: int| 0 <= k < i ==> !spotify_match_at(input@, k),
        decreases n - i,
    {
        match match_id_start(input, i) {
            Some(start) => {
                proof {
                    lemma_first_match_skip(input@, i as int);
                }
                let mut e: usize = start;
                while e < n && is_alnum(input.get_char(e))
                    invariant
                        n == input@.len(),
                        start <= e <= n,
                        forall|j: int| start <= j < e ==> is_alnum_char(input@[j]),
                    decreases n - e,
                {
                    e += 1;
                }
                proof {
                    lemma_alnum_run(input@, start as int, e as int);
                }
                return Some(input.substring_char(start, e).to_owned());
            },
            None => {},
        }
        i += 1;
    }
    proof {
        lemma_first_match_skip(input@, n as int);
    }
    None
}

/// A run of identifier characters from `start` to `e`, with `e` at the end
/// of the string or at a character outside the alphabet, ends exactly at
/// `e`.
proof fn lemma_alnum_run(s: Seq<char>, start: int, e: int)
    requires
        0 <= start <= e <= s.len(),
        forall|j: int| start <= j < e ==> is_alnum_char(s[j]),
        e < s.len() ==> !is_alnum_char(s[e]),
    ensures
        alnum_run_end(s, start) == e,
    decreases e - start,
{
    if start < e {
        lemma_alnum_run(s, start + 1, e);
    }
}

} // verus!
