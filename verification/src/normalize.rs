//! The platform normalizer: maps free-form user target strings to the
//! canonical platform keys the resolution service recognizes, and canonical
//! keys to human-readable display labels.

use vstd::prelude::*;

use crate::text::{lower_seq, trim_ws};

verus! {

broadcast use vstd::string::group_string_axioms;

/// The canonical form a user-supplied target string is reduced to before the
/// alias table is consulted: surrounding whitespace removed, then ASCII
/// lower-cased.
pub open spec fn normalized_target(s: Seq<char>) -> Seq<char> {
    lower_seq(trim_ws(s))
}

/// The fixed alias table: which already-normalized strings name a platform,
/// and the canonical key each of them names.
pub open spec fn alias_canonical(s: Seq<char>) -> Option<Seq<char>> {
    if s == "spotify"@ {
        Some("spotify"@)
    } else if s == "applemusic"@ || s == "apple-music"@ || s == "apple_music"@ {
        Some("appleMusic"@)
    } else if s == "itunes"@ {
        Some("itunes"@)
    } else if s == "youtube"@ {
        Some("youtube"@)
    } else if s == "youtubemusic"@ || s == "youtube-music"@ || s == "youtube_music"@ {
        Some("youtubeMusic"@)
    } else if s == "tidal"@ {
        Some("tidal"@)
    } else if s == "deezer"@ {
        Some("deezer"@)
    } else if s == "amazonmusic"@ || s == "amazon-music"@ || s == "amazon_music"@ {
        Some("amazonMusic"@)
    } else {
        None
    }
}

/// The eight canonical platform keys of the alias table.
pub open spec fn is_canonical_key(k: Seq<char>) -> bool {
    k == "spotify"@ || k == "appleMusic"@ || k == "itunes"@ || k == "youtube"@
        || k == "youtubeMusic"@ || k == "tidal"@ || k == "deezer"@ || k == "amazonMusic"@
}

/// The display label of a platform key; a key outside the fixed set is its
/// own label, so that platforms the service adds later still present.
pub open spec fn display_of(key: Seq<char>) -> Seq<char> {
    if key == "appleMusic"@ {
        "Apple Music"@
    } else if key == "itunes"@ {
        "iTunes"@
    } else if key == "spotify"@ {
        "Spotify"@
    } else if key == "youtube"@ {
        "YouTube"@
    } else if key == "youtubeMusic"@ {
        "YouTube Music"@
    } else if key == "tidal"@ {
        "Tidal"@
    } else if key == "deezer"@ {
        "Deezer"@
    } else if key == "amazonMusic"@ {
        "Amazon Music"@
    } else {
        key
    }
}

/// The human-readable label of a canonical platform key.
pub fn display_name(key: &str) -> (r: &str)
    ensures
        r@ == display_of(key@),
{
    if crate::text::str_eq(key, "appleMusic") {
        "Apple Music"
    } else if crate::text::str_eq(key, "itunes") {
        "iTunes"
    } else if crate::text::str_eq(key, "spotify") {
        "Spotify"
    } else if crate::text::str_eq(key, "youtube") {
        "YouTube"
    } else if crate::text::str_eq(key, "youtubeMusic") {
        "YouTube Music"
    } else if crate::text::str_eq(key, "tidal") {
        "Tidal"
    } else if crate::text::str_eq(key, "deezer") {
        "Deezer"
    } else if crate::text::str_eq(key, "amazonMusic") {
        "Amazon Music"
    } else {
        key
    }
}

/// Law: `display_of` is total — every canonical key has a non-empty label,
/// and a key outside the fixed set is returned unchanged.
pub proof fn lemma_display_name_total(k: Seq<char>)
    ensures
        is_canonical_key(k) ==> display_of(k).len() > 0,
        !is_canonical_key(k) ==> display_of(k) == k,
{
    reveal_strlit("spotify");
    reveal_strlit("appleMusic");
    reveal_strlit("itunes");
    reveal_strlit("youtube");
    reveal_strlit("youtubeMusic");
    reveal_strlit("tidal");
    reveal_strlit("deezer");
    reveal_strlit("amazonMusic");
    reveal_strlit("Apple Music");
    reveal_strlit("iTunes");
    reveal_strlit("Spotify");
    reveal_strlit("YouTube");
    reveal_strlit("YouTube Music");
    reveal_strlit("Tidal");
    reveal_strlit("Deezer");
    reveal_strlit("Amazon Music");
}

/// Law: target normalization is insensitive to ASCII casing — any two inputs
/// whose lower-case folds agree are reduced to the same normalized string,
/// and so to the same canonical key (or to none).
pub proof fn lemma_normalize_case_insensitive(a: Seq<char>, b: Seq<char>)
    requires
        lower_seq(a) == lower_seq(b),
    ensures
        normalized_target(a) == normalized_target(b),
        alias_canonical(normalized_target(a)) == alias_canonical(normalized_target(b)),
{
    crate::text::lemma_lower_trim_commute(a);
    crate::text::lemma_lower_trim_commute(b);
}

/// Law: the joined, hyphenated and underscored spellings of the Apple Music
/// alias all name the same canonical key.
pub proof fn lemma_apple_alias_variants()
    ensures
        alias_canonical("applemusic"@) == Some("appleMusic"@),
        alias_canonical("apple-music"@) == Some("appleMusic"@),
        alias_canonical("apple_music"@) == Some("appleMusic"@),
{
    reveal_strlit("spotify");
    reveal_strlit("applemusic");
    reveal_strlit("apple-music");
    reveal_strlit("apple_music");
    assert(("spotify"@).len() == 7);
    assert(("applemusic"@).len() == 10);
    assert(("apple-music"@).len() == 11);
    assert(("apple_music"@).len() == 11);
}

/// Law: the joined, hyphenated and underscored spellings of the YouTube Music
/// alias all name the same canonical key.
pub proof fn lemma_youtube_alias_variants()
    ensures
        alias_canonical("youtubemusic"@) == Some("youtubeMusic"@),
        alias_canonical("youtube-music"@) == Some("youtubeMusic"@),
        alias_canonical("youtube_music"@) == Some("youtubeMusic"@),
{
    reveal_strlit("spotify");
    reveal_strlit("applemusic");
    reveal_strlit("apple-music");
    reveal_strlit("apple_music");
    reveal_strlit("itunes");
    reveal_strlit("youtube");
    reveal_strlit("youtubemusic");
    reveal_strlit("youtube-music");
    reveal_strlit("youtube_music");
    assert(("spotify"@).len() == 7);
    assert(("applemusic"@).len() == 10);
    assert(("apple-music"@).len() == 11);
    assert(("apple_music"@).len() == 11);
    assert(("itunes"@).len() == 6);
    assert(("youtube"@).len() == 7);
    assert(("youtubemusic"@).len() == 12);
    assert(("youtube-music"@).len() == 13);
    assert(("youtube_music"@).len() == 13);
}

/// Law: the joined, hyphenated and underscored spellings of the Amazon Music
/// alias all name the same canonical key.
pub proof fn lemma_amazon_alias_variants()
    ensures
        alias_canonical("amazonmusic"@) == Some("amazonMusic"@),
        alias_canonical("amazon-music"@) == Some("amazonMusic"@),
        alias_canonical("amazon_music"@) == Some("amazonMusic"@),
{
    reveal_strlit("spotify");
    reveal_strlit("applemusic");
    reveal_strlit("apple-music");
    reveal_strlit("apple_music");
    reveal_strlit("itunes");
    reveal_strlit("youtube");
    reveal_strlit("youtubemusic");
    reveal_strlit("youtube-music");
    reveal_strlit("youtube_music");
    reveal_strlit("tidal");
    reveal_strlit("deezer");
    reveal_strlit("amazonmusic");
    reveal_strlit("amazon-music");
    reveal_strlit("amazon_music");
    assert(("spotify"@).len() == 7);
    assert(("applemusic"@).len() == 10);
    assert(("apple-music"@).len() == 11);
    assert(("apple_music"@).len() == 11);
    assert(("itunes"@).len() == 6);
    assert(("youtube"@).len() == 7);
    assert(("youtubemusic"@).len() == 12);
    assert(("youtube-music"@).len() == 13);
    assert(("youtube_music"@).len() == 13);
    assert(("tidal"@).len() == 5);
    assert(("deezer"@).len() == 6);
    assert(("amazonmusic"@).len() == 11);
    assert(("amazon-music"@).len() == 12);
    assert(("amazon_music"@).len() == 12);
    assert(("amazonmusic"@)[1] == 'm');
    assert(("apple-music"@)[1] == 'p');
    assert(("apple_music"@)[1] == 'p');
    assert(("amazonmusic"@) != "apple-music"@);
    assert(("amazonmusic"@) != "apple_music"@);
    assert(("amazon-music"@)[0] == 'a');
    assert(("amazon_music"@)[0] == 'a');
    assert(("youtubemusic"@)[0] == 'y');
    assert(("amazon-music"@) != "youtubemusic"@);
    assert(("amazon_music"@) != "youtubemusic"@);
}

/// Law: any input whose trimmed, case-folded form spells an alias of a
/// multi-word platform — whatever its casing, and whether the words are
/// joined, hyphenated or underscored — normalizes to that platform's
/// canonical key.
pub proof fn lemma_normalize_alias_variants(s: Seq<char>)
    ensures
        normalized_target(s) == "applemusic"@ || normalized_target(s) == "apple-music"@
            || normalized_target(s) == "apple_music"@ ==> alias_canonical(normalized_target(s))
            == Some("appleMusic"@),
        normalized_target(s) == "youtubemusic"@ || normalized_target(s) == "youtube-music"@
            || normalized_target(s) == "youtube_music"@ ==> alias_canonical(normalized_target(s))
            == Some("youtubeMusic"@),
        normalized_target(s) == "amazonmusic"@ || normalized_target(s) == "amazon-music"@
            || normalized_target(s) == "amazon_music"@ ==> alias_canonical(normalized_target(s))
            == Some("amazonMusic"@),
{
    lemma_apple_alias_variants();
    lemma_youtube_alias_variants();
    lemma_amazon_alias_variants();
}

} // verus!
