//! Character and string helpers: whitespace trimming, ASCII lower-casing and
//! lexicographic comparison, each verified against a small mathematical
//! definition.

use vstd::prelude::*;

verus! {

/// The view of an optional string.
pub open spec fn opt_view(o: Option<String>) -> Option<Seq<char>> {
    match o {
        Some(s) => Some(s@),
        None => None,
    }
}

/// The Unicode `White_Space` code points, the set that `str::trim` removes.
pub open spec fn is_space_char(c: char) -> bool {
    let u = c as u32;
    u == 0x09 || u == 0x0A || u == 0x0B || u == 0x0C || u == 0x0D || u == 0x20 || u == 0x85
        || u == 0xA0 || u == 0x1680 || (0x2000 <= u && u <= 0x200A) || u == 0x2028 || u == 0x2029
        || u == 0x202F || u == 0x205F || u == 0x3000
}

/// Maps an ASCII capital letter to its small form and leaves every other
/// character unchanged.
pub open spec fn lower_char(c: char) -> char {
    if 0x41 <= c as u32 && c as u32 <= 0x5A {
        (((c as u32) + 0x20) as u8) as char
    } else {
        c
    }
}

/// Pointwise ASCII lower-casing of a character sequence.
pub open spec fn lower_seq(s: Seq<char>) -> Seq<char> {
    s.map_values(|c: char| lower_char(c))
}

/// `s` without its leading whitespace.
pub open spec fn trim_start_ws(s: Seq<char>) -> Seq<char>
    decreases s.len(),
{
    if s.len() > 0 && is_space_char(s[0]) {
        trim_start_ws(s.drop_first())
    } else {
        s
    }
}

/// `s` without its trailing whitespace.
pub open spec fn trim_end_ws(s: Seq<char>) -> Seq<char>
    decreases s.len(),
{
    if s.len() > 0 && is_space_char(s.last()) {
        trim_end_ws(s.drop_last())
    } else {
        s
    }
}

/// `s` without surrounding whitespace, as `str::trim` leaves it.
pub open spec fn trim_ws(s: Seq<char>) -> Seq<char> {
    trim_end_ws(trim_start_ws(s))
}

/// Strict lexicographic order on character sequences, by code point.
pub open spec fn lex_lt(a: Seq<char>, b: Seq<char>) -> bool
    decreases a.len(),
{
    if b.len() == 0 {
        false
    } else if a.len() == 0 {
        true
    } else if (a[0] as u32) < (b[0] as u32) {
        true
    } else if a[0] == b[0] {
        lex_lt(a.drop_first(), b.drop_first())
    } else {
        false
    }
}

/// Dropping an equal head character on both sides preserves the order.
proof fn lemma_lex_lt_skip_prefix(a: Seq<char>, b: Seq<char>, i: int)
    requires
        0 <= i <= a.len(),
        i <= b.len(),
        forall|j: int| 0 <= j < i ==> a[j] == b[j],
    ensures
        lex_lt(a, b) == lex_lt(a.skip(i), b.skip(i)),
    decreases i,
{
    if i > 0 {
        assert(a.skip(1).skip(i - 1) =~= a.skip(i));
        assert(b.skip(1).skip(i - 1) =~= b.skip(i));
        assert(a.drop_first() =~= a.skip(1));
        assert(b.drop_first() =~= b.skip(1));
        lemma_lex_lt_skip_prefix(a.skip(1), b.skip(1), i - 1);
    } else {
        assert(a.skip(0) =~= a);
        assert(b.skip(0) =~= b);
    }
}

/// The order is irreflexive.
pub proof fn lemma_lex_lt_irrefl(a: Seq<char>)
    ensures
        !lex_lt(a, a),
    decreases a.len(),
{
    if a.len() > 0 {
        lemma_lex_lt_irrefl(a.drop_first());
    }
}

/// The order is transitive.
pub proof fn lemma_lex_lt_trans(a: Seq<char>, b: Seq<char>, c: Seq<char>)
    requires
        lex_lt(a, b),
        lex_lt(b, c),
    ensures
        lex_lt(a, c),
    decreases a.len(),
{
    if a.len() > 0 && b.len() > 0 && c.len() > 0 && a[0] == b[0] && b[0] == c[0] {
        lemma_lex_lt_trans(a.drop_first(), b.drop_first(), c.drop_first());
    }
}

/// Two sequences that neither order relates are equal.
pub proof fn lemma_lex_lt_connected(a: Seq<char>, b: Seq<char>)
    requires
        !lex_lt(a, b),
        !lex_lt(b, a),
    ensures
        a == b,
    decreases a.len(),
{
    if a.len() > 0 && b.len() > 0 {
        assert((a[0] as u32) == (b[0] as u32));
        vstd::utf8::char_u32_cast(a[0], a[0] as u32);
        vstd::utf8::char_u32_cast(b[0], b[0] as u32);
        assert(a[0] == b[0]);
        lemma_lex_lt_connected(a.drop_first(), b.drop_first());
        assert(a =~= seq![a[0]] + a.drop_first());
        assert(b =~= seq![b[0]] + b.drop_first());
    } else {
        assert(a =~= b);
    }
}

/// Whether `p` occurs in `s` starting at position `i`.
pub open spec fn has_prefix_at(s: Seq<char>, i: int, p: Seq<char>) -> bool {
    0 <= i && i + p.len() <= s.len() && s.subrange(i, i + p.len()) == p
}

/// Whether `p` occurs in `s` at position `i`.
pub fn has_prefix(s: &str, i: usize, p: &str) -> (r: bool)
    ensures
        r == has_prefix_at(s@, i as int, p@),
{
    let n = s.unicode_len();
    let m = p.unicode_len();
    if m > n || i > n - m {
        proof {
            assert(!has_prefix_at(s@, i as int, p@));
        }
        return false;
    }
    let mut k: usize = 0;
    while k < m
        invariant
            n == s@.len(),
            m == p@.len(),
            i + m <= n,
            k <= m,
            forall|j: int| 0 <= j < k ==> s@[i + j] == p@[j],
        decreases m - k,
    {
        if s.get_char(i + k) != p.get_char(k) {
            proof {
                assert(s@.subrange(i as int, i + m) != p@) by {
                    assert(s@.subrange(i as int, i + m)[k as int] == s@[i + k]);
                }
            }
            return false;
        }
        k += 1;
    }
    proof {
        assert(s@.subrange(i as int, i + m) =~= p@);
    }
    true
}

/// Character-wise equality of two string slices.
pub fn str_eq(a: &str, b: &str) -> (r: bool)
    ensures
        r == (a@ == b@),
{
    let n = a.unicode_len();
    let m = b.unicode_len();
    if n != m {
        proof {
            assert(a@ != b@);
        }
        return false;
    }
    let mut i: usize = 0;
    while i < n
        invariant
            n == a@.len(),
            n == b@.len(),
            i <= n,
            forall|j: int| 0 <= j < i ==> a@[j] == b@[j],
        decreases n - i,
    {
        if a.get_char(i) != b.get_char(i) {
            return false;
        }
        i += 1;
    }
    proof {
        assert(a@ =~= b@);
    }
    true
}

/// Whether `a` comes strictly before `b` in lexicographic order.
pub fn str_lt(a: &str, b: &str) -> (r: bool)
    ensures
        r == lex_lt(a@, b@),
{
    let n = a.unicode_len();
    let m = b.unicode_len();
    let k = if n < m {
        n
    } else {
        m
    };
    let mut i: usize = 0;
    while i < k
        invariant
            n == a@.len(),
            m == b@.len(),
            k == if n < m {
                n
            } else {
                m
            },
            i <= k,
            forall|j: int| 0 <= j < i ==> a@[j] == b@[j],
        decreases k - i,
    {
        let ca = a.get_char(i);
        let cb = b.get_char(i);
        if (ca as u32) < (cb as u32) {
            proof {
                lemma_lex_lt_skip_prefix(a@, b@, i as int);
            }
            return true;
        }
        if (cb as u32) < (ca as u32) {
            proof {
                lemma_lex_lt_skip_prefix(a@, b@, i as int);
                assert(ca as u32 != cb as u32);
                assert(ca != cb);
            }
            return false;
        }
        proof {
            vstd::utf8::char_u32_cast(ca, ca as u32);
            vstd::utf8::char_u32_cast(cb, cb as u32);
            assert(ca == cb);
        }
        i += 1;
    }
    proof {
        lemma_lex_lt_skip_prefix(a@, b@, k as int);
    }
    n < m
}

/// The index of the first occurrence of `sep` in `s`, or the length of `s`
/// when there is none.
pub open spec fn find_char(s: Seq<char>, sep: char) -> int
    decreases s.len(),
{
    if s.len() == 0 {
        0
    } else if s[0] == sep {
        0
    } else {
        1 + find_char(s.drop_first(), sep)
    }
}

/// The pieces of `s` between occurrences of `sep`: always one more piece
/// than separators, so the empty sequence splits into one empty piece.
pub open spec fn split_char(s: Seq<char>, sep: char) -> Seq<Seq<char>>
    decreases s.len(),
{
    let i = find_char(s, sep);
    if 0 <= i < s.len() {
        seq![s.take(i)] + split_char(s.skip(i + 1), sep)
    } else {
        seq![s]
    }
}

/// A sequence with no `sep` among its first `i` characters, and `sep` at `i`
/// (if `i` is inside), finds `sep` exactly at `i`.
proof fn lemma_find_char_at(s: Seq<char>, sep: char, i: int)
    requires
        0 <= i <= s.len(),
        forall|j: int| 0 <= j < i ==> s[j] != sep,
        i < s.len() ==> s[i] == sep,
    ensures
        find_char(s, sep) == i,
    decreases i,
{
    if i == 0 {
    } else {
        assert(s.drop_first() =~= s.skip(1));
        lemma_find_char_at(s.skip(1), sep, i - 1);
    }
}

/// A sequence whose first `i` characters are whitespace, and whose character
/// at `i` (if any) is not, loses exactly those `i` characters to the trim.
proof fn lemma_trim_start_index(s: Seq<char>, i: int)
    requires
        0 <= i <= s.len(),
        forall|j: int| 0 <= j < i ==> is_space_char(s[j]),
        i < s.len() ==> !is_space_char(s[i]),
    ensures
        trim_start_ws(s) == s.skip(i),
    decreases i,
{
    if i == 0 {
        assert(s.skip(0) =~= s);
    } else {
        assert(s.drop_first() =~= s.skip(1));
        assert(s.skip(1).skip(i - 1) =~= s.skip(i));
        lemma_trim_start_index(s.skip(1), i - 1);
    }
}

/// A sequence whose characters from `k` on are whitespace, and whose
/// character at `k - 1` (if any) is not, keeps exactly its first `k`
/// characters under the trim.
proof fn lemma_trim_end_index(s: Seq<char>, k: int)
    requires
        0 <= k <= s.len(),
        forall|j: int| k <= j < s.len() ==> is_space_char(s[j]),
        k > 0 ==> !is_space_char(s[k - 1]),
    ensures
        trim_end_ws(s) == s.take(k),
    decreases s.len(),
{
    if s.len() > k {
        assert(is_space_char(s.last()));
        assert(s.drop_last() =~= s.take(s.len() - 1));
        lemma_trim_end_index(s.take(s.len() - 1), k);
        assert(s.take(s.len() - 1).take(k) =~= s.take(k));
    } else {
        assert(s.take(k) =~= s);
    }
}

/// Whether `c` is one of the Unicode `White_Space` code points.
pub fn is_space(c: char) -> (r: bool)
    ensures
        r == is_space_char(c),
{
    let u = c as u32;
    u == 0x09 || u == 0x0A || u == 0x0B || u == 0x0C || u == 0x0D || u == 0x20 || u == 0x85
        || u == 0xA0 || u == 0x1680 || (0x2000 <= u && u <= 0x200A) || u == 0x2028 || u == 0x2029
        || u == 0x202F || u == 0x205F || u == 0x3000
}

/// `s` without surrounding whitespace.
pub fn trim<'a>(s: &'a str) -> (r: &'a str)
    ensures
        r@ == trim_ws(s@),
{
    let n = s.unicode_len();
    let mut lo: usize = 0;
    while lo < n && is_space(s.get_char(lo))
        invariant
            n == s@.len(),
            lo <= n,
            forall|j: int| 0 <= j < lo ==> is_space_char(s@[j]),
        decreases n - lo,
    {
        lo += 1;
    }
    proof {
        lemma_trim_start_index(s@, lo as int);
    }
    let mut hi: usize = n;
    while hi > lo && is_space(s.get_char(hi - 1))
        invariant
            n == s@.len(),
            lo <= hi <= n,
            forall|j: int| hi <= j < n ==> is_space_char(s@[j]),
        decreases hi,
    {
        hi -= 1;
    }
    proof {
        lemma_trim_end_index(s@.skip(lo as int), hi - lo);
        assert(s@.skip(lo as int).take(hi - lo) =~= s@.subrange(lo as int, hi as int));
    }
    s.substring_char(lo, hi)
}

/// Whether `s` trims to the empty string.
pub fn is_blank(s: &str) -> (r: bool)
    ensures
        r == (trim_ws(s@).len() == 0),
{
    trim(s).is_empty()
}

/// Relies on `String::push` of std: appends the given character to the end
/// of this string.
pub assume_specification[ String::push ](s: &mut String, c: char)
    ensures
        final(s)@ == old(s)@.push(c),
;

/// Lower-casing never turns whitespace into non-whitespace or back.
proof fn lemma_lower_preserves_space(c: char)
    ensures
        is_space_char(lower_char(c)) == is_space_char(c),
{
    let u = c as u32;
    if 0x41 <= u && u <= 0x5A {
        let l = ((u + 0x20) as u8) as char;
        assert(l as u32 == u + 0x20);
        assert(!is_space_char(c));
        assert(!is_space_char(l));
    }
}

/// Lower-casing commutes with removing leading whitespace.
proof fn lemma_lower_trim_start(s: Seq<char>)
    ensures
        trim_start_ws(lower_seq(s)) == lower_seq(trim_start_ws(s)),
    decreases s.len(),
{
    if s.len() > 0 {
        lemma_lower_preserves_space(s[0]);
        assert(lower_seq(s)[0] == lower_char(s[0]));
        if is_space_char(s[0]) {
            assert(lower_seq(s).drop_first() =~= lower_seq(s.drop_first()));
            lemma_lower_trim_start(s.drop_first());
        }
    }
}

/// Lower-casing commutes with removing trailing whitespace.
proof fn lemma_lower_trim_end(s: Seq<char>)
    ensures
        trim_end_ws(lower_seq(s)) == lower_seq(trim_end_ws(s)),
    decreases s.len(),
{
    if s.len() > 0 {
        lemma_lower_preserves_space(s.last());
        assert(lower_seq(s).last() == lower_char(s.last()));
        if is_space_char(s.last()) {
            assert(lower_seq(s).drop_last() =~= lower_seq(s.drop_last()));
            lemma_lower_trim_end(s.drop_last());
        }
    }
}

/// Lower-casing commutes with trimming surrounding whitespace.
pub proof fn lemma_lower_trim_commute(s: Seq<char>)
    ensures
        lower_seq(trim_ws(s)) == trim_ws(lower_seq(s)),
{
    lemma_lower_trim_start(s);
    lemma_lower_trim_end(trim_start_ws(s));
}

/// The views of a vector of strings.
pub open spec fn strings_view(ss: Seq<String>) -> Seq<Seq<char>> {
    ss.map_values(|s: String| s@)
}

/// The pieces of `s` between occurrences of `sep`, in order.
pub fn split_on_char(s: &str, sep: char) -> (r: Vec<String>)
    ensures
        strings_view(r@) == split_char(s@, sep),
{
    let n = s.unicode_len();
    let mut parts: Vec<String> = Vec::new();
    let mut start: usize = 0;
    let mut i: usize = 0;
    proof {
        assert(s@.skip(0) =~= s@);
        assert(strings_view(parts@) =~= Seq::<Seq<char>>::empty());
        assert(strings_view(parts@) + split_char(s@, sep) =~= split_char(s@, sep));
    }
    while i < n
        invariant
            n == s@.len(),
            start <= i <= n,
            forall|j: int| start <= j < i ==> s@[j] != sep,
            split_char(s@, sep) == strings_view(parts@) + split_char(s@.skip(start as int), sep),
        decreases n - i,
    {
        if s.get_char(i) == sep {
            let ghost prev = parts@;
            let piece = s.substring_char(start, i);
            proof {
                let t = s@.skip(start as int);
                assert forall|j: int| 0 <= j < i - start implies t[j] != sep by {
                    assert(t[j] == s@[j + start]);
                }
                assert(t[i - start] == s@[i as int]);
                lemma_find_char_at(t, sep, i - start);
                assert(t.take(i - start) =~= piece@);
                assert(t.skip(i - start + 1) =~= s@.skip(i + 1));
                assert(split_char(t, sep) == seq![piece@] + split_char(s@.skip(i + 1), sep));
            }
            parts.push(piece.to_owned());
            proof {
                assert(strings_view(parts@) =~= strings_view(prev).push(piece@));
                assert(strings_view(prev).push(piece@) + split_char(s@.skip(i + 1), sep)
                    =~= strings_view(prev) + (seq![piece@] + split_char(s@.skip(i + 1), sep)));
            }
            start = i + 1;
        }
        i += 1;
    }
    let ghost prev = parts@;
    let last = s.substring_char(start, n);
    proof {
        let t = s@.skip(start as int);
        assert forall|j: int| 0 <= j < t.len() implies t[j] != sep by {
            assert(t[j] == s@[j + start]);
        }
        lemma_find_char_at(t, sep, t.len() as int);
        assert(split_char(t, sep) == seq![t]);
        assert(t =~= last@);
    }
    parts.push(last.to_owned());
    proof {
        assert(strings_view(parts@) =~= strings_view(prev).push(last@));
        assert(strings_view(prev).push(last@) =~= strings_view(prev) + seq![last@]);
    }
    parts
}

/// The non-empty trimmed lines of a block of text, in order.
pub open spec fn parse_lines_spec(s: Seq<char>) -> Seq<Seq<char>> {
    split_char(s, '\n').map_values(|line: Seq<char>| trim_ws(line)).filter(
        |line: Seq<char>| line.len() > 0,
    )
}

/// Reads a block of text as input lines: one per line of text, surrounding
/// whitespace removed, empty lines dropped.
pub fn parse_lines(content: &str) -> (r: Vec<String>)
    ensures
        strings_view(r@) == parse_lines_spec(content@),
{
    let pieces = split_on_char(content, '\n');
    let n = pieces.len();
    let mut lines: Vec<String> = Vec::new();
    let mut i: usize = 0;
    proof {
        assert(split_char(content@, '\n').take(0) =~= Seq::<Seq<char>>::empty());
        reveal(Seq::filter);
        assert(strings_view(lines@) =~= Seq::<Seq<char>>::empty().map_values(
            |line: Seq<char>| trim_ws(line),
        ).filter(|line: Seq<char>| line.len() > 0));
    }
    while i < n
        invariant
            n == pieces@.len(),
            i <= n,
            strings_view(pieces@) == split_char(content@, '\n'),
            strings_view(lines@) == split_char(content@, '\n').take(i as int).map_values(
                |line: Seq<char>| trim_ws(line),
            ).filter(|line: Seq<char>| line.len() > 0),
        decreases n - i,
    {
        let ghost prev = lines@;
        let ghost pred = |line: Seq<char>| line.len() > 0;
        let ghost f = |line: Seq<char>| trim_ws(line);
        let ghost mapped = split_char(content@, '\n').take(i as int).map_values(f);
        let piece = &pieces[i];
        let trimmed = crate::text::trim(piece.as_str());
        proof {
            assert(pieces@[i as int]@ == split_char(content@, '\n')[i as int]);
            assert(split_char(content@, '\n').take(i + 1) =~= split_char(content@, '\n').take(
                i as int,
            ).push(split_char(content@, '\n')[i as int]));
            assert(split_char(content@, '\n').take(i + 1).map_values(f) =~= mapped.push(
                trim_ws(pieces@[i as int]@),
            ));
            reveal(Seq::filter);
            assert(mapped.push(trimmed@).drop_last() =~= mapped);
        }
        if !trimmed.is_empty() {
            lines.push(trimmed.to_owned());
            proof {
                assert(strings_view(lines@) =~= strings_view(prev).push(trimmed@));
                assert(mapped.push(trimmed@).filter(pred) == mapped.filter(pred).push(trimmed@));
            }
        } else {
            proof {
                assert(mapped.push(trimmed@).filter(pred) == mapped.filter(pred));
            }
        }
        i += 1;
    }
    proof {
        assert(split_char(content@, '\n').take(n as int) =~= split_char(content@, '\n'));
    }
    lines
}

/// The ASCII lower-case fold of a single character.
pub fn char_lower(c: char) -> (r: char)
    ensures
        r == lower_char(c),
{
    let u = c as u32;
    if 0x41 <= u && u <= 0x5A {
        ((u + 0x20) as u8) as char
    } else {
        c
    }
}

/// The pointwise ASCII lower-case fold of a string.
pub fn lowercased(s: &str) -> (r: String)
    ensures
        r@ == lower_seq(s@),
{
    let n = s.unicode_len();
    let mut out = String::new();
    let mut i: usize = 0;
    while i < n
        invariant
            n == s@.len(),
            i <= n,
            out@ == lower_seq(s@.take(i as int)),
        decreases n - i,
    {
        let c = s.get_char(i);
        out.push(char_lower(c));
        proof {
            assert(lower_seq(s@.take(i + 1)) =~= lower_seq(s@.take(i as int)).push(
                lower_char(s@[i as int]),
            ));
        }
        i += 1;
    }
    proof {
        assert(s@.take(n as int) =~= s@);
    }
    out
}

} // verus!
