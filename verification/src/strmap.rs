//! A string-keyed map kept as a vector of entries sorted by key. The
//! resolution service returns its per-platform links and its entity graph as
//! unordered maps with unique keys; holding them sorted gives lookups a
//! simple specification and gives "resolve to every platform" a fixed,
//! reproducible iteration order.

use vstd::prelude::*;

use crate::text::{lex_lt, lemma_lex_lt_connected, lemma_lex_lt_irrefl, lemma_lex_lt_trans};

verus! {

/// The first value bound to `key`, searching the entry sequence in order.
pub open spec fn entries_get<V>(s: Seq<(Seq<char>, V)>, key: Seq<char>) -> Option<V>
    decreases s.len(),
{
    if s.len() == 0 {
        None
    } else if s[0].0 == key {
        Some(s[0].1)
    } else {
        entries_get(s.drop_first(), key)
    }
}

/// Entry keys appear in strictly increasing lexicographic order.
pub open spec fn entries_sorted<V>(s: Seq<(Seq<char>, V)>) -> bool {
    forall|i: int, j: int| 0 <= i < j < s.len() ==> lex_lt(#[trigger] s[i].0, #[trigger] s[j].0)
}

/// Where a new binding lands in a sorted entry sequence: before the first
/// key it precedes, in place of an equal key, else behind the rest.
pub open spec fn entries_insert<V>(s: Seq<(Seq<char>, V)>, key: Seq<char>, value: V) -> Seq<
    (Seq<char>, V),
>
    decreases s.len(),
{
    if s.len() == 0 {
        seq![(key, value)]
    } else if lex_lt(key, s[0].0) {
        seq![(key, value)] + s
    } else if s[0].0 == key {
        seq![(key, value)] + s.drop_first()
    } else {
        seq![s[0]] + entries_insert(s.drop_first(), key, value)
    }
}

/// A map from string keys to values, held as entries sorted by key.
pub struct StrKeyMap<V> {
    entries: Vec<(String, V)>,
}

impl<V> View for StrKeyMap<V> {
    type V = Seq<(Seq<char>, V)>;

    closed spec fn view(&self) -> Seq<(Seq<char>, V)> {
        self.entries@.map_values(|e: (String, V)| (e.0@, e.1))
    }
}

impl<V> StrKeyMap<V> {
    /// The map's invariant: keys strictly increase, so each key is bound at
    /// most once.
    pub open spec fn wf(&self) -> bool {
        entries_sorted(self@)
    }

    /// The empty map.
    pub fn new() -> (r: Self)
        ensures
            r@ == Seq::<(Seq<char>, V)>::empty(),
            r.wf(),
    {
        let r = StrKeyMap { entries: Vec::new() };
        proof {
            assert(r@ =~= Seq::<(Seq<char>, V)>::empty());
        }
        r
    }

    /// How many keys are bound.
    pub fn len(&self) -> (n: usize)
        ensures
            n == self@.len(),
    {
        self.entries.len()
    }
}

/// Searching past entries whose keys miss `key` does not change the result.
proof fn lemma_entries_get_skip<V>(s: Seq<(Seq<char>, V)>, key: Seq<char>, i: int)
    requires
        0 <= i <= s.len(),
        forall|j: int| 0 <= j < i ==> (#[trigger] s[j].0) != key,
    ensures
        entries_get(s, key) == entries_get(s.skip(i), key),
    decreases i,
{
    if i > 0 {
        assert(s.drop_first() =~= s.skip(1));
        assert(s.skip(1).skip(i - 1) =~= s.skip(i));
        lemma_entries_get_skip(s.skip(1), key, i - 1);
    } else {
        assert(s.skip(0) =~= s);
    }
}

/// In a sorted entry sequence the key of any entry is bound to that entry's
/// value.
pub proof fn lemma_entries_get_at<V>(s: Seq<(Seq<char>, V)>, i: int)
    requires
        entries_sorted(s),
        0 <= i < s.len(),
    ensures
        entries_get(s, s[i].0) == Some(s[i].1),
{
    assert forall|j: int| 0 <= j < i implies (#[trigger] s[j].0) != s[i].0 by {
        if s[j].0 == s[i].0 {
            lemma_lex_lt_irrefl(s[i].0);
        }
    }
    lemma_entries_get_skip(s, s[i].0, i);
    assert(s.skip(i)[0] == s[i]);
}

/// Where the scan of `insert` stops determines the shape of the result: the
/// new binding stands at the stop position, replacing the entry there when
/// the keys are equal.
proof fn lemma_entries_insert_at<V>(s: Seq<(Seq<char>, V)>, key: Seq<char>, value: V, i: int)
    requires
        entries_sorted(s),
        0 <= i <= s.len(),
        forall|j: int| 0 <= j < i ==> lex_lt(#[trigger] s[j].0, key),
        i < s.len() ==> !lex_lt(s[i].0, key),
    ensures
        i < s.len() && s[i].0 == key ==> entries_insert(s, key, value) == s.take(i) + seq![
            (key, value),
        ] + s.skip(i + 1),
        !(i < s.len() && s[i].0 == key) ==> entries_insert(s, key, value) == s.take(i) + seq![
            (key, value),
        ] + s.skip(i),
    decreases i,
{
    if i == 0 {
        if s.len() == 0 {
            assert(entries_insert(s, key, value) =~= s.take(0) + seq![(key, value)] + s.skip(0));
        } else if lex_lt(key, s[0].0) {
            assert(entries_insert(s, key, value) =~= s.take(0) + seq![(key, value)] + s.skip(0));
        } else if s[0].0 == key {
            assert(entries_insert(s, key, value) =~= s.take(0) + seq![(key, value)] + s.skip(1));
        } else {
            lemma_lex_lt_connected(key, s[0].0);
        }
    } else {
        assert(lex_lt(s[0].0, key));
        if lex_lt(key, s[0].0) {
            lemma_lex_lt_trans(key, s[0].0, key);
            lemma_lex_lt_irrefl(key);
        }
        if s[0].0 == key {
            lemma_lex_lt_irrefl(key);
        }
        let t = s.drop_first();
        assert(t =~= s.skip(1));
        assert(entries_sorted(t)) by {
            assert forall|p: int, q: int| 0 <= p < q < t.len() implies lex_lt(
                #[trigger] t[p].0,
                #[trigger] t[q].0,
            ) by {
                assert(t[p] == s[p + 1]);
                assert(t[q] == s[q + 1]);
            }
        }
        assert(forall|j: int| 0 <= j < i - 1 ==> lex_lt(#[trigger] t[j].0, key));
        lemma_entries_insert_at(t, key, value, i - 1);
        if i < s.len() && s[i].0 == key {
            assert(t[i - 1].0 == key);
            assert(seq![s[0]] + (t.take(i - 1) + seq![(key, value)] + t.skip(i)) =~= s.take(i)
                + seq![(key, value)] + s.skip(i + 1));
        } else {
            assert(seq![s[0]] + (t.take(i - 1) + seq![(key, value)] + t.skip(i - 1)) =~= s.take(i)
                + seq![(key, value)] + s.skip(i));
        }
    }
}

impl<V> StrKeyMap<V> {
    /// A shared borrow of the value bound to `key`, if any.
    pub fn get<'a>(&'a self, key: &str) -> (r: Option<&'a V>)
        ensures
            match r {
                Some(v) => entries_get(self@, key@) == Some(*v),
                None => entries_get(self@, key@) is None,
            },
    {
        let n = self.entries.len();
        let mut i: usize = 0;
        while i < n
            invariant
                n == self.entries.len(),
                i <= n,
                self@.len() == n,
                forall|j: int| 0 <= j < i ==> (#[trigger] self@[j].0) != key@,
            decreases n - i,
        {
            let e = &self.entries[i];
            if crate::text::str_eq(e.0.as_str(), key) {
                proof {
                    lemma_entries_get_skip(self@, key@, i as int);
                    assert(self@.skip(i as int)[0] == self@[i as int]);
                }
                return Some(&e.1);
            }
            proof {
                assert(self@[i as int].0 == self.entries@[i as int].0@);
            }
            i += 1;
        }
        proof {
            lemma_entries_get_skip(self@, key@, n as int);
            assert(self@.skip(n as int) =~= Seq::<(Seq<char>, V)>::empty());
        }
        None
    }

    /// Binds `key` to `value`, replacing any previous binding.
    pub fn insert(&mut self, key: String, value: V)
        requires
            old(self).wf(),
        ensures
            final(self)@ == entries_insert(old(self)@, key@, value),
            final(self).wf(),
    {
        let ghost s = self@;
        let n = self.entries.len();
        let mut i: usize = 0;
        while i < n && crate::text::str_lt(self.entries[i].0.as_str(), key.as_str())
            invariant
                n == self.entries.len(),
                i <= n,
                self@ == s,
                self@.len() == n,
                forall|j: int| 0 <= j < i ==> lex_lt(#[trigger] self@[j].0, key@),
            decreases n - i,
        {
            proof {
                assert(self@[i as int].0 == self.entries@[i as int].0@);
            }
            i += 1;
        }
        proof {
            assert(i < n ==> !lex_lt(self@[i as int].0, key@));
            lemma_entries_insert_at(s, key@, value, i as int);
        }
        proof {
            if i < n {
                assert(self@[i as int].0 == self.entries@[i as int].0@);
            }
        }
        let replace = if i < n {
            crate::text::str_eq(self.entries[i].0.as_str(), key.as_str())
        } else {
            false
        };
        if replace {
            self.entries.remove(i);
            self.entries.insert(i, (key, value));
            proof {
                assert(self@ =~= s.take(i as int) + seq![(key@, value)] + s.skip(i + 1));
            }
        } else {
            self.entries.insert(i, (key, value));
            proof {
                assert(self@ =~= s.take(i as int) + seq![(key@, value)] + s.skip(i as int));
            }
        }
        proof {
            let t = self@;
            assert forall|p: int, q: int| 0 <= p < q < t.len() implies lex_lt(
                #[trigger] t[p].0,
                #[trigger] t[q].0,
            ) by {
                let k = i as int;
                if q < k {
                    assert(t[p] == s[p]);
                    assert(t[q] == s[q]);
                } else if p > k {
                    if replace {
                        assert(t[p] == s[p]);
                        assert(t[q] == s[q]);
                    } else {
                        assert(t[p] == s[p - 1]);
                        assert(t[q] == s[q - 1]);
                    }
                } else if p == k && q > k {
                    let sq = if replace {
                        s[q]
                    } else {
                        s[q - 1]
                    };
                    assert(t[q] == sq);
                    assert(t[p].0 == key@);
                    if replace {
                        assert(s[k].0 == key@);
                        assert(lex_lt(s[k].0, s[q].0));
                    } else {
                        assert(k < s.len());
                        assert(s[k].0 != key@);
                        assert(!lex_lt(s[k].0, key@));
                        if !lex_lt(key@, s[k].0) {
                            lemma_lex_lt_connected(s[k].0, key@);
                        }
                        assert(lex_lt(key@, s[k].0));
                        if q - 1 > k {
                            assert(lex_lt(s[k].0, s[q - 1].0));
                            lemma_lex_lt_trans(key@, s[k].0, s[q - 1].0);
                        }
                    }
                    assert(lex_lt(key@, sq.0));
                } else if q == k {
                    assert(t[p] == s[p]);
                    assert(lex_lt(s[p].0, key@));
                }
            }
        }
    }

    /// The entry at position `i` in key order.
    pub fn entry_at(&self, i: usize) -> (r: (&String, &V))
        requires
            i < self@.len(),
        ensures
            r.0@ == self@[i as int].0,
            *r.1 == self@[i as int].1,
    {
        let e = &self.entries[i];
        (&e.0, &e.1)
    }
}

} // verus!
