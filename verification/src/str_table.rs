//! Association tables keyed by strings, held as vectors of pairs whose keys
//! are pairwise distinct as character sequences.  They stand in for the host
//! ledger's string-keyed stores.

use vstd::prelude::*;

verus! {

/// No key occurs twice in the sequence of pairs.
pub open spec fn str_keys_distinct<V>(s: Seq<(String, V)>) -> bool {
    forall|i: int, j: int| 0 <= i < j < s.len() ==> s[i].0@ != s[j].0@
}

/// Some entry holds key `k`.
pub open spec fn str_seq_has_key<V>(s: Seq<(String, V)>, k: Seq<char>) -> bool {
    exists|i: int| 0 <= i < s.len() && s[i].0@ == k
}

/// Index of an entry holding key `k` (the entry, when keys are distinct).
pub open spec fn str_seq_key_index<V>(s: Seq<(String, V)>, k: Seq<char>) -> int {
    choose|i: int| 0 <= i < s.len() && s[i].0@ == k
}

/// What a lookup of `k` sees in the sequence.
pub open spec fn str_seq_get<V>(s: Seq<(String, V)>, k: Seq<char>) -> Option<V> {
    if str_seq_has_key(s, k) {
        Some(s[str_seq_key_index(s, k)].1)
    } else {
        None
    }
}

/// With distinct keys, an entry `(k, v)` at index `i` is what the lookup
/// sees.
pub proof fn lemma_str_seq_get_at<V>(s: Seq<(String, V)>, i: int, k: Seq<char>)
    requires
        str_keys_distinct(s),
        0 <= i < s.len(),
        s[i].0@ == k,
    ensures
        str_seq_has_key(s, k),
        str_seq_key_index(s, k) == i,
        str_seq_get(s, k) == Some(s[i].1),
{
    assert(str_seq_has_key(s, k));
    let c = str_seq_key_index(s, k);
    if c != i {
        if c < i {
            assert(s[c].0@ != s[i].0@);
        } else {
            assert(s[i].0@ != s[c].0@);
        }
    }
}

/// Removing the entry at `i` keeps keys distinct.
pub proof fn lemma_str_remove_keeps_distinct<V>(s: Seq<(String, V)>, i: int)
    requires
        str_keys_distinct(s),
        0 <= i < s.len(),
    ensures
        str_keys_distinct(s.remove(i)),
{
    let r = s.remove(i);
    assert forall|j: int, l: int| 0 <= j < l < r.len() implies r[j].0@ != r[l].0@ by {
        let jo = if j < i {
            j
        } else {
            j + 1
        };
        let lo = if l < i {
            l
        } else {
            l + 1
        };
        assert(r[j] == s[jo]);
        assert(r[l] == s[lo]);
    }
}

/// After removing the entry at `i`, a lookup of any other key sees what it
/// saw before, and the removed entry's key is gone.
pub proof fn lemma_str_remove_get<V>(s: Seq<(String, V)>, i: int, k2: Seq<char>)
    requires
        str_keys_distinct(s),
        0 <= i < s.len(),
    ensures
        s[i].0@ != k2 ==> str_seq_get(s.remove(i), k2) == str_seq_get(s, k2),
        s[i].0@ != k2 ==> str_seq_has_key(s.remove(i), k2) == str_seq_has_key(s, k2),
        s[i].0@ == k2 ==> !str_seq_has_key(s.remove(i), k2),
{
    let r = s.remove(i);
    lemma_str_remove_keeps_distinct(s, i);
    if s[i].0@ != k2 {
        if str_seq_has_key(s, k2) {
            let j = str_seq_key_index(s, k2);
            lemma_str_seq_get_at(s, j, k2);
            let jn = if j < i {
                j
            } else {
                j - 1
            };
            assert(r[jn] == s[j]);
            lemma_str_seq_get_at(r, jn, k2);
        } else {
            if str_seq_has_key(r, k2) {
                let j = str_seq_key_index(r, k2);
                let jo = if j < i {
                    j
                } else {
                    j + 1
                };
                assert(r[j] == s[jo]);
                assert(str_seq_has_key(s, k2));
            }
        }
    } else {
        if str_seq_has_key(r, k2) {
            let j = str_seq_key_index(r, k2);
            let jo = if j < i {
                j
            } else {
                j + 1
            };
            assert(r[j] == s[jo]);
            assert(jo != i);
            lemma_str_seq_get_at(s, i, k2);
            lemma_str_seq_get_at(s, jo, k2);
        }
    }
}

/// Pushing an entry with a fresh key keeps keys distinct; a lookup of any
/// other key is unchanged, and the new key is seen.
pub proof fn lemma_str_push_get<V>(s: Seq<(String, V)>, e: (String, V), k2: Seq<char>)
    requires
        str_keys_distinct(s),
        !str_seq_has_key(s, e.0@),
    ensures
        str_keys_distinct(s.push(e)),
        str_seq_get(s.push(e), e.0@) == Some(e.1),
        e.0@ != k2 ==> str_seq_get(s.push(e), k2) == str_seq_get(s, k2),
        e.0@ != k2 ==> str_seq_has_key(s.push(e), k2) == str_seq_has_key(s, k2),
{
    let p = s.push(e);
    assert forall|j: int, l: int| 0 <= j < l < p.len() implies p[j].0@ != p[l].0@ by {
        if l < s.len() {
            assert(p[j] == s[j]);
            assert(p[l] == s[l]);
        } else {
            assert(p[j] == s[j]);
            assert(p[l] == e);
            assert(!(0 <= j < s.len() && s[j].0@ == e.0@) || str_seq_has_key(s, e.0@));
        }
    }
    lemma_str_seq_get_at(p, s.len() as int, e.0@);
    if e.0@ != k2 {
        if str_seq_has_key(s, k2) {
            let j = str_seq_key_index(s, k2);
            lemma_str_seq_get_at(s, j, k2);
            assert(p[j] == s[j]);
            lemma_str_seq_get_at(p, j, k2);
        } else {
            if str_seq_has_key(p, k2) {
                let j = str_seq_key_index(p, k2);
                if j < s.len() {
                    assert(str_seq_has_key(s, k2));
                } else {
                    assert(p[j] == e);
                }
            }
        }
    }
}

/// What the last pair with key `k` in `s` holds, if any: the value that an
/// in-order upsert of all pairs leaves at `k`.
pub open spec fn str_pairs_last(s: Seq<(String, String)>, k: Seq<char>) -> Option<String>
    decreases s.len(),
{
    if s.len() == 0 {
        None
    } else if s.last().0@ == k {
        Some(s.last().1)
    } else {
        str_pairs_last(s.drop_last(), k)
    }
}

/// What an upsert of `pairs` (in order, later entries winning) leaves at key
/// `k`, over the previous value `old_get`.
pub open spec fn str_upserted(
    old_get: Option<String>,
    pairs: Seq<(String, String)>,
    k: Seq<char>,
) -> Option<String> {
    match str_pairs_last(pairs, k) {
        Some(v) => Some(v),
        None => old_get,
    }
}

/// One step of an in-order upsert over a prefix of `s`.
pub proof fn lemma_str_pairs_last_prefix(s: Seq<(String, String)>, i: int)
    requires
        0 <= i < s.len(),
    ensures
        forall|k: Seq<char>|
            #[trigger] str_pairs_last(s.subrange(0, i + 1), k) == if s[i].0@ == k {
                Some(s[i].1)
            } else {
                str_pairs_last(s.subrange(0, i), k)
            },
{
    assert(s.subrange(0, i + 1).drop_last() =~= s.subrange(0, i));
    assert(s.subrange(0, i + 1).last() == s[i]);
}

/// A string-keyed table: a vector of `(key, value)` pairs whose keys are
/// pairwise distinct.
pub struct StrTable<V> {
    pub entries: Vec<(String, V)>,
}

impl<V> StrTable<V> {
    /// No key occurs twice.
    pub open spec fn wf(self) -> bool {
        str_keys_distinct(self.entries@)
    }

    pub open spec fn has_key(self, k: Seq<char>) -> bool {
        str_seq_has_key(self.entries@, k)
    }

    pub open spec fn key_index(self, k: Seq<char>) -> int {
        str_seq_key_index(self.entries@, k)
    }

    /// The value at key `k`, if any.
    pub open spec fn get_spec(self, k: Seq<char>) -> Option<V> {
        str_seq_get(self.entries@, k)
    }

    pub fn new() -> (r: Self)
        ensures
            r.wf(),
            r.entries@.len() == 0,
            forall|k: Seq<char>| !r.has_key(k),
    {
        StrTable { entries: Vec::new() }
    }

    pub fn len(&self) -> (n: usize)
        ensures
            n == self.entries@.len(),
    {
        self.entries.len()
    }

    pub fn is_empty(&self) -> (b: bool)
        ensures
            b == (self.entries@.len() == 0),
    {
        self.entries.len() == 0
    }

    /// Position of the entry holding `k`, scanning in order.
    fn find(&self, k: &String) -> (r: Option<usize>)
        requires
            self.wf(),
        ensures
            match r {
                Some(i) => {
                    &&& i < self.entries@.len()
                    &&& self.entries@[i as int].0@ == k@
                    &&& self.has_key(k@)
                    &&& self.key_index(k@) == i as int
                },
                None => !self.has_key(k@),
            },
    {
        let n = self.entries.len();
        let mut i: usize = 0;
        while i < n
            invariant
                n == self.entries@.len(),
                i <= n,
                self.wf(),
                forall|j: int| 0 <= j < i ==> self.entries@[j].0@ != k@,
            decreases n - i,
        {
            if self.entries[i].0 == *k {
                proof {
                    lemma_str_seq_get_at(self.entries@, i as int, k@);
                }
                return Some(i);
            }
            i += 1;
        }
        None
    }

    pub fn contains_key(&self, k: &String) -> (b: bool)
        requires
            self.wf(),
        ensures
            b == self.has_key(k@),
    {
        self.find(k).is_some()
    }

    pub fn get(&self, k: &String) -> (r: Option<&V>)
        requires
            self.wf(),
        ensures
            match r {
                Some(v) => self.get_spec(k@) == Some(*v),
                None => !self.has_key(k@),
            },
            r.is_some() == self.has_key(k@),
    {
        match self.find(k) {
            Some(i) => {
                proof {
                    lemma_str_seq_get_at(self.entries@, i as int, k@);
                }
                Some(&self.entries[i].1)
            },
            None => None,
        }
    }

    /// Insert `(k, v)`, replacing the entry with key `k` if one is there.
    pub fn insert(&mut self, k: String, v: V)
        requires
            old(self).wf(),
        ensures
            final(self).wf(),
            final(self).has_key(k@),
            final(self).get_spec(k@) == Some(v),
            forall|k2: Seq<char>| k2 != k@ ==> final(self).get_spec(k2) == old(self).get_spec(k2),
            forall|k2: Seq<char>| k2 != k@ ==> final(self).has_key(k2) == old(self).has_key(k2),
            final(self).entries@.len() == old(self).entries@.len() + if old(self).has_key(k@) {
                0int
            } else {
                1int
            },
    {
        let ghost prev = old(self).entries@;
        let ghost kv = k@;
        match self.find(&k) {
            Some(i) => {
                self.entries.remove(i);
                let ghost mid = self.entries@;
                self.entries.push((k, v));
                proof {
                    lemma_str_remove_keeps_distinct(prev, i as int);
                    assert(!str_seq_has_key(mid, kv)) by {
                        lemma_str_remove_get(prev, i as int, kv);
                    }
                    assert forall|k2: Seq<char>| k2 != kv implies final(self).get_spec(k2)
                        == str_seq_get(prev, k2) && final(self).has_key(k2) == str_seq_has_key(
                        prev,
                        k2,
                    ) by {
                        lemma_str_push_get(mid, self.entries@.last(), k2);
                        lemma_str_remove_get(prev, i as int, k2);
                    }
                    lemma_str_push_get(mid, self.entries@.last(), kv);
                }
            },
            None => {
                self.entries.push((k, v));
                proof {
                    assert forall|k2: Seq<char>| k2 != kv implies final(self).get_spec(k2)
                        == str_seq_get(prev, k2) && final(self).has_key(k2) == str_seq_has_key(
                        prev,
                        k2,
                    ) by {
                        lemma_str_push_get(prev, self.entries@.last(), k2);
                    }
                    lemma_str_push_get(prev, self.entries@.last(), kv);
                }
            },
        }
    }

    /// Remove the entry with key `k`, handing its value back.
    pub fn remove(&mut self, k: &String) -> (r: Option<V>)
        requires
            old(self).wf(),
        ensures
            final(self).wf(),
            match r {
                Some(v) => {
                    &&& old(self).get_spec(k@) == Some(v)
                    &&& old(self).has_key(k@)
                    &&& final(self).entries@.len() == old(self).entries@.len() - 1
                },
                None => {
                    &&& !old(self).has_key(k@)
                    &&& *final(self) == *old(self)
                },
            },
            r.is_some() == old(self).has_key(k@),
            !final(self).has_key(k@),
            forall|k2: Seq<char>| k2 != k@ ==> final(self).get_spec(k2) == old(self).get_spec(k2),
            forall|k2: Seq<char>| k2 != k@ ==> final(self).has_key(k2) == old(self).has_key(k2),
    {
        let ghost prev = old(self).entries@;
        match self.find(k) {
            Some(i) => {
                let e = self.entries.remove(i);
                proof {
                    lemma_str_remove_keeps_distinct(prev, i as int);
                    lemma_str_remove_get(prev, i as int, k@);
                    assert forall|k2: Seq<char>| k2 != k@ implies final(self).get_spec(k2)
                        == str_seq_get(prev, k2) && final(self).has_key(k2) == str_seq_has_key(
                        prev,
                        k2,
                    ) by {
                        lemma_str_remove_get(prev, i as int, k2);
                    }
                    lemma_str_seq_get_at(prev, i as int, k@);
                }
                Some(e.1)
            },
            None => None,
        }
    }
}

} // verus!
