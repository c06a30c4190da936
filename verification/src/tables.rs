//! Association tables with `u64` keys, held as vectors of pairs with no
//! repeated key.  They stand in for the host ledger's keyed stores and hash
//! maps, which promise nothing about iteration order; a vector gives the
//! settlement logic a determinate order to walk.

use vstd::prelude::*;

verus! {

/// No key occurs twice in the sequence of pairs.
pub open spec fn keys_distinct<V>(s: Seq<(u64, V)>) -> bool {
    forall|i: int, j: int| 0 <= i < j < s.len() ==> s[i].0 != s[j].0
}

/// Some entry holds key `k`.
pub open spec fn seq_has_key<V>(s: Seq<(u64, V)>, k: u64) -> bool {
    exists|i: int| 0 <= i < s.len() && s[i].0 == k
}

/// Index of an entry holding key `k` (the entry, when keys are distinct).
pub open spec fn seq_key_index<V>(s: Seq<(u64, V)>, k: u64) -> int {
    choose|i: int| 0 <= i < s.len() && s[i].0 == k
}

/// What a lookup of `k` sees in the sequence.
pub open spec fn seq_get<V>(s: Seq<(u64, V)>, k: u64) -> Option<V> {
    if seq_has_key(s, k) {
        Some(s[seq_key_index(s, k)].1)
    } else {
        None
    }
}

/// With distinct keys, an entry `(k, v)` at index `i` is what the lookup sees.
pub proof fn lemma_seq_get_at<V>(s: Seq<(u64, V)>, i: int, k: u64)
    requires
        keys_distinct(s),
        0 <= i < s.len(),
        s[i].0 == k,
    ensures
        seq_has_key(s, k),
        seq_key_index(s, k) == i,
        seq_get(s, k) == Some(s[i].1),
{
    assert(seq_has_key(s, k));
    let c = seq_key_index(s, k);
    if c != i {
        if c < i {
            assert(s[c].0 != s[i].0);
        } else {
            assert(s[i].0 != s[c].0);
        }
    }
}

/// Removing the entry at `i` keeps keys distinct; entries keep their places
/// up to the shift past `i`.
pub proof fn lemma_remove_keeps_distinct<V>(s: Seq<(u64, V)>, i: int)
    requires
        keys_distinct(s),
        0 <= i < s.len(),
    ensures
        keys_distinct(s.remove(i)),
{
    let r = s.remove(i);
    assert forall|j: int, l: int| 0 <= j < l < r.len() implies r[j].0 != r[l].0 by {
        let jo = if j < i {
            j
        } else {
            j + 1
        };
        let lo = if l < i {
            l
        } else {
            l + 1
        };
        assert(r[j] == s[jo]);
        assert(r[l] == s[lo]);
    }
}

/// After removing the entry at `i`, a lookup of any other key sees what it
/// saw before, and the removed entry's key is gone.
pub proof fn lemma_remove_get<V>(s: Seq<(u64, V)>, i: int, k2: u64)
    requires
        keys_distinct(s),
        0 <= i < s.len(),
    ensures
        s[i].0 != k2 ==> seq_get(s.remove(i), k2) == seq_get(s, k2),
        s[i].0 != k2 ==> seq_has_key(s.remove(i), k2) == seq_has_key(s, k2),
        s[i].0 == k2 ==> !seq_has_key(s.remove(i), k2),
{
    let r = s.remove(i);
    lemma_remove_keeps_distinct(s, i);
    if s[i].0 != k2 {
        if seq_has_key(s, k2) {
            let j = seq_key_index(s, k2);
            lemma_seq_get_at(s, j, k2);
            let jn = if j < i {
                j
            } else {
                j - 1
            };
            assert(r[jn] == s[j]);
            lemma_seq_get_at(r, jn, k2);
        } else {
            if seq_has_key(r, k2) {
                let j = seq_key_index(r, k2);
                let jo = if j < i {
                    j
                } else {
                    j + 1
                };
                assert(r[j] == s[jo]);
                assert(seq_has_key(s, k2));
            }
        }
    } else {
        if seq_has_key(r, k2) {
            let j = seq_key_index(r, k2);
            let jo = if j < i {
                j
            } else {
                j + 1
            };
            assert(r[j] == s[jo]);
            assert(jo != i);
            lemma_seq_get_at(s, i, k2);
            lemma_seq_get_at(s, jo, k2);
        }
    }
}

/// Pushing an entry keeps keys distinct when its key is fresh; a lookup of
/// any other key is unchanged, and the new key is seen.
pub proof fn lemma_push_get<V>(s: Seq<(u64, V)>, e: (u64, V), k2: u64)
    requires
        keys_distinct(s),
        !seq_has_key(s, e.0),
    ensures
        keys_distinct(s.push(e)),
        seq_get(s.push(e), e.0) == Some(e.1),
        e.0 != k2 ==> seq_get(s.push(e), k2) == seq_get(s, k2),
        e.0 != k2 ==> seq_has_key(s.push(e), k2) == seq_has_key(s, k2),
{
    let p = s.push(e);
    assert forall|j: int, l: int| 0 <= j < l < p.len() implies p[j].0 != p[l].0 by {
        if l < s.len() {
            assert(p[j] == s[j]);
            assert(p[l] == s[l]);
        } else {
            assert(p[j] == s[j]);
            assert(p[l] == e);
            assert(!(0 <= j < s.len() && s[j].0 == e.0) || seq_has_key(s, e.0));
        }
    }
    lemma_seq_get_at(p, s.len() as int, e.0);
    if e.0 != k2 {
        if seq_has_key(s, k2) {
            let j = seq_key_index(s, k2);
            lemma_seq_get_at(s, j, k2);
            assert(p[j] == s[j]);
            lemma_seq_get_at(p, j, k2);
        } else {
            if seq_has_key(p, k2) {
                let j = seq_key_index(p, k2);
                if j < s.len() {
                    assert(seq_has_key(s, k2));
                } else {
                    assert(p[j] == e);
                }
            }
        }
    }
}

/// A keyed table: a vector of `(key, value)` pairs with pairwise-distinct
/// keys.
pub struct Table<V> {
    pub entries: Vec<(u64, V)>,
}

impl<V> Table<V> {
    /// No key occurs twice.
    pub open spec fn wf(self) -> bool {
        keys_distinct(self.entries@)
    }

    pub open spec fn has_key(self, k: u64) -> bool {
        seq_has_key(self.entries@, k)
    }

    pub open spec fn key_index(self, k: u64) -> int {
        seq_key_index(self.entries@, k)
    }

    /// The value at key `k`, if any.
    pub open spec fn get_spec(self, k: u64) -> Option<V> {
        seq_get(self.entries@, k)
    }

    pub fn new() -> (r: Self)
        ensures
            r.wf(),
            r.entries@.len() == 0,
            forall|k: u64| !r.has_key(k),
    {
        Table { entries: Vec::new() }
    }

    pub fn len(&self) -> (n: usize)
        ensures
            n == self.entries@.len(),
    {
        self.entries.len()
    }

    pub fn is_empty(&self) -> (b: bool)
        ensures
            b == (self.entries@.len() == 0),
    {
        self.entries.len() == 0
    }

    /// Position of the entry holding `k`, scanning in order.
    fn find(&self, k: u64) -> (r: Option<usize>)
        requires
            self.wf(),
        ensures
            match r {
                Some(i) => {
                    &&& i < self.entries@.len()
                    &&& self.entries@[i as int].0 == k
                    &&& self.has_key(k)
                    &&& self.key_index(k) == i as int
                },
                None => !self.has_key(k),
            },
    {
        let n = self.entries.len();
        let mut i: usize = 0;
        while i < n
            invariant
                n == self.entries@.len(),
                i <= n,
                self.wf(),
                forall|j: int| 0 <= j < i ==> self.entries@[j].0 != k,
            decreases n - i,
        {
            if self.entries[i].0 == k {
                proof {
                    lemma_seq_get_at(self.entries@, i as int, k);
                }
                return Some(i);
            }
            i += 1;
        }
        None
    }

    pub fn contains_key(&self, k: u64) -> (b: bool)
        requires
            self.wf(),
        ensures
            b == self.has_key(k),
    {
        self.find(k).is_some()
    }

    pub fn get(&self, k: u64) -> (r: Option<&V>)
        requires
            self.wf(),
        ensures
            match r {
                Some(v) => self.get_spec(k) == Some(*v),
                None => !self.has_key(k),
            },
            r.is_some() == self.has_key(k),
    {
        match self.find(k) {
            Some(i) => {
                proof {
                    lemma_seq_get_at(self.entries@, i as int, k);
                }
                Some(&self.entries[i].1)
            },
            None => None,
        }
    }

    /// Insert `(k, v)`, replacing the entry with key `k` if one is there.
    pub fn insert(&mut self, k: u64, v: V)
        requires
            old(self).wf(),
        ensures
            final(self).wf(),
            final(self).entries@ == if old(self).has_key(k) {
                old(self).entries@.remove(old(self).key_index(k)).push((k, v))
            } else {
                old(self).entries@.push((k, v))
            },
            final(self).has_key(k),
            final(self).get_spec(k) == Some(v),
            forall|k2: u64| k2 != k ==> final(self).get_spec(k2) == old(self).get_spec(k2),
            forall|k2: u64| k2 != k ==> final(self).has_key(k2) == old(self).has_key(k2),
            final(self).entries@.len() == old(self).entries@.len() + if old(self).has_key(k) {
                0int
            } else {
                1int
            },
    {
        let ghost prev = old(self).entries@;
        match self.find(k) {
            Some(i) => {
                self.entries.remove(i);
                let ghost mid = self.entries@;
                self.entries.push((k, v));
                proof {
                    lemma_remove_keeps_distinct(prev, i as int);
                    assert forall|k2: u64| #[trigger] seq_has_key(mid, k2) implies k2 == k
                        || seq_has_key(prev, k2) by {
                        lemma_remove_get(prev, i as int, k2);
                    }
                    assert(!seq_has_key(mid, k)) by {
                        lemma_remove_get(prev, i as int, k);
                    }
                    assert forall|k2: u64| k2 != k implies final(self).get_spec(k2) == seq_get(
                        prev,
                        k2,
                    ) && final(self).has_key(k2) == seq_has_key(prev, k2) by {
                        lemma_push_get(mid, (k, v), k2);
                        lemma_remove_get(prev, i as int, k2);
                    }
                    lemma_push_get(mid, (k, v), k);
                }
            },
            None => {
                self.entries.push((k, v));
                proof {
                    assert forall|k2: u64| k2 != k implies final(self).get_spec(k2) == seq_get(
                        prev,
                        k2,
                    ) && final(self).has_key(k2) == seq_has_key(prev, k2) by {
                        lemma_push_get(prev, (k, v), k2);
                    }
                    lemma_push_get(prev, (k, v), k);
                }
            },
        }
    }

    /// Remove the entry with key `k`, handing its value back.
    pub fn remove(&mut self, k: u64) -> (r: Option<V>)
        requires
            old(self).wf(),
        ensures
            final(self).wf(),
            match r {
                Some(v) => {
                    &&& old(self).get_spec(k) == Some(v)
                    &&& old(self).has_key(k)
                    &&& final(self).entries@ == old(self).entries@.remove(old(self).key_index(k))
                    &&& final(self).entries@.len() == old(self).entries@.len() - 1
                },
                None => {
                    &&& !old(self).has_key(k)
                    &&& *final(self) == *old(self)
                },
            },
            r.is_some() == old(self).has_key(k),
            !final(self).has_key(k),
            forall|k2: u64| k2 != k ==> final(self).get_spec(k2) == old(self).get_spec(k2),
            forall|k2: u64| k2 != k ==> final(self).has_key(k2) == old(self).has_key(k2),
    {
        let ghost prev = old(self).entries@;
        match self.find(k) {
            Some(i) => {
                let e = self.entries.remove(i);
                proof {
                    lemma_remove_keeps_distinct(prev, i as int);
                    lemma_remove_get(prev, i as int, k);
                    assert forall|k2: u64| k2 != k implies final(self).get_spec(k2) == seq_get(
                        prev,
                        k2,
                    ) && final(self).has_key(k2) == seq_has_key(prev, k2) by {
                        lemma_remove_get(prev, i as int, k2);
                    }
                    lemma_seq_get_at(prev, i as int, k);
                }
                Some(e.1)
            },
            None => None,
        }
    }
}

} // verus!

verus! {

/// Sum of the amounts held in a sequence of keyed balances.
pub open spec fn sum_amounts(s: Seq<(u64, u128)>) -> int
    decreases s.len(),
{
    if s.len() == 0 {
        0
    } else {
        sum_amounts(s.drop_last()) + s.last().1
    }
}

pub proof fn lemma_sum_amounts_nonneg(s: Seq<(u64, u128)>)
    ensures
        sum_amounts(s) >= 0,
    decreases s.len(),
{
    if s.len() > 0 {
        lemma_sum_amounts_nonneg(s.drop_last());
    }
}

pub proof fn lemma_sum_amounts_push(s: Seq<(u64, u128)>, e: (u64, u128))
    ensures
        sum_amounts(s.push(e)) == sum_amounts(s) + e.1,
{
    assert(s.push(e).drop_last() =~= s);
}

pub proof fn lemma_sum_amounts_remove(s: Seq<(u64, u128)>, i: int)
    requires
        0 <= i < s.len(),
    ensures
        sum_amounts(s.remove(i)) == sum_amounts(s) - s[i].1,
    decreases s.len(),
{
    if i == s.len() - 1 {
        assert(s.remove(i) =~= s.drop_last());
    } else {
        assert(s.remove(i).drop_last() =~= s.drop_last().remove(i));
        assert(s.remove(i).last() == s.last());
        lemma_sum_amounts_remove(s.drop_last(), i);
    }
}

/// Each single balance is at most the sum of all of them.
pub proof fn lemma_sum_amounts_entry_le(s: Seq<(u64, u128)>, i: int)
    requires
        0 <= i < s.len(),
    ensures
        s[i].1 <= sum_amounts(s),
{
    lemma_sum_amounts_remove(s, i);
    lemma_sum_amounts_nonneg(s.remove(i));
}

/// One step of a prefix sum.
pub proof fn lemma_sum_amounts_prefix(s: Seq<(u64, u128)>, i: int)
    requires
        0 <= i < s.len(),
    ensures
        sum_amounts(s.subrange(0, i + 1)) == sum_amounts(s.subrange(0, i)) + s[i].1,
{
    assert(s.subrange(0, i + 1).drop_last() =~= s.subrange(0, i));
}

/// Sum of every amount pending across a sequence of keyed objectives.
pub open spec fn sum_objectives(s: Seq<(u64, Table<u128>)>) -> int
    decreases s.len(),
{
    if s.len() == 0 {
        0
    } else {
        sum_objectives(s.drop_last()) + sum_amounts(s.last().1.entries@)
    }
}

pub proof fn lemma_sum_objectives_nonneg(s: Seq<(u64, Table<u128>)>)
    ensures
        sum_objectives(s) >= 0,
    decreases s.len(),
{
    if s.len() > 0 {
        lemma_sum_objectives_nonneg(s.drop_last());
        lemma_sum_amounts_nonneg(s.last().1.entries@);
    }
}

pub proof fn lemma_sum_objectives_push(s: Seq<(u64, Table<u128>)>, e: (u64, Table<u128>))
    ensures
        sum_objectives(s.push(e)) == sum_objectives(s) + sum_amounts(e.1.entries@),
{
    assert(s.push(e).drop_last() =~= s);
}

pub proof fn lemma_sum_objectives_remove(s: Seq<(u64, Table<u128>)>, i: int)
    requires
        0 <= i < s.len(),
    ensures
        sum_objectives(s.remove(i)) == sum_objectives(s) - sum_amounts(s[i].1.entries@),
    decreases s.len(),
{
    if i == s.len() - 1 {
        assert(s.remove(i) =~= s.drop_last());
    } else {
        assert(s.remove(i).drop_last() =~= s.drop_last().remove(i));
        assert(s.remove(i).last() == s.last());
        lemma_sum_objectives_remove(s.drop_last(), i);
    }
}

pub proof fn lemma_sum_objectives_update(s: Seq<(u64, Table<u128>)>, i: int, e: (u64, Table<u128>))
    requires
        0 <= i < s.len(),
    ensures
        sum_objectives(s.update(i, e)) == sum_objectives(s) - sum_amounts(s[i].1.entries@)
            + sum_amounts(e.1.entries@),
    decreases s.len(),
{
    if i == s.len() - 1 {
        assert(s.update(i, e).drop_last() =~= s.drop_last());
        assert(s.update(i, e).last() == e);
    } else {
        assert(s.update(i, e).drop_last() =~= s.drop_last().update(i, e));
        assert(s.update(i, e).last() == s.last());
        lemma_sum_objectives_update(s.drop_last(), i, e);
    }
}

/// Each objective's pending sum is at most the sum over all objectives.
pub proof fn lemma_sum_objectives_entry_le(s: Seq<(u64, Table<u128>)>, i: int)
    requires
        0 <= i < s.len(),
    ensures
        sum_amounts(s[i].1.entries@) <= sum_objectives(s),
{
    lemma_sum_objectives_remove(s, i);
    lemma_sum_objectives_nonneg(s.remove(i));
}

pub proof fn lemma_sum_objectives_prefix(s: Seq<(u64, Table<u128>)>, i: int)
    requires
        0 <= i < s.len(),
    ensures
        sum_objectives(s.subrange(0, i + 1)) == sum_objectives(s.subrange(0, i)) + sum_amounts(
            s[i].1.entries@,
        ),
{
    assert(s.subrange(0, i + 1).drop_last() =~= s.subrange(0, i));
}

} // verus!

verus! {

/// A prefix of a distinct-keyed sequence is distinct-keyed.
pub proof fn lemma_subrange_keys_distinct<V>(s: Seq<(u64, V)>, a: int, b: int)
    requires
        keys_distinct(s),
        0 <= a <= b <= s.len(),
    ensures
        keys_distinct(s.subrange(a, b)),
{
    let r = s.subrange(a, b);
    assert forall|i: int, j: int| 0 <= i < j < r.len() implies r[i].0 != r[j].0 by {
        assert(r[i] == s[a + i]);
        assert(r[j] == s[a + j]);
    }
}

/// One step of a lookup over a growing prefix of a distinct-keyed sequence.
pub proof fn lemma_seq_get_prefix<V>(s: Seq<(u64, V)>, i: int)
    requires
        keys_distinct(s),
        0 <= i < s.len(),
    ensures
        forall|k: u64|
            #[trigger] seq_get(s.subrange(0, i + 1), k) == if s[i].0 == k {
                Some(s[i].1)
            } else {
                seq_get(s.subrange(0, i), k)
            },
{
    let p = s.subrange(0, i);
    let q = s.subrange(0, i + 1);
    lemma_subrange_keys_distinct(s, 0, i);
    lemma_subrange_keys_distinct(s, 0, i + 1);
    assert forall|k: u64|
        #[trigger] seq_get(q, k) == if s[i].0 == k {
            Some(s[i].1)
        } else {
            seq_get(p, k)
        } by {
        if s[i].0 == k {
            assert(q[i] == s[i]);
            lemma_seq_get_at(q, i, k);
        } else {
            if seq_has_key(p, k) {
                let j = seq_key_index(p, k);
                lemma_seq_get_at(p, j, k);
                assert(q[j] == p[j]);
                lemma_seq_get_at(q, j, k);
            } else {
                if seq_has_key(q, k) {
                    let j = seq_key_index(q, k);
                    assert(q[j].0 == k);
                    if j < i {
                        assert(p[j] == q[j]);
                        assert(seq_has_key(p, k));
                    } else {
                        assert(q[j] == s[i]);
                    }
                }
            }
        }
    }
}

impl Table<u128> {
    /// A copy of the entries, for walking while the table is mutated.
    pub fn copy_entries(&self) -> (r: Vec<(u64, u128)>)
        ensures
            r@ == self.entries@,
    {
        let n = self.entries.len();
        let mut out: Vec<(u64, u128)> = Vec::new();
        let mut i: usize = 0;
        while i < n
            invariant
                n == self.entries@.len(),
                i <= n,
                out@ == self.entries@.subrange(0, i as int),
            decreases n - i,
        {
            let e = self.entries[i];
            out.push(e);
            proof {
                assert(out@ =~= self.entries@.subrange(0, i + 1));
            }
            i += 1;
        }
        proof {
            assert(self.entries@.subrange(0, n as int) =~= self.entries@);
        }
        out
    }
}

} // verus!
