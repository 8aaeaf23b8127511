//! The frequency mapping: characters to occurrence counts.
//!
//! `CharCounts` plays the role of a hash map from `char` to `usize`, held as
//! an association list with unique keys and positive counts. Its model is
//! the total function `count`: the tally stored under each key, zero where
//! the key is absent. Partial results of the map phase and the final result
//! of the reduce phase are both `CharCounts` values.

use vstd::prelude::*;

verus! {

/// The sum of the counts stored under `key` across the entries of `s`.
/// With unique keys this is the single stored count, or zero.
pub open spec fn entries_count(s: Seq<(char, usize)>, key: char) -> nat
    decreases s.len(),
{
    if s.len() == 0 {
        0
    } else {
        entries_count(s.drop_last(), key) + (if s.last().0 == key {
            s.last().1 as nat
        } else {
            0nat
        })
    }
}

/// No two entries of `s` share a key.
pub open spec fn unique_keys(s: Seq<(char, usize)>) -> bool {
    forall|i: int, j: int|
        0 <= i < j < s.len() ==> (#[trigger] s[i]).0 != (#[trigger] s[j]).0
}

/// A mapping of characters to positive occurrence counts.
#[derive(Debug)]
pub struct CharCounts {
    entries: Vec<(char, usize)>,
}

/// Appending an entry adds its count under its key and nothing else.
proof fn lemma_entries_count_push(s: Seq<(char, usize)>, e: (char, usize), key: char)
    ensures
        entries_count(s.push(e), key) == entries_count(s, key) + (if e.0 == key {
            e.1 as nat
        } else {
            0nat
        }),
{
    assert(s.push(e).drop_last() =~= s);
    assert(s.push(e).last() == e);
}

/// Replacing the entry at `i` changes the sum under each key by exactly the
/// difference the replacement makes.
proof fn lemma_entries_count_update(s: Seq<(char, usize)>, i: int, e: (char, usize), key: char)
    requires
        0 <= i < s.len(),
    ensures
        entries_count(s.update(i, e), key) == entries_count(s, key) - (if s[i].0 == key {
            s[i].1 as nat
        } else {
            0nat
        }) + (if e.0 == key {
            e.1 as nat
        } else {
            0nat
        }),
    decreases s.len(),
{
    if i == s.len() - 1 {
        assert(s.update(i, e).drop_last() =~= s.drop_last());
        assert(s.update(i, e).last() == e);
    } else {
        lemma_entries_count_update(s.drop_last(), i, e, key);
        assert(s.update(i, e).drop_last() =~= s.drop_last().update(i, e));
        assert(s.update(i, e).last() == s.last());
    }
}

/// Entry sums add across concatenation.
pub proof fn lemma_entries_count_concat(a: Seq<(char, usize)>, b: Seq<(char, usize)>, key: char)
    ensures
        entries_count(a + b, key) == entries_count(a, key) + entries_count(b, key),
    decreases b.len(),
{
    if b.len() == 0 {
        assert(a + b =~= a);
    } else {
        lemma_entries_count_concat(a, b.drop_last(), key);
        assert((a + b).drop_last() =~= a + b.drop_last());
        assert((a + b).last() == b.last());
    }
}

/// Unrolling one step at the front of the prefix order of entry sums.
pub proof fn lemma_entries_count_take_step(s: Seq<(char, usize)>, i: int, key: char)
    requires
        0 <= i < s.len(),
    ensures
        entries_count(s.take(i + 1), key) == entries_count(s.take(i), key) + (if s[i].0 == key {
            s[i].1 as nat
        } else {
            0nat
        }),
{
    assert(s.take(i + 1).drop_last() =~= s.take(i));
    assert(s.take(i + 1).last() == s[i]);
}

/// A prefix of the entries never sums to more than the whole.
pub proof fn lemma_entries_count_take_le(s: Seq<(char, usize)>, i: int, key: char)
    requires
        0 <= i <= s.len(),
    ensures
        entries_count(s.take(i), key) <= entries_count(s, key),
{
    assert(s.take(i) + s.skip(i) =~= s);
    lemma_entries_count_concat(s.take(i), s.skip(i), key);
}

/// With unique keys, the sum under the key of entry `i` is that entry's
/// count alone.
proof fn lemma_entries_count_found(s: Seq<(char, usize)>, i: int)
    requires
        unique_keys(s),
        0 <= i < s.len(),
    ensures
        entries_count(s, s[i].0) == s[i].1 as nat,
    decreases s.len(),
{
    if i == s.len() - 1 {
        lemma_entries_count_absent(s.drop_last(), s[i].0);
    } else {
        lemma_entries_count_found(s.drop_last(), i);
    }
}

/// Where no entry carries `key`, the sum under `key` is zero.
proof fn lemma_entries_count_absent(s: Seq<(char, usize)>, key: char)
    requires
        forall|i: int| 0 <= i < s.len() ==> (#[trigger] s[i]).0 != key,
    ensures
        entries_count(s, key) == 0,
    decreases s.len(),
{
    if s.len() > 0 {
        lemma_entries_count_absent(s.drop_last(), key);
    }
}

impl CharCounts {
    /// Well-formedness: keys are unique and every stored count is positive,
    /// as in a map that holds only characters actually seen.
    pub closed spec fn wf(self) -> bool {
        unique_keys(self.entries@) && (forall|i: int|
            0 <= i < self.entries@.len() ==> (#[trigger] self.entries@[i]).1 >= 1)
    }

    /// The model: the count recorded under `key`, zero where absent.
    pub closed spec fn count(self, key: char) -> nat {
        entries_count(self.entries@, key)
    }

    /// The number of distinct keys held.
    pub closed spec fn spec_len(self) -> nat {
        self.entries@.len()
    }

    /// An empty mapping: every count is zero.
    pub fn new() -> (r: CharCounts)
        ensures
            r.wf(),
            forall|key: char| r.count(key) == 0,
            r.spec_len() == 0,
    {
        CharCounts { entries: Vec::new() }
    }

    /// The number of distinct characters with a positive count.
    pub fn len(&self) -> (r: usize)
        ensures
            r == self.spec_len(),
    {
        self.entries.len()
    }

    /// Reads the count recorded under `key`.
    pub fn get(&self, key: char) -> (r: usize)
        requires
            self.wf(),
        ensures
            r == self.count(key),
    {
        let n = self.entries.len();
        let mut i: usize = 0;
        while i < n
            invariant
                n == self.entries@.len(),
                i <= n,
                self.wf(),
                forall|j: int| 0 <= j < i ==> (#[trigger] self.entries@[j]).0 != key,
            decreases n - i,
        {
            let (c, v) = self.entries[i];
            if c == key {
                proof {
                    lemma_entries_count_found(self.entries@, i as int);
                }
                return v;
            }
            i += 1;
        }
        proof {
            lemma_entries_count_absent(self.entries@, key);
        }
        0
    }

    /// Raises the count under `key` by `amount`, leaving every other key's
    /// count unchanged. The bound on the new count is a machine limit.
    pub fn add(&mut self, key: char, amount: usize)
        requires
            old(self).wf(),
            amount >= 1,
            old(self).count(key) + amount <= usize::MAX,
        ensures
            final(self).wf(),
            final(self).count(key) == old(self).count(key) + amount,
            forall|d: char| d != key ==> final(self).count(d) == old(self).count(d),
    {
        let n = self.entries.len();
        let mut i: usize = 0;
        while i < n
            invariant
                n == self.entries@.len(),
                i <= n,
                *self == *old(self),
                old(self).wf(),
                old(self).count(key) + amount <= usize::MAX,
                forall|j: int| 0 <= j < i ==> (#[trigger] self.entries@[j]).0 != key,
            decreases n - i,
        {
            let (c, v) = self.entries[i];
            if c == key {
                proof {
                    lemma_entries_count_found(self.entries@, i as int);
                    lemma_entries_count_update(
                        self.entries@,
                        i as int,
                        (key, (v + amount) as usize),
                        key,
                    );
                    assert(forall|d: char|
                        d != key ==> entries_count(
                            self.entries@.update(i as int, (key, (v + amount) as usize)),
                            d,
                        ) == entries_count(self.entries@, d)) by {
                        assert forall|d: char| d != key implies entries_count(
                            self.entries@.update(i as int, (key, (v + amount) as usize)),
                            d,
                        ) == entries_count(self.entries@, d) by {
                            lemma_entries_count_update(
                                self.entries@,
                                i as int,
                                (key, (v + amount) as usize),
                                d,
                            );
                        }
                    }
                }
                let slot = &mut self.entries[i];
                *slot = (key, v + amount);
                return ;
            }
            i += 1;
        }
        proof {
            lemma_entries_count_absent(self.entries@, key);
            lemma_entries_count_push(self.entries@, (key, amount), key);
            assert forall|d: char| d != key implies entries_count(
                self.entries@.push((key, amount)),
                d,
            ) == entries_count(self.entries@, d) by {
                lemma_entries_count_push(self.entries@, (key, amount), d);
            }
        }
        self.entries.push((key, amount));
    }

    /// Raises the count under `key` by one.
    pub fn increment(&mut self, key: char)
        requires
            old(self).wf(),
            old(self).count(key) < usize::MAX,
        ensures
            final(self).wf(),
            final(self).count(key) == old(self).count(key) + 1,
            forall|d: char| d != key ==> final(self).count(d) == old(self).count(d),
    {
        self.add(key, 1);
    }

    /// The entries as plain pairs, one per distinct key, for callers outside
    /// the verified world.
    pub fn entries_vec(&self) -> (r: Vec<(char, usize)>)
        requires
            self.wf(),
        ensures
            r@.len() == self.spec_len(),
            unique_keys(r@),
            forall|i: int| 0 <= i < r@.len() ==> (#[trigger] r@[i]).1 >= 1,
            forall|i: int| 0 <= i < r@.len() ==> (#[trigger] r@[i]).1 == self.count(r@[i].0),
            forall|key: char| #[trigger] entries_count(r@, key) == self.count(key),
    {
        let n = self.entries.len();
        let mut r: Vec<(char, usize)> = Vec::new();
        let mut i: usize = 0;
        while i < n
            invariant
                n == self.entries@.len(),
                i <= n,
                self.wf(),
                r@.len() == i,
                forall|j: int| 0 <= j < i ==> r@[j] == self.entries@[j],
            decreases n - i,
        {
            let (c, v) = self.entries[i];
            proof {
                lemma_entries_count_found(self.entries@, i as int);
            }
            r.push((c, v));
            i += 1;
        }
        proof {
            assert(r@ =~= self.entries@);
            assert forall|i2: int| 0 <= i2 < r@.len() implies (#[trigger] r@[i2]).1 == self.count(
                r@[i2].0,
            ) by {
                lemma_entries_count_found(self.entries@, i2);
            }
        }
        r
    }
}

impl Clone for CharCounts {
    /// A clone records the same count under every key.
    fn clone(&self) -> (r: Self)
        ensures
            r.wf() == self.wf(),
            r.spec_len() == self.spec_len(),
            forall|key: char| r.count(key) == self.count(key),
    {
        let n = self.entries.len();
        let mut entries: Vec<(char, usize)> = Vec::new();
        let mut i: usize = 0;
        while i < n
            invariant
                n == self.entries@.len(),
                i <= n,
                entries@ =~= self.entries@.take(i as int),
            decreases n - i,
        {
            let e = self.entries[i];
            entries.push(e);
            i += 1;
        }
        proof {
            assert(entries@ =~= self.entries@);
        }
        CharCounts { entries }
    }
}

} // verus!
