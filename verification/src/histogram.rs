//! Histogram of error-ceiling buckets.
//!
//! The aggregator counts, for each integer bucket key, how many points
//! produced that key. The histogram is a sequence of key/count entries
//! with pairwise distinct keys and positive counts; keys are kept in the
//! order of their first occurrence, which the comparison's deterministic
//! left-to-right traversal fixes.

use vstd::prelude::*;

verus! {

/// All keys are pairwise distinct.
pub open spec fn keys_unique(s: Seq<(u64, u64)>) -> bool {
    forall|i: int, j: int| 0 <= i < j < s.len() ==> s[i].0 != s[j].0
}

/// Every count is at least one: a key is present only once some point
/// produced it.
pub open spec fn counts_positive(s: Seq<(u64, u64)>) -> bool {
    forall|i: int| 0 <= i < s.len() ==> s[i].1 >= 1
}

/// A well-formed histogram sequence.
pub open spec fn hist_wf(s: Seq<(u64, u64)>) -> bool {
    keys_unique(s) && counts_positive(s)
}

/// Some entry carries the key.
pub open spec fn has_key(s: Seq<(u64, u64)>, key: u64) -> bool {
    exists|i: int| 0 <= i < s.len() && s[i].0 == key
}

/// The count recorded for a key, summed over every entry that carries it:
/// with unique keys this is the single entry's count, and zero when the
/// key is absent.
pub open spec fn count_in(s: Seq<(u64, u64)>, key: u64) -> int
    decreases s.len(),
{
    if s.len() == 0 {
        0
    } else if s.last().0 == key {
        s.last().1 + count_in(s.drop_last(), key)
    } else {
        count_in(s.drop_last(), key)
    }
}

/// The sum of all counts.
pub open spec fn total_count(s: Seq<(u64, u64)>) -> int
    decreases s.len(),
{
    if s.len() == 0 {
        0
    } else {
        s.last().1 + total_count(s.drop_last())
    }
}

/// The sequence after one occurrence of `key` is recorded: every entry
/// carrying the key has its count raised by one, and a fresh `(key, 1)`
/// entry is appended when no entry carries it.
pub open spec fn bump(s: Seq<(u64, u64)>, key: u64) -> Seq<(u64, u64)> {
    if has_key(s, key) {
        Seq::new(s.len(), |i: int| if s[i].0 == key {
            (key, (s[i].1 + 1) as u64)
        } else {
            s[i]
        })
    } else {
        s.push((key, 1))
    }
}

/// A key's count never exceeds the sum of all counts.
pub proof fn lemma_count_le_total(s: Seq<(u64, u64)>, key: u64)
    ensures
        0 <= count_in(s, key) <= total_count(s),
    decreases s.len(),
{
    if s.len() > 0 {
        lemma_count_le_total(s.drop_last(), key);
    }
}

/// An entry's count never exceeds the count recorded for its key.
pub proof fn lemma_entry_le_count(s: Seq<(u64, u64)>, i: int)
    requires
        0 <= i < s.len(),
    ensures
        s[i].1 <= count_in(s, s[i].0),
    decreases s.len(),
{
    if i == s.len() - 1 {
        lemma_count_le_total(s.drop_last(), s[i].0);
        assert(count_in(s.drop_last(), s[i].0) >= 0);
    } else {
        lemma_entry_le_count(s.drop_last(), i);
        lemma_count_le_total(s.drop_last(), s.drop_last()[i].0);
    }
}

/// Recording one occurrence raises the sum of all counts by exactly one.
pub proof fn lemma_bump_total(s: Seq<(u64, u64)>, key: u64)
    requires
        keys_unique(s),
        count_in(s, key) + 1 <= u64::MAX,
    ensures
        total_count(bump(s, key)) == total_count(s) + 1,
    decreases s.len(),
{
    if !has_key(s, key) {
        assert(bump(s, key).drop_last() =~= s);
    } else {
        let b = bump(s, key);
        assert(s.len() > 0);
        assert(forall|i: int| 0 <= i < s.len() - 1 ==> #[trigger] s.drop_last()[i] == s[i]);
        if s.last().0 == key {
            assert(!has_key(s.drop_last(), key));
            lemma_count_absent(s.drop_last(), key);
            assert(count_in(s, key) == s.last().1);
            assert(b.last() == (key, (s.last().1 + 1) as u64));
            assert(b.drop_last() =~= s.drop_last());
        } else {
            assert(has_key(s.drop_last(), key)) by {
                let w = choose|i: int| 0 <= i < s.len() && s[i].0 == key;
                assert(0 <= w < s.len() - 1 && s.drop_last()[w].0 == key);
            }
            assert(b.drop_last() =~= bump(s.drop_last(), key));
            assert(b.last() == s.last());
            assert(count_in(s.drop_last(), key) == count_in(s, key));
            lemma_bump_total(s.drop_last(), key);
        }
    }
}

/// Recording one occurrence raises the key's own count by exactly one and
/// leaves every other key's count unchanged.
pub proof fn lemma_bump_count(s: Seq<(u64, u64)>, key: u64, probe: u64)
    requires
        keys_unique(s),
        count_in(s, key) + 1 <= u64::MAX,
    ensures
        probe == key ==> count_in(bump(s, key), probe) == count_in(s, probe) + 1,
        probe != key ==> count_in(bump(s, key), probe) == count_in(s, probe),
    decreases s.len(),
{
    if !has_key(s, key) {
        let b = s.push((key, 1));
        assert(b.drop_last() =~= s);
        if probe == key {
            lemma_count_absent(s, key);
        }
    } else {
        let b = bump(s, key);
        assert(s.len() > 0);
        if s.last().0 == key {
            lemma_entry_le_count(s, s.len() - 1);
            lemma_count_le_total(s.drop_last(), key);
            assert(b.last() == (key, (s.last().1 + 1) as u64));
            assert(b.drop_last() =~= s.drop_last()) by {
                assert(forall|i: int|
                    0 <= i < s.len() - 1 ==> #[trigger] s.drop_last()[i] == s[i] && s[i].0
                        != key);
            }
        } else {
            assert(has_key(s.drop_last(), key)) by {
                let w = choose|i: int| 0 <= i < s.len() && s[i].0 == key;
                assert(0 <= w < s.len() - 1 && s.drop_last()[w].0 == key);
            }
            assert(b.drop_last() =~= bump(s.drop_last(), key));
            assert(b.last() == s.last());
            lemma_bump_count(s.drop_last(), key, probe);
        }
    }
}

/// A key no entry carries has count zero.
pub proof fn lemma_count_absent(s: Seq<(u64, u64)>, key: u64)
    requires
        !has_key(s, key),
    ensures
        count_in(s, key) == 0,
    decreases s.len(),
{
    if s.len() > 0 {
        assert(!has_key(s.drop_last(), key)) by {
            assert(forall|i: int|
                0 <= i < s.len() - 1 ==> #[trigger] s.drop_last()[i] == s[i]);
        }
        lemma_count_absent(s.drop_last(), key);
    }
}

/// Recording one occurrence keeps the histogram well formed.
pub proof fn lemma_bump_wf(s: Seq<(u64, u64)>, key: u64)
    requires
        hist_wf(s),
        count_in(s, key) + 1 <= u64::MAX,
    ensures
        hist_wf(bump(s, key)),
{
    if has_key(s, key) {
        let b = bump(s, key);
        assert forall|i: int| 0 <= i < b.len() implies (#[trigger] b[i]).0 == s[i].0 && b[i].1
            >= 1 by {
            if s[i].0 == key {
                lemma_count_at_unique(s, i);
            }
        }
        assert(keys_unique(b));
        assert(counts_positive(b));
    }
}

/// A bucket histogram: key/count entries with pairwise distinct keys, in
/// first-occurrence order.
#[derive(Clone, Debug)]
pub struct Histogram {
    pub entries: Vec<(u64, u64)>,
}

impl View for Histogram {
    type V = Seq<(u64, u64)>;

    open spec fn view(&self) -> Seq<(u64, u64)> {
        self.entries@
    }
}

impl Histogram {
    /// The empty histogram.
    pub fn new() -> (h: Histogram)
        ensures
            h@ =~= Seq::<(u64, u64)>::empty(),
    {
        Histogram { entries: Vec::new() }
    }

    /// The count recorded for a key, zero when the key is absent.
    pub fn count(&self, key: u64) -> (c: u64)
        requires
            hist_wf(self@),
        ensures
            c as int == count_in(self@, key),
    {
        let n = self.entries.len();
        for i in 0..n
            invariant
                n == self@.len(),
                hist_wf(self@),
                forall|j: int| 0 <= j < i ==> self@[j].0 != key,
        {
            if self.entries[i].0 == key {
                proof {
                    lemma_count_at_unique(self@, i as int);
                }
                return self.entries[i].1;
            }
        }
        proof {
            lemma_count_absent(self@, key);
        }
        0
    }

    /// Record one occurrence of `key`.
    pub fn increment(&mut self, key: u64)
        requires
            hist_wf(old(self)@),
            count_in(old(self)@, key) + 1 <= u64::MAX,
        ensures
            final(self)@ == bump(old(self)@, key),
            hist_wf(final(self)@),
    {
        proof {
            lemma_bump_wf(old(self)@, key);
        }
        let n = self.entries.len();
        for i in 0..n
            invariant
                n == self@.len(),
                self@ == old(self)@,
                hist_wf(self@),
                count_in(self@, key) + 1 <= u64::MAX,
                forall|j: int| 0 <= j < i ==> self@[j].0 != key,
        {
            let (k0, c0) = self.entries[i];
            if k0 == key {
                proof {
                    lemma_entry_le_count(self@, i as int);
                }
                self.entries.set(i, (key, c0 + 1));
                proof {
                    assert(self@ =~= bump(old(self)@, key));
                }
                return ;
            }
        }
        proof {
            lemma_count_absent(old(self)@, key);
        }
        self.entries.push((key, 1));
        proof {
            assert(self@ =~= bump(old(self)@, key));
        }
    }
}

/// With unique keys, the entry carrying a key holds exactly that key's
/// count.
pub proof fn lemma_count_at_unique(s: Seq<(u64, u64)>, i: int)
    requires
        keys_unique(s),
        0 <= i < s.len(),
    ensures
        count_in(s, s[i].0) == s[i].1,
    decreases s.len(),
{
    if i == s.len() - 1 {
        assert(!has_key(s.drop_last(), s[i].0)) by {
            assert(forall|j: int|
                0 <= j < s.len() - 1 ==> #[trigger] s.drop_last()[j] == s[j]);
        }
        lemma_count_absent(s.drop_last(), s[i].0);
    } else {
        assert(s.drop_last()[i] == s[i]);
        lemma_count_at_unique(s.drop_last(), i);
        assert(s.last().0 != s[i].0);
    }
}

} // verus!
