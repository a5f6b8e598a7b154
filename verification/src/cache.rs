//! The index cache: one process-wide association of file path to the
//! current line index for that path.
//!
//! The cache itself is a plain map with copy-in, replace-on-put semantics;
//! the surrounding program wraps it in a mutual-exclusion guard and holds
//! that guard only across a single `get` or `put`, never across file I/O.

use vstd::prelude::*;
use crate::index::LineIndex;

verus! {

/// The map described by a list of path/index entries, later entries
/// shadowing earlier ones.
pub open spec fn entries_map(s: Seq<(String, LineIndex)>) -> Map<Seq<char>, LineIndex>
    decreases s.len(),
{
    if s.len() == 0 {
        Map::empty()
    } else {
        entries_map(s.drop_last()).insert(s.last().0@, s.last().1)
    }
}

/// If no entry of `s` carries the key `k`, the map has no key `k`.
proof fn lemma_entries_map_absent(s: Seq<(String, LineIndex)>, k: Seq<char>)
    requires
        forall|i: int| 0 <= i < s.len() ==> (#[trigger] s[i]).0@ != k,
    ensures
        !entries_map(s).contains_key(k),
    decreases s.len(),
{
    if s.len() > 0 {
        lemma_entries_map_absent(s.drop_last(), k);
    }
}

/// If the keys of `s` are pairwise distinct and entry `j` carries the key
/// `k`, the map holds exactly that entry's index under `k`.
proof fn lemma_entries_map_found(s: Seq<(String, LineIndex)>, j: int, k: Seq<char>)
    requires
        0 <= j < s.len(),
        s[j].0@ == k,
        forall|i1: int, i2: int|
            #![trigger s[i1], s[i2]]
            0 <= i1 < i2 < s.len() ==> s[i1].0@ != s[i2].0@,
    ensures
        entries_map(s).contains_key(k),
        entries_map(s)[k] == s[j].1,
    decreases s.len(),
{
    if j == s.len() - 1 {
    } else {
        assert(s[s.len() - 1].0@ != k);
        lemma_entries_map_found(s.drop_last(), j, k);
    }
}

/// Removing the one entry that carries `k` and then inserting `k` afresh
/// yields the same map as inserting `k` over the original list.
proof fn lemma_entries_map_remove_insert(
    s: Seq<(String, LineIndex)>,
    j: int,
    k: Seq<char>,
    v: LineIndex,
)
    requires
        0 <= j < s.len(),
        s[j].0@ == k,
        forall|i: int| j < i < s.len() ==> (#[trigger] s[i]).0@ != k,
    ensures
        entries_map(s.remove(j)).insert(k, v) == entries_map(s).insert(k, v),
    decreases s.len(),
{
    if j == s.len() - 1 {
        assert(s.remove(j) =~= s.drop_last());
        assert(entries_map(s).insert(k, v) =~= entries_map(s.drop_last()).insert(k, v));
    } else {
        let last = s.last();
        assert(last.0@ != k);
        assert(s.remove(j).drop_last() =~= s.drop_last().remove(j));
        assert(s.remove(j).last() == last);
        lemma_entries_map_remove_insert(s.drop_last(), j, k, v);
        assert(entries_map(s.remove(j)).insert(k, v) =~= entries_map(
            s.drop_last().remove(j),
        ).insert(k, v).insert(last.0@, last.1));
        assert(entries_map(s).insert(k, v) =~= entries_map(s.drop_last()).insert(
            k,
            v,
        ).insert(last.0@, last.1));
    }
}

/// The process-wide cache of line indexes, keyed by file path.
///
/// A `get` copies nothing out and mutates nothing; a `put` replaces whatever
/// index the path had.  No entry is ever evicted on its own: an entry stays
/// valid only as long as every modification of the underlying file is routed
/// through the patcher, and an out-of-band modification invalidates it
/// silently.
pub struct IndexCache {
    entries: Vec<(String, LineIndex)>,
}

impl View for IndexCache {
    type V = Map<Seq<char>, LineIndex>;

    closed spec fn view(&self) -> Map<Seq<char>, LineIndex> {
        entries_map(self.entries@)
    }
}

impl IndexCache {
    /// Entries carry pairwise distinct paths.
    pub closed spec fn wf(&self) -> bool {
        forall|i1: int, i2: int|
            #![trigger self.entries@[i1], self.entries@[i2]]
            0 <= i1 < i2 < self.entries@.len() ==> self.entries@[i1].0@ != self.entries@[i2].0@
    }

    /// An empty cache: no path is known.
    pub fn new() -> (c: IndexCache)
        ensures
            c.wf(),
            c@ == Map::<Seq<char>, LineIndex>::empty(),
    {
        IndexCache { entries: Vec::new() }
    }

    /// Look up the current index for a path, if one is cached.
    pub fn get(&self, path: &String) -> (r: Option<&LineIndex>)
        requires
            self.wf(),
        ensures
            match r {
                Some(ix) => self@.contains_key(path@) && *ix == self@[path@],
                None => !self@.contains_key(path@),
            },
    {
        let n: usize = self.entries.len();
        let mut i: usize = 0;
        while i < n
            invariant
                i <= n,
                n == self.entries@.len(),
                self.wf(),
                forall|m: int| 0 <= m < i ==> (#[trigger] self.entries@[m]).0@ != path@,
            decreases n - i,
        {
            if self.entries[i].0 == *path {
                proof {
                    lemma_entries_map_found(self.entries@, i as int, path@);
                }
                return Some(&self.entries[i].1);
            }
            i = i + 1;
        }
        proof {
            lemma_entries_map_absent(self.entries@, path@);
        }
        None
    }

    /// Cache `index` as the current index for `path`, replacing any earlier
    /// entry for the same path.
    pub fn put(&mut self, path: String, index: LineIndex)
        requires
            old(self).wf(),
        ensures
            final(self).wf(),
            final(self)@ == old(self)@.insert(path@, index),
    {
        let ghost s0 = self.entries@;
        let n: usize = self.entries.len();
        let mut i: usize = 0;
        while i < n
            invariant
                i <= n,
                n == self.entries@.len(),
                self.entries@ == s0,
                s0 == old(self).entries@,
                forall|i1: int, i2: int|
                    #![trigger s0[i1], s0[i2]]
                    0 <= i1 < i2 < s0.len() ==> s0[i1].0@ != s0[i2].0@,
                forall|m: int| 0 <= m < i ==> (#[trigger] self.entries@[m]).0@ != path@,
            decreases n - i,
        {
            if self.entries[i].0 == path {
                let ghost j = i as int;
                let ghost k = path@;
                self.entries.remove(i);
                self.entries.push((path, index));
                proof {
                    let t = self.entries@;
                    assert(forall|m: int|
                        j < m < s0.len() ==> (#[trigger] s0[m]).0@ != k) by {
                        assert(forall|m: int|
                            j < m < s0.len() ==> s0[j].0@ != (#[trigger] s0[m]).0@);
                    }
                    lemma_entries_map_remove_insert(s0, j, k, index);
                    assert(t.drop_last() =~= s0.remove(j));
                    assert(self@ =~= entries_map(s0.remove(j)).insert(k, index));
                    assert(self@ =~= old(self)@.insert(k, index));
                    assert(forall|m: int|
                        0 <= m < t.len() - 1 ==> (#[trigger] t[m]).0@ != k) by {
                        assert(forall|m: int|
                            0 <= m < j ==> #[trigger] s0.remove(j)[m] == s0[m]);
                        assert(forall|m: int|
                            j <= m < s0.len() - 1 ==> #[trigger] s0.remove(j)[m] == s0[m + 1]);
                    }
                    assert(forall|i1: int, i2: int|
                        #![trigger t[i1], t[i2]]
                        0 <= i1 < i2 < t.len() - 1 ==> t[i1].0@ != t[i2].0@) by {
                        assert(forall|m: int|
                            0 <= m < j ==> #[trigger] s0.remove(j)[m] == s0[m]);
                        assert(forall|m: int|
                            j <= m < s0.len() - 1 ==> #[trigger] s0.remove(j)[m] == s0[m + 1]);
                    }
                    assert(final(self).wf());
                }
                return ;
            }
            i = i + 1;
        }
        self.entries.push((path, index));
        proof {
            assert(self.entries@.drop_last() =~= s0);
            assert(self@ =~= old(self)@.insert(path@, index));
            assert(forall|i1: int, i2: int|
                #![trigger self.entries@[i1], self.entries@[i2]]
                0 <= i1 < i2 < self.entries@.len() ==> self.entries@[i1].0@
                    != self.entries@[i2].0@) by {
                assert(forall|m: int| 0 <= m < s0.len() ==> (#[trigger] self.entries@[m]) == s0[m]);
            }
        }
    }
}

} // verus!
