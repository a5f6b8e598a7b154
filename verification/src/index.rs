//! The line-offset index: which byte each logical line starts at.

use vstd::prelude::*;

verus! {

/// The byte offsets at which the lines of `s` start.
///
/// Offset 0 (the start of the file) always opens line 0, and every
/// line-terminator byte `\n` at position `p` opens a further line at `p + 1`.
/// A trailing terminator therefore opens one last, empty line at the end of
/// the file, and an empty file still has exactly one line.
pub open spec fn line_starts(s: Seq<u8>) -> Seq<int>
    decreases s.len(),
{
    if s.len() == 0 {
        seq![0int]
    } else if s.last() == 10u8 {
        line_starts(s.drop_last()).push(s.len() as int)
    } else {
        line_starts(s.drop_last())
    }
}

/// The number of logical lines of `s`: one more than its count of `\n` bytes.
pub open spec fn total_lines(s: Seq<u8>) -> int {
    line_starts(s).len() as int
}

/// Appending one byte either appends one line start (for `\n`) or leaves the
/// starts unchanged.
pub proof fn lemma_line_starts_push(s: Seq<u8>, b: u8)
    ensures
        line_starts(s.push(b)) == if b == 10u8 {
            line_starts(s).push(s.len() as int + 1)
        } else {
            line_starts(s)
        },
{
    assert(s.push(b).len() == s.len() + 1);
    assert(s.push(b).drop_last() =~= s);
    assert(s.push(b).last() == b);
}

/// Shape of the line starts of any byte sequence: at least one entry, the
/// first entry 0, strictly increasing, and every entry within the sequence.
pub proof fn lemma_line_starts_props(s: Seq<u8>)
    ensures
        line_starts(s).len() >= 1,
        line_starts(s)[0] == 0,
        forall|i: int| 0 <= i < line_starts(s).len() ==> 0 <= #[trigger] line_starts(s)[i] <= s.len(),
        forall|i: int, j: int|
            #![trigger line_starts(s)[i], line_starts(s)[j]]
            0 <= i < j < line_starts(s).len() ==> line_starts(s)[i] < line_starts(s)[j],
    decreases s.len(),
{
    if s.len() == 0 {
    } else {
        lemma_line_starts_props(s.drop_last());
    }
}

/// A line index for one snapshot of a file: the offsets at which its lines
/// start, together with the snapshot's size in bytes.
#[derive(Clone)]
pub struct LineIndex {
    /// Byte offset of the start of each logical line, in line order.
    pub offsets: Vec<u64>,
    /// Size in bytes of the file snapshot this index was derived from.
    pub file_size: u64,
}

impl LineIndex {
    /// The offsets as mathematical integers.
    pub open spec fn offsets_int(&self) -> Seq<int> {
        self.offsets@.map_values(|v: u64| v as int)
    }

    /// The index describes exactly the byte snapshot `s`.
    pub open spec fn matches(&self, s: Seq<u8>) -> bool {
        &&& self.file_size == s.len()
        &&& self.offsets_int() == line_starts(s)
    }

    /// Well-formedness: at least one offset, the first offset 0, offsets
    /// strictly increasing and none past the end of the file.
    pub open spec fn wf(&self) -> bool {
        &&& self.offsets@.len() >= 1
        &&& self.offsets@[0] == 0
        &&& forall|i: int, j: int|
            #![trigger self.offsets@[i], self.offsets@[j]]
            0 <= i < j < self.offsets@.len() ==> self.offsets@[i] < self.offsets@[j]
        &&& forall|i: int|
            0 <= i < self.offsets@.len() ==> #[trigger] self.offsets@[i] <= self.file_size
    }

    /// Decide at run time whether the index is well formed, for callers
    /// that hold an index whose provenance nothing vouches for.
    pub fn check_wf(&self) -> (r: bool)
        ensures
            r == self.wf(),
    {
        let n: usize = self.offsets.len();
        if n == 0 {
            return false;
        }
        if self.offsets[0] != 0 {
            return false;
        }
        if self.offsets[0] > self.file_size {
            return false;
        }
        let mut i: usize = 0;
        while i + 1 < n
            invariant
                i < n == self.offsets@.len(),
                forall|m1: int, m2: int|
                    #![trigger self.offsets@[m1], self.offsets@[m2]]
                    0 <= m1 < m2 <= i ==> self.offsets@[m1] < self.offsets@[m2],
                forall|m: int| 0 <= m <= i ==> #[trigger] self.offsets@[m] <= self.file_size,
            decreases n - i,
        {
            if self.offsets[i] >= self.offsets[i + 1] {
                return false;
            }
            if self.offsets[i + 1] > self.file_size {
                return false;
            }
            i = i + 1;
        }
        true
    }

    /// An index that matches some snapshot is well formed.
    pub proof fn lemma_matches_implies_wf(&self, s: Seq<u8>)
        requires
            self.matches(s),
        ensures
            self.wf(),
            self.offsets@.len() == total_lines(s),
    {
        lemma_line_starts_props(s);
        assert(self.offsets@.len() == line_starts(s).len());
        assert(self.offsets@[0] as int == self.offsets_int()[0]);
        assert(forall|i: int|
            0 <= i < self.offsets@.len() ==> #[trigger] self.offsets@[i] as int
                == self.offsets_int()[i]);
    }
}

/// Appending terminator-free bytes opens no new line.
pub proof fn lemma_line_starts_append_no_newline(s: Seq<u8>, t: Seq<u8>)
    requires
        forall|m: int| 0 <= m < t.len() ==> t[m] != 10u8,
    ensures
        line_starts(s + t) == line_starts(s),
    decreases t.len(),
{
    if t.len() == 0 {
        assert(s + t =~= s);
    } else {
        assert((s + t).drop_last() =~= s + t.drop_last());
        assert((s + t).last() == t.last());
        lemma_line_starts_append_no_newline(s, t.drop_last());
    }
}

/// Scan a byte snapshot once and build its line index.
///
/// This is the single linear pass of the indexer: every `\n` byte at
/// position `i` contributes the offset `i + 1`, and offset 0 is always
/// present.
pub fn build_index(content: &[u8]) -> (idx: LineIndex)
    ensures
        idx.matches(content@),
{
    let n: usize = content.len();
    let mut offsets: Vec<u64> = Vec::new();
    offsets.push(0u64);
    assert(offsets@.map_values(|v: u64| v as int) =~= line_starts(content@.subrange(0, 0)));
    let mut i: usize = 0;
    while i < n
        invariant
            n == content@.len(),
            i <= n,
            offsets@.map_values(|v: u64| v as int) == line_starts(content@.subrange(0, i as int)),
        decreases n - i,
    {
        let ghost prefix = content@.subrange(0, i as int);
        if content[i] == 10u8 {
            offsets.push((i + 1) as u64);
            proof {
                assert(offsets@.drop_last().map_values(|v: u64| v as int)
                    =~= line_starts(prefix));
                assert(offsets@.map_values(|v: u64| v as int)
                    =~= line_starts(prefix).push(i + 1));
            }
        }
        i = i + 1;
        proof {
            assert(content@.subrange(0, i as int) =~= prefix.push(content@[i - 1]));
            lemma_line_starts_push(prefix, content@[i - 1]);
        }
    }
    assert(content@.subrange(0, n as int) =~= content@);
    LineIndex { offsets, file_size: n as u64 }
}

/// Incremental indexer for a file scanned as a stream of terminator-split
/// segments, so that no more than one segment is ever held in memory.
///
/// The caller announces the file's size, feeds each `\n`-free segment in
/// order, and finishes.  The builder accounts one terminator after every
/// segment; the accounted position past the file's size that a final
/// unterminated segment produces contributes no offset.
pub struct IndexBuilder {
    offsets: Vec<u64>,
    byte_pos: u64,
    file_size: u64,
    fed: Ghost<Seq<u8>>,
}

impl IndexBuilder {
    /// The bytes accounted so far: every fed segment followed by one
    /// terminator byte.
    pub closed spec fn fed(&self) -> Seq<u8> {
        self.fed@
    }

    /// The file size the builder was announced.
    pub closed spec fn size(&self) -> u64 {
        self.file_size
    }

    /// The part of the accounted bytes that lies within the announced size.
    pub open spec fn accounted(&self) -> Seq<u8> {
        if self.fed().len() <= self.size() {
            self.fed()
        } else {
            self.fed().take(self.size() as int)
        }
    }

    /// The offsets gathered so far are the line starts of the accounted
    /// bytes.
    pub closed spec fn wf(&self) -> bool {
        &&& self.byte_pos == self.fed@.len()
        &&& self.offsets@.map_values(|v: u64| v as int) == line_starts(self.accounted())
    }

    /// Start indexing a file of `file_size` bytes.
    pub fn new(file_size: u64) -> (b: IndexBuilder)
        ensures
            b.wf(),
            b.fed() == Seq::<u8>::empty(),
            b.size() == file_size,
    {
        let mut offsets: Vec<u64> = Vec::new();
        offsets.push(0u64);
        let b = IndexBuilder {
            offsets,
            byte_pos: 0,
            file_size,
            fed: Ghost(Seq::empty()),
        };
        assert(b.offsets@.map_values(|v: u64| v as int) =~= line_starts(b.accounted()));
        b
    }

    /// How many bytes have been accounted so far.
    pub fn bytes_fed(&self) -> (r: u64)
        requires
            self.wf(),
        ensures
            r == self.fed().len(),
    {
        self.byte_pos
    }

    /// Feed the next terminator-free segment, accounting its bytes and the
    /// terminator that ended it.
    pub fn push_segment(&mut self, segment: &[u8])
        requires
            old(self).wf(),
            forall|m: int| 0 <= m < segment@.len() ==> segment@[m] != 10u8,
            old(self).fed().len() + segment@.len() + 1 <= u64::MAX,
        ensures
            final(self).wf(),
            final(self).fed() == old(self).fed() + segment@ + seq![10u8],
            final(self).size() == old(self).size(),
    {
        let ghost s = self.fed@;
        let ghost t = segment@;
        let ghost fs = self.file_size as int;
        let len: usize = segment.len();
        self.byte_pos = self.byte_pos + len as u64 + 1;
        proof {
            self.fed@ = s + t + seq![10u8];
            assert(self.fed@.len() == s.len() + t.len() + 1);
        }
        if self.byte_pos <= self.file_size {
            self.offsets.push(self.byte_pos);
            proof {
                let ghost old_offs = self.offsets@.drop_last();
                lemma_line_starts_append_no_newline(s, t);
                lemma_line_starts_push(s + t, 10u8);
                assert(self.fed@ =~= (s + t).push(10u8));
                assert(s.len() <= fs);
                assert(line_starts(self.fed@) == line_starts(s).push(self.fed@.len() as int));
                assert(self.offsets@.map_values(|v: u64| v as int) =~= line_starts(s).push(
                    self.fed@.len() as int,
                ));
                assert(self.accounted() =~= self.fed@);
            }
        } else {
            proof {
                if s.len() >= fs {
                    assert(self.accounted() =~= if s.len() <= fs {
                        s
                    } else {
                        s.take(fs)
                    });
                } else {
                    let k = fs - s.len();
                    assert(0 <= k <= t.len());
                    assert(self.accounted() =~= s + t.take(k));
                    assert(forall|m: int| 0 <= m < k ==> t.take(k)[m] != 10u8);
                    lemma_line_starts_append_no_newline(s, t.take(k));
                }
            }
        }
    }

    /// Close the scan and hand out the index.
    ///
    /// The accounted bytes must land exactly on the announced size (the
    /// file ended with a terminator, or was empty) or one byte past it (the
    /// last segment was unterminated, so its accounted terminator is
    /// fictitious); anything else means the stream and the announced size
    /// disagree, and no index describes the file.
    pub fn finish(self) -> (idx: LineIndex)
        requires
            self.wf(),
            self.fed().len() == self.size() || self.fed().len() == self.size() + 1,
        ensures
            idx.matches(self.accounted()),
            idx.file_size == self.size(),
    {
        proof {
            assert(self.accounted().len() == self.size());
        }
        LineIndex { offsets: self.offsets, file_size: self.file_size }
    }
}

} // verus!
