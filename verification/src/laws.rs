//! Laws that tie the indexer, the reader and the patcher together.

use vstd::prelude::*;
use crate::index::LineIndex;
use crate::index::lemma_line_starts_props;
use crate::index::line_starts;
use crate::index::total_lines;
use crate::range::spec_clamped_start;
use crate::range::spec_end_byte;
use crate::range::spec_end_line;
use crate::range::spec_lines_read;
use crate::range::spec_start_byte;

verus! {

/// Round trip: reading the full line range `[0, total_lines)` of a snapshot
/// spans exactly the bytes `[0, len)`, and so reproduces the snapshot's
/// exact contents.
pub proof fn lemma_full_range_round_trip(s: Seq<u8>)
    ensures
        spec_clamped_start(total_lines(s), 0) == 0,
        spec_lines_read(total_lines(s), 0, total_lines(s)) == total_lines(s),
        spec_start_byte(s, 0) == 0,
        spec_end_byte(s, 0, total_lines(s)) == s.len(),
        s.subrange(spec_start_byte(s, 0), spec_end_byte(s, 0, total_lines(s))) == s,
{
    lemma_line_starts_props(s);
    assert(spec_end_line(total_lines(s), 0, total_lines(s)) == total_lines(s));
    assert(s.subrange(0, s.len() as int) =~= s);
}

/// Re-indexing is deterministic: any two indexes that describe the same
/// snapshot agree on every offset and on the file size.  In particular,
/// indexing a file afresh after a patch yields exactly the index, the line
/// count and the size that the patch itself reported.
pub proof fn lemma_index_determined(s: Seq<u8>, a: LineIndex, b: LineIndex)
    requires
        a.matches(s),
        b.matches(s),
    ensures
        a.offsets@ == b.offsets@,
        a.file_size == b.file_size,
{
    assert(a.offsets@.len() == line_starts(s).len());
    assert(b.offsets@.len() == line_starts(s).len());
    assert(forall|i: int|
        0 <= i < a.offsets@.len() ==> #[trigger] a.offsets@[i] as int == a.offsets_int()[i]);
    assert(forall|i: int|
        0 <= i < b.offsets@.len() ==> #[trigger] b.offsets@[i] as int == b.offsets_int()[i]);
    assert(a.offsets@ =~= b.offsets@);
}

/// Clamping: a read whose start line lies at or beyond the end of the index
/// reads zero lines instead of failing.
pub proof fn lemma_past_end_reads_nothing(s: Seq<u8>, start_line: int, line_count: int)
    requires
        start_line >= total_lines(s),
    ensures
        spec_lines_read(total_lines(s), start_line, line_count) == 0,
        spec_start_byte(s, start_line) == spec_end_byte(s, start_line, line_count),
{
    lemma_line_starts_props(s);
}

} // verus!
