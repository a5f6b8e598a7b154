//! The range reader: clamp a requested line range and materialise its bytes.

use vstd::prelude::*;
use vstd::slice::slice_subrange;
use vstd::slice::slice_to_vec;
use crate::index::LineIndex;
use crate::index::line_starts;
use crate::index::lemma_line_starts_props;
use crate::index::total_lines;

verus! {

/// The requested start line, clamped to the last valid line of an index with
/// `total` lines (`total >= 1`): never past `total - 1`.
pub open spec fn spec_clamped_start(total: int, start_line: int) -> int {
    if start_line < total {
        start_line
    } else {
        total - 1
    }
}

/// The line just past the clamped range.
///
/// A start at or beyond the end selects the empty range: the reader clamps an
/// out-of-range request to zero lines rather than rejecting it.  Otherwise
/// the range holds `line_count` lines, cut off at the end of the index.
pub open spec fn spec_end_line(total: int, start_line: int, line_count: int) -> int {
    if start_line >= total {
        total - 1
    } else if start_line + line_count < total {
        start_line + line_count
    } else {
        total
    }
}

/// How many lines the clamped range holds.
pub open spec fn spec_lines_read(total: int, start_line: int, line_count: int) -> int {
    spec_end_line(total, start_line, line_count) - spec_clamped_start(total, start_line)
}

/// The byte at which the clamped range begins in the snapshot `s`.
pub open spec fn spec_start_byte(s: Seq<u8>, start_line: int) -> int {
    line_starts(s)[spec_clamped_start(total_lines(s), start_line)]
}

/// The byte just past the clamped range in the snapshot `s`.
///
/// When the range reaches the last line, its extent is the end of the file:
/// the index stores no sentinel offset past the last line start.
pub open spec fn spec_end_byte(s: Seq<u8>, start_line: int, line_count: int) -> int {
    let e = spec_end_line(total_lines(s), start_line, line_count);
    if e < total_lines(s) {
        line_starts(s)[e]
    } else {
        s.len() as int
    }
}

/// The byte span of a clamped range is well placed: it starts at the
/// clamped line's offset, ends at or after its start, within the snapshot,
/// and agrees with the offsets a matching index stores.
pub proof fn lemma_span_bounds(idx: &LineIndex, s: Seq<u8>, start_line: int, line_count: int)
    requires
        idx.matches(s),
        start_line >= 0,
        line_count >= 0,
    ensures
        idx.wf(),
        idx.offsets@.len() == total_lines(s),
        0 <= spec_start_byte(s, start_line),
        spec_start_byte(s, start_line) <= spec_end_byte(s, start_line, line_count) <= s.len(),
        idx.offsets@[spec_clamped_start(total_lines(s), start_line)] as int == spec_start_byte(
            s,
            start_line,
        ),
        spec_end_line(total_lines(s), start_line, line_count) < total_lines(s)
            ==> idx.offsets@[spec_end_line(total_lines(s), start_line, line_count)] as int
            == spec_end_byte(s, start_line, line_count),
{
    idx.lemma_matches_implies_wf(s);
    lemma_line_starts_props(s);
    let t = total_lines(s);
    let cs = spec_clamped_start(t, start_line);
    let el = spec_end_line(t, start_line, line_count);
    assert(idx.offsets@[cs] as int == idx.offsets_int()[cs]);
    if el < t {
        assert(idx.offsets@[el] as int == idx.offsets_int()[el]);
    }
}

/// A line range resolved against an index: the clamped lines and the byte
/// span that holds them.
pub struct ResolvedRange {
    /// The clamped 0-based start line.
    pub start_line: usize,
    /// How many lines the clamped range holds.
    pub lines: usize,
    /// Byte offset at which the range begins.
    pub start_byte: u64,
    /// Byte offset just past the range, or `None` when the range runs to the
    /// end of the file, whose current size the index does not fix.
    pub end_byte: Option<u64>,
}

/// Clamp a requested line range against an index and resolve its byte span.
pub fn resolve_range(idx: &LineIndex, start_line: usize, line_count: usize) -> (r: ResolvedRange)
    requires
        idx.wf(),
    ensures
        r.start_line == spec_clamped_start(idx.offsets@.len() as int, start_line as int),
        r.lines == spec_lines_read(idx.offsets@.len() as int, start_line as int, line_count as int),
        r.start_byte == idx.offsets@[r.start_line as int],
        ({
            let e = spec_end_line(idx.offsets@.len() as int, start_line as int, line_count as int);
            if e < idx.offsets@.len() {
                r.end_byte == Some(idx.offsets@[e])
            } else {
                r.end_byte is None
            }
        }),
{
    let total: usize = idx.offsets.len();
    let clamped: usize = if start_line < total {
        start_line
    } else {
        total - 1
    };
    let end_line: usize = if start_line >= total {
        clamped
    } else if line_count < total - start_line {
        start_line + line_count
    } else {
        total
    };
    let start_byte: u64 = idx.offsets[clamped];
    let end_byte: Option<u64> = if end_line < total {
        Some(idx.offsets[end_line])
    } else {
        None
    };
    ResolvedRange { start_line: clamped, lines: end_line - clamped, start_byte, end_byte }
}

/// What a read of a line range returns: the bytes of the clamped range.
pub struct RangeBytes {
    /// The bytes of the clamped line range, exactly as they stand in the file.
    pub bytes: Vec<u8>,
    /// The clamped 0-based start line.
    pub start_line: usize,
    /// How many lines were read.
    pub lines_read: usize,
}

/// Read a clamped line range out of a byte snapshot, byte-exact.
///
/// An out-of-range start yields zero lines and no bytes rather than an
/// error.  The result depends only on the snapshot and the requested range,
/// never on earlier reads.
pub fn read_lines_bytes(content: &[u8], idx: &LineIndex, start_line: usize, line_count: usize) -> (r:
    RangeBytes)
    requires
        idx.matches(content@),
    ensures
        r.start_line == spec_clamped_start(total_lines(content@), start_line as int),
        r.lines_read == spec_lines_read(total_lines(content@), start_line as int, line_count as int),
        r.bytes@ == content@.subrange(
            spec_start_byte(content@, start_line as int),
            spec_end_byte(content@, start_line as int, line_count as int),
        ),
{
    let n: usize = content.len();
    proof {
        lemma_span_bounds(idx, content@, start_line as int, line_count as int);
    }
    let resolved = resolve_range(idx, start_line, line_count);
    let start_byte: usize = resolved.start_byte as usize;
    let end_byte: usize = match resolved.end_byte {
        Some(e) => e as usize,
        None => n,
    };
    assert(start_byte as int == spec_start_byte(content@, start_line as int));
    assert(end_byte as int == spec_end_byte(content@, start_line as int, line_count as int));
    let span = slice_subrange(content, start_byte, end_byte);
    RangeBytes { bytes: slice_to_vec(span), start_line: resolved.start_line, lines_read: resolved.lines }
}

/// What decoding the bytes of a line range as text yields.
///
/// Invalid byte sequences are substituted, never rejected: this is a read
/// path for display.  The decoding is a fixed function of the bytes alone.
pub uninterp spec fn lossy_text(bytes: Seq<u8>) -> Seq<char>;

/// Relies on String::from_utf8_lossy: the decoding depends on the bytes
/// alone, substitutes the replacement character for invalid sequences, and
/// turns no bytes into no text.
#[verifier::external_body]
fn decode_lossy(bytes: &[u8]) -> (r: String)
    ensures
        r@ == lossy_text(bytes@),
        bytes@.len() == 0 ==> r@.len() == 0,
{
    String::from_utf8_lossy(bytes).into_owned()
}

/// What a read of a line range returns once decoded for display.
pub struct RangeText {
    /// The bytes of the clamped range, decoded with lossy substitution.
    pub content: String,
    /// The clamped 0-based start line.
    pub start_line: usize,
    /// How many lines were read.
    pub lines_read: usize,
}

/// Read a clamped line range out of a byte snapshot and decode it for
/// display.
pub fn read_lines(content: &[u8], idx: &LineIndex, start_line: usize, line_count: usize) -> (r:
    RangeText)
    requires
        idx.matches(content@),
    ensures
        r.start_line == spec_clamped_start(total_lines(content@), start_line as int),
        r.lines_read == spec_lines_read(total_lines(content@), start_line as int, line_count as int),
        r.content@ == lossy_text(
            content@.subrange(
                spec_start_byte(content@, start_line as int),
                spec_end_byte(content@, start_line as int, line_count as int),
            ),
        ),
{
    let raw = read_lines_bytes(content, idx, start_line, line_count);
    let text = decode_lossy(raw.bytes.as_slice());
    RangeText { content: text, start_line: raw.start_line, lines_read: raw.lines_read }
}

} // verus!
