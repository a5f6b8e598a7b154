//! The range patcher: splice replacement bytes over a clamped line range and
//! re-derive the line index for the new contents.
//!
//! The splice never touches its input: it produces the full byte image that
//! the caller then writes to a sibling temporary file and renames over the
//! original path, so that a failure before the rename leaves the original
//! file untouched.

use vstd::prelude::*;
use crate::index::LineIndex;
use crate::index::build_index;
use crate::index::total_lines;
use crate::range::ResolvedRange;
use crate::range::resolve_range;
use crate::range::spec_end_byte;
use crate::range::spec_start_byte;

verus! {

/// The spliced image: `content` with the bytes of `[start_byte, end_byte)`
/// replaced by `new_content`.
pub open spec fn spec_splice(
    content: Seq<u8>,
    start_byte: int,
    end_byte: int,
    new_content: Seq<u8>,
) -> Seq<u8> {
    content.subrange(0, start_byte) + new_content + content.subrange(
        end_byte,
        content.len() as int,
    )
}

/// Replace the byte span `[start_byte, end_byte)` of `content` with
/// `new_content`, building the new image chunk by chunk: the bytes before
/// the span verbatim, then the replacement, then the bytes after the span
/// verbatim.
pub fn patch_bytes(content: &[u8], start_byte: usize, end_byte: usize, new_content: &[u8]) -> (out:
    Vec<u8>)
    requires
        start_byte <= end_byte <= content@.len(),
        content@.len() - (end_byte - start_byte) + new_content@.len() <= usize::MAX,
    ensures
        out@ == spec_splice(content@, start_byte as int, end_byte as int, new_content@),
{
    let mut out: Vec<u8> = Vec::new();
    let mut i: usize = 0;
    while i < start_byte
        invariant
            i <= start_byte <= content@.len(),
            out@ == content@.subrange(0, i as int),
        decreases start_byte - i,
    {
        out.push(content[i]);
        i = i + 1;
        assert(out@ =~= content@.subrange(0, i as int));
    }
    let mut j: usize = 0;
    while j < new_content.len()
        invariant
            j <= new_content@.len(),
            out@ == content@.subrange(0, start_byte as int) + new_content@.subrange(0, j as int),
        decreases new_content@.len() - j,
    {
        out.push(new_content[j]);
        j = j + 1;
        assert(out@ =~= content@.subrange(0, start_byte as int) + new_content@.subrange(
            0,
            j as int,
        ));
    }
    assert(new_content@.subrange(0, new_content@.len() as int) =~= new_content@);
    let mut k: usize = end_byte;
    while k < content.len()
        invariant
            end_byte <= k <= content@.len(),
            out@ == content@.subrange(0, start_byte as int) + new_content@ + content@.subrange(
                end_byte as int,
                k as int,
            ),
        decreases content@.len() - k,
    {
        out.push(content[k]);
        k = k + 1;
        assert(out@ =~= content@.subrange(0, start_byte as int) + new_content@
            + content@.subrange(end_byte as int, k as int));
    }
    assert(out@ =~= spec_splice(content@, start_byte as int, end_byte as int, new_content@));
    out
}

/// What a patch returns: the new byte image, its fresh line index, and the
/// figures the caller reports.
pub struct PatchResult {
    /// The complete post-patch byte image of the file.
    pub content: Vec<u8>,
    /// A fresh line index, re-derived from the post-patch image.
    pub index: LineIndex,
    /// Number of logical lines of the post-patch image.
    pub total_lines: usize,
    /// Size in bytes of the post-patch image.
    pub file_size: u64,
}

/// Replace a clamped line range of a byte snapshot with new content and
/// re-index the result.
///
/// The line range is clamped exactly as the range reader clamps it; an
/// out-of-range start selects an empty span, so the patch then inserts
/// `new_content` before the last line start and removes nothing.  The
/// returned index is re-derived from the returned image by the same single
/// pass the indexer uses, never adjusted incrementally.
pub fn patch_lines(
    content: &[u8],
    idx: &LineIndex,
    start_line: usize,
    original_line_count: usize,
    new_content: &[u8],
) -> (r: PatchResult)
    requires
        idx.matches(content@),
        content@.len() - (spec_end_byte(content@, start_line as int, original_line_count as int)
            - spec_start_byte(content@, start_line as int)) + new_content@.len() <= usize::MAX,
    ensures
        r.content@ == spec_splice(
            content@,
            spec_start_byte(content@, start_line as int),
            spec_end_byte(content@, start_line as int, original_line_count as int),
            new_content@,
        ),
        r.index.matches(r.content@),
        r.total_lines == total_lines(r.content@),
        r.file_size == r.content@.len(),
{
    let n: usize = content.len();
    proof {
        crate::range::lemma_span_bounds(
            idx,
            content@,
            start_line as int,
            original_line_count as int,
        );
    }
    let resolved: ResolvedRange = resolve_range(idx, start_line, original_line_count);
    let start_byte: usize = resolved.start_byte as usize;
    let end_byte: usize = match resolved.end_byte {
        Some(e) => e as usize,
        None => n,
    };
    let patched = patch_bytes(content, start_byte, end_byte, new_content);
    let new_index = build_index(patched.as_slice());
    proof {
        new_index.lemma_matches_implies_wf(patched@);
    }
    let lines: usize = new_index.offsets.len();
    let size: u64 = new_index.file_size;
    PatchResult { content: patched, index: new_index, total_lines: lines, file_size: size }
}

/// The post-patch image still fits in memory: what the splice keeps plus the
/// replacement is no longer than a byte buffer can be.
pub open spec fn spec_patch_fits(
    content: Seq<u8>,
    start_line: int,
    line_count: int,
    new_content: Seq<u8>,
) -> bool {
    content.len() - (spec_end_byte(content, start_line, line_count) - spec_start_byte(
        content,
        start_line,
    )) + new_content.len() <= usize::MAX
}

/// Patch a line range after checking at run time that the given index really
/// describes the snapshot and that the result fits in memory.
///
/// This is the entry for callers whose index nothing vouches for (it was
/// cached while the file could change underneath).  It succeeds exactly when
/// the index matches the snapshot and the patched image fits; on success it
/// returns what [`patch_lines`] returns.
pub fn patch_lines_checked(
    content: &[u8],
    idx: &LineIndex,
    start_line: usize,
    original_line_count: usize,
    new_content: &[u8],
) -> (r: Option<PatchResult>)
    ensures
        r is Some <==> idx.matches(content@) && spec_patch_fits(
            content@,
            start_line as int,
            original_line_count as int,
            new_content@,
        ),
        match r {
            Some(p) => {
                &&& p.content@ == spec_splice(
                    content@,
                    spec_start_byte(content@, start_line as int),
                    spec_end_byte(content@, start_line as int, original_line_count as int),
                    new_content@,
                )
                &&& p.index.matches(p.content@)
                &&& p.total_lines == total_lines(p.content@)
                &&& p.file_size == p.content@.len()
            },
            None => true,
        },
{
    let fresh = build_index(content);
    let same_size = idx.file_size == fresh.file_size;
    let same_offsets = idx.offsets == fresh.offsets;
    if !(same_size && same_offsets) {
        proof {
            if idx.matches(content@) {
                crate::laws::lemma_index_determined(content@, *idx, fresh);
                assert(same_offsets);
            }
        }
        return None;
    }
    proof {
        assert(idx.offsets@ =~= fresh.offsets@);
        assert(idx.offsets_int() =~= fresh.offsets_int());
        assert(idx.matches(content@));
    }
    let n: usize = content.len();
    proof {
        crate::range::lemma_span_bounds(
            idx,
            content@,
            start_line as int,
            original_line_count as int,
        );
    }
    let resolved: ResolvedRange = resolve_range(idx, start_line, original_line_count);
    let start_byte: usize = resolved.start_byte as usize;
    let end_byte: usize = match resolved.end_byte {
        Some(e) => e as usize,
        None => n,
    };
    let kept: usize = n - (end_byte - start_byte);
    if new_content.len() > usize::MAX - kept {
        return None;
    }
    Some(patch_lines(content, idx, start_line, original_line_count, new_content))
}

} // verus!
