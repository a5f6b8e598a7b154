//! The decisions the file classifier takes before the engine runs: whether
//! a file looks binary and whether it is large enough to be served through
//! the line index instead of being returned whole.

use vstd::prelude::*;

verus! {

/// Files larger than this are not returned whole: the caller indexes them
/// and reads line ranges instead.
pub const LARGE_FILE_THRESHOLD: u64 = 2 * 1024 * 1024;

/// Whether a file of `size` bytes must be served through the line index.
pub fn needs_indexing(size: u64) -> (r: bool)
    ensures
        r == (size > LARGE_FILE_THRESHOLD),
{
    size > LARGE_FILE_THRESHOLD
}

/// Whether the sniffed head of a file holds a null byte, the magic-byte
/// test for binary content.
pub fn has_null_byte(head: &[u8]) -> (r: bool)
    ensures
        r == head@.contains(0u8),
{
    let n: usize = head.len();
    let mut i: usize = 0;
    while i < n
        invariant
            i <= n == head@.len(),
            forall|m: int| 0 <= m < i ==> head@[m] != 0u8,
        decreases n - i,
    {
        if head[i] == 0u8 {
            assert(head@.contains(0u8));
            return true;
        }
        i = i + 1;
    }
    assert(!head@.contains(0u8));
    false
}

} // verus!
