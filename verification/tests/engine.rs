use line_engine::cache::IndexCache;
use line_engine::index::build_index;
use line_engine::index::IndexBuilder;
use line_engine::index::LineIndex;
use line_engine::patch::patch_lines;
use line_engine::patch::patch_lines_checked;
use line_engine::range::read_lines;
use line_engine::range::read_lines_bytes;
use line_engine::range::resolve_range;

#[test]
fn example_scenario_index() {
    let content = b"a\nbb\nccc\n";
    assert_eq!(content.len(), 9);
    let idx = build_index(content);
    assert_eq!(idx.offsets, vec![0, 2, 5, 9]);
    assert_eq!(idx.offsets.len(), 4);
    assert_eq!(idx.file_size, 9);
}

#[test]
fn example_scenario_read() {
    let content = b"a\nbb\nccc\n";
    let idx = build_index(content);
    let r = read_lines(content, &idx, 1, 2);
    assert_eq!(r.content, "bb\nccc\n");
    assert_eq!(r.start_line, 1);
    assert_eq!(r.lines_read, 2);
}

#[test]
fn example_scenario_patch() {
    let content = b"a\nbb\nccc\n";
    let idx = build_index(content);
    let r = patch_lines(content, &idx, 1, 1, b"XY\n");
    assert_eq!(r.content, b"a\nXY\nccc\n");
    assert_eq!(r.index.offsets, vec![0, 2, 5, 9]);
    assert_eq!(r.total_lines, 4);
    assert_eq!(r.file_size, 9);
    // Indexing the patched image from scratch reports the same figures.
    let again = build_index(&r.content);
    assert_eq!(again.offsets, r.index.offsets);
    assert_eq!(again.file_size, r.file_size);
    assert_eq!(again.offsets.len(), r.total_lines);
}

#[test]
fn builder_agrees_with_one_shot_indexer() {
    // The streaming scan, fed the terminator-split segments of the file,
    // yields the same index as the one-shot scan of the full snapshot.
    let mut builder = IndexBuilder::new(9);
    builder.push_segment(b"a");
    builder.push_segment(b"bb");
    builder.push_segment(b"ccc");
    assert_eq!(builder.bytes_fed(), 9);
    let idx = builder.finish();
    let whole = build_index(b"a\nbb\nccc\n");
    assert_eq!(idx.offsets, whole.offsets);
    assert_eq!(idx.file_size, whole.file_size);
}

#[test]
fn builder_drops_fictitious_final_terminator() {
    // An unterminated last segment accounts one byte past the file size;
    // that position contributes no offset.
    let mut builder = IndexBuilder::new(4);
    builder.push_segment(b"a");
    builder.push_segment(b"bb");
    assert_eq!(builder.bytes_fed(), 5);
    let idx = builder.finish();
    assert_eq!(idx.offsets, vec![0, 2]);
    assert_eq!(idx.file_size, 4);
}

#[test]
fn builder_empty_file() {
    let builder = IndexBuilder::new(0);
    assert_eq!(builder.bytes_fed(), 0);
    let idx = builder.finish();
    assert_eq!(idx.offsets, vec![0]);
    assert_eq!(idx.file_size, 0);
}

#[test]
fn round_trip_full_range() {
    let content = b"first line\nsecond\n\nlast without newline";
    let idx = build_index(content);
    let total = idx.offsets.len();
    let r = read_lines(content, &idx, 0, total);
    assert_eq!(r.content.as_bytes(), content);
    assert_eq!(r.start_line, 0);
    assert_eq!(r.lines_read, total);
}

#[test]
fn clamping_past_end_reads_nothing() {
    let content = b"a\nbb\nccc\n";
    let idx = build_index(content);
    let total = idx.offsets.len();
    let r = read_lines(content, &idx, total + 100, 5);
    assert_eq!(r.lines_read, 0);
    assert_eq!(r.content, "");
    assert_eq!(r.start_line, total - 1);
}

#[test]
fn empty_file() {
    let content = b"";
    let idx = build_index(content);
    assert_eq!(idx.offsets.len(), 1);
    assert_eq!(idx.offsets, vec![0]);
    assert_eq!(idx.file_size, 0);
    let r = read_lines(content, &idx, 0, 1);
    assert_eq!(r.content, "");
    assert_eq!(r.lines_read, 1);
    assert_eq!(r.start_line, 0);
}

#[test]
fn last_line_extends_to_end_of_file() {
    let content = b"a\ntail with no terminator";
    let idx = build_index(content);
    assert_eq!(idx.offsets, vec![0, 2]);
    let r = read_lines(content, &idx, 1, 1);
    assert_eq!(r.content, "tail with no terminator");
    assert_eq!(r.lines_read, 1);
    let resolved = resolve_range(&idx, 1, 1);
    assert_eq!(resolved.end_byte, None);
}

#[test]
fn resolve_range_bounded_end() {
    let content = b"a\nbb\nccc\n";
    let idx = build_index(content);
    let resolved = resolve_range(&idx, 0, 2);
    assert_eq!(resolved.start_line, 0);
    assert_eq!(resolved.lines, 2);
    assert_eq!(resolved.start_byte, 0);
    assert_eq!(resolved.end_byte, Some(5));
}

#[test]
fn read_lines_bytes_is_byte_exact() {
    let content = b"a\nbb\nccc\n";
    let idx = build_index(content);
    let r = read_lines_bytes(content, &idx, 2, 1);
    assert_eq!(r.bytes, b"ccc\n");
    assert_eq!(r.start_line, 2);
    assert_eq!(r.lines_read, 1);
}

#[test]
fn lossy_decode_substitutes_invalid_bytes() {
    let content = b"ok\n\xff\xfe\n";
    let idx = build_index(content);
    let r = read_lines(content, &idx, 1, 1);
    assert_eq!(r.content, "\u{FFFD}\u{FFFD}\n");
    assert_eq!(r.lines_read, 1);
}

#[test]
fn patch_grows_and_shifts_offsets() {
    let content = b"a\nbb\nccc\n";
    let idx = build_index(content);
    let r = patch_lines(content, &idx, 0, 1, b"longer first line\n");
    assert_eq!(r.content, b"longer first line\nbb\nccc\n");
    assert_eq!(r.index.offsets, vec![0, 18, 21, 25]);
    assert_eq!(r.total_lines, 4);
    assert_eq!(r.file_size, 25);
}

#[test]
fn patch_removes_lines() {
    let content = b"a\nbb\nccc\n";
    let idx = build_index(content);
    let r = patch_lines(content, &idx, 0, 2, b"");
    assert_eq!(r.content, b"ccc\n");
    assert_eq!(r.index.offsets, vec![0, 4]);
    assert_eq!(r.total_lines, 2);
}

#[test]
fn patch_through_last_line() {
    let content = b"a\nbb\ntail";
    let idx = build_index(content);
    let r = patch_lines(content, &idx, 1, 5, b"rest\n");
    assert_eq!(r.content, b"a\nrest\n");
    assert_eq!(r.total_lines, 3);
}

#[test]
fn patch_past_end_inserts_at_last_line_start() {
    let content = b"a\nbb\n";
    let idx = build_index(content);
    let total = idx.offsets.len();
    let r = patch_lines(content, &idx, total + 7, 3, b"x\n");
    assert_eq!(r.content, b"a\nbb\nx\n");
}

#[test]
fn patch_leaves_original_snapshot_untouched() {
    // The splice never mutates its input: as long as the caller has not yet
    // renamed the new image over the path, the original bytes stand.
    let content = b"a\nbb\nccc\n".to_vec();
    let idx = build_index(&content);
    let r = patch_lines(&content, &idx, 1, 1, b"XY\n");
    assert_ne!(r.content, content);
    assert_eq!(content, b"a\nbb\nccc\n");
}

#[test]
fn checked_patch_accepts_matching_index() {
    let content = b"a\nbb\nccc\n";
    let idx = build_index(content);
    let r = patch_lines_checked(content, &idx, 1, 1, b"XY\n")
        .expect("the index was built from this very snapshot");
    assert_eq!(r.content, b"a\nXY\nccc\n");
    assert_eq!(r.total_lines, 4);
}

#[test]
fn checked_patch_rejects_stale_index() {
    // An index cached for an earlier state of the file no longer describes
    // the bytes on disk; the checked patch refuses to splice with it.
    let idx = build_index(b"a\nbb\nccc\n");
    let changed = b"completely different now";
    assert!(patch_lines_checked(changed, &idx, 1, 1, b"XY\n").is_none());
}

#[test]
fn well_formedness_check() {
    assert!(build_index(b"a\nbb\nccc\n").check_wf());
    assert!(build_index(b"").check_wf());
    let corrupt = LineIndex { offsets: vec![0, 5, 3], file_size: 9 };
    assert!(!corrupt.check_wf());
    let past_end = LineIndex { offsets: vec![0, 12], file_size: 9 };
    assert!(!past_end.check_wf());
    let no_zero = LineIndex { offsets: vec![1, 3], file_size: 9 };
    assert!(!no_zero.check_wf());
    let empty = LineIndex { offsets: vec![], file_size: 0 };
    assert!(!empty.check_wf());
}

#[test]
fn cache_get_and_put() {
    let mut cache = IndexCache::new();
    let path = String::from("/tmp/a.txt");
    assert!(cache.get(&path).is_none());
    let idx = build_index(b"a\nbb\nccc\n");
    cache.put(path.clone(), idx);
    let got = cache.get(&path).expect("entry was just cached");
    assert_eq!(got.offsets, vec![0, 2, 5, 9]);
    assert_eq!(got.file_size, 9);
    assert!(cache.get(&String::from("/tmp/other.txt")).is_none());
}

#[test]
fn cache_put_replaces() {
    let mut cache = IndexCache::new();
    let path = String::from("/tmp/a.txt");
    cache.put(path.clone(), build_index(b"a\nbb\nccc\n"));
    cache.put(path.clone(), build_index(b"x\n"));
    let got = cache.get(&path).expect("entry was just cached");
    assert_eq!(got.offsets, vec![0, 2]);
    assert_eq!(got.file_size, 2);
}

#[test]
fn cache_holds_many_paths() {
    let mut cache = IndexCache::new();
    for i in 0..10 {
        let path = format!("/tmp/file{}.txt", i);
        let body = format!("{}\n", i);
        cache.put(path, build_index(body.as_bytes()));
    }
    for i in 0..10 {
        let path = format!("/tmp/file{}.txt", i);
        let got = cache.get(&path).expect("every path was cached");
        assert_eq!(got.file_size, 2);
    }
}
