use line_engine::classify::has_null_byte;
use line_engine::classify::needs_indexing;
use line_engine::classify::LARGE_FILE_THRESHOLD;

#[test]
fn threshold_is_two_mebibytes() {
    assert_eq!(LARGE_FILE_THRESHOLD, 2 * 1024 * 1024);
    assert!(!needs_indexing(LARGE_FILE_THRESHOLD));
    assert!(needs_indexing(LARGE_FILE_THRESHOLD + 1));
    assert!(!needs_indexing(0));
}

#[test]
fn null_byte_detection() {
    assert!(!has_null_byte(b""));
    assert!(!has_null_byte(b"plain text\n"));
    assert!(has_null_byte(b"\x00"));
    assert!(has_null_byte(b"text with\x00inside"));
}
