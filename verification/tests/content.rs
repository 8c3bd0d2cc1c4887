use dir2prompt::content::{
    bytes_to_text, classification_from, classify, load, looks_binary, read_limit, Classification,
    ReadError, BINARY_WINDOW, LOSSY_NOTE,
};

#[test]
fn short_content_is_kept_whole() {
    let loaded = load(b"hello".to_vec(), 10);
    assert_eq!(loaded.bytes, b"hello".to_vec());
    assert!(!loaded.truncated);
}

#[test]
fn content_of_exactly_the_cap_is_kept_whole() {
    let loaded = load(b"hello".to_vec(), 5);
    assert_eq!(loaded.bytes, b"hello".to_vec());
    assert!(!loaded.truncated);
}

#[test]
fn empty_content_is_kept_whole() {
    let loaded = load(Vec::new(), 0);
    assert!(loaded.bytes.is_empty());
    assert!(!loaded.truncated);
}

#[test]
fn long_content_is_cut_at_the_cap() {
    let loaded = load(b"hello world".to_vec(), 5);
    assert_eq!(loaded.bytes, b"hello".to_vec());
    assert!(loaded.truncated);
}

#[test]
fn one_byte_over_the_cap_is_truncated() {
    let max_bytes = 200_000usize;
    let loaded = load(vec![b'a'; max_bytes + 1], max_bytes);
    assert_eq!(loaded.bytes.len(), max_bytes);
    assert!(loaded.truncated);
}

#[test]
fn zero_cap_keeps_nothing_of_content() {
    let loaded = load(b"x".to_vec(), 0);
    assert!(loaded.bytes.is_empty());
    assert!(loaded.truncated);
}

#[test]
fn read_limit_is_one_more_than_the_cap() {
    assert_eq!(read_limit(0), 1);
    assert_eq!(read_limit(200_000), 200_001);
    assert_eq!(read_limit(usize::MAX), (usize::MAX as u64).saturating_add(1));
}

#[test]
fn nul_byte_makes_content_binary() {
    assert!(looks_binary(b"abc\0def"));
    assert!(looks_binary(b"\0"));
    assert!(!looks_binary(b"plain text"));
    assert!(!looks_binary(b""));
}

#[test]
fn binary_window_is_eight_kib() {
    assert_eq!(BINARY_WINDOW, 8 * 1024);
    let mut inside = vec![b'a'; 9000];
    inside[8191] = 0;
    assert!(looks_binary(&inside));
    let mut outside = vec![b'a'; 9000];
    outside[8192] = 0;
    assert!(!looks_binary(&outside));
}

#[test]
fn nul_among_valid_utf8_is_binary() {
    let mut bytes = "valid UTF-8 before: h\u{e9}llo ".as_bytes().to_vec();
    bytes.push(0);
    bytes.extend_from_slice("and valid UTF-8 after".as_bytes());
    assert!(std::str::from_utf8(&bytes).is_ok());
    assert!(matches!(classify(&bytes, false), Classification::Binary));
    assert!(matches!(classify(&bytes, true), Classification::Binary));
}

#[test]
fn nul_beyond_the_window_is_not_looked_for() {
    let mut bytes = vec![b'a'; 10_000];
    bytes[9_000] = 0;
    match classify(&bytes, true) {
        Classification::Text { content, note } => {
            assert_eq!(content.len(), 10_000);
            assert_eq!(note, None);
        }
        other => panic!("{:?}", other),
    }
}

#[test]
fn valid_utf8_decodes_without_note() {
    let (text, note) = bytes_to_text("h\u{e9}llo \u{4e16}\u{754c}".as_bytes(), false);
    assert_eq!(text.as_deref(), Some("h\u{e9}llo \u{4e16}\u{754c}"));
    assert_eq!(note, None);
    let (text, note) = bytes_to_text(b"", true);
    assert_eq!(text.as_deref(), Some(""));
    assert_eq!(note, None);
}

#[test]
fn invalid_utf8_is_refused_in_strict_mode() {
    let (text, note) = bytes_to_text(b"fo\xffo", true);
    assert_eq!(text, None);
    assert_eq!(note, None);
}

#[test]
fn invalid_utf8_is_replaced_otherwise() {
    let (text, note) = bytes_to_text(b"fo\xffo", false);
    assert_eq!(text.as_deref(), Some("fo\u{fffd}o"));
    assert_eq!(note, Some(LOSSY_NOTE));
    assert_eq!(LOSSY_NOTE, "note: contained invalid UTF-8; printed with lossless replacement");
}

#[test]
fn classify_text_and_unreadable() {
    match classify(b"fn main() {}\n", true) {
        Classification::Text { content, note } => {
            assert_eq!(content, "fn main() {}\n");
            assert_eq!(note, None);
        }
        other => panic!("{:?}", other),
    }
    assert!(matches!(classify(b"\xc3\x28", true), Classification::UnreadableUtf8));
    match classify(b"\xc3\x28", false) {
        Classification::Text { content, note } => {
            assert_eq!(content, "\u{fffd}(");
            assert_eq!(note, Some(LOSSY_NOTE));
        }
        other => panic!("{:?}", other),
    }
}

#[test]
fn classification_from_parts() {
    assert!(matches!(
        classification_from(true, Some(String::from("x")), None),
        Classification::Binary
    ));
    assert!(matches!(classification_from(false, None, None), Classification::UnreadableUtf8));
    match classification_from(false, Some(String::from("x")), Some(LOSSY_NOTE)) {
        Classification::Text { content, note } => {
            assert_eq!(content, "x");
            assert_eq!(note, Some(LOSSY_NOTE));
        }
        other => panic!("{:?}", other),
    }
}

#[test]
fn read_error_carries_path_and_cause() {
    let e = ReadError::new("/repo/a.txt", "Permission denied (os error 13)");
    assert_eq!(e.path, "/repo/a.txt");
    assert_eq!(e.cause, "Permission denied (os error 13)");
}
