//! Tests for the telemetry value types and the download request record.

use bookmarks_movement::download::DownloadParams;
use bookmarks_movement::telemetry::{is_default, BlockedOp, NetworkOp, ShortList};

#[test]
fn short_list_renders_complete_lists() {
    let list = ShortList::new(vec!["a".to_string(), "b".to_string()], 2);
    assert_eq!(list.describe(), "[\"a\", \"b\"]");

    let empty = ShortList::new(vec![], 0);
    assert_eq!(empty.describe(), "[]");

    let single = ShortList::new(vec!["only".to_string()], 1);
    assert_eq!(single.describe(), "[\"only\"]");

    // More entries than the recorded length still renders as complete.
    let overfull = ShortList::new(vec!["a".to_string(), "b".to_string()], 1);
    assert_eq!(overfull.describe(), "[\"a\", \"b\"]");
}

#[test]
fn short_list_renders_truncation() {
    let list = ShortList::new(vec!["x".to_string()], 5);
    assert_eq!(list.describe(), "[\"x\"] and 4 entries");

    let many = ShortList::new(vec!["a".to_string(), "b".to_string()], 105);
    assert_eq!(many.describe(), "[\"a\", \"b\"] and 103 entries");

    let huge = ShortList::new(vec![], usize::MAX);
    assert_eq!(
        huge.describe(),
        format!("[] and {} entries", usize::MAX)
    );
}

#[test]
fn short_list_escapes_quotes_and_backslashes() {
    let list = ShortList::new(vec!["a\"b".to_string(), "c\\d".to_string()], 2);
    assert_eq!(list.describe(), "[\"a\\\"b\", \"c\\\\d\"]");
}

#[test]
fn short_list_equality_and_default() {
    let a = ShortList::new(vec!["a".to_string()], 3);
    let b = ShortList::new(vec!["a".to_string()], 3);
    let c = ShortList::new(vec!["a".to_string()], 4);
    assert_eq!(a, b);
    assert_ne!(a, c);

    assert!(is_default(&ShortList::default()));
    assert!(!is_default(&a));
}

#[test]
fn is_default_on_plain_values() {
    assert!(is_default(&0u64));
    assert!(!is_default(&5u64));
    assert!(is_default(&false));
    assert!(!is_default(&true));
    assert!(is_default(&String::new()));
    assert!(!is_default(&"x".to_string()));
}

#[test]
fn operation_tags_compare() {
    assert_eq!(NetworkOp::HttpGetFiles, NetworkOp::HttpGetFiles);
    assert_ne!(NetworkOp::HttpGetFiles, NetworkOp::SshGetFiles);
    assert_eq!(BlockedOp::Editor, BlockedOp::Editor);
    assert_ne!(BlockedOp::Editor, BlockedOp::Pager);
}

#[test]
fn content_id_parses_exactly_sixty_four_hex_digits() {
    let mut id = String::new();
    for _ in 0..62 {
        id.push('0');
    }
    id.push('f');
    id.push('f');
    let params = DownloadParams::new("repo".to_string(), id);
    assert_eq!(params.repository(), "repo");

    let bytes = params.parse_content_id().expect("valid id");
    assert_eq!(bytes.len(), 32);
    for byte in bytes.iter().take(31) {
        assert_eq!(*byte, 0);
    }
    assert_eq!(bytes[31], 0xff);
}

#[test]
fn content_id_parsing_covers_both_cases_and_rejects() {
    let mixed = "aAbBcCdDeEfF0123456789aAbBcCdDeEfF0123456789aAbBcCdDeEfF01234567";
    assert_eq!(mixed.len(), 64);
    let params = DownloadParams::new("repo".to_string(), mixed.to_string());
    let bytes = params.parse_content_id().expect("valid id");
    assert_eq!(bytes[0], 0xaa);
    assert_eq!(bytes[1], 0xbb);
    assert_eq!(bytes[5], 0xff);
    assert_eq!(bytes[6], 0x01);

    let short = DownloadParams::new("repo".to_string(), "abc".to_string());
    assert!(short.parse_content_id().is_none());

    let mut bad = String::new();
    for _ in 0..63 {
        bad.push('0');
    }
    bad.push('g');
    let invalid = DownloadParams::new("repo".to_string(), bad);
    assert!(invalid.parse_content_id().is_none());
}
