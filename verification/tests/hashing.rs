use claude_utils::hashing::content_hash;
use claude_utils::hex::encode;
use claude_utils::paths::{ends_with, join, same_text, starts_with};

#[test]
fn hex_of_nothing_is_empty() {
    assert_eq!(encode(vec![]), "");
}

#[test]
fn hex_is_lower_case_high_nibble_first() {
    assert_eq!(encode(vec![0x00, 0x0f, 0xa5, 0xff, 0x10]), "000fa5ff10");
    assert_eq!(encode(vec![0xde, 0xad, 0xbe, 0xef]), "deadbeef");
}

#[test]
fn hex_doubles_the_length() {
    let bytes: Vec<u8> = (0..=255).collect();
    let text = encode(bytes);
    assert_eq!(text.len(), 512);
    assert!(text.starts_with("000102"));
    assert!(text.ends_with("fdfeff"));
}

#[test]
fn content_hash_of_hello() {
    assert_eq!(
        content_hash(b"hello"),
        "2cf24dba5fb0a30e26e83b2ac5b9e29e1b161e5c1fa7425e73043362938b9824"
    );
}

#[test]
fn content_hash_of_nothing() {
    assert_eq!(
        content_hash(b""),
        "e3b0c44298fc1c149afbf4c8996fb92427ae41e4649b934ca495991b7852b855"
    );
}

#[test]
fn content_hash_differs_on_one_byte() {
    assert_ne!(content_hash(b"hello"), content_hash(b"hellp"));
    assert_eq!(content_hash(b"hello"), content_hash(b"hello"));
}

#[test]
fn join_adds_one_separator() {
    assert_eq!(join("/tmp", "a.txt"), "/tmp/a.txt");
    assert_eq!(join("/tmp/", "a.txt"), "/tmp/a.txt");
    assert_eq!(join("", "a.txt"), "a.txt");
    assert_eq!(join("/", "a.txt"), "/a.txt");
    assert_eq!(join(".", "Desktop"), "./Desktop");
}

#[test]
fn join_lets_an_absolute_name_stand() {
    assert_eq!(join("/tmp", "/etc/hosts"), "/etc/hosts");
}

#[test]
fn join_agrees_with_the_standard_library() {
    let cases = [("/tmp", "a"), ("/tmp/", "a"), ("", "a"), ("rel/dir", "x.png"), ("/a", "/b")];
    for (dir, name) in cases {
        let expected = std::path::Path::new(dir).join(name);
        assert_eq!(join(dir, name), expected.to_string_lossy());
    }
}

#[test]
fn prefix_and_suffix_checks() {
    assert!(starts_with("claude_paste-1.png", "claude_paste-"));
    assert!(!starts_with("claude_paste.png", "claude_paste-"));
    assert!(!starts_with("pa", "paste"));
    assert!(starts_with("abc", ""));
    assert!(ends_with("claude_paste-1.png", ".png"));
    assert!(!ends_with("claude_paste-1.png", ".txt"));
    assert!(!ends_with("g", ".png"));
    assert!(ends_with("abc", ""));
    assert!(starts_with("h\u{e9}llo", "h\u{e9}"));
    assert!(ends_with("h\u{e9}llo", "\u{e9}llo"));
}

#[test]
fn same_text_compares_characters() {
    assert!(same_text("png", "png"));
    assert!(!same_text("png", "pnG"));
    assert!(!same_text("png", "pn"));
}
