use zotero_cli::text::{decimal_string, strip_html, truncate, wrap};

#[test]
fn truncate_keeps_short_text() {
    assert_eq!(truncate("hello", 5), "hello");
    assert_eq!(truncate("", 0), "");
}

#[test]
fn truncate_cuts_with_ellipsis() {
    assert_eq!(truncate("hello world", 5), "hell\u{2026}");
    assert_eq!(truncate("hello", 0), "\u{2026}");
    assert_eq!(truncate("hello", 1), "\u{2026}");
}

#[test]
fn truncate_counts_characters_not_bytes() {
    assert_eq!(truncate("\u{e9}t\u{e9}", 3), "\u{e9}t\u{e9}");
    assert_eq!(truncate("\u{e9}t\u{e9}s", 3), "\u{e9}t\u{2026}");
}

#[test]
fn truncate_is_idempotent() {
    for max in 0..8 {
        let once = truncate("a longer sentence", max);
        assert_eq!(truncate(&once, max), once);
        assert!(once.chars().count() <= max.max(1));
    }
}

#[test]
fn strip_html_removes_tags() {
    assert_eq!(strip_html("<p>Hello <b>world</b></p>"), "Hello world");
    assert_eq!(strip_html("a > b"), "a  b");
    assert_eq!(strip_html("no tags"), "no tags");
    assert_eq!(strip_html("<unclosed tag"), "");
}

#[test]
fn strip_html_is_idempotent() {
    let once = strip_html("<div>x <i>y</i> z</div>");
    assert_eq!(strip_html(&once), once);
    assert!(!once.contains('<') && !once.contains('>'));
}

#[test]
fn wrap_breaks_at_width() {
    assert_eq!(wrap("aaa bbb ccc", 7), "aaa bbb\nccc");
    assert_eq!(wrap("  one   two  ", 80), "one two");
    assert_eq!(wrap("", 10), "");
    assert_eq!(wrap("averylongword short", 4), "averylongword\nshort");
}

#[test]
fn wrap_counts_bytes() {
    // "\u{e9}\u{e9}" is four bytes long
    assert_eq!(wrap("\u{e9}\u{e9} ab", 6), "\u{e9}\u{e9}\nab");
    assert_eq!(wrap("\u{e9}\u{e9} ab", 7), "\u{e9}\u{e9} ab");
}

#[test]
fn wrap_keeps_words() {
    let text = "the quick brown fox\tjumps over\nthe lazy dog";
    let out = wrap(text, 10);
    let a: Vec<&str> = out.split_whitespace().collect();
    let b: Vec<&str> = text.split_whitespace().collect();
    assert_eq!(a, b);
}

#[test]
fn wrap_splits_on_unicode_whitespace() {
    assert_eq!(wrap("a\u{3000}b", 80), "a b");
}

#[test]
fn decimal_string_formats() {
    assert_eq!(decimal_string(0), "0");
    assert_eq!(decimal_string(7), "7");
    assert_eq!(decimal_string(1234567890), "1234567890");
    assert_eq!(decimal_string(u64::MAX), u64::MAX.to_string());
    assert_eq!(decimal_string(120).parse::<u64>().unwrap(), 120);
}
