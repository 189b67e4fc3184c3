//! Text helpers.
use mcpg_plugin_cluster_etcd::text::{
    concat2, concat3, concat4, ends_with, join, starts_with, strip_prefix, to_decimal, trim,
    trim_start,
};

#[test]
fn white_space_is_trimmed_like_the_standard_library_does() {
    for s in [
        "",
        " ",
        "\u{3000}a b\u{2028}",
        "\t x \r\n",
        "\u{200b}zero width stays\u{200b}",
        "\u{85}next line\u{a0}",
        "a",
    ] {
        assert_eq!(trim(s), s.trim());
        assert_eq!(trim_start(s), s.trim_start());
    }
}

#[test]
fn every_white_space_character_is_known() {
    for c in (0u32..0x11_0000).filter_map(char::from_u32) {
        let s = c.to_string();
        if c.is_whitespace() || c <= '\u{3fff}' {
            assert_eq!(trim(&s), s.trim(), "{c:?}");
        }
    }
}

#[test]
fn prefixes_are_told_and_cut() {
    assert!(starts_with("https://x", "https://"));
    assert!(!starts_with("http://x", "https://"));
    assert!(!starts_with("h", "https://"));
    assert!(starts_with("x", ""));
    assert_eq!(strip_prefix("/mcpg/kv/\u{e4}", "/mcpg/kv/"), Some("\u{e4}".to_owned()));
    assert_eq!(strip_prefix("/mcpg/locks/a", "/mcpg/kv/"), None);
    assert!(ends_with("/mcpg/", '/'));
    assert!(!ends_with("/mcpg", '/'));
    assert!(!ends_with("", '/'));
}

#[test]
fn numbers_are_written_in_decimal() {
    for n in [0u128, 7, 10, 19, 100, 987_654_321, u128::MAX] {
        assert_eq!(to_decimal(n), n.to_string());
    }
}

#[test]
fn pieces_are_put_together() {
    let list = |v: &[&str]| v.iter().map(|s| s.to_string()).collect::<Vec<String>>();
    assert_eq!(join(&list(&[]), ","), "");
    assert_eq!(join(&list(&["a"]), ","), "a");
    assert_eq!(join(&list(&["a", "", "c"]), ","), "a,,c");
    assert_eq!(concat2("a", "b"), "ab");
    assert_eq!(concat3("a", "", "c"), "ac");
    assert_eq!(concat4("a", "b", "c", "d"), "abcd");
}
