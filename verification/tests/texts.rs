use aether_usage_policy::path::{as_segment, strip_prefix, strip_suffix, without_trailing_slashes};
use aether_usage_policy::text::{
    decimal_text, joined, numbered, order_keys, same, same_ignoring_ascii_case, trim, KeyOrder,
};
use aether_usage_policy::token_map::TokenMap;

#[test]
fn white_space_is_that_of_unicode() {
    for s in ["", " ", "a", " a b ", "\u{3000}ä\u{2003}", "\u{200b}x", "\t\r\n\u{85}\u{a0}y\u{1680}"] {
        assert_eq!(trim(s), s.trim(), "{s:?}");
    }
    for code in 0..0x11_0000_u32 {
        if let Some(c) = char::from_u32(code) {
            if c.is_whitespace() || code < 0x3100 {
                let s = c.to_string();
                assert_eq!(trim(&s).is_empty(), c.is_whitespace(), "{code:x}");
            }
        }
    }
}

#[test]
fn numbers_are_written_in_decimal_notation() {
    for n in [0, 9, 10, 99, 100, 1_234_567_890, u64::MAX] {
        assert_eq!(decimal_text(n), n.to_string());
    }
    assert_eq!(numbered("rule ", 7, " fails"), "rule 7 fails");
    assert_eq!(joined("a", "ä"), "aä");
}

#[test]
fn texts_are_compared_as_they_are_or_without_case() {
    assert!(same("aä", "aä"));
    assert!(!same("a", "A"));
    assert!(same_ignoring_ascii_case("UnLimited", "unlimited"));
    assert!(!same_ignoring_ascii_case("Ä", "ä"));
    assert!(!same_ignoring_ascii_case("a", "ab"));
}

#[test]
fn keys_are_ordered_as_strings_are() {
    let keys = ["", "a", "aa", "ab", "b", "z", "ä", "\u{ffff}", "\u{10000}"];
    for a in keys {
        for b in keys {
            let order = order_keys(a, b);
            assert_eq!(matches!(order, KeyOrder::Before), a < b, "{a:?} {b:?}");
            assert_eq!(matches!(order, KeyOrder::Same), a == b, "{a:?} {b:?}");
            assert_eq!(matches!(order, KeyOrder::After), a > b, "{a:?} {b:?}");
        }
    }
}

#[test]
fn a_map_reads_back_what_was_stored_last() {
    let mut map = TokenMap::new();
    for (key, value) in [("b", 1), ("a", 2), ("c", 3), ("b", 4)] {
        map.insert(key.to_string(), value);
    }
    assert_eq!(map.len(), 3);
    assert_eq!(map.get("b"), Some(&4));
    assert_eq!(map.get("x"), None);
    let keys: Vec<&str> = (0..map.len()).map(|at| map.key_at(at)).collect();
    assert_eq!(keys, vec!["a", "b", "c"]);
}

#[test]
fn paths_are_taken_apart() {
    assert_eq!(without_trailing_slashes("/a//"), "/a");
    assert_eq!(without_trailing_slashes("//"), "");
    assert_eq!(strip_prefix("/ä/b", "/ä"), Some("/b"));
    assert_eq!(strip_prefix("/a", "/ab"), None);
    assert_eq!(strip_suffix("a/ä", "/ä"), Some("a"));
    assert_eq!(strip_suffix("a", "ba"), None);
    assert_eq!(as_segment("ä"), Some("ä".to_string()));
    assert_eq!(as_segment(""), None);
    assert_eq!(as_segment("a/b"), None);
}
