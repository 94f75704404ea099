use mcpg_plugin_backend_soap::string_map::StringMap;
use mcpg_plugin_backend_soap::text::{
    contains, eq_ignore_ascii_case, parse_u64, same_text, starts_with, to_ascii_lowercase,
    to_decimal, trim,
};

#[test]
fn trims_as_the_standard_library_does() {
    for s in [
        "",
        " ",
        "a",
        " a b\t",
        "\u{2003}x\u{feff}\u{85}",
        "\u{1680}\u{180e}\u{1680}",
        "\u{200b} é \r\n",
    ] {
        assert_eq!(trim(s), s.trim());
    }
}

#[test]
fn every_white_space_character_is_trimmed() {
    for u in 0..=0x3100u32 {
        if let Some(c) = char::from_u32(u) {
            let s = c.to_string();
            assert_eq!(trim(&s).is_empty(), c.is_whitespace(), "{:x}", u);
        }
    }
}

#[test]
fn searches_and_folds() {
    assert!(contains("abcabd", "abd"));
    assert!(!contains("abcab", "abd"));
    assert!(contains("x", ""));
    assert!(!contains("", "x"));
    assert!(starts_with("http://x", "http://"));
    assert!(!starts_with("https://x", "http://"));
    assert!(!starts_with("h", "http://"));
    assert_eq!(to_ascii_lowercase("AzÄ[`"), "azÄ[`");
    assert!(eq_ignore_ascii_case("MCPG-Tool-Name", "mcpg-tool-name"));
    assert!(!eq_ignore_ascii_case("ä", "Ä"));
    assert!(same_text("ä", "ä"));
    assert!(!same_text("a", "ab"));
}

#[test]
fn reads_and_writes_numbers() {
    for n in [0u128, 9, 10, 65535, u64::MAX as u128, u128::MAX] {
        assert_eq!(to_decimal(n), n.to_string());
    }
    for s in [
        "0",
        "007",
        "+5",
        "+",
        "",
        "-0",
        "5s",
        " 5",
        "18446744073709551615",
        "18446744073709551616",
        "99999999999999999999999",
    ] {
        assert_eq!(parse_u64(s), s.parse::<u64>().ok(), "{}", s);
    }
}

#[test]
fn maps_keep_key_order() {
    let mut map = StringMap::new();
    for (k, v) in [("b", 1), ("a", 2), ("ab", 3), ("é", 4), ("b", 5), ("", 6)] {
        map.insert(k.to_owned(), v);
    }
    assert_eq!(map.len(), 5);
    let keys: Vec<&str> = (0..map.len()).map(|i| map.entry(i).0.as_str()).collect();
    assert_eq!(keys, vec!["", "a", "ab", "b", "é"]);
    assert_eq!(map.get("b"), Some(&5));
    assert_eq!(map.get("c"), None);
    assert_eq!(map.remove("a"), Some(2));
    assert_eq!(map.remove("a"), None);
    assert_eq!(map.get("a"), None);
    assert_eq!(map.len(), 4);
}
