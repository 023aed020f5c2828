//! Names.

use formawasm::ident::{has_prefix, kebab_case};

#[test]
fn capitals_start_words() {
    assert_eq!(kebab_case("MyType"), "my-type");
    assert_eq!(kebab_case("XMLParser"), "x-m-l-parser");
    assert_eq!(kebab_case("aB"), "a-b");
}

#[test]
fn separators_become_hyphens() {
    assert_eq!(kebab_case("my_helper"), "my-helper");
    assert_eq!(kebab_case("colors::Rgb"), "colors-rgb");
    assert_eq!(kebab_case("a__b"), "a-b");
    assert_eq!(kebab_case("__private"), "private");
    assert_eq!(kebab_case("tail_"), "tail-");
}

#[test]
fn other_characters_stay() {
    assert_eq!(kebab_case(""), "");
    assert_eq!(kebab_case("x1-y2"), "x1-y2");
    assert_eq!(kebab_case("\u{c4}b"), "\u{c4}b");
}

#[test]
fn rewriting_twice_is_rewriting_once() {
    for name in ["MyType", "my_helper", "colors::Rgb", "__A", "x", "tail_"] {
        let once = kebab_case(name);
        assert_eq!(kebab_case(&once), once);
        assert!(!once.contains('_') && !once.contains(':'));
        assert!(!once.chars().any(|c| c.is_ascii_uppercase()));
        assert!(!once.starts_with('-') && !once.contains("--"));
    }
}

#[test]
fn prefixes_are_found() {
    assert!(has_prefix("__closure0", "__closure"));
    assert!(has_prefix("x", ""));
    assert!(!has_prefix("_x", "__"));
    assert!(!has_prefix("", "a"));
}
