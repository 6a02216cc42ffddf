//! Text primitives and the map keyed by text.
use lumen::strmap::StrMap;
use lumen::text::{
    hex16, joined, push_decimal, push_padded, replace_all, replace_first, starts_with, trim,
    trim_end_slashes,
};

#[test]
fn numbers_are_rendered() {
    let mut s = String::new();
    push_decimal(&mut s, 0);
    push_decimal(&mut s, 18_446_744_073_709_551_615);
    assert_eq!(s, "018446744073709551615");
    let mut s = String::new();
    push_padded(&mut s, -7, 4);
    push_padded(&mut s, 12345, 4);
    assert_eq!(s, "-00712345");
    assert_eq!(hex16(0xdead_beef), "00000000deadbeef");
    assert_eq!(hex16(u64::MAX), "ffffffffffffffff");
}

#[test]
fn texts_are_trimmed_and_replaced() {
    assert_eq!(trim_end_slashes("a//b//"), "a//b");
    assert_eq!(trim_end_slashes("///"), "");
    assert_eq!(trim(" \t a b \u{2003}\n"), "a b");
    assert_eq!(trim("\u{3000}"), "");
    assert_eq!(trim("\u{200b}x"), "\u{200b}x");
    assert_eq!(replace_first("aXbXc", "X", "-"), "a-bXc");
    assert_eq!(replace_all("aXbXc", "X", "--"), "a--b--c");
    assert!(starts_with("turns:x", "turn"));
    assert!(!starts_with("tu", "turn"));
    assert_eq!(joined("a", "b"), "ab");
}

#[test]
fn map_remembers_the_order() {
    let mut m: StrMap<u32> = StrMap::new();
    m.insert("b".into(), 1);
    m.insert("a".into(), 2);
    m.insert("b".into(), 3);
    assert_eq!(m.entries, vec![("b".to_string(), 3), ("a".to_string(), 2)]);
    assert_eq!(m.get("a"), Some(&2));
    if let Some(v) = m.get_mut("a") {
        *v = 9;
    }
    assert_eq!(m.remove("a"), Some(9));
    assert_eq!(m.remove("a"), None);
    assert!(m.contains("b"));
    m.clear();
    assert!(!m.contains("b"));
}
