use pgrx_bindgen::ordered::OrderedMap;
use pgrx_bindgen::text::{
    chars_of, comes_before, contains, decimal, ends_with, join, replace, same_text, signed_decimal,
    text_of, trim, without_prefix,
};

#[test]
fn characters_and_back() {
    let v = chars_of("añb");
    assert_eq!(v, vec!['a', 'ñ', 'b']);
    assert_eq!(text_of(&v, 1, 3), "ñb");
    assert_eq!(text_of(&v, 2, 2), "");
}

#[test]
fn searching() {
    assert!(contains("abcabd", "abd"));
    assert!(contains("abc", ""));
    assert!(contains("", ""));
    assert!(!contains("", "a"));
    assert!(!contains("abcab", "abd"));
    assert!(ends_with("BOOLOID", "OID"));
    assert!(!ends_with("OIDS", "OID"));
    assert!(same_text("ü", "ü"));
    assert!(!same_text("u", "ü"));
}

#[test]
fn order_is_that_of_strings() {
    let names = ["", "A", "AB", "B", "a", "aZ", "b", "é", "\u{ffff}", "\u{10000}"];
    for a in names {
        for b in names {
            assert_eq!(comes_before(a, b), a < b);
        }
    }
}

#[test]
fn trimming_is_that_of_strings() {
    for s in ["", "  ", " a b ", "\u{a0}x\u{3000}", "\t\n\r\u{b}\u{c}x", "\u{200b}x", "\u{85}\u{2028}y\u{2029}"] {
        assert_eq!(trim(s), s.trim());
    }
    for n in 0..0x3100u32 {
        if let Some(c) = char::from_u32(n) {
            let s = c.to_string();
            assert_eq!(trim(&s), s.trim());
        }
    }
}

#[test]
fn prefixes() {
    assert_eq!(without_prefix("enum Foo", "enum"), " Foo");
    assert_eq!(without_prefix("enumenum", "enum"), "enum");
    assert_eq!(without_prefix("Foo", "enum"), "Foo");
}

#[test]
fn replacing_and_joining() {
    assert_eq!(replace("a-b--c", '-', '_'), "a_b__c");
    let parts = vec!["x".to_string(), "y".to_string(), "z".to_string()];
    assert_eq!(join(&parts, ", "), "x, y, z");
    assert_eq!(join(&vec!["x".to_string()], ", "), "x");
    assert_eq!(join(&Vec::new(), ", "), "");
}

#[test]
fn numbers() {
    for n in [0u64, 9, 10, 99, 100, 4294967295, 4294967296, u64::MAX] {
        assert_eq!(decimal(n), n.to_string());
    }
    for n in [0i64, -1, 7, -10, i64::MIN, i64::MIN + 1, i64::MAX] {
        assert_eq!(signed_decimal(n), n.to_string());
    }
}

#[test]
fn maps_are_walked_in_order() {
    let mut map: OrderedMap<u32> = OrderedMap::new();
    assert_eq!(map.len(), 0);
    for (i, name) in ["m", "b", "z", "a", "b", "q"].iter().enumerate() {
        map.insert(name.to_string(), i as u32);
    }
    let walked: Vec<(String, u32)> =
        (0..map.len()).map(|i| (map.key(i).to_string(), *map.value(i))).collect();
    let expected =
        vec![("a", 3), ("b", 4), ("m", 0), ("q", 5), ("z", 2)];
    assert_eq!(walked.len(), expected.len());
    for (w, e) in walked.iter().zip(expected) {
        assert_eq!((w.0.as_str(), w.1), e);
    }
    assert_eq!(map.get("m"), Some(&0));
    assert_eq!(map.get("c"), None);
    assert!(map.contains_key("z"));
    assert!(!map.contains_key("zz"));
}

#[test]
fn lists_grow_under_their_name() {
    let mut map: OrderedMap<Vec<u8>> = OrderedMap::new();
    map.push_to("x".to_string(), 1);
    map.push_to("a".to_string(), 2);
    map.push_to("x".to_string(), 3);
    assert_eq!(map.get("x"), Some(&vec![1, 3]));
    assert_eq!(map.get("a"), Some(&vec![2]));
    assert_eq!(map.key(0), "a");
}
