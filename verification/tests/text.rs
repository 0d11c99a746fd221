use rig_openapi_tools::str_map::StrMap;
use rig_openapi_tools::text::{chars_of, matches_at, replace_all, same_text, trim_end, trim_start};

#[test]
fn runs_are_trimmed() {
    assert_eq!(trim_end("http://x//", '/'), "http://x");
    assert_eq!(trim_end("//", '/'), "");
    assert_eq!(trim_end("/x", '/'), "/x");
    assert_eq!(trim_end("", '/'), "");
    assert_eq!(trim_start("__a_", '_'), "a_");
    assert_eq!(trim_start("__", '_'), "");
    assert_eq!(trim_start("äö", '_'), "äö");
}

#[test]
fn occurrences_are_replaced_from_the_left() {
    assert_eq!(replace_all("/a/b/", "/", "_"), "_a_b_");
    assert_eq!(replace_all("aaa", "aa", "b"), "ba");
    assert_eq!(replace_all("abc", "abcd", "x"), "abc");
    assert_eq!(replace_all("{id}{id}", "{id}", ""), "");
    assert_eq!(replace_all("ü{ä}ü", "{ä}", "{ä}{ä}"), "ü{ä}{ä}ü");
    assert_eq!(replace_all("", "x", "y"), "");
}

#[test]
fn characters_are_matched_in_place() {
    let chars = chars_of("añb");
    assert_eq!(chars, vec!['a', 'ñ', 'b']);
    assert!(matches_at(&chars, 1, &chars_of("ñb")));
    assert!(!matches_at(&chars, 2, &chars_of("bb")));
    assert!(!matches_at(&chars, 0, &chars_of("ñ")));
    assert!(matches_at(&chars, 3, &chars_of("")));
    assert!(same_text("añb", "añb"));
    assert!(!same_text("a", "A"));
}

#[test]
fn the_last_value_of_a_key_holds() {
    let mut map: StrMap<u8> = StrMap::new();
    assert!(!map.contains_key("a"));
    map.insert("a".to_string(), 1);
    map.insert("b".to_string(), 2);
    map.insert("a".to_string(), 3);
    assert_eq!(map.get("a"), Some(&3));
    assert_eq!(map.get("b"), Some(&2));
    assert_eq!(map.get("c"), None);
    assert_eq!(map.entries.len(), 2);
}
