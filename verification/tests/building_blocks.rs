use photon::json::JsonValue;
use photon::string_map::StringMap;
use photon::text::is_blank;

#[test]
fn blank_is_nothing_but_white_space() {
    assert!(is_blank(""));
    assert!(is_blank(" \t\r\n\u{b}\u{c}\u{85}\u{a0}\u{1680}\u{2000}\u{200a}\u{2028}\u{2029}"));
    assert!(is_blank("\u{202f}\u{205f}\u{3000}"));
    assert!(!is_blank(" a "));
    assert!(!is_blank("\u{200b}"));
    assert!(!is_blank("\u{feff}"));
}

#[test]
fn string_map_replaces_removes_and_keeps_order() {
    let mut map: StringMap<u64> = StringMap::new();
    assert_eq!(map.insert("a".to_string(), 1), None);
    assert_eq!(map.insert("b".to_string(), 2), None);
    assert_eq!(map.insert("c".to_string(), 3), None);
    assert_eq!(map.insert("a".to_string(), 4), Some(1));
    assert_eq!(map.len(), 3);
    assert_eq!(map.get("a"), Some(&4));
    assert_eq!(map.get("z"), None);
    assert_eq!(map.remove("b"), Some(2));
    assert_eq!(map.remove("b"), None);
    assert_eq!(map.entry(0), (&"c".to_string(), &3));
    assert_eq!(map.entry(1), (&"a".to_string(), &4));
    map.clear();
    assert_eq!(map.len(), 0);
}

#[test]
fn json_values_are_read_by_type() {
    assert_eq!(JsonValue::Text("a".to_string()).as_str(), Some("a"));
    assert_eq!(JsonValue::Text("a".to_string()).as_bool(), None);
    assert_eq!(JsonValue::Bool(true).as_bool(), Some(true));
    assert_eq!(JsonValue::Bool(true).as_str(), None);
    assert_eq!(JsonValue::Null.as_str(), None);
    assert_eq!(JsonValue::Object(Vec::new()).as_bool(), None);
}
