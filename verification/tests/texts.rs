//! Texts, numbers, JSON and order.
use vida::json;
use vida::json::Json;
use vida::names::NameSet;
use vida::order;
use vida::strings;
use vida::text::{Arg, I18n, Lang, Span, Text};

#[test]
fn parts_of_texts_are_found() {
    assert!(strings::contains_text("permission denied", "denied"));
    assert!(strings::contains_text("abc", ""));
    assert!(!strings::contains_text("abc", "abcd"));
    assert!(strings::begins_with("edit_1", "edit_"));
    assert_eq!(strings::strip_prefix("AUTH_FAILED:x", "AUTH_FAILED:").as_deref(), Some("x"));
    assert_eq!(strings::strip_prefix("x", "AUTH_FAILED:"), None);
    assert_eq!(strings::strip_suffix("a/notes", "/notes").as_deref(), Some("a"));
    assert_eq!(strings::strip_suffix("notes", "/notes"), None);
}

#[test]
fn white_space_is_trimmed() {
    assert_eq!(strings::trim(" \t a b \n"), "a b");
    assert_eq!(strings::trim("   "), "");
    assert_eq!(strings::trim("\u{3000}中\u{3000}"), "中");
    assert_eq!(strings::trim_end_char("a///", '/'), "a");
}

#[test]
fn white_space_is_what_unicode_calls_so() {
    let expected: Vec<u32> = (0x09..=0x0d)
        .chain([0x20, 0x85, 0xa0, 0x1680])
        .chain(0x2000..=0x200a)
        .chain([0x2028, 0x2029, 0x202f, 0x205f, 0x3000])
        .collect();
    let found: Vec<u32> = (0..=0x10ffff)
        .filter_map(char::from_u32)
        .filter(|c| strings::trim(&c.to_string()).is_empty())
        .map(|c| c as u32)
        .collect();
    assert_eq!(found, expected);
}

#[test]
fn texts_are_split_and_joined() {
    assert_eq!(strings::split("a,,b", ','), vec!["a", "", "b"]);
    assert_eq!(strings::split("", ','), vec![""]);
    assert_eq!(strings::join(&vec!["a".to_string(), "b".to_string()], ", "), "a, b");
    assert_eq!(strings::join(&vec![], ", "), "");
}

#[test]
fn numbers_are_written_and_read() {
    assert_eq!(strings::decimal_text(0), "0");
    assert_eq!(strings::decimal_text(u64::MAX), u64::MAX.to_string());
    assert_eq!(strings::signed_text(-5), "-5");
    assert_eq!(strings::signed_text(i64::MIN), i64::MIN.to_string());
    assert_eq!(strings::parse_up_to("65535", 65535), Some(65535));
    assert_eq!(strings::parse_up_to("65536", 65535), None);
    assert_eq!(strings::parse_up_to("+22", 65535), Some(22));
    assert_eq!(strings::parse_up_to("", 65535), None);
    assert_eq!(strings::parse_up_to("2x", 65535), None);
    assert_eq!(strings::parse_up_to("99999999999999999999999", u64::MAX), None);
}

#[test]
fn case_is_ignored_in_ascii_only() {
    assert!(strings::eq_ignore_ascii_case("JetBrains Mono", "jetbrains mono"));
    assert!(!strings::eq_ignore_ascii_case("É", "é"));
}

#[test]
fn json_is_read() {
    let value = json::parse(r#"{"b": [1, -2, 1.5, "x", null, true], "a": {"k": 300}}"#)
        .expect("valid text");
    let items = value.array_at("b").expect("array");
    assert_eq!(items[0].as_u64(), Some(1));
    assert_eq!(items[1].as_u64(), None);
    assert_eq!(items[1].as_i64(), Some(-2));
    assert_eq!(items[2], Json::Decimal(serde_json::Number::from_f64(1.5).expect("finite")));
    assert_eq!(items[3].as_str(), Some("x"));
    assert_eq!(items[4], Json::Null);
    assert_eq!(items[5].as_bool(), Some(true));
    assert_eq!(value.get("a").and_then(|inner| inner.u64_at("k")), Some(300));
    assert_eq!(value.index("missing"), Json::Null);
    assert!(json::parse("{").is_none());
}

#[test]
fn json_is_written_with_its_keys_in_order() {
    let value = Json::Object(vec![
        ("b".to_string(), Json::Unsigned(1)),
        ("a".to_string(), Json::Array(vec![Json::Null, Json::Bool(false)])),
    ]);
    assert_eq!(json::to_text(&value), r#"{"a":[null,false],"b":1}"#);
    assert_eq!(json::to_text(&json::parse("[1.5, -0.25]").expect("valid text")), "[1.5,-0.25]");
    assert_eq!(json::debug_text(&Json::Str("x".to_string())), "String(\"x\")");
}

#[test]
fn texts_keep_what_they_are_made_of() {
    let i18n = I18n::new(Lang::En);
    let mut text = i18n.trf1("key", "value".to_string());
    text.push(Text::plain("!".to_string()));
    assert_eq!(
        text.spans,
        vec![
            Span::Translated {
                lang: Lang::En,
                key: "key".to_string(),
                args: vec![Arg::Plain("value".to_string())],
            },
            Span::Plain("!".to_string()),
        ]
    );
    assert_eq!(text.clone(), text);
}

#[test]
fn values_are_sorted_by_their_keys() {
    let keys: Vec<String> = ["b", "a", "b"].iter().map(|s| s.to_string()).collect();
    let values: Vec<String> = ["1", "2", "3"].iter().map(|s| s.to_string()).collect();
    assert_eq!(order::sort_by_keys(&keys, &values), vec!["2", "1", "3"]);
    assert!(order::is_at_or_before("a", "ab"));
    assert!(!order::is_at_or_before("b", "ab"));
}

#[test]
fn names_are_kept_once_and_in_order() {
    let mut set = NameSet::new();
    for name in ["c", "a", "b", "a"] {
        set.insert(name.to_string());
    }
    assert_eq!(set.names, vec!["a", "b", "c"]);
    assert_eq!(set.len(), 3);
    assert!(set.contains("b"));
    assert!(!set.contains("d"));
    let mut other = NameSet::new();
    other.insert("aa".to_string());
    assert_eq!(set.union(&other).names, vec!["a", "aa", "b", "c"]);
}
