use harness_sessions::json::{JsonObject, JsonValue};
use harness_sessions::sessions::stem_of_jsonl;
use harness_sessions::text::{comes_before, find, rfind, trim};

fn count(n: u64) -> JsonValue {
    JsonValue::Number(serde_json::Number::from(n))
}

fn text(s: &str) -> JsonValue {
    JsonValue::String(s.to_owned())
}

#[test]
fn a_member_that_is_set_again_is_replaced() {
    let object = JsonObject::new()
        .with("b".to_owned(), count(1))
        .with("a".to_owned(), count(2))
        .with("b".to_owned(), count(3));
    assert_eq!(object.get("b"), Some(&count(3)));
    assert_eq!(object.get("a"), Some(&count(2)));
    assert_eq!(object.get("c"), None);
    assert_eq!(JsonValue::Object(object).to_text(), r#"{"a":2,"b":3}"#);
}

#[test]
fn objects_are_the_same_however_they_were_built() {
    let one = JsonObject::new()
        .with("z".to_owned(), count(1))
        .with("\u{e9}".to_owned(), text("x"))
        .with("za".to_owned(), JsonValue::Null);
    let other = JsonObject::new()
        .with("za".to_owned(), JsonValue::Null)
        .with("\u{e9}".to_owned(), text("x"))
        .with("z".to_owned(), count(1));
    assert_eq!(one, other);
    assert_ne!(one, other.clone().with("z".to_owned(), count(2)));
}

#[test]
fn values_are_read_by_what_they_are() {
    let value = JsonValue::Object(
        JsonObject::new()
            .with("s".to_owned(), text("t"))
            .with("n".to_owned(), count(u64::MAX))
            .with("f".to_owned(), JsonValue::Number(serde_json::Number::from_f64(1.5).unwrap()))
            .with("m".to_owned(), JsonValue::Number(serde_json::Number::from(-1)))
            .with("b".to_owned(), JsonValue::Bool(true)),
    );
    assert_eq!(value.at("s").as_str(), Some("t"));
    assert_eq!(value.at("n").as_u64(), Some(u64::MAX));
    assert_eq!(value.at("f").as_u64(), None);
    assert_eq!(value.at("m").as_u64(), None);
    assert_eq!(value.at("b").as_bool(), Some(true));
    assert!(value.at("missing").is_null());
    assert!(value.at("s").at("deeper").is_null());
    assert_eq!(value.text_at("n"), "");
    assert!(value.is_object());
    assert_eq!(value.get("missing"), None);
    assert_eq!(value.clone(), value);
}

#[test]
fn values_are_written_out_compactly() {
    let value = JsonValue::Array(vec![
        JsonValue::Null,
        JsonValue::Bool(false),
        count(7),
        JsonValue::Number(serde_json::Number::from_f64(0.5).unwrap()),
        text("a\"\n\u{e9}"),
        JsonValue::Object(JsonObject::new().with("k".to_owned(), JsonValue::Array(vec![]))),
    ]);
    assert_eq!(value.to_text(), "[null,false,7,0.5,\"a\\\"\\n\u{e9}\",{\"k\":[]}]");
}

#[test]
fn texts_are_searched_by_characters() {
    assert_eq!(find("\u{e9}ab\u{e9}ab", "ab"), Some(1));
    assert_eq!(rfind("\u{e9}ab\u{e9}ab", "ab"), Some(4));
    assert_eq!(find("abc", "d"), None);
    assert_eq!(rfind("a", "abc"), None);
    assert_eq!((find("ab", ""), rfind("ab", "")), (Some(0), Some(2)));
    assert!(comes_before("a", "ab"));
    assert!(comes_before("a\u{e9}", "a\u{1f600}"));
    assert!(!comes_before("b", "ab"));
    assert!(!comes_before("a", "a"));
}

#[test]
fn every_white_space_character_is_trimmed() {
    let spaces = "\u{9}\u{a}\u{b}\u{c}\u{d}\u{20}\u{85}\u{a0}\u{1680}\u{2000}\u{2001}\u{2002}\u{2003}\u{2004}\u{2005}\u{2006}\u{2007}\u{2008}\u{2009}\u{200a}\u{2028}\u{2029}\u{202f}\u{205f}\u{3000}";
    assert_eq!(trim(&format!("{spaces}x{spaces}")), "x");
    for other in ["\u{200b}", "\u{feff}", "\u{1c}", "\u{180e}"] {
        assert_eq!(trim(other), other);
    }
}

#[test]
fn stems_are_names_without_the_extension() {
    assert_eq!(stem_of_jsonl("s.jsonl"), Some("s"));
    assert_eq!(stem_of_jsonl(".jsonl"), None);
    assert_eq!(stem_of_jsonl("s.JSONL"), None);
}
