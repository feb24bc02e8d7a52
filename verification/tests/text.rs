use spreadsheet::error::Error;
use spreadsheet::json::{Json, JsonNumber};
use spreadsheet::text::{i64_text, parse_u32, str_eq, u64_text};

#[test]
fn integers_render_in_decimal() {
    assert_eq!(u64_text(0), "0");
    assert_eq!(u64_text(7), "7");
    assert_eq!(u64_text(1234567890), "1234567890");
    assert_eq!(u64_text(u64::MAX), u64::MAX.to_string());
    assert_eq!(i64_text(-3), "-3");
    assert_eq!(i64_text(0), "0");
    assert_eq!(i64_text(i64::MIN), i64::MIN.to_string());
    assert_eq!(i64_text(i64::MAX), i64::MAX.to_string());
}

#[test]
fn u32_parsing_matches_std() {
    let cases = [
        "0", "12", "+7", "007", "4294967295", "4294967296", "", "+", "-0", "-1", " 1", "1 ", "1a", "99999999999",
        "٣",
    ];
    for case in cases {
        assert_eq!(parse_u32(case), case.parse::<u32>().ok(), "{case:?}");
    }
}

#[test]
fn string_comparison() {
    assert!(str_eq("abc", "abc"));
    assert!(str_eq("", ""));
    assert!(!str_eq("abc", "abd"));
    assert!(!str_eq("ab", "abc"));
    assert!(str_eq("é", "é"));
}

#[test]
fn error_messages() {
    assert_eq!(Error::Read("gone".to_owned()).to_string(), "could not read workbook: gone");
    assert_eq!(Error::Write("full".to_owned()).to_string(), "could not write workbook: full");
    assert_eq!(Error::UnknownSheet("S".to_owned()).to_string(), "unknown sheet: S");
    assert_eq!(Error::MalformedOp("bad".to_owned()).to_string(), "malformed operation: bad");
}

#[test]
fn json_accessors() {
    let object = Json::Object {
        members: vec![
            ("a".to_owned(), Json::Number(JsonNumber::PosInt(1))),
            ("b".to_owned(), Json::String("x".to_owned())),
        ],
        text: r#"{"a":1,"b":"x"}"#.to_owned(),
    };
    assert_eq!(object.get("a").and_then(Json::as_u64), Some(1));
    assert_eq!(object.get("b").and_then(Json::as_str), Some("x"));
    assert!(object.get("c").is_none());
    assert!(object.is_object());
    assert_eq!(object.as_text(), r#"{"a":1,"b":"x"}"#);
    assert!(Json::String("a".to_owned()).get("a").is_none());
    assert_eq!(Json::Number(JsonNumber::NegInt(-4)).as_u64(), None);
    assert_eq!(Json::Number(JsonNumber::Float("1.5".to_owned())).as_u64(), None);
    assert_eq!(Json::Number(JsonNumber::Float("1e20".to_owned())).as_text(), "1e20");
    let array = Json::Array { items: vec![Json::Null, Json::Bool(true)], text: "[null,true]".to_owned() };
    assert_eq!(array.as_text(), "[null,true]");
    assert_eq!(array.as_str(), None);
}
