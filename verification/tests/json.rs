use dropbox_client::escape_json_string;
use dropbox_client::parse_json;
use dropbox_client::to_json_string;
use dropbox_client::JsonValue;

fn canonical(s: &str) -> Option<String> {
    parse_json(s).map(|v| to_json_string(&v))
}

#[test]
fn parse_scalars() {
    assert_eq!(canonical("null"), Some("null".to_string()));
    assert_eq!(canonical("true"), Some("true".to_string()));
    assert_eq!(canonical("false"), Some("false".to_string()));
    assert_eq!(canonical("42"), Some("42".to_string()));
    assert_eq!(canonical("-0.5e+10"), Some("-0.5e+10".to_string()));
    assert_eq!(canonical("\"hi\""), Some("\"hi\"".to_string()));
}

#[test]
fn parse_keeps_lexemes_raw() {
    assert_eq!(canonical("1.50e2"), Some("1.50e2".to_string()));
    assert_eq!(canonical("\"a\\u0041b\""), Some("\"a\\u0041b\"".to_string()));
}

#[test]
fn parse_rejects_malformed_documents() {
    let bad = [
        "", " ", "nul", "tru", "falsy", "01", "-", "1.", "1e", "+1", "'x'", "\"abc", "\"a\\x\"",
        "\"a\\u12\"", "[1,]", "[1 2]", "[", "{", "{\"a\"}", "{\"a\":}", "{\"a\":1,}", "{a:1}",
        "null x", "{}{}", "\"a\tb\"",
    ];
    for s in bad {
        assert!(parse_json(s).is_none(), "should refuse {:?}", s);
    }
}

#[test]
fn parse_checks_surrogate_escapes() {
    assert!(parse_json("\"\\ud83d\\ude00\"").is_some());
    assert!(parse_json("\"\\ud800\"").is_none());
    assert!(parse_json("\"\\ud800x\"").is_none());
    assert!(parse_json("\"\\udc00\"").is_none());
    assert!(parse_json("\"\\ud800\\ud800\"").is_none());
}

#[test]
fn parse_nested_round_trip() {
    let s = "{\"a\":[1,2.5e-3,\"x\\n\",null,true],\"b\":{},\"c\":[[]]}";
    assert_eq!(canonical(s), Some(s.to_string()));
}

#[test]
fn parse_accepts_whitespace_between_tokens() {
    let s = " {\r\n\t\"a\" : [ 1 , 2 ] , \"b\" : \"x\" } ";
    assert_eq!(canonical(s), Some("{\"a\":[1,2],\"b\":\"x\"}".to_string()));
}

#[test]
fn serializer_writes_canonical_text() {
    let v = JsonValue::Object(vec![
        ("path".to_string(), JsonValue::String(String::new())),
        (
            "n".to_string(),
            JsonValue::Array(vec![
                JsonValue::Number("-1.5".to_string()),
                JsonValue::Bool(false),
                JsonValue::Null,
            ]),
        ),
    ]);
    assert_eq!(to_json_string(&v), "{\"path\":\"\",\"n\":[-1.5,false,null]}");
}

#[test]
fn escape_handles_specials_and_controls() {
    assert_eq!(escape_json_string("plain"), "plain");
    assert_eq!(escape_json_string("a\"b"), "a\\\"b");
    assert_eq!(escape_json_string("a\\b"), "a\\\\b");
    assert_eq!(escape_json_string("a\nb\rc\td"), "a\\nb\\rc\\td");
    assert_eq!(escape_json_string("a\u{8}b\u{c}c"), "a\\bb\\fc");
    assert_eq!(escape_json_string("a\u{1}b\u{1f}c"), "a\\u0001b\\u001fc");
    assert_eq!(escape_json_string("日本"), "日本");
}

#[test]
fn parser_agrees_with_reference_parser_on_acceptance() {
    let cases = [
        "{}",
        "[]",
        "\"hi\"",
        "0",
        "-0.5",
        "1e3",
        "{\"a\":[1,2,{\"b\":null}],\"c\":true}",
        "  [ \"x\" , -2 ]  ",
        "{\"u\":\"\\u00e9\"}",
        "\"\\ud834\\udd1e\"",
        "\"\\ud800\"",
        "\"\\udc00\"",
        "{",
        "01",
        "+1",
        "'x'",
        "[1,]",
        "{\"a\":}",
        "\"unterminated",
        "null null",
        "NaN",
        "\"tab\tinside\"",
    ];
    for s in cases {
        let ours = parse_json(s).is_some();
        let reference = serde_json::from_str::<serde_json::Value>(s).is_ok();
        assert_eq!(ours, reference, "disagree on {:?}", s);
    }
}
