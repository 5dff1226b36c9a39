use jsii_runtime::json::JsonNumber;
use jsii_runtime::json::JsonValue;
use jsii_runtime::json::chars_of;
use jsii_runtime::json::clone_json;
use jsii_runtime::json::encode_json;
use jsii_runtime::json::parse_json;

fn parse_text(text: &str) -> Option<JsonValue> {
    parse_json(&chars_of(text))
}

fn round_trips(text: &str) {
    let v = parse_text(text).expect("text should parse");
    assert_eq!(encode_json(&v), text);
}

#[test]
fn encode_scalars() {
    assert_eq!(encode_json(&JsonValue::Null), "null");
    assert_eq!(encode_json(&JsonValue::Bool(true)), "true");
    assert_eq!(encode_json(&JsonValue::Bool(false)), "false");
    assert_eq!(encode_json(&JsonValue::Int(0)), "0");
    assert_eq!(encode_json(&JsonValue::Int(42)), "42");
    assert_eq!(encode_json(&JsonValue::Int(-7)), "-7");
    assert_eq!(encode_json(&JsonValue::Int(i64::MAX)), "9223372036854775807");
    assert_eq!(encode_json(&JsonValue::Int(i64::MIN)), "-9223372036854775808");
}

#[test]
fn encode_strings_escape() {
    let plain = JsonValue::Str(String::from("hello"));
    assert_eq!(encode_json(&plain), "\"hello\"");
    let tricky = JsonValue::Str(String::from("a\"b\\c\nd\te\r"));
    assert_eq!(encode_json(&tricky), "\"a\\\"b\\\\c\\nd\\te\\r\"");
    let control = JsonValue::Str(String::from("\u{1}\u{1f}"));
    assert_eq!(encode_json(&control), "\"\\u0001\\u001f\"");
    let unicode = JsonValue::Str(String::from("héllo"));
    assert_eq!(encode_json(&unicode), "\"héllo\"");
}

#[test]
fn encode_composites() {
    let arr = JsonValue::Arr(vec![
        JsonValue::Int(1),
        JsonValue::Null,
        JsonValue::Str(String::from("x")),
    ]);
    assert_eq!(encode_json(&arr), "[1,null,\"x\"]");
    let obj = JsonValue::Obj(vec![
        (String::from("a"), JsonValue::Int(1)),
        (String::from("b"), JsonValue::Arr(vec![])),
    ]);
    assert_eq!(encode_json(&obj), "{\"a\":1,\"b\":[]}");
    assert_eq!(encode_json(&JsonValue::Obj(vec![])), "{}");
}

#[test]
fn parse_round_trips_canonical_texts() {
    round_trips("null");
    round_trips("true");
    round_trips("false");
    round_trips("0");
    round_trips("42");
    round_trips("-9223372036854775808");
    round_trips("9223372036854775807");
    round_trips("\"\"");
    round_trips("\"hello\"");
    round_trips("[]");
    round_trips("[[[]]]");
    round_trips("[1,2,3]");
    round_trips("{}");
    round_trips("{\"a\":1,\"b\":{\"c\":[null,true]}}");
    round_trips("{\"$jsii.byref\":\"Object@10001\"}");
}

#[test]
fn parse_decodes_escapes() {
    let v = parse_text("\"a\\\"b\\\\c\\nd\\u0041\\u00e9\"").expect("escapes should parse");
    match v {
        JsonValue::Str(s) => assert_eq!(s, "a\"b\\c\ndAé"),
        _ => panic!("expected a string"),
    }
}

#[test]
fn parse_accepts_surrounding_whitespace() {
    let v = parse_text(" \t{\"a\":1}\r\n").expect("padded line should parse");
    assert_eq!(encode_json(&v), "{\"a\":1}");
}

#[test]
fn parse_rejects_malformed_text() {
    assert!(parse_text("").is_none());
    assert!(parse_text("\n").is_none());
    assert!(parse_text("nul").is_none());
    assert!(parse_text("truex").is_none());
    assert!(parse_text("[1,2").is_none());
    assert!(parse_text("{\"a\":}").is_none());
    assert!(parse_text("{\"a\" 1}").is_none());
    assert!(parse_text("\"unterminated").is_none());
    assert!(parse_text("\"bad\\qescape\"").is_none());
    assert!(parse_text("1 2").is_none());
    assert!(parse_text("-").is_none());
    assert!(parse_text("--1").is_none());
}

#[test]
fn parse_rejects_numbers_past_sixty_four_bits() {
    assert!(parse_text("9223372036854775808").is_none());
    assert!(parse_text("-9223372036854775809").is_none());
    assert!(parse_text("99999999999999999999999999").is_none());
    assert_eq!(
        encode_json(&parse_text("9223372036854775807").unwrap()),
        "9223372036854775807"
    );
}

#[test]
fn decimal_numbers_pass_through_unchanged() {
    for text in ["1.5", "-0.25", "1e+21", "6.02e23", "1.5e-3", "0.0", "1E9", "2e-07"] {
        let v = parse_text(text).expect("the number should parse");
        match &v {
            JsonValue::Decimal(d) => assert_eq!(d.text(), text),
            other => panic!("expected an opaque number, got {:?}", other),
        }
        assert_eq!(encode_json(&v), text);
    }
    round_trips("{\"pi\":3.14159,\"xs\":[1,2.5,-3e-1]}");
}

#[test]
fn malformed_numbers_are_refused() {
    assert!(parse_text("1.").is_none());
    assert!(parse_text(".5").is_none());
    assert!(parse_text("1e").is_none());
    assert!(parse_text("1e+").is_none());
    assert!(parse_text("1.e3").is_none());
    assert!(parse_text("1.5.2").is_none());
    assert!(parse_text("1e5e2").is_none());
}

#[test]
fn number_texts_are_validated_on_construction() {
    assert!(JsonNumber::new(String::from("1.5")).is_some());
    assert!(JsonNumber::new(String::from("-2e+10")).is_some());
    assert!(JsonNumber::new(String::from("15")).is_none());
    assert!(JsonNumber::new(String::from("1.")).is_none());
    assert!(JsonNumber::new(String::from("abc")).is_none());
    assert!(JsonNumber::new(String::from(" 1.5")).is_none());
    assert!(JsonNumber::new(String::from("1.5 ")).is_none());
    let num = JsonNumber::new(String::from("9.75")).unwrap();
    assert_eq!(num.text(), "9.75");
    assert_eq!(encode_json(&JsonValue::Decimal(num)), "9.75");
}

#[test]
fn parse_rejects_lone_surrogate_escapes() {
    assert!(parse_text("\"\\ud800\"").is_none());
    assert!(parse_text("\"\\udfff\"").is_none());
    assert!(parse_text("\"\\ue000\"").is_some());
}

#[test]
fn parse_rejects_raw_control_characters() {
    assert!(parse_text("\"a\u{1}b\"").is_none());
}

#[test]
fn parse_accepts_upper_case_hex_escapes() {
    let v = parse_text("\"\\u00E9\\u004A\"").expect("upper-case hex should parse");
    match v {
        JsonValue::Str(s) => assert_eq!(s, "éJ"),
        _ => panic!("expected a string"),
    }
}

#[test]
fn encoded_values_never_break_line_framing() {
    let awkward = JsonValue::Obj(vec![(
        String::from("note\nwith\nnewlines"),
        JsonValue::Str(String::from("line one\nline \"two\" \\ \t \r end")),
    )]);
    let text = encode_json(&awkward);
    assert!(!text.contains('\n'));
    let back = parse_text(&text).expect("the encoded text should parse");
    assert_eq!(encode_json(&back), text);
}

#[test]
fn clone_copies_deeply() {
    let v = JsonValue::Obj(vec![(
        String::from("xs"),
        JsonValue::Arr(vec![JsonValue::Int(3), JsonValue::Str(String::from("y"))]),
    )]);
    let c = clone_json(&v);
    assert_eq!(encode_json(&c), encode_json(&v));
}
