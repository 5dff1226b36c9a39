//! Wire compatibility with the JSON ecosystem: what this crate's codec
//! writes, serde_json reads, and what serde_json writes, this crate's
//! codec reads, agreeing on the value both ways.

use jsii_runtime::json::JsonValue;
use jsii_runtime::json::chars_of;
use jsii_runtime::json::encode_json;
use jsii_runtime::json::parse_json;

fn sample_value() -> JsonValue {
    JsonValue::Obj(vec![
        (String::from("name"), JsonValue::Str(String::from("@scope/jsii-calc"))),
        (String::from("types"), JsonValue::Int(33)),
        (String::from("negative"), JsonValue::Int(-9223372036854775808)),
        (String::from("flag"), JsonValue::Bool(true)),
        (String::from("nothing"), JsonValue::Null),
        (
            String::from("tricky"),
            JsonValue::Str(String::from("a\"b\\c\nd\te\u{1}f é\u{8}\u{c}")),
        ),
        (
            String::from("args"),
            JsonValue::Arr(vec![
                JsonValue::Int(0),
                JsonValue::Obj(vec![(
                    String::from("$jsii.byref"),
                    JsonValue::Str(String::from("Object@10001")),
                )]),
            ]),
        ),
    ])
}

fn sample_as_serde() -> serde_json::Value {
    let mut byref = serde_json::Map::new();
    byref.insert(
        String::from("$jsii.byref"),
        serde_json::Value::String(String::from("Object@10001")),
    );
    let mut top = serde_json::Map::new();
    top.insert(
        String::from("name"),
        serde_json::Value::String(String::from("@scope/jsii-calc")),
    );
    top.insert(String::from("types"), serde_json::Value::from(33i64));
    top.insert(
        String::from("negative"),
        serde_json::Value::from(-9223372036854775808i64),
    );
    top.insert(String::from("flag"), serde_json::Value::Bool(true));
    top.insert(String::from("nothing"), serde_json::Value::Null);
    top.insert(
        String::from("tricky"),
        serde_json::Value::String(String::from("a\"b\\c\nd\te\u{1}f é\u{8}\u{c}")),
    );
    top.insert(
        String::from("args"),
        serde_json::Value::Array(vec![
            serde_json::Value::from(0i64),
            serde_json::Value::Object(byref),
        ]),
    );
    serde_json::Value::Object(top)
}

#[test]
fn serde_reads_what_this_codec_writes() {
    let text = encode_json(&sample_value());
    let read: serde_json::Value =
        serde_json::from_str(&text).expect("serde_json should accept the encoded text");
    assert_eq!(read, sample_as_serde());
}

#[test]
fn this_codec_reads_what_serde_writes() {
    let text = serde_json::to_string(&sample_as_serde())
        .expect("serde_json should serialize the sample");
    let read = parse_json(&chars_of(&text)).expect("the codec should accept serde's text");
    // Re-encoding and re-reading through serde lands on the same value.
    let back: serde_json::Value = serde_json::from_str(&encode_json(&read))
        .expect("serde_json should accept the re-encoded text");
    assert_eq!(back, sample_as_serde());
}

#[test]
fn decimal_numbers_agree_with_serde() {
    let text = serde_json::to_string(&serde_json::Value::from(1.5f64))
        .expect("serde_json should serialize the float");
    assert_eq!(text, "1.5");
    let mine = parse_json(&chars_of(&text)).expect("the codec should accept serde's number text");
    assert_eq!(encode_json(&mine), "1.5");
    let back: serde_json::Value = serde_json::from_str(&encode_json(&mine))
        .expect("serde_json should accept the re-encoded text");
    assert_eq!(back, serde_json::Value::from(1.5f64));
}

#[test]
fn both_sides_agree_on_escape_heavy_strings() {
    let text = "\"\\b\\f\\n\\r\\t\\\"\\\\\\/\\u0000\\u001f\\u0041\"";
    let mine = parse_json(&chars_of(text)).expect("the codec should accept the escapes");
    let serde_read: serde_json::Value =
        serde_json::from_str(text).expect("serde_json should accept the escapes");
    match (&mine, &serde_read) {
        (JsonValue::Str(a), serde_json::Value::String(b)) => assert_eq!(a, b),
        other => panic!("expected two strings, got {:?}", other),
    }
}
