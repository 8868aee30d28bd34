//! Tests for the value converter: decoding of every wire reply variant and
//! encoding of every script value kind.

use rhai_redis::ProtocolValue;
use rhai_redis::ScriptValue;
use rhai_redis::encode;
use rhai_redis::redis_value_to_dynamic;

fn bytes(s: &str) -> ProtocolValue {
    ProtocolValue::Bytes(s.as_bytes().to_vec())
}

#[test]
fn test_decode_nil_is_unit() {
    assert_eq!(redis_value_to_dynamic(&ProtocolValue::Nil), ScriptValue::Unit);
}

#[test]
fn test_decode_integer() {
    assert_eq!(
        redis_value_to_dynamic(&ProtocolValue::Int(42)),
        ScriptValue::Int(42)
    );
}

#[test]
fn test_encode_integer() {
    assert_eq!(encode(&ScriptValue::Int(42)), "42");
    assert_eq!(encode(&ScriptValue::Int(0)), "0");
    assert_eq!(encode(&ScriptValue::Int(-7)), "-7");
    assert_eq!(
        encode(&ScriptValue::Int(i64::MIN)),
        "-9223372036854775808"
    );
    assert_eq!(encode(&ScriptValue::Int(i64::MAX)), "9223372036854775807");
}

#[test]
fn test_decode_bytes_as_text() {
    assert_eq!(
        redis_value_to_dynamic(&bytes("hello")),
        ScriptValue::Str("hello".to_string())
    );
}

#[test]
fn test_decode_bytes_invalid_utf8_is_lossy() {
    let raw = ProtocolValue::Bytes(vec![0x66, 0xFF, 0x67]);
    assert_eq!(
        redis_value_to_dynamic(&raw),
        ScriptValue::Str("f\u{FFFD}g".to_string())
    );
}

#[test]
fn test_decode_status() {
    assert_eq!(
        redis_value_to_dynamic(&ProtocolValue::Status("OK".to_string())),
        ScriptValue::Str("OK".to_string())
    );
}

#[test]
fn test_decode_other_is_its_text() {
    let raw = ProtocolValue::Other("Double(1.5)".to_string());
    assert_eq!(
        redis_value_to_dynamic(&raw),
        ScriptValue::Str("Double(1.5)".to_string())
    );
}

#[test]
fn test_decode_array_order_and_nesting() {
    let raw = ProtocolValue::Array(vec![
        ProtocolValue::Int(1),
        bytes("a"),
        ProtocolValue::Array(vec![ProtocolValue::Nil]),
    ]);
    let expected = ScriptValue::Array(vec![
        ScriptValue::Int(1),
        ScriptValue::Str("a".to_string()),
        ScriptValue::Array(vec![ScriptValue::Unit]),
    ]);
    assert_eq!(redis_value_to_dynamic(&raw), expected);
}

#[test]
fn test_decode_empty_array() {
    assert_eq!(
        redis_value_to_dynamic(&ProtocolValue::Array(vec![])),
        ScriptValue::Array(vec![])
    );
}

#[test]
fn test_decode_map_entries() {
    let raw = ProtocolValue::Dict(vec![
        (bytes("k1"), bytes("v1")),
        (bytes("k2"), ProtocolValue::Int(2)),
    ]);
    let expected = ScriptValue::Dict(vec![
        ("k1".to_string(), ScriptValue::Str("v1".to_string())),
        ("k2".to_string(), ScriptValue::Int(2)),
    ]);
    assert_eq!(redis_value_to_dynamic(&raw), expected);
}

#[test]
fn test_decode_map_duplicate_key_overwrites_in_place() {
    let raw = ProtocolValue::Dict(vec![
        (bytes("k"), ProtocolValue::Int(1)),
        (bytes("other"), ProtocolValue::Int(2)),
        (bytes("k"), ProtocolValue::Int(3)),
    ]);
    let expected = ScriptValue::Dict(vec![
        ("k".to_string(), ScriptValue::Int(3)),
        ("other".to_string(), ScriptValue::Int(2)),
    ]);
    assert_eq!(redis_value_to_dynamic(&raw), expected);
}

#[test]
fn test_decode_map_status_and_nonstring_keys() {
    let raw = ProtocolValue::Dict(vec![
        (ProtocolValue::Status("s".to_string()), ProtocolValue::Nil),
        (ProtocolValue::Int(7), bytes("seven")),
    ]);
    let expected = ScriptValue::Dict(vec![
        ("s".to_string(), ScriptValue::Unit),
        ("Int(7)".to_string(), ScriptValue::Str("seven".to_string())),
    ]);
    assert_eq!(redis_value_to_dynamic(&raw), expected);
}

#[test]
fn test_decode_map_array_key_uses_debug_form() {
    let raw = ProtocolValue::Dict(vec![(
        ProtocolValue::Array(vec![ProtocolValue::Nil, ProtocolValue::Int(1)]),
        ProtocolValue::Int(2),
    )]);
    let expected = ScriptValue::Dict(vec![(
        "Array([Nil, Int(1)])".to_string(),
        ScriptValue::Int(2),
    )]);
    assert_eq!(redis_value_to_dynamic(&raw), expected);
}

#[test]
fn test_debug_form_of_each_reply_kind() {
    assert_eq!(ProtocolValue::Nil.to_debug_text(), "Nil");
    assert_eq!(ProtocolValue::Int(-5).to_debug_text(), "Int(-5)");
    assert_eq!(bytes("ab").to_debug_text(), "Bytes([97, 98])");
    assert_eq!(
        ProtocolValue::Status("OK".to_string()).to_debug_text(),
        "Status(OK)"
    );
    assert_eq!(
        ProtocolValue::Dict(vec![(ProtocolValue::Nil, ProtocolValue::Int(1))]).to_debug_text(),
        "Dict([(Nil, Int(1))])"
    );
    assert_eq!(
        ProtocolValue::Other("Double(1.5)".to_string()).to_debug_text(),
        "Double(1.5)"
    );
}

#[test]
fn test_decode_empty_map() {
    assert_eq!(
        redis_value_to_dynamic(&ProtocolValue::Dict(vec![])),
        ScriptValue::Dict(vec![])
    );
}

#[test]
fn test_encode_string_is_raw_text() {
    assert_eq!(encode(&ScriptValue::Str("hello world".to_string())), "hello world");
    assert_eq!(encode(&ScriptValue::Str(String::new())), "");
}

#[test]
fn test_encode_float_is_its_rendering() {
    assert_eq!(encode(&ScriptValue::Float("2.5".to_string())), "2.5");
}

#[test]
fn test_encode_other_kinds_use_display() {
    assert_eq!(encode(&ScriptValue::Unit), "");
    assert_eq!(encode(&ScriptValue::Bool(true)), "true");
    assert_eq!(encode(&ScriptValue::Bool(false)), "false");
    assert_eq!(
        encode(&ScriptValue::Array(vec![
            ScriptValue::Int(1),
            ScriptValue::Str("x".to_string()),
        ])),
        "[1, x]"
    );
}

#[test]
fn test_decode_nested_map_in_array() {
    let raw = ProtocolValue::Array(vec![ProtocolValue::Dict(vec![
        (bytes("n"), ProtocolValue::Int(1)),
        (bytes("n"), ProtocolValue::Int(2)),
    ])]);
    let expected = ScriptValue::Array(vec![ScriptValue::Dict(vec![(
        "n".to_string(),
        ScriptValue::Int(2),
    )])]);
    assert_eq!(redis_value_to_dynamic(&raw), expected);
}

#[test]
fn test_decode_map_empty_string_key() {
    let raw = ProtocolValue::Dict(vec![(bytes(""), ProtocolValue::Int(1))]);
    let expected = ScriptValue::Dict(vec![(String::new(), ScriptValue::Int(1))]);
    assert_eq!(redis_value_to_dynamic(&raw), expected);
}

#[test]
fn test_decode_map_nil_key_coerces_to_debug_text() {
    let raw = ProtocolValue::Dict(vec![(ProtocolValue::Nil, ProtocolValue::Int(1))]);
    let expected = ScriptValue::Dict(vec![("Nil".to_string(), ScriptValue::Int(1))]);
    assert_eq!(redis_value_to_dynamic(&raw), expected);
}

#[test]
fn test_to_text_scalar_values() {
    assert_eq!(ScriptValue::Unit.to_text(), "");
    assert_eq!(ScriptValue::Bool(true).to_text(), "true");
    assert_eq!(ScriptValue::Int(-10).to_text(), "-10");
    assert_eq!(ScriptValue::Float("0.5".to_string()).to_text(), "0.5");
    assert_eq!(ScriptValue::Str("plain".to_string()).to_text(), "plain");
}

#[test]
fn test_pair_entries_pairs_in_order() {
    let items = vec![
        ScriptValue::Str("a".to_string()),
        ScriptValue::Int(1),
        ScriptValue::Str("b".to_string()),
        ScriptValue::Str("two".to_string()),
    ];
    assert_eq!(
        rhai_redis::convert::pair_entries(items),
        vec![
            ("a".to_string(), ScriptValue::Int(1)),
            ("b".to_string(), ScriptValue::Str("two".to_string())),
        ]
    );
}

#[test]
fn test_pair_entries_drops_dangling_field() {
    let items = vec![
        ScriptValue::Int(7),
        ScriptValue::Unit,
        ScriptValue::Str("dangling".to_string()),
    ];
    assert_eq!(
        rhai_redis::convert::pair_entries(items),
        vec![("7".to_string(), ScriptValue::Unit)]
    );
}

#[test]
fn test_to_text_renders_nested_values() {
    let v = ScriptValue::Array(vec![
        ScriptValue::Int(-3),
        ScriptValue::Bool(true),
        ScriptValue::Array(vec![]),
        ScriptValue::Dict(vec![
            ("a".to_string(), ScriptValue::Int(1)),
            ("b".to_string(), ScriptValue::Unit),
        ]),
    ]);
    assert_eq!(v.to_text(), "[-3, true, [], #{a: 1, b: }]");
}
