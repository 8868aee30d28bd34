//! Tests for wire command construction: the command name is the first
//! token and each argument follows, encoded, in order.

use rhai_redis::ScriptValue;
use rhai_redis::client::build_command;

fn tokens_of(c: &redis::Cmd) -> Vec<Vec<u8>> {
    c.args_iter()
        .map(|a| match a {
            redis::Arg::Simple(bytes) => bytes.to_vec(),
            _ => b"<cursor>".to_vec(),
        })
        .collect()
}

#[test]
fn test_build_command_name_then_args_in_order() {
    let args = vec![
        ScriptValue::Str("key".to_string()),
        ScriptValue::Int(42),
        ScriptValue::Str("value".to_string()),
    ];
    let c = build_command("SET", &args);
    assert_eq!(
        tokens_of(&c),
        vec![
            b"SET".to_vec(),
            b"key".to_vec(),
            b"42".to_vec(),
            b"value".to_vec(),
        ]
    );
}

#[test]
fn test_build_command_no_args() {
    let c = build_command("PING", &vec![]);
    assert_eq!(tokens_of(&c), vec![b"PING".to_vec()]);
}

#[test]
fn test_build_command_encodes_every_kind() {
    let args = vec![
        ScriptValue::Unit,
        ScriptValue::Bool(false),
        ScriptValue::Float("1.25".to_string()),
        ScriptValue::Array(vec![ScriptValue::Int(1), ScriptValue::Int(2)]),
    ];
    let c = build_command("ECHO", &args);
    assert_eq!(
        tokens_of(&c),
        vec![
            b"ECHO".to_vec(),
            b"".to_vec(),
            b"false".to_vec(),
            b"1.25".to_vec(),
            b"[1, 2]".to_vec(),
        ]
    );
}
