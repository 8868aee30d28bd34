//! Tests for the transaction sequencer's reply handling: what a commit
//! reply decodes to, and what a discarded write reads back as.

use rhai_redis::ProtocolValue;
use rhai_redis::ScriptValue;
use rhai_redis::redis_value_to_dynamic;
use rhai_redis::txn::commit_values;

#[test]
fn test_commit_reply_decodes_in_order() {
    let reply = ProtocolValue::Array(vec![
        ProtocolValue::Int(1),
        ProtocolValue::Status("OK".to_string()),
        ProtocolValue::Bytes("third".as_bytes().to_vec()),
    ]);
    let results = commit_values(&reply);
    assert_eq!(
        results,
        vec![
            ScriptValue::Int(1),
            ScriptValue::Str("OK".to_string()),
            ScriptValue::Str("third".to_string()),
        ]
    );
}

#[test]
fn test_commit_reply_three_staged_three_results() {
    let reply = ProtocolValue::Array(vec![
        ProtocolValue::Nil,
        ProtocolValue::Nil,
        ProtocolValue::Nil,
    ]);
    assert_eq!(commit_values(&reply).len(), 3);
}

#[test]
fn test_commit_non_array_reply_yields_nothing() {
    assert_eq!(commit_values(&ProtocolValue::Nil), vec![]);
    assert_eq!(
        commit_values(&ProtocolValue::Status("OK".to_string())),
        vec![]
    );
    assert_eq!(commit_values(&ProtocolValue::Int(5)), vec![]);
}

#[test]
fn test_discarded_write_reads_back_as_unit() {
    // After a discard, a read of the written key returns the nil reply,
    // which decodes to the unit value.
    assert_eq!(redis_value_to_dynamic(&ProtocolValue::Nil), ScriptValue::Unit);
}
