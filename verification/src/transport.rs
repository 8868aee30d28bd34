//! Trusted bindings to the store client crate: the connection, command and
//! reply types it owns, and the few calls the dispatcher makes into it.
//! Everything here is believed, not verified; each item's comment names the
//! outside function it relies on. Nothing is promised of what the transport
//! returns: the verified converter handles every possible reply.

use std::io::Write;
use vstd::prelude::*;

use crate::value::ProtocolValue;

verus! {

#[verifier::external_type_specification]
#[verifier::external_body]
pub struct ExConnection(redis::Connection);

#[verifier::external_type_specification]
#[verifier::external_body]
pub struct ExCmd(redis::Cmd);

#[verifier::external_type_specification]
#[verifier::external_body]
pub struct ExRedisError(redis::RedisError);

#[verifier::external_type_specification]
#[verifier::external_body]
pub struct ExValue(redis::Value);

#[verifier::external_type_specification]
#[verifier::external_body]
#[verifier::reject_recursive_types(T)]
pub struct ExMutex<T: ?Sized>(std::sync::Mutex<T>);

/// Relies on `std::sync::Mutex::new`: wraps a value in a fresh lock.
pub assume_specification<T>[ std::sync::Mutex::<T>::new ](t: T) -> std::sync::Mutex<T>;

/// The argument tokens a command holds, in order: the command's name
/// first, then each argument, each as text. On the wire a token's bytes
/// are the UTF-8 encoding of its text, so the text determines the token.
pub uninterp spec fn cmd_tokens(c: redis::Cmd) -> Seq<Seq<char>>;

/// Relies on `redis::cmd`: a fresh command holds the given name as its
/// single token.
#[verifier::external_body]
pub(crate) fn new_command(name: &str) -> (c: redis::Cmd)
    ensures
        cmd_tokens(c) == seq![name@],
{
    redis::cmd(name)
}

/// Relies on `redis::Cmd::arg` on `&str`: appends exactly one token
/// holding the given text.
#[verifier::external_body]
pub(crate) fn push_arg(c: &mut redis::Cmd, token: &str)
    ensures
        cmd_tokens(*final(c)) == cmd_tokens(*old(c)).push(token@),
{
    c.arg(token);
}

/// Relies on `std::sync::Mutex::lock` and `redis::Cmd::query`: one
/// synchronous round trip over the shared connection, under the lock for
/// its whole duration, so no two round trips interleave on the wire. The
/// reply depends on the store, so nothing is promised of it; a poisoned
/// lock is taken over rather than propagated, so the call never panics.
#[verifier::external_body]
pub(crate) fn locked_query(
    conn: &std::sync::Mutex<redis::Connection>,
    c: &redis::Cmd,
) -> Result<redis::Value, redis::RedisError> {
    let mut guard = match conn.lock() {
        Ok(g) => g,
        Err(poisoned) => poisoned.into_inner(),
    };
    c.query::<redis::Value>(&mut *guard)
}

/// Relies on telling the variants of `redis::Value` apart, one arm each,
/// and on its `Debug` rendering for the variants the library does not
/// model. `redis::Value::Okay` stands for the status reply `OK`, which is
/// how the store client documents it.
#[verifier::external_body]
pub(crate) fn protocol_of_value(v: redis::Value) -> ProtocolValue {
    match v {
        redis::Value::Nil => ProtocolValue::Nil,
        redis::Value::Int(i) => ProtocolValue::Int(i),
        redis::Value::BulkString(b) => ProtocolValue::Bytes(b),
        redis::Value::SimpleString(s) => ProtocolValue::Status(s),
        redis::Value::Okay => ProtocolValue::Status("OK".to_string()),
        redis::Value::Array(xs) => ProtocolValue::Array(
            xs.into_iter().map(protocol_of_value).collect(),
        ),
        redis::Value::Map(ps) => ProtocolValue::Dict(
            ps.into_iter().map(|(k, w)| (protocol_of_value(k), protocol_of_value(w))).collect(),
        ),
        other => ProtocolValue::Other(format!("{:?}", other)),
    }
}

/// Relies on `writeln` to the standard error stream and on the error's
/// `Display` rendering: reports a transport failure to the diagnostic
/// sink. The dispatcher is fail-soft by design: it logs and returns the
/// unit value instead of surfacing a typed error.
#[verifier::external_body]
pub(crate) fn log_transport_error(e: &redis::RedisError) {
    let mut sink = std::io::stderr();
    let _ = writeln!(sink, "redis error in dispatch: {}", e);
}

} // verus!
