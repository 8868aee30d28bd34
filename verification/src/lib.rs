//! Marshalling and command dispatch for a scripting runtime backed by a
//! key-value store: converts between wire-level reply values and
//! script-visible dynamic values, dispatches commands over a shared
//! connection, and sequences multi-command transactions.

pub mod client;
pub mod convert;
pub mod text;
pub mod transport;
pub mod txn;
pub mod value;

pub use client::RedisClient;
pub use convert::encode;
pub use convert::redis_value_to_dynamic;
pub use txn::TxnState;
pub use value::ProtocolValue;
pub use value::ScriptValue;
