//! The shared connection handle and the command dispatcher. One client
//! owns one live connection behind a lock; clones share the same
//! connection and lock, never a copy. Each dispatch is one exclusive round
//! trip: encode the arguments, send, decode the reply.
//!
//! The client also mirrors the connection's transaction window state. The
//! window lives on the physical connection, not on this object, so the
//! mirror is faithful only while a single handle drives the window:
//! dispatching on another clone of the handle while a window is open is
//! drawn into that window without being tracked here. That hazard is a
//! property of the store's transaction semantics; callers sharing a handle
//! must not interleave unrelated dispatches with an open window.

use std::sync::Arc;
use std::sync::Mutex;
use vstd::prelude::*;

use crate::convert::encode;
use crate::convert::encode_model;
use crate::convert::is_decoded_reply;
use crate::convert::redis_value_to_dynamic;
use crate::transport::cmd_tokens;
use crate::transport::locked_query;
use crate::transport::log_transport_error;
use crate::transport::new_command;
use crate::transport::protocol_of_value;
use crate::transport::push_arg;
use crate::txn::TxnModel;
use crate::txn::TxnState;
use crate::txn::commit_values;
use crate::txn::txn_begin;
use crate::txn::txn_close;
use crate::txn::txn_queue;
use crate::value::ScriptValue;

verus! {

/// A shared handle to one live store connection, with this handle's view
/// of the connection's transaction window.
#[derive(Clone)]
pub struct RedisClient {
    /// The one live connection, shared by every clone of this handle and
    /// guarded by one lock.
    pub conn: Arc<Mutex<redis::Connection>>,
    /// The window state this handle has observed.
    pub state: TxnState,
    /// How many commands the open window has staged through this handle.
    pub staged: u64,
}

/// Builds the wire command: the name as the first token, then one encoded
/// token per argument, in order. Order is semantically significant and is
/// never changed.
pub fn build_command(name: &str, args: &Vec<ScriptValue>) -> (c: redis::Cmd)
    ensures
        cmd_tokens(c) == seq![name@] + args@.map_values(|a: ScriptValue| encode_model(a@)),
{
    let mut c = new_command(name);
    let mut j: usize = 0;
    while j < args.len()
        invariant
            j <= args@.len(),
            cmd_tokens(c) == seq![name@] + args@.take(j as int).map_values(
                |a: ScriptValue| encode_model(a@),
            ),
        decreases args@.len() - j,
    {
        let token = encode(&args[j]);
        push_arg(&mut c, token.as_str());
        proof {
            assert(args@.take(j + 1).map_values(|a: ScriptValue| encode_model(a@))
                =~= args@.take(j as int).map_values(|a: ScriptValue| encode_model(a@)).push(
                token@,
            ));
            assert(cmd_tokens(c) =~= seq![name@] + args@.take(j + 1).map_values(
                |a: ScriptValue| encode_model(a@),
            ));
        }
        j = j + 1;
    }
    proof {
        assert(args@.take(args@.len() as int) =~= args@);
    }
    c
}

impl RedisClient {
    /// The abstract state of this handle's transaction mirror.
    pub open spec fn txn_model(self) -> TxnModel {
        TxnModel { state: self.state, staged: self.staged as nat }
    }

    /// Wraps one live connection in a fresh shared handle, with no
    /// transaction window open.
    pub fn new(conn: redis::Connection) -> (c: Self)
        ensures
            c.txn_model() == (TxnModel { state: TxnState::Idle, staged: 0 as nat }),
    {
        RedisClient { conn: Arc::new(Mutex::new(conn)), state: TxnState::Idle, staged: 0 }
    }

    /// Dispatches one command: encodes the arguments in order, performs one
    /// exclusive round trip, and decodes the reply. The result is always
    /// some reply's decoding; a transport failure is reported to the
    /// diagnostic sink and decodes as the unit value (fail-soft by
    /// design). While a window is open, a staged command is acknowledged
    /// with the `QUEUED` status and counted in this handle's mirror; the
    /// count stops growing at its maximum rather than wrapping.
    pub fn cmd(&mut self, command: &str, args: Vec<ScriptValue>) -> (r: ScriptValue)
        ensures
            is_decoded_reply(r@),
            final(self).conn == old(self).conn,
            final(self).state == old(self).state,
            old(self).state is Idle ==> final(self).txn_model() == old(self).txn_model(),
            final(self).txn_model() == old(self).txn_model() || final(self).txn_model()
                == txn_queue(old(self).txn_model()),
            old(self).state is Accumulating && old(self).staged < u64::MAX ==> ((
            final(self).txn_model() == txn_queue(old(self).txn_model())) <==> r@
                == crate::value::ScriptModel::Str("QUEUED"@)),
    {
        let c = build_command(command, &args);
        let reply = locked_query(&self.conn, &c);
        let r = match reply {
            Ok(v) => {
                let p = protocol_of_value(v);
                redis_value_to_dynamic(&p)
            },
            Err(e) => {
                log_transport_error(&e);
                ScriptValue::Unit
            },
        };
        proof {
            // The unit value is itself a decoding: the nil reply's.
            assert(crate::convert::decode_model(crate::value::ProtocolModel::Nil)
                == crate::value::ScriptModel::Unit);
        }
        if self.state == TxnState::Accumulating && self.staged < u64::MAX {
            let queued = "QUEUED".to_owned();
            let is_queued = match &r {
                ScriptValue::Str(s) => *s == queued,
                _ => false,
            };
            if is_queued {
                self.staged = self.staged + 1;
            }
        }
        r
    }

    /// Opens a transaction window: dispatches the window-opening command
    /// and, when the transport accepts it, moves the mirror to
    /// `Accumulating` with nothing staged. Calling this while a window is
    /// already open is a protocol misuse that is not rejected here: it is
    /// forwarded, and the store's error reply makes the call return false.
    pub fn multi(&mut self) -> (r: bool)
        ensures
            final(self).conn == old(self).conn,
            r ==> final(self).txn_model() == txn_begin(old(self).txn_model()),
            !r ==> final(self).txn_model() == old(self).txn_model(),
    {
        let c = new_command("MULTI");
        let reply = locked_query(&self.conn, &c);
        match reply {
            Ok(_) => {
                self.state = TxnState::Accumulating;
                self.staged = 0;
                true
            },
            Err(_) => false,
        }
    }

    /// Commits the open window: dispatches the window-committing command
    /// and returns the staged commands' results, each decoded, in staging
    /// order, exactly as [`commit_values`] states of the reply received.
    /// The mirror returns to `Idle` whatever the reply was. Committing
    /// with no window open is forwarded, not rejected, and yields no
    /// results.
    pub fn exec(&mut self) -> (rs: Vec<ScriptValue>)
        ensures
            final(self).conn == old(self).conn,
            final(self).txn_model() == txn_close(old(self).txn_model()),
            forall|i: int| 0 <= i < rs@.len() ==> is_decoded_reply(#[trigger] rs@[i]@),
    {
        let c = new_command("EXEC");
        let reply = locked_query(&self.conn, &c);
        self.state = TxnState::Idle;
        self.staged = 0;
        match reply {
            Ok(v) => {
                let p = protocol_of_value(v);
                let rs = commit_values(&p);
                proof {
                    lemma_commit_values_decoded(p@, rs@);
                }
                rs
            },
            Err(_) => Vec::new(),
        }
    }

    /// Discards the open window: dispatches the window-discarding command;
    /// the staged commands have no effect. When the transport accepts it,
    /// the mirror returns to `Idle` with nothing staged.
    pub fn discard(&mut self) -> (r: bool)
        ensures
            final(self).conn == old(self).conn,
            r ==> final(self).txn_model() == txn_close(old(self).txn_model()),
            !r ==> final(self).txn_model() == old(self).txn_model(),
    {
        let c = new_command("DISCARD");
        let reply = locked_query(&self.conn, &c);
        match reply {
            Ok(_) => {
                self.state = TxnState::Idle;
                self.staged = 0;
                true
            },
            Err(_) => false,
        }
    }
}

/// Every result a commit reply decodes to is itself some reply's decoding.
proof fn lemma_commit_values_decoded(reply: crate::value::ProtocolModel, rs: Seq<ScriptValue>)
    requires
        rs.map_values(|v: ScriptValue| v@) == crate::txn::commit_results(reply),
    ensures
        forall|i: int| 0 <= i < rs.len() ==> is_decoded_reply(#[trigger] rs[i]@),
{
    if reply is Array {
        let xs = reply->Array_0;
        assert forall|i: int| 0 <= i < rs.len() implies is_decoded_reply(#[trigger] rs[i]@) by {
            assert(rs.map_values(|v: ScriptValue| v@).len() == rs.len());
            assert(crate::convert::decode_items(xs).len() == xs.len());
            assert(rs[i]@ == rs.map_values(|v: ScriptValue| v@)[i]);
            assert(rs[i]@ == crate::convert::decode_items(xs)[i]);
            assert(rs[i]@ == crate::convert::decode_model(xs[i]));
        }
    } else {
        assert(rs.map_values(|v: ScriptValue| v@).len() == 0);
    }
}

} // verus!
