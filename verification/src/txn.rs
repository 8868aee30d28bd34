//! The transaction sequencer model: the window state a connection moves
//! through while commands are staged, and what a commit's reply decodes to.
//! The staged-command state lives on the physical connection, so a client
//! object can only mirror it; the mirror is faithful as long as one window
//! is driven from one handle at a time (see the client's documentation).

use vstd::prelude::*;

use crate::convert::decode_items;
use crate::convert::decode_model;
use crate::convert::redis_value_to_dynamic;
use crate::value::ProtocolModel;
use crate::value::ProtocolValue;
use crate::value::ScriptModel;
use crate::value::ScriptValue;

verus! {

/// The transaction window state of a connection: no window open, or a
/// window open and staging commands.
#[derive(Clone, Copy, Debug, PartialEq, Eq, Structural)]
pub enum TxnState {
    /// No transaction window is open; commands run immediately.
    Idle,
    /// A window is open; dispatched commands are staged, not run.
    Accumulating,
}

/// The abstract sequencer state: the window state, and how many commands
/// the open window has staged.
pub struct TxnModel {
    pub state: TxnState,
    pub staged: nat,
}

/// Opening a window: the state becomes `Accumulating` with nothing staged.
pub open spec fn txn_begin(m: TxnModel) -> TxnModel {
    TxnModel { state: TxnState::Accumulating, staged: 0 }
}

/// Staging one command: inside a window the staged count grows by one;
/// with no window open a dispatch runs immediately and stages nothing.
pub open spec fn txn_queue(m: TxnModel) -> TxnModel {
    if m.state is Accumulating {
        TxnModel { state: m.state, staged: m.staged + 1 }
    } else {
        m
    }
}

/// Staging `n` commands, one after the other.
pub open spec fn txn_queue_n(m: TxnModel, n: nat) -> TxnModel
    decreases n,
{
    if n == 0 {
        m
    } else {
        txn_queue(txn_queue_n(m, (n - 1) as nat))
    }
}

/// Closing a window, by commit or by discard: the state returns to `Idle`
/// and nothing is staged.
pub open spec fn txn_close(m: TxnModel) -> TxnModel {
    TxnModel { state: TxnState::Idle, staged: 0 }
}

/// What a commit's reply yields: an array reply decodes to its elements,
/// in staging order; any other reply yields no results.
pub open spec fn commit_results(reply: ProtocolModel) -> Seq<ScriptModel> {
    match reply {
        ProtocolModel::Array(xs) => decode_items(xs),
        _ => Seq::empty(),
    }
}

/// The results a commit reply carries, exactly as [`commit_results`]
/// states: an array reply decodes element by element, in staging order;
/// any other reply yields none.
#[verifier::loop_isolation(false)]
pub fn commit_values(reply: &ProtocolValue) -> (rs: Vec<ScriptValue>)
    ensures
        rs@.map_values(|v: ScriptValue| v@) == commit_results(reply@),
{
    match reply {
        ProtocolValue::Array(xs) => {
            let ghost ms = reply@->Array_0;
            let mut rs: Vec<ScriptValue> = Vec::new();
            let mut j: usize = 0;
            while j < xs.len()
                invariant
                    j <= xs@.len(),
                    rs@.len() == j,
                    forall|t: int| 0 <= t < j ==> rs@[t]@ == decode_items(ms)[t],
                decreases xs@.len() - j,
            {
                let item = redis_value_to_dynamic(&xs[j]);
                rs.push(item);
                j = j + 1;
            }
            proof {
                assert(rs@.map_values(|v: ScriptValue| v@) =~= decode_items(ms));
            }
            rs
        },
        _ => {
            let rs: Vec<ScriptValue> = Vec::new();
            proof {
                assert(rs@.map_values(|v: ScriptValue| v@) =~= commit_results(reply@));
            }
            rs
        },
    }
}

/// Staging `n` commands inside an open window keeps the window open and
/// grows the staged count by exactly `n`.
pub proof fn lemma_txn_queue_n_accumulates(m: TxnModel, n: nat)
    requires
        m.state is Accumulating,
    ensures
        txn_queue_n(m, n).state is Accumulating,
        txn_queue_n(m, n).staged == m.staged + n,
    decreases n,
{
    if n > 0 {
        lemma_txn_queue_n_accumulates(m, (n - 1) as nat);
    }
}

/// Law (transaction happy path): opening a window and staging `n` commands
/// leaves the window open with exactly `n` commands staged; committing
/// against a reply that lists one result per staged command returns
/// exactly those results, each decoded, in staging order, and closes the
/// window.
pub proof fn lemma_transaction_happy_path(m0: TxnModel, n: nat, rs: Seq<ProtocolModel>)
    requires
        rs.len() == txn_queue_n(txn_begin(m0), n).staged,
    ensures
        txn_begin(m0).state is Accumulating,
        txn_begin(m0).staged == 0,
        txn_queue_n(txn_begin(m0), n).state is Accumulating,
        txn_queue_n(txn_begin(m0), n).staged == n,
        rs.len() == n,
        commit_results(ProtocolModel::Array(rs)).len() == n,
        forall|i: int|
            0 <= i < n ==> commit_results(ProtocolModel::Array(rs))[i] == decode_model(rs[i]),
        txn_close(txn_queue_n(txn_begin(m0), n)).state is Idle,
        txn_close(txn_queue_n(txn_begin(m0), n)).staged == 0,
{
    lemma_txn_queue_n_accumulates(txn_begin(m0), n);
}

/// Law (discard path): discarding closes the window with nothing staged
/// and yields no results, and the nil reply a later read of a discarded
/// write returns decodes to the unit value.
pub proof fn lemma_discard_path(m: TxnModel)
    ensures
        txn_close(m).state is Idle,
        txn_close(m).staged == 0,
        decode_model(ProtocolModel::Nil) == ScriptModel::Unit,
{
}

} // verus!
