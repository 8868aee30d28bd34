//! The two value representations: wire-level protocol replies and
//! script-visible dynamic values, each with its mathematical model.

use vstd::prelude::*;

verus! {

broadcast use vstd::std_specs::vec::axiom_vec_index_decreases;

/// A wire-level reply from the key-value store, as a closed tagged union.
/// Replies the transport does not recognize arrive as `Other`, already
/// rendered to text, so no reply is ever dropped.
#[derive(Debug, PartialEq, Eq)]
pub enum ProtocolValue {
    /// The nil reply.
    Nil,
    /// An integer reply.
    Int(i64),
    /// A binary-safe string reply.
    Bytes(Vec<u8>),
    /// A status (simple string) reply.
    Status(String),
    /// An ordered array of replies.
    Array(Vec<ProtocolValue>),
    /// An ordered list of key-value reply pairs.
    Dict(Vec<(ProtocolValue, ProtocolValue)>),
    /// Any other reply, rendered to text by the transport.
    Other(String),
}

/// The mathematical model of a [`ProtocolValue`].
pub enum ProtocolModel {
    Nil,
    Int(int),
    Bytes(Seq<u8>),
    Status(Seq<char>),
    Array(Seq<ProtocolModel>),
    Dict(Seq<(ProtocolModel, ProtocolModel)>),
    Other(Seq<char>),
}

impl ProtocolValue {
    /// The deep model of this reply: every nested sequence and string is
    /// taken to its abstract value. The in-range guard inside each closure
    /// keeps the recursion well-founded; the fallback arm is never read,
    /// since the sequence is exactly as long as the guard allows.
    pub open spec fn model(self) -> ProtocolModel
        decreases self,
    {
        match self {
            ProtocolValue::Nil => ProtocolModel::Nil,
            ProtocolValue::Int(i) => ProtocolModel::Int(i as int),
            ProtocolValue::Bytes(b) => ProtocolModel::Bytes(b@),
            ProtocolValue::Status(s) => ProtocolModel::Status(s@),
            ProtocolValue::Array(xs) => ProtocolModel::Array(
                Seq::new(
                    xs@.len(),
                    |i: int|
                        if 0 <= i < xs@.len() {
                            xs[i].model()
                        } else {
                            ProtocolModel::Nil
                        },
                ),
            ),
            ProtocolValue::Dict(ps) => ProtocolModel::Dict(
                Seq::new(
                    ps@.len(),
                    |i: int|
                        if 0 <= i < ps@.len() {
                            (ps[i].0.model(), ps[i].1.model())
                        } else {
                            (ProtocolModel::Nil, ProtocolModel::Nil)
                        },
                ),
            ),
            ProtocolValue::Other(d) => ProtocolModel::Other(d@),
        }
    }
}

impl View for ProtocolValue {
    type V = ProtocolModel;

    open spec fn view(&self) -> ProtocolModel {
        self.model()
    }
}

/// A script-visible dynamic value. A `Float` carries the decimal text that
/// stands for the number: the core never computes with the numeric value,
/// only forwards its rendering to the store.
#[derive(Debug, PartialEq, Eq)]
pub enum ScriptValue {
    /// The unit value.
    Unit,
    /// A boolean.
    Bool(bool),
    /// A signed integer.
    Int(i64),
    /// A floating-point number, as its decimal rendering.
    Float(String),
    /// A string.
    Str(String),
    /// An ordered array of values.
    Array(Vec<ScriptValue>),
    /// A string-keyed map, insertion order preserved.
    Dict(Vec<(String, ScriptValue)>),
}

/// The mathematical model of a [`ScriptValue`].
pub enum ScriptModel {
    Unit,
    Bool(bool),
    Int(int),
    Float(Seq<char>),
    Str(Seq<char>),
    Array(Seq<ScriptModel>),
    Dict(Seq<(Seq<char>, ScriptModel)>),
}

impl ScriptValue {
    /// The deep model of this value, guarded as [`ProtocolValue::model`] is.
    pub open spec fn model(self) -> ScriptModel
        decreases self,
    {
        match self {
            ScriptValue::Unit => ScriptModel::Unit,
            ScriptValue::Bool(b) => ScriptModel::Bool(b),
            ScriptValue::Int(i) => ScriptModel::Int(i as int),
            ScriptValue::Float(t) => ScriptModel::Float(t@),
            ScriptValue::Str(s) => ScriptModel::Str(s@),
            ScriptValue::Array(xs) => ScriptModel::Array(
                Seq::new(
                    xs@.len(),
                    |i: int|
                        if 0 <= i < xs@.len() {
                            xs[i].model()
                        } else {
                            ScriptModel::Unit
                        },
                ),
            ),
            ScriptValue::Dict(ps) => ScriptModel::Dict(
                Seq::new(
                    ps@.len(),
                    |i: int|
                        if 0 <= i < ps@.len() {
                            (ps[i].0@, ps[i].1.model())
                        } else {
                            (Seq::empty(), ScriptModel::Unit)
                        },
                ),
            ),
        }
    }
}

impl View for ScriptValue {
    type V = ScriptModel;

    open spec fn view(&self) -> ScriptModel {
        self.model()
    }
}

} // verus!
