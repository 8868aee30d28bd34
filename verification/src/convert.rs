//! The value converter: a total decoding of wire replies into script
//! values, and the encoding of script values into wire argument tokens.
//! Decoding never fails: every reply variant, recognized or not, maps to
//! some script value.

use vstd::prelude::*;

use crate::text::display_model;
use crate::text::utf8_lossy;
use crate::text::utf8_lossy_of;
use crate::value::ProtocolModel;
use crate::value::ProtocolValue;
use crate::value::ScriptModel;
use crate::value::ScriptValue;

verus! {

broadcast use vstd::std_specs::vec::axiom_vec_index_decreases;

/// The index of the first entry of `m` whose key is `k`, or `-1` when no
/// entry has that key.
pub open spec fn dict_key_index(m: Seq<(Seq<char>, ScriptModel)>, k: Seq<char>) -> int
    decreases m.len(),
{
    if m.len() == 0 {
        -1
    } else if m[0].0 == k {
        0
    } else {
        let r = dict_key_index(m.drop_first(), k);
        if r < 0 {
            -1
        } else {
            r + 1
        }
    }
}

/// Inserts `(k, v)` into the ordered map `m`: a later duplicate key
/// overwrites the earlier entry's value in place, keeping its position; a
/// new key is appended.
pub open spec fn dict_insert(
    m: Seq<(Seq<char>, ScriptModel)>,
    k: Seq<char>,
    v: ScriptModel,
) -> Seq<(Seq<char>, ScriptModel)> {
    let i = dict_key_index(m, k);
    if i < 0 {
        m.push((k, v))
    } else {
        m.update(i, (k, v))
    }
}

/// The ordered map built by inserting the given entries left to right.
pub open spec fn dict_of_entries(
    es: Seq<(Seq<char>, ScriptModel)>,
) -> Seq<(Seq<char>, ScriptModel)>
    decreases es.len(),
{
    if es.len() == 0 {
        Seq::empty()
    } else {
        dict_insert(dict_of_entries(es.drop_last()), es.last().0, es.last().1)
    }
}

/// What decoding yields on every wire reply: nil becomes unit, integers
/// stay integers, byte strings decode as lossy UTF-8 text, statuses become
/// their text, arrays decode element by element in order, maps decode with
/// every key coerced to text ([`key_text_model`]) and later duplicate keys
/// overwriting earlier ones, and any other reply becomes its textual
/// rendering.
pub open spec fn decode_model(p: ProtocolModel) -> ScriptModel
    decreases p,
{
    match p {
        ProtocolModel::Nil => ScriptModel::Unit,
        ProtocolModel::Int(i) => ScriptModel::Int(i),
        ProtocolModel::Bytes(b) => ScriptModel::Str(utf8_lossy_of(b)),
        ProtocolModel::Status(s) => ScriptModel::Str(s),
        ProtocolModel::Array(xs) => ScriptModel::Array(decode_items(xs)),
        ProtocolModel::Dict(ps) => ScriptModel::Dict(dict_of_entries(decode_entries(ps))),
        ProtocolModel::Other(d) => ScriptModel::Str(d),
    }
}

/// The decodings of a sequence of replies, element by element, in order.
pub open spec fn decode_items(xs: Seq<ProtocolModel>) -> Seq<ScriptModel>
    decreases xs,
{
    Seq::new(
        xs.len(),
        |i: int|
            if 0 <= i < xs.len() {
                decode_model(xs[i])
            } else {
                ScriptModel::Unit
            },
    )
}

/// The text a map key coerces to: a byte-string key decodes as lossy
/// UTF-8, a status key is its text, and any other key is the debug
/// rendering of the wire value (an unrecognized key already carries that
/// rendering).
pub open spec fn key_text_model(k: ProtocolModel) -> Seq<char> {
    match k {
        ProtocolModel::Bytes(b) => utf8_lossy_of(b),
        ProtocolModel::Status(s) => s,
        _ => crate::text::debug_model(k),
    }
}

/// The decodings of a sequence of reply pairs: each key is coerced to its
/// text, each value is decoded, in order.
pub open spec fn decode_entries(ps: Seq<(ProtocolModel, ProtocolModel)>) -> Seq<
    (Seq<char>, ScriptModel),
>
    decreases ps,
{
    Seq::new(
        ps.len(),
        |i: int|
            if 0 <= i < ps.len() {
                (key_text_model(ps[i].0), decode_model(ps[i].1))
            } else {
                (Seq::empty(), ScriptModel::Unit)
            },
    )
}

/// Coerces a map key to its text, exactly as [`key_text_model`] states.
fn key_text(k: &ProtocolValue) -> (s: String)
    ensures
        s@ == key_text_model(k@),
{
    match k {
        ProtocolValue::Bytes(b) => utf8_lossy(b),
        ProtocolValue::Status(s) => s.clone(),
        _ => k.to_debug_text(),
    }
}

/// The entries of an executable ordered map, as their models.
pub open spec fn entries_model(m: Seq<(String, ScriptValue)>) -> Seq<(Seq<char>, ScriptModel)> {
    Seq::new(m.len(), |i: int| (m[i].0@, m[i].1@))
}

/// Inserts `(k, v)` into the executable ordered map, exactly as
/// [`dict_insert`] states: a duplicate key overwrites in place, a new key
/// is appended.
fn dict_upsert(m: &mut Vec<(String, ScriptValue)>, k: String, v: ScriptValue)
    ensures
        entries_model(final(m)@) == dict_insert(entries_model(old(m)@), k@, v@),
{
    let ghost m0 = entries_model(m@);
    proof {
        lemma_dict_key_index_bounds(m0, k@);
    }
    let mut j: usize = 0;
    while j < m.len()
        invariant
            j <= m.len(),
            m@ == old(m)@,
            m0 == entries_model(m@),
            forall|t: int| 0 <= t < j ==> m@[t].0@ != k@,
        decreases m.len() - j,
    {
        if m[j].0 == k {
            proof {
                lemma_dict_key_index_first(m0, k@, j as int);
            }
            m[j] = (k, v);
            proof {
                assert(entries_model(m@) =~= dict_insert(m0, k@, v@));
            }
            return ;
        }
        j = j + 1;
    }
    proof {
        lemma_dict_key_index_absent(m0, k@);
    }
    m.push((k, v));
    proof {
        assert(entries_model(m@) =~= dict_insert(m0, k@, v@));
    }
}

/// Where `dict_key_index` lands: either `-1`, or a position holding `k`.
pub proof fn lemma_dict_key_index_bounds(m: Seq<(Seq<char>, ScriptModel)>, k: Seq<char>)
    ensures
        dict_key_index(m, k) == -1 || (0 <= dict_key_index(m, k) < m.len() && m[dict_key_index(
            m,
            k,
        )].0 == k),
    decreases m.len(),
{
    if m.len() > 0 && m[0].0 != k {
        lemma_dict_key_index_bounds(m.drop_first(), k);
    }
}

/// When no entry holds `k`, `dict_key_index` is `-1`.
pub proof fn lemma_dict_key_index_absent(m: Seq<(Seq<char>, ScriptModel)>, k: Seq<char>)
    requires
        forall|t: int| 0 <= t < m.len() ==> m[t].0 != k,
    ensures
        dict_key_index(m, k) == -1,
    decreases m.len(),
{
    if m.len() > 0 {
        assert(forall|t: int|
            0 <= t < m.drop_first().len() ==> m.drop_first()[t].0 == m[t + 1].0);
        lemma_dict_key_index_absent(m.drop_first(), k);
    }
}

/// When position `j` holds `k` and no earlier position does,
/// `dict_key_index` is exactly `j`.
pub proof fn lemma_dict_key_index_first(m: Seq<(Seq<char>, ScriptModel)>, k: Seq<char>, j: int)
    requires
        0 <= j < m.len(),
        m[j].0 == k,
        forall|t: int| 0 <= t < j ==> m[t].0 != k,
    ensures
        dict_key_index(m, k) == j,
    decreases m.len(),
{
    if j > 0 {
        assert(m.drop_first()[j - 1].0 == k);
        assert(forall|t: int|
            0 <= t < j - 1 ==> m.drop_first()[t].0 == m[t + 1].0 && m[t + 1].0 != k);
        lemma_dict_key_index_first(m.drop_first(), k, j - 1);
    }
}

/// `dict_key_index` is the first index: no earlier entry holds `k`.
pub proof fn lemma_dict_key_index_prefix(m: Seq<(Seq<char>, ScriptModel)>, k: Seq<char>)
    requires
        dict_key_index(m, k) >= 0,
    ensures
        forall|t: int| 0 <= t < dict_key_index(m, k) ==> m[t].0 != k,
    decreases m.len(),
{
    if m.len() > 0 && m[0].0 != k {
        lemma_dict_key_index_bounds(m, k);
        lemma_dict_key_index_prefix(m.drop_first(), k);
        assert forall|t: int| 0 <= t < dict_key_index(m, k) implies m[t].0 != k by {
            if t > 0 {
                assert(m[t] == m.drop_first()[t - 1]);
            }
        }
    }
}

/// When `dict_key_index` finds nothing, no entry holds `k`.
pub proof fn lemma_dict_key_index_missing(m: Seq<(Seq<char>, ScriptModel)>, k: Seq<char>)
    requires
        dict_key_index(m, k) == -1,
    ensures
        forall|t: int| 0 <= t < m.len() ==> m[t].0 != k,
    decreases m.len(),
{
    if m.len() > 0 {
        lemma_dict_key_index_missing(m.drop_first(), k);
        assert forall|t: int| 0 <= t < m.len() implies m[t].0 != k by {
            if t > 0 {
                assert(m[t] == m.drop_first()[t - 1]);
            }
        }
    }
}

/// Law: an ordered map built by insertion has pairwise distinct keys; a
/// decoded map is a true map.
pub proof fn lemma_dict_of_entries_unique_keys(es: Seq<(Seq<char>, ScriptModel)>)
    ensures
        forall|a: int, b: int|
            0 <= a < b < dict_of_entries(es).len() ==> dict_of_entries(es)[a].0
                != dict_of_entries(es)[b].0,
    decreases es.len(),
{
    if es.len() > 0 {
        lemma_dict_of_entries_unique_keys(es.drop_last());
        let m = dict_of_entries(es.drop_last());
        let k = es.last().0;
        let v = es.last().1;
        lemma_dict_key_index_bounds(m, k);
        if dict_key_index(m, k) == -1 {
            lemma_dict_key_index_missing(m, k);
            assert forall|a: int, b: int|
                0 <= a < b < dict_insert(m, k, v).len() implies dict_insert(m, k, v)[a].0
                != dict_insert(m, k, v)[b].0 by {
                if b < m.len() {
                    assert(dict_insert(m, k, v)[a] == m[a]);
                    assert(dict_insert(m, k, v)[b] == m[b]);
                } else {
                    assert(dict_insert(m, k, v)[a] == m[a]);
                    assert(dict_insert(m, k, v)[b] == (k, v));
                }
            }
        }
    }
}

/// Law: when the entries' keys are already pairwise distinct, insertion
/// preserves them verbatim: the entry count and the order are exactly
/// those of the entries given.
pub proof fn lemma_dict_of_entries_distinct_identity(es: Seq<(Seq<char>, ScriptModel)>)
    requires
        forall|a: int, b: int| 0 <= a < b < es.len() ==> es[a].0 != es[b].0,
    ensures
        dict_of_entries(es) == es,
    decreases es.len(),
{
    if es.len() > 0 {
        let head = es.drop_last();
        assert(forall|a: int, b: int|
            0 <= a < b < head.len() ==> head[a].0 == es[a].0 && head[b].0 == es[b].0);
        lemma_dict_of_entries_distinct_identity(head);
        assert(forall|t: int| 0 <= t < head.len() ==> head[t].0 != es.last().0);
        lemma_dict_key_index_absent(head, es.last().0);
        assert(dict_of_entries(es) =~= es);
    }
}

/// The keys of an ordered map, in order.
pub open spec fn dict_keys(m: Seq<(Seq<char>, ScriptModel)>) -> Seq<Seq<char>> {
    m.map_values(|e: (Seq<char>, ScriptModel)| e.0)
}

/// The index of the last entry with key `k`, or `-1` when none has it.
pub open spec fn last_key_index(es: Seq<(Seq<char>, ScriptModel)>, k: Seq<char>) -> int
    decreases es.len(),
{
    if es.len() == 0 {
        -1
    } else if es.last().0 == k {
        es.len() - 1
    } else {
        last_key_index(es.drop_last(), k)
    }
}

/// Where `last_key_index` lands: either `-1`, or a position holding `k`.
pub proof fn lemma_last_key_index_bounds(es: Seq<(Seq<char>, ScriptModel)>, k: Seq<char>)
    ensures
        last_key_index(es, k) == -1 || (0 <= last_key_index(es, k) < es.len() && es[last_key_index(
            es,
            k,
        )].0 == k),
    decreases es.len(),
{
    if es.len() > 0 && es.last().0 != k {
        lemma_last_key_index_bounds(es.drop_last(), k);
        let i = last_key_index(es.drop_last(), k);
        if i >= 0 {
            assert(es.drop_last()[i] == es[i]);
        }
    }
}

/// Insertion keeps the set of keys: the built map holds exactly the keys
/// the entries hold.
pub proof fn lemma_dict_of_entries_key_set(es: Seq<(Seq<char>, ScriptModel)>)
    ensures
        dict_keys(dict_of_entries(es)).to_set() == dict_keys(es).to_set(),
    decreases es.len(),
{
    broadcast use vstd::seq_lib::group_seq_lib_default;

    if es.len() == 0 {
        assert(dict_keys(dict_of_entries(es)) =~= dict_keys(es));
    } else {
        let es0 = es.drop_last();
        let e = es.last();
        let m0 = dict_of_entries(es0);
        let m = dict_of_entries(es);
        lemma_dict_of_entries_key_set(es0);
        lemma_dict_key_index_bounds(m0, e.0);
        assert(dict_keys(es0) =~= dict_keys(es).drop_last());
        assert(dict_keys(es) =~= dict_keys(es0).push(e.0));
        assert(dict_keys(es).to_set() =~= dict_keys(es0).to_set().insert(e.0)) by {
            lemma_push_to_set(dict_keys(es0), e.0);
        }
        let i = dict_key_index(m0, e.0);
        if i < 0 {
            assert(dict_keys(m) =~= dict_keys(m0).push(e.0));
            assert(dict_keys(m).to_set() =~= dict_keys(m0).to_set().insert(e.0)) by {
                lemma_push_to_set(dict_keys(m0), e.0);
            }
        } else {
            // Overwriting replaces the value at an entry whose key is
            // already `e.0`, so the key sequence is unchanged.
            assert(dict_keys(m) =~= dict_keys(m0));
            assert(dict_keys(m0).to_set().contains(e.0)) by {
                assert(dict_keys(m0)[i] == e.0);
            }
            assert(dict_keys(m0).to_set().insert(e.0) =~= dict_keys(m0).to_set());
        }
    }
}

/// Pushing an element onto a sequence inserts it into the sequence's set.
proof fn lemma_push_to_set(s: Seq<Seq<char>>, x: Seq<char>)
    ensures
        s.push(x).to_set() == s.to_set().insert(x),
{
    broadcast use vstd::set::group_set_axioms;

    assert forall|y: Seq<char>| s.push(x).to_set().contains(y) implies s.to_set().insert(
        x,
    ).contains(y) by {
        let t = choose|t: int| 0 <= t < s.push(x).len() && s.push(x)[t] == y;
        if t < s.len() {
            assert(s[t] == y);
        }
    }
    assert forall|y: Seq<char>| s.to_set().insert(x).contains(y) implies s.push(
        x,
    ).to_set().contains(y) by {
        if y == x {
            assert(s.push(x)[s.len() as int] == y);
        } else {
            let t = choose|t: int| 0 <= t < s.len() && s[t] == y;
            assert(s.push(x)[t] == y);
        }
    }
    assert(s.push(x).to_set() =~= s.to_set().insert(x));
}

/// Law: for every key the entries hold, the built map holds exactly the
/// value of the last entry with that key: a later duplicate overwrites an
/// earlier one.
pub proof fn lemma_dict_of_entries_last_wins(es: Seq<(Seq<char>, ScriptModel)>, k: Seq<char>)
    requires
        last_key_index(es, k) >= 0,
    ensures
        ({
            let m = dict_of_entries(es);
            let i = dict_key_index(m, k);
            &&& 0 <= i < m.len()
            &&& m[i] == (k, es[last_key_index(es, k)].1)
        }),
    decreases es.len(),
{
    let es0 = es.drop_last();
    let e = es.last();
    let m0 = dict_of_entries(es0);
    let m = dict_of_entries(es);
    lemma_dict_key_index_bounds(m0, e.0);
    let j = dict_key_index(m0, e.0);
    if e.0 == k {
        if j < 0 {
            lemma_dict_insert_appends(m0, k, e.1);
            lemma_dict_key_index_missing(m0, k);
            lemma_dict_key_index_first(m, k, m0.len() as int);
        } else {
            lemma_dict_insert_overwrites(m0, k, e.1);
            lemma_dict_key_index_prefix(m0, k);
            lemma_dict_key_index_first(m, k, j);
        }
    } else {
        lemma_last_key_index_bounds(es0, k);
        lemma_dict_of_entries_last_wins(es0, k);
        let i0 = dict_key_index(m0, k);
        lemma_dict_key_index_bounds(m0, k);
        lemma_dict_key_index_prefix(m0, k);
        if j < 0 {
            lemma_dict_insert_appends(m0, e.0, e.1);
            lemma_dict_key_index_first(m, k, i0);
        } else {
            lemma_dict_insert_overwrites(m0, e.0, e.1);
            assert(m0[j].0 == e.0);
            lemma_dict_key_index_first(m, k, i0);
        }
        assert(es0[last_key_index(es0, k)] == es[last_key_index(es0, k)]);
    }
}

/// Law: the built map has one entry per distinct key among the entries:
/// its entry count is the number of distinct key texts.
pub proof fn lemma_dict_of_entries_distinct_count(es: Seq<(Seq<char>, ScriptModel)>)
    ensures
        dict_of_entries(es).len() == dict_keys(es).to_set().len(),
{
    broadcast use vstd::set::group_set_axioms;

    let m = dict_of_entries(es);
    lemma_dict_of_entries_unique_keys(es);
    assert(dict_keys(m).no_duplicates()) by {
        assert(forall|a: int, b: int|
            0 <= a < b < m.len() ==> dict_keys(m)[a] == m[a].0 && dict_keys(m)[b] == m[b].0);
    }
    dict_keys(m).unique_seq_to_set();
    lemma_dict_of_entries_key_set(es);
    assert(dict_keys(m).len() == m.len());
}

/// Law: a decoded map holds one entry per distinct key text, and for each
/// key text it holds the decoded value of the last reply pair whose key
/// coerces to that text: later duplicate keys overwrite earlier ones.
pub proof fn lemma_decode_map_last_wins_and_count(
    ps: Seq<(ProtocolModel, ProtocolModel)>,
    k: Seq<char>,
)
    requires
        last_key_index(decode_entries(ps), k) >= 0,
    ensures
        ({
            let es = decode_entries(ps);
            let m = decode_model(ProtocolModel::Dict(ps))->Dict_0;
            let i = dict_key_index(m, k);
            let li = last_key_index(es, k);
            &&& m.len() == dict_keys(es).to_set().len()
            &&& 0 <= i < m.len()
            &&& m[i] == (k, es[li].1)
            &&& 0 <= li < ps.len() && es[li].1 == decode_model(ps[li].1)
        }),
{
    let es = decode_entries(ps);
    lemma_last_key_index_bounds(es, k);
    lemma_dict_of_entries_last_wins(es, k);
    lemma_dict_of_entries_distinct_count(es);
}

/// Whether a script value could have come out of decoding: it is some
/// reply's decoding.
pub open spec fn is_decoded_reply(v: ScriptModel) -> bool {
    exists|p: ProtocolModel| v == decode_model(p)
}

/// The wire argument token for a script value, as text: a string's own
/// text, decimal text for an integer, the decimal rendering a float
/// carries, and the display rendering for anything else.
pub open spec fn encode_model(v: ScriptModel) -> Seq<char> {
    match v {
        ScriptModel::Str(s) => s,
        ScriptModel::Int(i) => crate::text::decimal_of_int(i),
        ScriptModel::Float(t) => t,
        _ => display_model(v),
    }
}

/// Encodes a script value as one wire argument token, exactly as
/// [`encode_model`] states. Integer encoding is stable: equal integers
/// always yield the same token.
pub fn encode(v: &ScriptValue) -> (t: String)
    ensures
        t@ == encode_model(v@),
{
    match v {
        ScriptValue::Str(s) => s.clone(),
        ScriptValue::Int(i) => crate::text::int_to_decimal(*i),
        ScriptValue::Float(t) => t.clone(),
        _ => v.to_text(),
    }
}

/// Pairs a flat field-value reply into ordered map entries: element `2i`
/// is the `i`th field, coerced to its display text, and element `2i + 1`
/// its value. A dangling final field with no value is dropped.
pub fn pair_entries(items: Vec<ScriptValue>) -> (r: Vec<(String, ScriptValue)>)
    ensures
        r@.len() == items@.len() / 2,
        forall|i: int|
            0 <= i < r@.len() ==> r@[i].0@ == display_model(items@[2 * i]@) && r@[i].1 == items@[2
                * i + 1],
{
    let ghost orig = items@;
    let mut rest = items;
    let mut out: Vec<(String, ScriptValue)> = Vec::new();
    while rest.len() >= 2
        invariant
            2 * out@.len() <= orig.len(),
            rest@ == orig.skip(2 * out@.len() as int),
            forall|i: int|
                0 <= i < out@.len() ==> out@[i].0@ == display_model(orig[2 * i]@) && out@[i].1
                    == orig[2 * i + 1],
        decreases rest@.len(),
    {
        let field = rest.remove(0);
        let value = rest.remove(0);
        let name = match field {
            ScriptValue::Str(s) => s,
            other => other.to_text(),
        };
        out.push((name, value));
        proof {
            assert(rest@ =~= orig.skip(2 * out@.len() as int));
        }
    }
    out
}

/// Law: decoding preserves an array's length and order; element `i` of
/// the decoded array is the decoding of element `i` of the reply, and
/// nested arrays decode by the same rule.
pub proof fn lemma_decode_preserves_order(xs: Seq<ProtocolModel>)
    ensures
        decode_model(ProtocolModel::Array(xs)) matches ScriptModel::Array(ys) && ys.len()
            == xs.len() && (forall|i: int| 0 <= i < xs.len() ==> ys[i] == decode_model(xs[i])),
{
}

/// Law: the encoding of an integer argument is round-trippable; parsing
/// the encoded token yields the integer back.
pub proof fn lemma_encode_int_round_trip(i: int)
    ensures
        crate::text::parse_decimal(encode_model(ScriptModel::Int(i))) == i,
{
    crate::text::lemma_decimal_round_trip(i);
}

/// Law: inserting an entry under a key that is already present overwrites
/// that entry in place. The value is replaced, and the position, the key,
/// the entry count, and every other entry are unchanged.
pub proof fn lemma_dict_insert_overwrites(
    m: Seq<(Seq<char>, ScriptModel)>,
    k: Seq<char>,
    v: ScriptModel,
)
    requires
        dict_key_index(m, k) >= 0,
    ensures
        dict_insert(m, k, v).len() == m.len(),
        dict_insert(m, k, v)[dict_key_index(m, k)] == (k, v),
        forall|t: int|
            0 <= t < m.len() && t != dict_key_index(m, k) ==> dict_insert(m, k, v)[t] == m[t],
{
    lemma_dict_key_index_bounds(m, k);
}

/// Law: inserting an entry under a fresh key appends it, leaving every
/// earlier entry in place.
pub proof fn lemma_dict_insert_appends(
    m: Seq<(Seq<char>, ScriptModel)>,
    k: Seq<char>,
    v: ScriptModel,
)
    requires
        dict_key_index(m, k) == -1,
    ensures
        dict_insert(m, k, v).len() == m.len() + 1,
        dict_insert(m, k, v).last() == (k, v),
        forall|t: int| 0 <= t < m.len() ==> dict_insert(m, k, v)[t] == m[t],
{
}

/// Decodes one wire reply into a script value, exactly as [`decode_model`]
/// states. Decoding is total: it succeeds on every reply.
#[verifier::loop_isolation(false)]
pub fn redis_value_to_dynamic(value: &ProtocolValue) -> (r: ScriptValue)
    ensures
        r@ == decode_model(value@),
    decreases *value,
{
    match value {
        ProtocolValue::Nil => ScriptValue::Unit,
        ProtocolValue::Int(i) => ScriptValue::Int(*i),
        ProtocolValue::Bytes(b) => ScriptValue::Str(utf8_lossy(b)),
        ProtocolValue::Status(s) => ScriptValue::Str(s.clone()),
        ProtocolValue::Array(xs) => {
            let ghost ms = value@->Array_0;
            let mut items: Vec<ScriptValue> = Vec::new();
            let mut j: usize = 0;
            while j < xs.len()
                invariant
                    j <= xs.len(),
                    items@.len() == j,
                    forall|t: int| 0 <= t < j ==> items@[t]@ == decode_items(ms)[t],
                decreases xs.len() - j,
            {
                let item = redis_value_to_dynamic(&xs[j]);
                items.push(item);
                j = j + 1;
            }
            let r = ScriptValue::Array(items);
            proof {
                assert(r@->Array_0 =~= decode_items(ms));
            }
            r
        },
        ProtocolValue::Dict(ps) => {
            let ghost ms = value@->Dict_0;
            let mut entries: Vec<(String, ScriptValue)> = Vec::new();
            let mut j: usize = 0;
            while j < ps.len()
                invariant
                    j <= ps.len(),
                    entries_model(entries@) == dict_of_entries(decode_entries(ms).take(j as int)),
                decreases ps.len() - j,
            {
                let key = key_text(&ps[j].0);
                let val = redis_value_to_dynamic(&ps[j].1);
                dict_upsert(&mut entries, key, val);
                proof {
                    assert(decode_entries(ms).take(j + 1).drop_last() =~= decode_entries(
                        ms,
                    ).take(j as int));
                }
                j = j + 1;
            }
            let r = ScriptValue::Dict(entries);
            proof {
                assert(decode_entries(ms).take(ms.len() as int) =~= decode_entries(ms));
                assert(entries_model(entries@) =~= r@->Dict_0);
            }
            r
        },
        ProtocolValue::Other(d) => ScriptValue::Str(d.clone()),
    }
}

} // verus!
