//! Text rendering: decimal rendering of integers, the display form of
//! every script value, the debug form of every wire reply, and lossy
//! UTF-8 decoding of wire bytes. The display form is what the converter
//! sends for argument kinds that have no direct wire encoding; the debug
//! form is what a map key that is neither a byte string nor a status
//! coerces to.

use vstd::prelude::*;
use vstd::string::StringExecFns;

use crate::value::ProtocolModel;
use crate::value::ProtocolValue;
use crate::value::ScriptModel;
use crate::value::ScriptValue;

verus! {

broadcast use vstd::std_specs::vec::axiom_vec_index_decreases;

/// The character for one decimal digit.
pub open spec fn dec_digit(d: int) -> char {
    if d == 0 {
        '0'
    } else if d == 1 {
        '1'
    } else if d == 2 {
        '2'
    } else if d == 3 {
        '3'
    } else if d == 4 {
        '4'
    } else if d == 5 {
        '5'
    } else if d == 6 {
        '6'
    } else if d == 7 {
        '7'
    } else if d == 8 {
        '8'
    } else {
        '9'
    }
}

/// The decimal rendering of a natural number, most significant digit first,
/// without leading zeros (except for zero itself).
pub open spec fn decimal_digits(n: nat) -> Seq<char>
    decreases n,
{
    if n < 10 {
        seq![dec_digit(n as int)]
    } else {
        decimal_digits(n / 10) + seq![dec_digit((n % 10) as int)]
    }
}

/// The decimal rendering of an integer: a minus sign for negative values,
/// then the digits of the magnitude.
pub open spec fn decimal_of_int(i: int) -> Seq<char> {
    if i >= 0 {
        decimal_digits(i as nat)
    } else {
        seq!['-'] + decimal_digits((-i) as nat)
    }
}

/// One decimal digit as a string slice.
fn digit_str(d: u64) -> (s: &'static str)
    requires
        d < 10,
    ensures
        s@ == seq![dec_digit(d as int)],
{
    let s = if d == 0 {
        "0"
    } else if d == 1 {
        "1"
    } else if d == 2 {
        "2"
    } else if d == 3 {
        "3"
    } else if d == 4 {
        "4"
    } else if d == 5 {
        "5"
    } else if d == 6 {
        "6"
    } else if d == 7 {
        "7"
    } else if d == 8 {
        "8"
    } else {
        "9"
    };
    proof {
        reveal_strlit("0");
        reveal_strlit("1");
        reveal_strlit("2");
        reveal_strlit("3");
        reveal_strlit("4");
        reveal_strlit("5");
        reveal_strlit("6");
        reveal_strlit("7");
        reveal_strlit("8");
        reveal_strlit("9");
        assert(s@ =~= seq![dec_digit(d as int)]);
    }
    s
}

/// Appends the decimal digits of `n` to `out`.
fn push_decimal_digits(n: u64, out: &mut String)
    ensures
        final(out)@ == old(out)@ + decimal_digits(n as nat),
    decreases n,
{
    if n >= 10 {
        push_decimal_digits(n / 10, out);
    }
    out.append(digit_str(n % 10));
    proof {
        assert(final(out)@ =~= old(out)@ + decimal_digits(n as nat));
    }
}

/// The value of one decimal digit character; other characters count as
/// zero.
pub open spec fn digit_val(c: char) -> int {
    if c == '1' {
        1
    } else if c == '2' {
        2
    } else if c == '3' {
        3
    } else if c == '4' {
        4
    } else if c == '5' {
        5
    } else if c == '6' {
        6
    } else if c == '7' {
        7
    } else if c == '8' {
        8
    } else if c == '9' {
        9
    } else {
        0
    }
}

/// The number a digit string denotes.
pub open spec fn decimal_value(s: Seq<char>) -> int
    decreases s.len(),
{
    if s.len() == 0 {
        0
    } else {
        decimal_value(s.drop_last()) * 10 + digit_val(s.last())
    }
}

/// The integer a decimal rendering denotes: a leading minus sign negates
/// the digits' value.
pub open spec fn parse_decimal(s: Seq<char>) -> int {
    if s.len() > 0 && s[0] == '-' {
        -decimal_value(s.drop_first())
    } else {
        decimal_value(s)
    }
}

/// The digits of a natural number denote that number.
proof fn lemma_decimal_digits_value(n: nat)
    ensures
        decimal_value(decimal_digits(n)) == n,
    decreases n,
{
    if n >= 10 {
        lemma_decimal_digits_value(n / 10);
        let s = decimal_digits(n / 10).push(dec_digit((n % 10) as int));
        assert(s.drop_last() =~= decimal_digits(n / 10));
        assert(decimal_digits(n) =~= s);
        assert(digit_val(dec_digit((n % 10) as int)) == n % 10);
        vstd::arithmetic::div_mod::lemma_fundamental_div_mod(n as int, 10);
        assert(decimal_value(s) == (n / 10) * 10 + n % 10);
    } else {
        let s = decimal_digits(n);
        assert(s =~= seq![dec_digit(n as int)]);
        assert(decimal_value(s.drop_last()) == 0);
        assert(digit_val(dec_digit(n as int)) == n);
    }
}

/// A decimal rendering of a natural number never starts with a minus sign.
proof fn lemma_decimal_digits_no_minus(n: nat)
    ensures
        decimal_digits(n).len() > 0,
        decimal_digits(n)[0] != '-',
    decreases n,
{
    if n >= 10 {
        lemma_decimal_digits_no_minus(n / 10);
    }
}

/// Law: the decimal rendering of an integer is round-trippable; parsing
/// the rendering yields the integer back, so equal integers render
/// equally and distinct integers render distinctly.
pub proof fn lemma_decimal_round_trip(i: int)
    ensures
        parse_decimal(decimal_of_int(i)) == i,
{
    if i >= 0 {
        lemma_decimal_digits_no_minus(i as nat);
        lemma_decimal_digits_value(i as nat);
    } else {
        lemma_decimal_digits_value((-i) as nat);
        assert((seq!['-'] + decimal_digits((-i) as nat)).drop_first() =~= decimal_digits(
            (-i) as nat,
        ));
    }
}

/// The text that lossy UTF-8 decoding yields for a byte sequence. The
/// decoding is a function of the bytes alone; on valid UTF-8 it agrees
/// with [`vstd::utf8::decode_utf8`].
pub uninterp spec fn utf8_lossy_of(b: Seq<u8>) -> Seq<char>;

/// Relies on `String::from_utf8_lossy`: the result depends on the bytes
/// alone, and valid UTF-8 decodes without replacement, exactly as
/// `vstd::utf8::decode_utf8` states.
#[verifier::external_body]
pub(crate) fn utf8_lossy(b: &Vec<u8>) -> (s: String)
    ensures
        s@ == utf8_lossy_of(b@),
        vstd::utf8::valid_utf8(b@) ==> s@ == vstd::utf8::decode_utf8(b@),
{
    String::from_utf8_lossy(b).into_owned()
}

/// The text of a boolean.
pub open spec fn bool_text(b: bool) -> Seq<char> {
    if b {
        "true"@
    } else {
        "false"@
    }
}

/// The display form of a script value: the empty text for unit, `true` or
/// `false` for booleans, decimal text for integers, the carried rendering
/// for floats, the string itself for strings, and bracketed,
/// comma-separated renderings for arrays and maps.
pub open spec fn display_model(v: ScriptModel) -> Seq<char>
    decreases v, 0int,
{
    match v {
        ScriptModel::Unit => Seq::empty(),
        ScriptModel::Bool(b) => bool_text(b),
        ScriptModel::Int(i) => decimal_of_int(i),
        ScriptModel::Float(t) => t,
        ScriptModel::Str(s) => s,
        ScriptModel::Array(xs) => "["@ + display_items_upto(xs, xs.len() as int) + "]"@,
        ScriptModel::Dict(ps) => "#{"@ + display_entries_upto(ps, ps.len() as int) + "}"@,
    }
}

/// The display of the first `j` items of an array, joined by `, `.
pub open spec fn display_items_upto(xs: Seq<ScriptModel>, j: int) -> Seq<char>
    decreases xs, j,
{
    if j <= 0 || j > xs.len() {
        Seq::empty()
    } else if j == 1 {
        display_model(xs[0])
    } else {
        display_items_upto(xs, j - 1) + ", "@ + display_model(xs[j - 1])
    }
}

/// The display of the first `j` entries of a map, joined by `, `, each
/// entry as `key: value`.
pub open spec fn display_entries_upto(ps: Seq<(Seq<char>, ScriptModel)>, j: int) -> Seq<char>
    decreases ps, j,
{
    if j <= 0 || j > ps.len() {
        Seq::empty()
    } else if j == 1 {
        ps[0].0 + ": "@ + display_model(ps[0].1)
    } else {
        display_entries_upto(ps, j - 1) + ", "@ + ps[j - 1].0 + ": "@ + display_model(ps[j - 1].1)
    }
}

impl ScriptValue {
    /// Renders this value as text, exactly as [`display_model`] states.
    #[verifier::loop_isolation(false)]
    pub fn to_text(&self) -> (s: String)
        ensures
            s@ == display_model(self@),
        decreases *self,
    {
        match self {
            ScriptValue::Unit => String::new(),
            ScriptValue::Bool(b) => {
                let s = if *b {
                    "true".to_owned()
                } else {
                    "false".to_owned()
                };
                s
            },
            ScriptValue::Int(i) => int_to_decimal(*i),
            ScriptValue::Float(t) => t.clone(),
            ScriptValue::Str(s) => s.clone(),
            ScriptValue::Array(xs) => {
                let ghost ms = self@->Array_0;
                let mut out = "[".to_owned();
                let mut j: usize = 0;
                while j < xs.len()
                    invariant
                        j <= xs.len(),
                        ms.len() == xs.len(),
                        forall|k: int| 0 <= k < xs.len() ==> ms[k] == xs[k].model(),
                        out@ == "["@ + display_items_upto(ms, j as int),
                    decreases xs.len() - j,
                {
                    if j > 0 {
                        out.append(", ");
                    }
                    let item = xs[j].to_text();
                    out.append(item.as_str());
                    proof {
                        assert(out@ =~= "["@ + display_items_upto(ms, j + 1));
                    }
                    j = j + 1;
                }
                out.append("]");
                proof {
                    assert(out@ =~= display_model(self@));
                }
                out
            },
            ScriptValue::Dict(ps) => {
                let ghost ms = self@->Dict_0;
                let mut out = "#{".to_owned();
                let mut j: usize = 0;
                while j < ps.len()
                    invariant
                        j <= ps.len(),
                        ms.len() == ps.len(),
                        forall|k: int|
                            0 <= k < ps.len() ==> ms[k] == (ps[k].0@, ps[k].1.model()),
                        out@ == "#{"@ + display_entries_upto(ms, j as int),
                    decreases ps.len() - j,
                {
                    if j > 0 {
                        out.append(", ");
                    }
                    out.append(ps[j].0.as_str());
                    out.append(": ");
                    let item = ps[j].1.to_text();
                    out.append(item.as_str());
                    proof {
                        assert(out@ =~= "#{"@ + display_entries_upto(ms, j + 1));
                    }
                    j = j + 1;
                }
                out.append("}");
                proof {
                    assert(out@ =~= display_model(self@));
                }
                out
            },
        }
    }
}

/// The debug form of a wire reply: the variant's name around its fields,
/// mirroring the reply's own structure. This is the text a map key that is
/// neither a byte string nor a status coerces to. An unrecognized reply
/// already carries its debug text and renders as that text.
pub open spec fn debug_model(p: ProtocolModel) -> Seq<char>
    decreases p, 0int,
{
    match p {
        ProtocolModel::Nil => "Nil"@,
        ProtocolModel::Int(i) => "Int("@ + decimal_of_int(i) + ")"@,
        ProtocolModel::Bytes(b) => "Bytes(["@ + debug_bytes_upto(b, b.len() as int) + "])"@,
        ProtocolModel::Status(s) => "Status("@ + s + ")"@,
        ProtocolModel::Array(xs) => "Array(["@ + debug_items_upto(xs, xs.len() as int) + "])"@,
        ProtocolModel::Dict(ps) => "Dict(["@ + debug_pairs_upto(ps, ps.len() as int) + "])"@,
        ProtocolModel::Other(d) => d,
    }
}

/// The debug form of the first `j` bytes, as decimal, joined by `, `.
pub open spec fn debug_bytes_upto(b: Seq<u8>, j: int) -> Seq<char>
    decreases j,
{
    if j <= 0 || j > b.len() {
        Seq::empty()
    } else if j == 1 {
        decimal_of_int(b[0] as int)
    } else {
        debug_bytes_upto(b, j - 1) + ", "@ + decimal_of_int(b[j - 1] as int)
    }
}

/// The debug form of the first `j` replies of an array, joined by `, `.
pub open spec fn debug_items_upto(xs: Seq<ProtocolModel>, j: int) -> Seq<char>
    decreases xs, j,
{
    if j <= 0 || j > xs.len() {
        Seq::empty()
    } else if j == 1 {
        debug_model(xs[0])
    } else {
        debug_items_upto(xs, j - 1) + ", "@ + debug_model(xs[j - 1])
    }
}

/// The debug form of the first `j` reply pairs, each as `(key, value)`,
/// joined by `, `.
pub open spec fn debug_pairs_upto(ps: Seq<(ProtocolModel, ProtocolModel)>, j: int) -> Seq<char>
    decreases ps, j,
{
    if j <= 0 || j > ps.len() {
        Seq::empty()
    } else if j == 1 {
        "("@ + debug_model(ps[0].0) + ", "@ + debug_model(ps[0].1) + ")"@
    } else {
        debug_pairs_upto(ps, j - 1) + ", "@ + "("@ + debug_model(ps[j - 1].0) + ", "@
            + debug_model(ps[j - 1].1) + ")"@
    }
}

impl ProtocolValue {
    /// Renders this reply in its debug form, exactly as [`debug_model`]
    /// states.
    #[verifier::loop_isolation(false)]
    pub fn to_debug_text(&self) -> (s: String)
        ensures
            s@ == debug_model(self@),
        decreases *self,
    {
        match self {
            ProtocolValue::Nil => "Nil".to_owned(),
            ProtocolValue::Int(i) => {
                let mut out = "Int(".to_owned();
                let digits = int_to_decimal(*i);
                out.append(digits.as_str());
                out.append(")");
                out
            },
            ProtocolValue::Bytes(b) => {
                let ghost bs = self@->Bytes_0;
                let mut out = "Bytes([".to_owned();
                let mut j: usize = 0;
                while j < b.len()
                    invariant
                        j <= b.len(),
                        out@ == "Bytes(["@ + debug_bytes_upto(bs, j as int),
                    decreases b.len() - j,
                {
                    if j > 0 {
                        out.append(", ");
                    }
                    let digits = int_to_decimal(b[j] as i64);
                    out.append(digits.as_str());
                    proof {
                        assert(out@ =~= "Bytes(["@ + debug_bytes_upto(bs, j + 1));
                    }
                    j = j + 1;
                }
                out.append("])");
                proof {
                    assert(out@ =~= debug_model(self@));
                }
                out
            },
            ProtocolValue::Status(t) => {
                let mut out = "Status(".to_owned();
                out.append(t.as_str());
                out.append(")");
                out
            },
            ProtocolValue::Array(xs) => {
                let ghost ms = self@->Array_0;
                let mut out = "Array([".to_owned();
                let mut j: usize = 0;
                while j < xs.len()
                    invariant
                        j <= xs.len(),
                        out@ == "Array(["@ + debug_items_upto(ms, j as int),
                    decreases xs.len() - j,
                {
                    if j > 0 {
                        out.append(", ");
                    }
                    let item = xs[j].to_debug_text();
                    out.append(item.as_str());
                    proof {
                        assert(out@ =~= "Array(["@ + debug_items_upto(ms, j + 1));
                    }
                    j = j + 1;
                }
                out.append("])");
                proof {
                    assert(out@ =~= debug_model(self@));
                }
                out
            },
            ProtocolValue::Dict(ps) => {
                let ghost ms = self@->Dict_0;
                let mut out = "Dict([".to_owned();
                let mut j: usize = 0;
                while j < ps.len()
                    invariant
                        j <= ps.len(),
                        out@ == "Dict(["@ + debug_pairs_upto(ms, j as int),
                    decreases ps.len() - j,
                {
                    if j > 0 {
                        out.append(", ");
                    }
                    out.append("(");
                    let key = ps[j].0.to_debug_text();
                    out.append(key.as_str());
                    out.append(", ");
                    let val = ps[j].1.to_debug_text();
                    out.append(val.as_str());
                    out.append(")");
                    proof {
                        assert(out@ =~= "Dict(["@ + debug_pairs_upto(ms, j + 1));
                    }
                    j = j + 1;
                }
                out.append("])");
                proof {
                    assert(out@ =~= debug_model(self@));
                }
                out
            },
            ProtocolValue::Other(d) => d.clone(),
        }
    }
}

/// Renders an integer as decimal text. The rendering is stable: equal
/// integers always yield equal text.
pub fn int_to_decimal(i: i64) -> (s: String)
    ensures
        s@ == decimal_of_int(i as int),
{
    let mut out = String::new();
    if i < 0 {
        out.append("-");
        // The magnitude is computed without negating `i` itself, which
        // would overflow on the smallest value.
        let mag: u64 = ((-(i + 1)) as u64) + 1;
        proof {
            reveal_strlit("-");
            assert(mag as int == -(i as int));
        }
        push_decimal_digits(mag, &mut out);
        proof {
            assert(out@ =~= decimal_of_int(i as int));
        }
    } else {
        push_decimal_digits(i as u64, &mut out);
        proof {
            assert(out@ =~= decimal_of_int(i as int));
        }
    }
    out
}

} // verus!
