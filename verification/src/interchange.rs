//! JSON and MessagePack texts, read and written by the serde crates.
use crate::dict::put;
use crate::double::{
    ask1, ask_text, finite, query, Answers, AnswersV, Double, DoubleQuery, DoubleV, QueryV,
};
use crate::json::{entries_view, jsons_view, Json, JsonV};
use crate::text::is_white;
use serde_json::Value;
use vstd::prelude::*;
use vstd::utf8::encode_utf8;

verus! {

broadcast use vstd::string::group_string_axioms;

#[verifier::external_type_specification]
#[verifier::external_body]
pub struct ExSerdeValue(serde_json::Value);

/// What a value of serde_json holds. Integers are integers, doubles are held as
/// the decimal text that serde_json prints for them, and the members of an
/// object come in their order, each key once.
pub uninterp spec fn json_model(v: serde_json::Value) -> JsonV;

/// What serde_json reads from bytes: a value, or the text of its error.
pub uninterp spec fn json_read(data: Seq<u8>) -> Result<JsonV, Seq<char>>;

/// The text that serde_json writes for a value, without white space.
pub uninterp spec fn json_text(v: JsonV) -> Seq<char>;

/// The text that serde_json writes for a value, with line breaks and indents.
pub uninterp spec fn json_pretty_text(v: JsonV) -> Seq<char>;

/// What rmp_serde reads from bytes as a JSON value, or the text of its error.
pub uninterp spec fn msgpack_read(data: Seq<u8>) -> Result<JsonV, Seq<char>>;

/// The bytes that rmp_serde writes for a JSON value.
pub uninterp spec fn msgpack_bytes(v: JsonV) -> Seq<u8>;

/// Whether a value was read, and which.
pub open spec fn is_value(r: Result<JsonV, Seq<char>>, v: JsonV) -> bool {
    r == Ok::<JsonV, Seq<char>>(v)
}

/// How deep lists and objects are nested.
pub open spec fn depth(j: JsonV) -> nat
    decreases j, 0nat,
{
    match j {
        JsonV::Array(a) => 1 + depth_items(a, 0),
        JsonV::Object(o) => 1 + depth_entries(o, 0),
        _ => 0,
    }
}

pub open spec fn depth_items(a: Seq<JsonV>, i: int) -> nat
    decreases a, a.len() - i,
{
    if i < 0 || i >= a.len() {
        0
    } else {
        let d = depth(a[i]);
        let rest = depth_items(a, i + 1);
        if d > rest {
            d
        } else {
            rest
        }
    }
}

pub open spec fn depth_entries(o: Seq<(Seq<char>, JsonV)>, i: int) -> nat
    decreases o, o.len() - i,
{
    if i < 0 || i >= o.len() {
        0
    } else {
        let d = depth(o[i].1);
        let rest = depth_entries(o, i + 1);
        if d > rest {
            d
        } else {
            rest
        }
    }
}

/// A value in which no text has more bytes, and no list or object more members,
/// than a `u32` counts.
pub open spec fn is_short(j: JsonV) -> bool
    decreases j,
{
    match j {
        JsonV::Str(s) => encode_utf8(s).len() <= u32::MAX,
        JsonV::Array(a) => a.len() <= u32::MAX && forall|i: int|
            0 <= i < a.len() ==> is_short(#[trigger] a[i]),
        JsonV::Object(o) => o.len() <= u32::MAX && forall|i: int|
            0 <= i < o.len() ==> is_short((#[trigger] o[i]).1) && encode_utf8(o[i].0).len()
                <= u32::MAX,
        _ => true,
    }
}

/// A text of one line that neither begins nor ends with white space.
pub open spec fn is_line(s: Seq<char>) -> bool {
    s.len() > 0 && !is_white(s[0]) && !is_white(s.last()) && !s.contains('\n')
}

/// The greatest nesting that serde_json reads back.
pub const MAX_NESTING: u32 = 127;

/// A key that serde_json keeps for itself.
pub open spec fn is_private_key(k: Seq<char>) -> bool {
    "$serde_json::private::"@.is_prefix_of(k)
}

/// A value in which no object, at any depth, begins with a key that serde_json
/// keeps for itself. Such an object stands for something else when it is read:
/// for the JSON text that it holds, for one.
pub open spec fn no_private_keys(j: JsonV) -> bool
    decreases j,
{
    match j {
        JsonV::Array(a) => forall|i: int| 0 <= i < a.len() ==> no_private_keys(#[trigger] a[i]),
        JsonV::Object(o) => (o.len() > 0 ==> !is_private_key(o[0].0))
            && forall|i: int| 0 <= i < o.len() ==> no_private_keys((#[trigger] o[i]).1),
        _ => true,
    }
}

/// A value that is read back from what is written of it: it is nested no
/// deeper than the reader goes, and has no private keys.
pub open spec fn readable(j: JsonV) -> bool {
    depth(j) <= MAX_NESTING && no_private_keys(j)
}

/// The value of serde_json that stands for a JSON value. A double must be held
/// as text, which is read as JSON; what is no JSON text, and any other double,
/// becomes null. An integer that fits an `i64` is
/// one. Of members with one key the last value stays, in the place of
/// the first.
pub open spec fn serde_view(j: JsonV) -> JsonV
    decreases j, 0nat,
{
    match j {
        JsonV::Float(DoubleV::Text(s)) => match json_read(encode_utf8(s)) {
            Ok(v) => v,
            Err(_) => JsonV::Null,
        },
        JsonV::Float(_) => JsonV::Null,
        JsonV::UInt(n) => if n <= i64::MAX {
            JsonV::Int(n as i64)
        } else {
            j
        },
        JsonV::Array(a) => JsonV::Array(
            Seq::new(
                a.len(),
                |i: int|
                    if 0 <= i < a.len() {
                        serde_view(a[i])
                    } else {
                        JsonV::Null
                    },
            ),
        ),
        JsonV::Object(o) => JsonV::Object(serde_entries(o, o.len() as int)),
        _ => j,
    }
}

/// The first `n` members, put into an object one by one.
pub open spec fn serde_entries(o: Seq<(Seq<char>, JsonV)>, n: int) -> Seq<(Seq<char>, JsonV)>
    decreases o, n,
{
    if n <= 0 || n > o.len() {
        Seq::empty()
    } else {
        put(serde_entries(o, n - 1), o[n - 1].0, serde_view(o[n - 1].1))
    }
}

/// `serde_json::from_slice` into a `serde_json::Value`: what comes out is a
/// function of the bytes, which [`json_read`] names; the error is taken by its
/// text.
#[verifier::external_body]
pub(crate) fn json_from_slice(data: &[u8]) -> (r: Result<serde_json::Value, String>)
    ensures
        match r {
            Ok(v) => json_read(data@) == Ok::<JsonV, Seq<char>>(json_model(v)),
            Err(e) => json_read(data@) == Err::<JsonV, Seq<char>>(e@),
        },
{
    serde_json::from_slice(data).map_err(|e| e.to_string())
}

/// The plain value that a `serde_json::Value` holds, variant by variant: its
/// accessors `as_i64` and `as_u64` tell integers from doubles, and a double is
/// taken by its text.
#[verifier::external_body]
pub(crate) fn json_of_serde(v: &serde_json::Value) -> (r: Json)
    ensures
        r.view() == json_model(*v),
{
    match v {
        Value::Null => Json::Null,
        Value::Bool(b) => Json::Bool(*b),
        Value::Number(n) => match (n.as_i64(), n.as_u64()) {
            (Some(i), _) => Json::Int(i),
            (None, Some(u)) => Json::UInt(u),
            _ => Json::Float(Double::Text(n.to_string())),
        },
        Value::String(s) => Json::Str(s.clone()),
        Value::Array(a) => Json::Array(a.iter().map(json_of_serde).collect()),
        Value::Object(o) => Json::Object(
            o.iter().map(|(k, x)| (k.clone(), json_of_serde(x))).collect()),
    }
}

/// The `serde_json::Value` that stands for a plain value, variant by variant,
/// as [`serde_view`] says; `serde_json::from_str` reads the text of a double,
/// and `serde_json::Map` keeps the order of its keys.
#[verifier::external_body]
pub(crate) fn serde_of_json(j: &Json) -> (r: serde_json::Value)
    ensures
        json_model(r) == serde_view(j.view()),
{
    match j {
        Json::Null => Value::Null,
        Json::Bool(b) => Value::Bool(*b),
        Json::Int(n) => Value::from(*n),
        Json::UInt(n) => Value::from(*n),
        Json::Float(Double::Text(s)) => serde_json::from_str(s).unwrap_or_default(),
        Json::Float(_) => Value::Null,
        Json::Str(s) => Value::String(s.clone()),
        Json::Array(a) => Value::Array(a.iter().map(serde_of_json).collect()),
        Json::Object(o) => Value::Object(
            o.iter().map(|(k, x)| (k.clone(), serde_of_json(x))).collect()),
    }
}

/// `serde_json::to_string` of a `serde_json::Value`, which cannot fail: its
/// text is a function of the value, which [`json_text`] names. It is one line,
/// and neither begins nor ends with white space. Read back, it gives the value,
/// if that is [`readable`]: nested no deeper than the reader goes, and without
/// an object whose first key the reader takes as a mark of its own.
#[verifier::external_body]
pub(crate) fn json_to_string(v: &serde_json::Value) -> (r: String)
    ensures
        r@ == json_text(json_model(*v)),
        is_line(r@),
        readable(json_model(*v)) ==> is_value(json_read(encode_utf8(r@)), json_model(*v)),
{
    serde_json::to_string(v).unwrap_or_default()
}

/// `serde_json::to_string_pretty` of a `serde_json::Value`, which cannot fail;
/// [`json_pretty_text`] names its text. Read back, it gives the value, if that
/// is [`readable`].
#[verifier::external_body]
pub(crate) fn json_to_string_pretty(v: &serde_json::Value) -> (r: String)
    ensures
        r@ == json_pretty_text(json_model(*v)),
        readable(json_model(*v)) ==> is_value(json_read(encode_utf8(r@)), json_model(*v)),
{
    serde_json::to_string_pretty(v).unwrap_or_default()
}

/// `rmp_serde::from_slice` into a `serde_json::Value`: what comes out is a
/// function of the bytes, which [`msgpack_read`] names; the error is taken by
/// its text.
#[verifier::external_body]
pub(crate) fn msgpack_from_slice(data: &[u8]) -> (r: Result<serde_json::Value, String>)
    ensures
        match r {
            Ok(v) => msgpack_read(data@) == Ok::<JsonV, Seq<char>>(json_model(v)),
            Err(e) => msgpack_read(data@) == Err::<JsonV, Seq<char>>(e@),
        },
{
    rmp_serde::from_slice(data).map_err(|e| e.to_string())
}

/// `rmp_serde::to_vec` of a `serde_json::Value`, which cannot fail;
/// [`msgpack_bytes`] names its bytes. Read back, they give the value, if that is
/// [`readable`] and its lengths fit the format.
#[verifier::external_body]
pub(crate) fn msgpack_to_vec(v: &serde_json::Value) -> (r: Vec<u8>)
    ensures
        r@ == msgpack_bytes(json_model(*v)),
        readable(json_model(*v)) && is_short(json_model(*v)) ==> is_value(
            msgpack_read(r@),
            json_model(*v),
        ),
{
    rmp_serde::to_vec(v).unwrap_or_default()
}

/// Reads a JSON text.
pub fn parse_json(data: &[u8]) -> (r: Result<Json, String>)
    ensures
        match r {
            Ok(j) => json_read(data@) == Ok::<JsonV, Seq<char>>(j.view()),
            Err(e) => json_read(data@) == Err::<JsonV, Seq<char>>(e@),
        },
{
    match json_from_slice(data) {
        Ok(v) => Ok(json_of_serde(&v)),
        Err(e) => Err(e),
    }
}

/// Reads a MessagePack value as JSON.
pub fn parse_msgpack(data: &[u8]) -> (r: Result<Json, String>)
    ensures
        match r {
            Ok(j) => msgpack_read(data@) == Ok::<JsonV, Seq<char>>(j.view()),
            Err(e) => msgpack_read(data@) == Err::<JsonV, Seq<char>>(e@),
        },
{
    match msgpack_from_slice(data) {
        Ok(v) => Ok(json_of_serde(&v)),
        Err(e) => Err(e),
    }
}

/// A JSON value whose doubles are written out: each is held as its JSON text,
/// or is null where it is not finite.
pub open spec fn written(t: AnswersV, j: JsonV) -> Result<JsonV, QueryV>
    decreases j, 0nat,
{
    match j {
        JsonV::Float(d) => match finite(t, d) {
            Err(q) => Err(q),
            Ok(false) => Ok(JsonV::Null),
            Ok(true) => match ask_text(t, query("json"@, seq![d])) {
                Ok(s) => Ok(JsonV::Float(DoubleV::Text(s))),
                Err(q) => Err(q),
            },
        },
        JsonV::Array(a) => match written_items(t, a, 0, Seq::empty()) {
            Ok(r) => Ok(JsonV::Array(r)),
            Err(q) => Err(q),
        },
        JsonV::Object(o) => match written_entries(t, o, 0, Seq::empty()) {
            Ok(r) => Ok(JsonV::Object(r)),
            Err(q) => Err(q),
        },
        _ => Ok(j),
    }
}

pub open spec fn written_items(t: AnswersV, a: Seq<JsonV>, i: int, acc: Seq<JsonV>) -> Result<
    Seq<JsonV>,
    QueryV,
>
    decreases a, a.len() - i,
{
    if i < 0 || i >= a.len() {
        Ok(acc)
    } else {
        match written(t, a[i]) {
            Ok(j) => written_items(t, a, i + 1, acc.push(j)),
            Err(q) => Err(q),
        }
    }
}

pub open spec fn written_entries(
    t: AnswersV,
    o: Seq<(Seq<char>, JsonV)>,
    i: int,
    acc: Seq<(Seq<char>, JsonV)>,
) -> Result<Seq<(Seq<char>, JsonV)>, QueryV>
    decreases o, o.len() - i,
{
    if i < 0 || i >= o.len() {
        Ok(acc)
    } else {
        match written(t, o[i].1) {
            Ok(j) => written_entries(t, o, i + 1, acc.push((o[i].0, j))),
            Err(q) => Err(q),
        }
    }
}

/// A JSON value whose doubles are written out.
pub fn write_doubles(j: &Json, answers: &Answers) -> (r: Result<Json, DoubleQuery>)
    ensures
        match (r, written(answers@, j.view())) {
            (Ok(x), Ok(y)) => x.view() == y,
            (Err(x), Err(y)) => x@ == y,
            _ => false,
        },
    decreases *j,
{
    match j {
        Json::Null => Ok(Json::Null),
        Json::Bool(b) => Ok(Json::Bool(*b)),
        Json::Int(n) => Ok(Json::Int(*n)),
        Json::UInt(n) => Ok(Json::UInt(*n)),
        Json::Str(s) => Ok(Json::Str(s.clone())),
        Json::Float(d) => {
            let yes = match answers.is_finite(d) {
                Ok(b) => b,
                Err(q) => return Err(q),
            };
            if !yes {
                return Ok(Json::Null);
            }
            match answers.text(ask1("json", d.copy())) {
                Ok(s) => Ok(Json::Float(Double::Text(s))),
                Err(q) => Err(q),
            }
        },
        Json::Array(a) => {
            let mut out: Vec<Json> = Vec::new();
            let mut i: usize = 0;
            assert(jsons_view(out@) =~= Seq::<JsonV>::empty());
            while i < a.len()
                invariant
                    i <= a@.len(),
                    written_items(answers@, jsons_view(a@), 0, Seq::empty()) == written_items(
                        answers@,
                        jsons_view(a@),
                        i as int,
                        jsons_view(out@),
                    ),
                    *j == Json::Array(*a),
                decreases a@.len() - i,
            {
                assert(decreases_to!(*j => j->Array_0));
                assert(decreases_to!(a@ => a@[i as int]));
                assert(jsons_view(a@)[i as int] == a@[i as int].view());
                let ghost before = jsons_view(out@);
                match write_doubles(&a[i], answers) {
                    Ok(x) => {
                        let ghost w = x.view();
                        out.push(x);
                        assert(jsons_view(out@) =~= before.push(w));
                    },
                    Err(q) => return Err(q),
                }
                i += 1;
            }
            Ok(Json::Array(out))
        },
        Json::Object(o) => {
            let mut out: Vec<(String, Json)> = Vec::new();
            let mut i: usize = 0;
            assert(entries_view(out@) =~= Seq::<(Seq<char>, JsonV)>::empty());
            while i < o.len()
                invariant
                    i <= o@.len(),
                    written_entries(answers@, entries_view(o@), 0, Seq::empty())
                        == written_entries(
                        answers@,
                        entries_view(o@),
                        i as int,
                        entries_view(out@),
                    ),
                    *j == Json::Object(*o),
                decreases o@.len() - i,
            {
                assert(decreases_to!(*j => j->Object_0));
                assert(decreases_to!(o@ => o@[i as int]));
                assert(decreases_to!(o@[i as int] => o@[i as int].1));
                assert(entries_view(o@)[i as int] == (o@[i as int].0@, o@[i as int].1.view()));
                let ghost before = entries_view(out@);
                match write_doubles(&o[i].1, answers) {
                    Ok(x) => {
                        let ghost w = x.view();
                        out.push((o[i].0.clone(), x));
                        assert(entries_view(out@) =~= before.push((o@[i as int].0@, w)));
                    },
                    Err(q) => return Err(q),
                }
                i += 1;
            }
            Ok(Json::Object(out))
        },
    }
}

/// The JSON text of a value.
pub open spec fn text_of(t: AnswersV, j: JsonV) -> Result<Seq<char>, QueryV> {
    match written(t, j) {
        Ok(w) => Ok(json_text(serde_view(w))),
        Err(q) => Err(q),
    }
}

/// Whether the JSON text of a value, if the value is [`readable`], reads as
/// that value.
pub open spec fn json_reads_back(data: Seq<u8>, v: JsonV) -> bool {
    readable(v) ==> is_value(json_read(data), v)
}

/// Whether the MessagePack of a value, if the value is [`readable`] and its
/// lengths fit the format, reads as that value.
pub open spec fn msgpack_reads_back(data: Seq<u8>, v: JsonV) -> bool {
    readable(v) && is_short(v) ==> is_value(msgpack_read(data), v)
}

/// Writes a value as JSON text.
pub fn write_json(j: &Json, answers: &Answers) -> (r: Result<String, DoubleQuery>)
    ensures
        crate::script::value::gives_text(r, text_of(answers@, j.view())),
        match (r, written(answers@, j.view())) {
            (Ok(x), Ok(w)) => json_reads_back(encode_utf8(x@), serde_view(w)) && is_line(x@),
            _ => true,
        },
{
    match write_doubles(j, answers) {
        Ok(w) => Ok(json_to_string(&serde_of_json(&w))),
        Err(q) => Err(q),
    }
}

/// Writes a value as JSON text with line breaks and indents.
pub fn write_json_pretty(j: &Json, answers: &Answers) -> (r: Result<String, DoubleQuery>)
    ensures
        match (r, written(answers@, j.view())) {
            (Ok(x), Ok(w)) => x@ == json_pretty_text(serde_view(w)) && json_reads_back(
                encode_utf8(x@),
                serde_view(w),
            ),
            (Err(x), Err(y)) => x@ == y,
            _ => false,
        },
{
    match write_doubles(j, answers) {
        Ok(w) => Ok(json_to_string_pretty(&serde_of_json(&w))),
        Err(q) => Err(q),
    }
}

/// Writes a value as MessagePack.
pub fn write_msgpack(j: &Json, answers: &Answers) -> (r: Result<Vec<u8>, DoubleQuery>)
    ensures
        match (r, written(answers@, j.view())) {
            (Ok(x), Ok(w)) => x@ == msgpack_bytes(serde_view(w)) && msgpack_reads_back(
                x@,
                serde_view(w),
            ),
            (Err(x), Err(y)) => x@ == y,
            _ => false,
        },
{
    match write_doubles(j, answers) {
        Ok(w) => Ok(msgpack_to_vec(&serde_of_json(&w))),
        Err(q) => Err(q),
    }
}

} // verus!
