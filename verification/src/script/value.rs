//! The values that scripts compute with.
use crate::dict::{find_key, lemma_key_from, lookup, put, without};
use crate::double::{
    ask1, ask2, ask_flag, ask_text, finite, gives_flag, nonzero, query, Answers, AnswersV, Double,
    DoubleQuery, DoubleV, QueryV,
};
use crate::json::{entries_view, jsons_view, Json, JsonV};
use crate::script::grammar::{quoted, quoted_text};
use crate::text::{i64_text, int_text, join2, join3, nat_text, same, u64_text};
use vstd::prelude::*;

verus! {

broadcast use vstd::string::group_string_axioms;

/// A value of a script.
#[derive(Debug, PartialEq)]
pub enum ScriptValue {
    Null,
    Bool(bool),
    Int(i64),
    Float(Double),
    Str(String),
    Regex(String),
    Array(Vec<ScriptValue>),
    /// Entries with distinct keys.
    Dict(Vec<(String, ScriptValue)>),
}

/// What a [`ScriptValue`] is.
#[verifier::ext_equal]
pub enum ScriptV {
    Null,
    Bool(bool),
    Int(i64),
    Float(DoubleV),
    Str(Seq<char>),
    Regex(Seq<char>),
    Array(Seq<ScriptV>),
    Dict(Seq<(Seq<char>, ScriptV)>),
}

pub open spec fn values_view(s: Seq<ScriptValue>) -> Seq<ScriptV>
    decreases s,
{
    Seq::new(
        s.len(),
        |i: int|
            if 0 <= i < s.len() {
                s[i].view()
            } else {
                ScriptV::Null
            },
    )
}

pub open spec fn map_view(s: Seq<(String, ScriptValue)>) -> Seq<(Seq<char>, ScriptV)>
    decreases s,
{
    Seq::new(
        s.len(),
        |i: int|
            if 0 <= i < s.len() {
                (s[i].0@, s[i].1.view())
            } else {
                (Seq::empty(), ScriptV::Null)
            },
    )
}

/// The value that a JSON value is read as. An integer that fits no `i64` is
/// read as the nearest double.
pub open spec fn value_of_json(j: JsonV) -> ScriptV
    decreases j,
{
    match j {
        JsonV::Null => ScriptV::Null,
        JsonV::Bool(b) => ScriptV::Bool(b),
        JsonV::Int(n) => ScriptV::Int(n),
        JsonV::UInt(n) => ScriptV::Float(DoubleV::Text(nat_text(n as nat))),
        JsonV::Float(d) => ScriptV::Float(d),
        JsonV::Str(s) => ScriptV::Str(s),
        JsonV::Array(a) => ScriptV::Array(
            Seq::new(
                a.len(),
                |i: int|
                    if 0 <= i < a.len() {
                        value_of_json(a[i])
                    } else {
                        ScriptV::Null
                    },
            ),
        ),
        JsonV::Object(o) => ScriptV::Dict(
            Seq::new(
                o.len(),
                |i: int|
                    if 0 <= i < o.len() {
                        (o[i].0, value_of_json(o[i].1))
                    } else {
                        (Seq::empty(), ScriptV::Null)
                    },
            ),
        ),
    }
}

/// The JSON value that a value is written as. A double that is not finite is
/// written as null, a regex as its pattern.
pub open spec fn json_of(t: AnswersV, v: ScriptV) -> Result<JsonV, QueryV>
    decreases v, 0nat,
{
    match v {
        ScriptV::Null => Ok(JsonV::Null),
        ScriptV::Bool(b) => Ok(JsonV::Bool(b)),
        ScriptV::Int(n) => Ok(JsonV::Int(n)),
        ScriptV::Float(d) => match finite(t, d) {
            Ok(yes) => if yes {
                Ok(JsonV::Float(d))
            } else {
                Ok(JsonV::Null)
            },
            Err(q) => Err(q),
        },
        ScriptV::Str(s) => Ok(JsonV::Str(s)),
        ScriptV::Regex(s) => Ok(JsonV::Str(s)),
        ScriptV::Array(a) => match jsons_of(t, a, 0, Seq::empty()) {
            Ok(r) => Ok(JsonV::Array(r)),
            Err(q) => Err(q),
        },
        ScriptV::Dict(m) => match json_entries_of(t, m, 0, Seq::empty()) {
            Ok(r) => Ok(JsonV::Object(r)),
            Err(q) => Err(q),
        },
    }
}

pub open spec fn jsons_of(t: AnswersV, a: Seq<ScriptV>, i: int, acc: Seq<JsonV>) -> Result<
    Seq<JsonV>,
    QueryV,
>
    decreases a, a.len() - i,
{
    if i < 0 || i >= a.len() {
        Ok(acc)
    } else {
        match json_of(t, a[i]) {
            Ok(j) => jsons_of(t, a, i + 1, acc.push(j)),
            Err(q) => Err(q),
        }
    }
}

pub open spec fn json_entries_of(
    t: AnswersV,
    m: Seq<(Seq<char>, ScriptV)>,
    i: int,
    acc: Seq<(Seq<char>, JsonV)>,
) -> Result<Seq<(Seq<char>, JsonV)>, QueryV>
    decreases m, m.len() - i,
{
    if i < 0 || i >= m.len() {
        Ok(acc)
    } else {
        match json_of(t, m[i].1) {
            Ok(j) => json_entries_of(t, m, i + 1, acc.push((m[i].0, j))),
            Err(q) => Err(q),
        }
    }
}

/// Whether a value counts as true in a condition.
pub open spec fn truthy(t: AnswersV, v: ScriptV) -> Result<bool, QueryV> {
    match v {
        ScriptV::Null => Ok(false),
        ScriptV::Bool(b) => Ok(b),
        ScriptV::Int(n) => Ok(n != 0),
        ScriptV::Float(d) => nonzero(t, d),
        ScriptV::Str(s) => Ok(s.len() != 0),
        ScriptV::Regex(s) => Ok(s.len() != 0),
        ScriptV::Array(a) => Ok(a.len() != 0),
        ScriptV::Dict(m) => Ok(m.len() != 0),
    }
}

/// The text of a value, as concatenation shows it.
pub open spec fn display(t: AnswersV, v: ScriptV) -> Result<Seq<char>, QueryV>
    decreases v, 0nat,
{
    match v {
        ScriptV::Null => Ok("null"@),
        ScriptV::Bool(b) => Ok(
            if b {
                "true"@
            } else {
                "false"@
            },
        ),
        ScriptV::Int(n) => Ok(int_text(n as int)),
        ScriptV::Float(d) => ask_text(t, query("display"@, seq![d])),
        ScriptV::Str(s) => Ok(s),
        ScriptV::Regex(s) => Ok("/"@ + s + "/"@),
        ScriptV::Array(a) => match display_items(t, a, ", "@, 0, "["@) {
            Ok(s) => Ok(s + "]"@),
            Err(q) => Err(q),
        },
        ScriptV::Dict(m) => match display_entries(t, m, 0, "{"@) {
            Ok(s) => Ok(s + "}"@),
            Err(q) => Err(q),
        },
    }
}

/// The texts of the items from `i` on, with `sep` between two, behind `acc`.
pub open spec fn display_items(
    t: AnswersV,
    a: Seq<ScriptV>,
    sep: Seq<char>,
    i: int,
    acc: Seq<char>,
) -> Result<Seq<char>, QueryV>
    decreases a, a.len() - i,
{
    if i < 0 || i >= a.len() {
        Ok(acc)
    } else {
        match display(t, a[i]) {
            Ok(s) => display_items(
                t,
                a,
                sep,
                i + 1,
                if i > 0 {
                    acc + sep + s
                } else {
                    acc + s
                },
            ),
            Err(q) => Err(q),
        }
    }
}

pub open spec fn display_entries(
    t: AnswersV,
    m: Seq<(Seq<char>, ScriptV)>,
    i: int,
    acc: Seq<char>,
) -> Result<Seq<char>, QueryV>
    decreases m, m.len() - i,
{
    if i < 0 || i >= m.len() {
        Ok(acc)
    } else {
        match display(t, m[i].1) {
            Ok(s) => display_entries(
                t,
                m,
                i + 1,
                (if i > 0 {
                    acc + ", "@
                } else {
                    acc
                }) + m[i].0 + ": "@ + s,
            ),
            Err(q) => Err(q),
        }
    }
}

/// How a message shows a value, with its type.
pub open spec fn shown(t: AnswersV, v: ScriptV) -> Result<Seq<char>, QueryV>
    decreases v, 0nat,
{
    match v {
        ScriptV::Null => Ok("Null"@),
        ScriptV::Bool(b) => Ok(
            if b {
                "Bool(true)"@
            } else {
                "Bool(false)"@
            },
        ),
        ScriptV::Int(n) => Ok("Int("@ + int_text(n as int) + ")"@),
        ScriptV::Float(d) => match ask_text(t, query("debug"@, seq![d])) {
            Ok(s) => Ok("Float("@ + s + ")"@),
            Err(q) => Err(q),
        },
        ScriptV::Str(s) => Ok("Str("@ + quoted_text(s) + ")"@),
        ScriptV::Regex(s) => Ok("Regex("@ + quoted_text(s) + ")"@),
        ScriptV::Array(a) => match shown_items(t, a, 0, "Array(["@) {
            Ok(s) => Ok(s + "])"@),
            Err(q) => Err(q),
        },
        ScriptV::Dict(m) => match shown_entries(t, m, 0, "Map({"@) {
            Ok(s) => Ok(s + "})"@),
            Err(q) => Err(q),
        },
    }
}

pub open spec fn shown_items(t: AnswersV, a: Seq<ScriptV>, i: int, acc: Seq<char>) -> Result<
    Seq<char>,
    QueryV,
>
    decreases a, a.len() - i,
{
    if i < 0 || i >= a.len() {
        Ok(acc)
    } else {
        match shown(t, a[i]) {
            Ok(s) => shown_items(
                t,
                a,
                i + 1,
                if i > 0 {
                    acc + ", "@ + s
                } else {
                    acc + s
                },
            ),
            Err(q) => Err(q),
        }
    }
}

pub open spec fn shown_entries(
    t: AnswersV,
    m: Seq<(Seq<char>, ScriptV)>,
    i: int,
    acc: Seq<char>,
) -> Result<Seq<char>, QueryV>
    decreases m, m.len() - i,
{
    if i < 0 || i >= m.len() {
        Ok(acc)
    } else {
        match shown(t, m[i].1) {
            Ok(s) => shown_entries(
                t,
                m,
                i + 1,
                (if i > 0 {
                    acc + ", "@
                } else {
                    acc
                }) + quoted_text(m[i].0) + ": "@ + s,
            ),
            Err(q) => Err(q),
        }
    }
}

/// Whether two values are equal: of one kind, with equal contents. Doubles are
/// equal as numbers; maps are equal whatever the order of their entries.
pub open spec fn equal(t: AnswersV, a: ScriptV, b: ScriptV) -> Result<bool, QueryV>
    decreases a, 0nat,
{
    match (a, b) {
        (ScriptV::Null, ScriptV::Null) => Ok(true),
        (ScriptV::Bool(x), ScriptV::Bool(y)) => Ok(x == y),
        (ScriptV::Int(x), ScriptV::Int(y)) => Ok(x == y),
        (ScriptV::Float(x), ScriptV::Float(y)) => ask_flag(t, query("=="@, seq![x, y])),
        (ScriptV::Str(x), ScriptV::Str(y)) => Ok(x == y),
        (ScriptV::Regex(x), ScriptV::Regex(y)) => Ok(x == y),
        (ScriptV::Array(x), ScriptV::Array(y)) => if x.len() != y.len() {
            Ok(false)
        } else {
            equal_items(t, x, y, 0)
        },
        (ScriptV::Dict(x), ScriptV::Dict(y)) => if x.len() != y.len() {
            Ok(false)
        } else {
            equal_entries(t, x, y, 0)
        },
        _ => Ok(false),
    }
}

pub open spec fn equal_items(t: AnswersV, x: Seq<ScriptV>, y: Seq<ScriptV>, i: int) -> Result<
    bool,
    QueryV,
>
    decreases x, x.len() - i,
{
    if i < 0 || i >= x.len() || i >= y.len() {
        Ok(true)
    } else {
        match equal(t, x[i], y[i]) {
            Ok(true) => equal_items(t, x, y, i + 1),
            r => r,
        }
    }
}

pub open spec fn equal_entries(
    t: AnswersV,
    x: Seq<(Seq<char>, ScriptV)>,
    y: Seq<(Seq<char>, ScriptV)>,
    i: int,
) -> Result<bool, QueryV>
    decreases x, x.len() - i,
{
    if i < 0 || i >= x.len() {
        Ok(true)
    } else {
        match lookup(y, x[i].0) {
            None => Ok(false),
            Some(v) => match equal(t, x[i].1, v) {
                Ok(true) => equal_entries(t, x, y, i + 1),
                r => r,
            },
        }
    }
}

/// Whether a result is what was asked for, or the query that lacks an answer.
pub open spec fn gives_text(r: Result<String, DoubleQuery>, s: Result<Seq<char>, QueryV>) -> bool {
    match (r, s) {
        (Ok(x), Ok(y)) => x@ == y,
        (Err(x), Err(y)) => x@ == y,
        _ => false,
    }
}

impl ScriptValue {
    pub open spec fn view(self) -> ScriptV
        decreases self,
    {
        match self {
            ScriptValue::Null => ScriptV::Null,
            ScriptValue::Bool(b) => ScriptV::Bool(b),
            ScriptValue::Int(n) => ScriptV::Int(n),
            ScriptValue::Float(d) => ScriptV::Float(d@),
            ScriptValue::Str(s) => ScriptV::Str(s@),
            ScriptValue::Regex(s) => ScriptV::Regex(s@),
            ScriptValue::Array(a) => ScriptV::Array(values_view(a@)),
            ScriptValue::Dict(m) => ScriptV::Dict(map_view(m@)),
        }
    }

    pub fn copy(&self) -> (r: ScriptValue)
        ensures
            r.view() == self.view(),
        decreases *self,
    {
        match self {
            ScriptValue::Null => ScriptValue::Null,
            ScriptValue::Bool(b) => ScriptValue::Bool(*b),
            ScriptValue::Int(n) => ScriptValue::Int(*n),
            ScriptValue::Float(d) => ScriptValue::Float(d.copy()),
            ScriptValue::Str(s) => ScriptValue::Str(s.clone()),
            ScriptValue::Regex(s) => ScriptValue::Regex(s.clone()),
            ScriptValue::Array(a) => {
                let mut out: Vec<ScriptValue> = Vec::new();
                let mut i: usize = 0;
                while i < a.len()
                    invariant
                        i <= a@.len(),
                        out@.len() == i,
                        forall|k: int| 0 <= k < i ==> (#[trigger] out@[k]).view() == a@[k].view(),
                        *self == ScriptValue::Array(*a),
                    decreases a@.len() - i,
                {
                    assert(decreases_to!(*self => self->Array_0));
                    assert(decreases_to!(a@ => a@[i as int]));
                    out.push(a[i].copy());
                    i += 1;
                }
                assert(values_view(out@) =~= values_view(a@));
                ScriptValue::Array(out)
            },
            ScriptValue::Dict(m) => {
                let mut out: Vec<(String, ScriptValue)> = Vec::new();
                let mut i: usize = 0;
                while i < m.len()
                    invariant
                        i <= m@.len(),
                        out@.len() == i,
                        forall|k: int|
                            0 <= k < i ==> (#[trigger] out@[k]).0@ == m@[k].0@ && out@[k].1.view()
                                == m@[k].1.view(),
                        *self == ScriptValue::Dict(*m),
                    decreases m@.len() - i,
                {
                    assert(decreases_to!(*self => self->Dict_0));
                    assert(decreases_to!(m@ => m@[i as int]));
                    assert(decreases_to!(m@[i as int] => m@[i as int].1));
                    out.push((m[i].0.clone(), m[i].1.copy()));
                    i += 1;
                }
                assert(map_view(out@) =~= map_view(m@));
                ScriptValue::Dict(out)
            },
        }
    }

    /// The value that a JSON value is read as.
    pub fn from(j: &Json) -> (r: ScriptValue)
        ensures
            r.view() == value_of_json(j.view()),
        decreases *j,
    {
        match j {
            Json::Null => ScriptValue::Null,
            Json::Bool(b) => ScriptValue::Bool(*b),
            Json::Int(n) => ScriptValue::Int(*n),
            Json::UInt(n) => ScriptValue::Float(Double::Text(u64_text(*n))),
            Json::Float(d) => ScriptValue::Float(d.copy()),
            Json::Str(s) => ScriptValue::Str(s.clone()),
            Json::Array(a) => {
                let mut out: Vec<ScriptValue> = Vec::new();
                let mut i: usize = 0;
                while i < a.len()
                    invariant
                        i <= a@.len(),
                        out@.len() == i,
                        forall|k: int|
                            0 <= k < i ==> (#[trigger] out@[k]).view() == value_of_json(
                                a@[k].view(),
                            ),
                        *j == Json::Array(*a),
                    decreases a@.len() - i,
                {
                    assert(decreases_to!(*j => j->Array_0));
                    assert(decreases_to!(a@ => a@[i as int]));
                    out.push(ScriptValue::from(&a[i]));
                    i += 1;
                }
                proof {
                    let w = jsons_view(a@);
                    assert forall|k: int| 0 <= k < a@.len() implies #[trigger] w[k]
                        == a@[k].view() by {}
                    assert(values_view(out@) =~= value_of_json(j.view())->Array_0);
                }
                ScriptValue::Array(out)
            },
            Json::Object(o) => {
                let mut out: Vec<(String, ScriptValue)> = Vec::new();
                let mut i: usize = 0;
                while i < o.len()
                    invariant
                        i <= o@.len(),
                        out@.len() == i,
                        forall|k: int|
                            0 <= k < i ==> (#[trigger] out@[k]).0@ == o@[k].0@ && out@[k].1.view()
                                == value_of_json(o@[k].1.view()),
                        *j == Json::Object(*o),
                    decreases o@.len() - i,
                {
                    assert(decreases_to!(*j => j->Object_0));
                    assert(decreases_to!(o@ => o@[i as int]));
                    assert(decreases_to!(o@[i as int] => o@[i as int].1));
                    out.push((o[i].0.clone(), ScriptValue::from(&o[i].1)));
                    i += 1;
                }
                proof {
                    let w = entries_view(o@);
                    assert forall|k: int| 0 <= k < o@.len() implies #[trigger] w[k] == (
                        o@[k].0@,
                        o@[k].1.view(),
                    ) by {}
                    assert(map_view(out@) =~= value_of_json(j.view())->Dict_0);
                }
                ScriptValue::Dict(out)
            },
        }
    }

    /// The JSON value that this value is written as.
    pub fn to_json(&self, answers: &Answers) -> (r: Result<Json, DoubleQuery>)
        ensures
            match (r, json_of(answers@, self.view())) {
                (Ok(x), Ok(y)) => x.view() == y,
                (Err(x), Err(y)) => x@ == y,
                _ => false,
            },
        decreases *self,
    {
        match self {
            ScriptValue::Null => Ok(Json::Null),
            ScriptValue::Bool(b) => Ok(Json::Bool(*b)),
            ScriptValue::Int(n) => Ok(Json::Int(*n)),
            ScriptValue::Float(d) => {
                let yes = match answers.is_finite(d) {
                    Ok(b) => b,
                    Err(q) => return Err(q),
                };
                if yes {
                    Ok(Json::Float(d.copy()))
                } else {
                    Ok(Json::Null)
                }
            },
            ScriptValue::Str(s) => Ok(Json::Str(s.clone())),
            ScriptValue::Regex(s) => Ok(Json::Str(s.clone())),
            ScriptValue::Array(a) => {
                let mut out: Vec<Json> = Vec::new();
                let mut i: usize = 0;
                assert(jsons_view(out@) =~= Seq::<JsonV>::empty());
                while i < a.len()
                    invariant
                        i <= a@.len(),
                        jsons_of(answers@, values_view(a@), 0, Seq::empty()) == jsons_of(
                            answers@,
                            values_view(a@),
                            i as int,
                            jsons_view(out@),
                        ),
                        *self == ScriptValue::Array(*a),
                    decreases a@.len() - i,
                {
                    assert(decreases_to!(*self => self->Array_0));
                    assert(decreases_to!(a@ => a@[i as int]));
                    assert(values_view(a@)[i as int] == a@[i as int].view());
                    let ghost before = jsons_view(out@);
                    match a[i].to_json(answers) {
                        Ok(j) => {
                            let ghost w = j.view();
                            out.push(j);
                            assert(jsons_view(out@) =~= before.push(w));
                        },
                        Err(q) => return Err(q),
                    }
                    i += 1;
                }
                Ok(Json::Array(out))
            },
            ScriptValue::Dict(m) => {
                let mut out: Vec<(String, Json)> = Vec::new();
                let mut i: usize = 0;
                assert(entries_view(out@) =~= Seq::<(Seq<char>, JsonV)>::empty());
                while i < m.len()
                    invariant
                        i <= m@.len(),
                        json_entries_of(answers@, map_view(m@), 0, Seq::empty())
                            == json_entries_of(
                            answers@,
                            map_view(m@),
                            i as int,
                            entries_view(out@),
                        ),
                        *self == ScriptValue::Dict(*m),
                    decreases m@.len() - i,
                {
                    assert(decreases_to!(*self => self->Dict_0));
                    assert(decreases_to!(m@ => m@[i as int]));
                    assert(decreases_to!(m@[i as int] => m@[i as int].1));
                    assert(map_view(m@)[i as int] == (m@[i as int].0@, m@[i as int].1.view()));
                    let ghost before = entries_view(out@);
                    match m[i].1.to_json(answers) {
                        Ok(j) => {
                            let ghost w = j.view();
                            out.push((m[i].0.clone(), j));
                            assert(entries_view(out@) =~= before.push((m@[i as int].0@, w)));
                        },
                        Err(q) => return Err(q),
                    }
                    i += 1;
                }
                Ok(Json::Object(out))
            },
        }
    }

    /// Whether this value counts as true in a condition.
    pub fn is_truthy(&self, answers: &Answers) -> (r: Result<bool, DoubleQuery>)
        ensures
            gives_flag(r, truthy(answers@, self.view())),
    {
        match self {
            ScriptValue::Null => Ok(false),
            ScriptValue::Bool(b) => Ok(*b),
            ScriptValue::Int(n) => Ok(*n != 0),
            ScriptValue::Float(d) => answers.is_nonzero(d),
            ScriptValue::Str(s) => Ok(!s.as_str().is_empty()),
            ScriptValue::Regex(s) => Ok(!s.as_str().is_empty()),
            ScriptValue::Array(a) => Ok(a.len() != 0),
            ScriptValue::Dict(m) => Ok(m.len() != 0),
        }
    }

    /// The number that this value is in arithmetic, if any.
    pub fn as_f64(&self) -> (r: Option<Double>)
        ensures
            match r {
                Some(d) => as_number(self.view()) == Some(d@),
                None => as_number(self.view()) is None,
            },
    {
        match self {
            ScriptValue::Int(n) => Some(Double::Int(*n)),
            ScriptValue::Float(d) => Some(d.copy()),
            _ => None,
        }
    }

    /// The text of this value, as concatenation shows it.
    pub fn display(&self, answers: &Answers) -> (r: Result<String, DoubleQuery>)
        ensures
            gives_text(r, display(answers@, self.view())),
        decreases *self, 1nat,
    {
        match self {
            ScriptValue::Null => Ok("null".to_owned()),
            ScriptValue::Bool(b) => Ok(
                if *b {
                    "true".to_owned()
                } else {
                    "false".to_owned()
                },
            ),
            ScriptValue::Int(n) => Ok(i64_text(*n)),
            ScriptValue::Float(d) => answers.text(ask1("display", d.copy())),
            ScriptValue::Str(s) => Ok(s.clone()),
            ScriptValue::Regex(s) => Ok(join3("/", s, "/")),
            ScriptValue::Array(a) => match display_list(a, ", ", "[", answers) {
                Ok(s) => Ok(join2(&s, "]")),
                Err(q) => Err(q),
            },
            ScriptValue::Dict(m) => {
                let mut out = "{".to_owned();
                let mut i: usize = 0;
                while i < m.len()
                    invariant
                        i <= m@.len(),
                        display_entries(answers@, map_view(m@), 0, "{"@) == display_entries(
                            answers@,
                            map_view(m@),
                            i as int,
                            out@,
                        ),
                        *self == ScriptValue::Dict(*m),
                    decreases m@.len() - i,
                {
                    assert(decreases_to!(*self => self->Dict_0));
                    assert(decreases_to!(m@ => m@[i as int]));
                    assert(decreases_to!(m@[i as int] => m@[i as int].1));
                    assert(map_view(m@)[i as int] == (m@[i as int].0@, m@[i as int].1.view()));
                    let s = match m[i].1.display(answers) {
                        Ok(s) => s,
                        Err(q) => return Err(q),
                    };
                    if i > 0 {
                        out.append(", ");
                    }
                    out.append(&m[i].0);
                    out.append(": ");
                    out.append(&s);
                    i += 1;
                }
                out.append("}");
                Ok(out)
            },
        }
    }

    /// How a message shows this value, with its type.
    pub fn shown(&self, answers: &Answers) -> (r: Result<String, DoubleQuery>)
        ensures
            gives_text(r, shown(answers@, self.view())),
        decreases *self,
    {
        match self {
            ScriptValue::Null => Ok("Null".to_owned()),
            ScriptValue::Bool(b) => Ok(
                if *b {
                    "Bool(true)".to_owned()
                } else {
                    "Bool(false)".to_owned()
                },
            ),
            ScriptValue::Int(n) => Ok(join3("Int(", &i64_text(*n), ")")),
            ScriptValue::Float(d) => match answers.text(ask1("debug", d.copy())) {
                Ok(s) => Ok(join3("Float(", &s, ")")),
                Err(q) => Err(q),
            },
            ScriptValue::Str(s) => Ok(join3("Str(", &quoted(s), ")")),
            ScriptValue::Regex(s) => Ok(join3("Regex(", &quoted(s), ")")),
            ScriptValue::Array(a) => {
                let mut out = "Array([".to_owned();
                let mut i: usize = 0;
                while i < a.len()
                    invariant
                        i <= a@.len(),
                        shown_items(answers@, values_view(a@), 0, "Array(["@) == shown_items(
                            answers@,
                            values_view(a@),
                            i as int,
                            out@,
                        ),
                        *self == ScriptValue::Array(*a),
                    decreases a@.len() - i,
                {
                    assert(decreases_to!(*self => self->Array_0));
                    assert(decreases_to!(a@ => a@[i as int]));
                    assert(values_view(a@)[i as int] == a@[i as int].view());
                    let s = match a[i].shown(answers) {
                        Ok(s) => s,
                        Err(q) => return Err(q),
                    };
                    if i > 0 {
                        out.append(", ");
                    }
                    out.append(&s);
                    i += 1;
                }
                out.append("])");
                Ok(out)
            },
            ScriptValue::Dict(m) => {
                let mut out = "Map({".to_owned();
                let mut i: usize = 0;
                while i < m.len()
                    invariant
                        i <= m@.len(),
                        shown_entries(answers@, map_view(m@), 0, "Map({"@) == shown_entries(
                            answers@,
                            map_view(m@),
                            i as int,
                            out@,
                        ),
                        *self == ScriptValue::Dict(*m),
                    decreases m@.len() - i,
                {
                    assert(decreases_to!(*self => self->Dict_0));
                    assert(decreases_to!(m@ => m@[i as int]));
                    assert(decreases_to!(m@[i as int] => m@[i as int].1));
                    assert(map_view(m@)[i as int] == (m@[i as int].0@, m@[i as int].1.view()));
                    let s = match m[i].1.shown(answers) {
                        Ok(s) => s,
                        Err(q) => return Err(q),
                    };
                    if i > 0 {
                        out.append(", ");
                    }
                    out.append(&quoted(&m[i].0));
                    out.append(": ");
                    out.append(&s);
                    i += 1;
                }
                out.append("})");
                Ok(out)
            },
        }
    }

    /// Whether two values are equal.
    pub fn equals(&self, other: &ScriptValue, answers: &Answers) -> (r: Result<bool, DoubleQuery>)
        ensures
            gives_flag(r, equal(answers@, self.view(), other.view())),
        decreases *self,
    {
        match (self, other) {
            (ScriptValue::Null, ScriptValue::Null) => Ok(true),
            (ScriptValue::Bool(x), ScriptValue::Bool(y)) => Ok(*x == *y),
            (ScriptValue::Int(x), ScriptValue::Int(y)) => Ok(*x == *y),
            (ScriptValue::Float(x), ScriptValue::Float(y)) => answers.flag(
                ask2("==", x.copy(), y.copy()),
            ),
            (ScriptValue::Str(x), ScriptValue::Str(y)) => Ok(same(x, y)),
            (ScriptValue::Regex(x), ScriptValue::Regex(y)) => Ok(same(x, y)),
            (ScriptValue::Array(x), ScriptValue::Array(y)) => {
                if x.len() != y.len() {
                    return Ok(false);
                }
                let mut i: usize = 0;
                while i < x.len()
                    invariant
                        i <= x@.len() == y@.len(),
                        equal_items(answers@, values_view(x@), values_view(y@), 0) == equal_items(
                            answers@,
                            values_view(x@),
                            values_view(y@),
                            i as int,
                        ),
                        *self == ScriptValue::Array(*x),
                        *other == ScriptValue::Array(*y),
                    decreases x@.len() - i,
                {
                    assert(decreases_to!(*self => self->Array_0));
                    assert(decreases_to!(x@ => x@[i as int]));
                    assert(values_view(x@)[i as int] == x@[i as int].view());
                    assert(values_view(y@)[i as int] == y@[i as int].view());
                    match x[i].equals(&y[i], answers) {
                        Ok(true) => {},
                        Ok(false) => return Ok(false),
                        Err(q) => return Err(q),
                    }
                    i += 1;
                }
                Ok(true)
            },
            (ScriptValue::Dict(x), ScriptValue::Dict(y)) => {
                if x.len() != y.len() {
                    return Ok(false);
                }
                let mut i: usize = 0;
                while i < x.len()
                    invariant
                        i <= x@.len() == y@.len(),
                        equal_entries(answers@, map_view(x@), map_view(y@), 0) == equal_entries(
                            answers@,
                            map_view(x@),
                            map_view(y@),
                            i as int,
                        ),
                        *self == ScriptValue::Dict(*x),
                        *other == ScriptValue::Dict(*y),
                    decreases x@.len() - i,
                {
                    assert(decreases_to!(*self => self->Dict_0));
                    assert(decreases_to!(x@ => x@[i as int]));
                    assert(decreases_to!(x@[i as int] => x@[i as int].1));
                    assert(map_view(x@)[i as int] == (x@[i as int].0@, x@[i as int].1.view()));
                    let k = find_key::<ScriptValue, ScriptV>(y, &x[i].0, Ghost(map_view(y@)));
                    if k >= y.len() {
                        return Ok(false);
                    }
                    assert(map_view(y@)[k as int] == (y@[k as int].0@, y@[k as int].1.view()));
                    match x[i].1.equals(&y[k].1, answers) {
                        Ok(true) => {},
                        Ok(false) => return Ok(false),
                        Err(q) => return Err(q),
                    }
                    i += 1;
                }
                Ok(true)
            },
            _ => Ok(false),
        }
    }
}

/// The number that a value is in arithmetic, if any.
pub open spec fn as_number(v: ScriptV) -> Option<DoubleV> {
    match v {
        ScriptV::Int(n) => Some(DoubleV::Int(n)),
        ScriptV::Float(d) => Some(d),
        _ => None,
    }
}

/// The texts of items with `sep` between two, behind `first`.
pub(crate) fn display_list(
    a: &Vec<ScriptValue>,
    sep: &str,
    first: &str,
    answers: &Answers,
) -> (r: Result<String, DoubleQuery>)
    ensures
        gives_text(r, display_items(answers@, values_view(a@), sep@, 0, first@)),
    decreases a@, 0nat,
{
    let mut out = first.to_owned();
    let mut i: usize = 0;
    while i < a.len()
        invariant
            i <= a@.len(),
            display_items(answers@, values_view(a@), sep@, 0, first@) == display_items(
                answers@,
                values_view(a@),
                sep@,
                i as int,
                out@,
            ),
        decreases a@.len() - i,
    {
        assert(decreases_to!(a@ => a@[i as int]));
        assert(values_view(a@)[i as int] == a@[i as int].view());
        let s = match a[i].display(answers) {
            Ok(s) => s,
            Err(q) => return Err(q),
        };
        if i > 0 {
            out.append(sep);
        }
        out.append(&s);
        i += 1;
    }
    Ok(out)
}

/// The value under a key of a map.
pub(crate) fn map_get<'a>(m: &'a Vec<(String, ScriptValue)>, k: &str) -> (r: Option<
    &'a ScriptValue,
>)
    ensures
        match r {
            Some(v) => lookup(map_view(m@), k@) == Some(v.view()),
            None => lookup(map_view(m@), k@) is None,
        },
{
    let i = find_key::<ScriptValue, ScriptV>(m, k, Ghost(map_view(m@)));
    if i < m.len() {
        assert(map_view(m@)[i as int] == (m@[i as int].0@, m@[i as int].1.view()));
        Some(&m[i].1)
    } else {
        None
    }
}

/// Puts a value under a key of a map.
pub(crate) fn map_put(m: &mut Vec<(String, ScriptValue)>, k: String, v: ScriptValue)
    ensures
        map_view(final(m)@) == put(map_view(old(m)@), k@, v.view()),
{
    let i = find_key::<ScriptValue, ScriptV>(m, &k, Ghost(map_view(m@)));
    let ghost before = map_view(m@);
    let ghost w = (k@, v.view());
    if i < m.len() {
        m.set(i, (k, v));
        assert(map_view(m@) =~= before.update(i as int, w));
    } else {
        m.push((k, v));
        proof {
            lemma_key_from(before, w.0, 0);
        }
        assert(map_view(m@) =~= before.push(w));
    }
}

/// Removes a key of a map.
pub(crate) fn map_remove(m: &mut Vec<(String, ScriptValue)>, k: &str)
    ensures
        map_view(final(m)@) == without(map_view(old(m)@), k@),
{
    let i = find_key::<ScriptValue, ScriptV>(m, k, Ghost(map_view(m@)));
    let ghost before = map_view(m@);
    if i < m.len() {
        let _ = m.remove(i);
        assert(map_view(m@) =~= before.remove(i as int));
    }
}

} // verus!
