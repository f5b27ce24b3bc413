//! JSON values as plain data.
use crate::dict::{find_key, lemma_key_from, lookup, put, without};
use crate::double::{Double, DoubleV};
use vstd::prelude::*;

verus! {

broadcast use vstd::string::group_string_axioms;

/// A JSON value. Numbers are integers that fit 64 bits, or doubles.
#[derive(Debug, PartialEq)]
pub enum Json {
    Null,
    Bool(bool),
    Int(i64),
    /// An integer above the largest `i64`.
    UInt(u64),
    Float(Double),
    Str(String),
    Array(Vec<Json>),
    Object(Vec<(String, Json)>),
}

/// What a [`Json`] says.
#[verifier::ext_equal]
pub enum JsonV {
    Null,
    Bool(bool),
    Int(i64),
    UInt(u64),
    Float(DoubleV),
    Str(Seq<char>),
    Array(Seq<JsonV>),
    Object(Seq<(Seq<char>, JsonV)>),
}

pub open spec fn jsons_view(s: Seq<Json>) -> Seq<JsonV>
    decreases s,
{
    Seq::new(
        s.len(),
        |i: int|
            if 0 <= i < s.len() {
                s[i].view()
            } else {
                JsonV::Null
            },
    )
}

pub open spec fn entries_view(s: Seq<(String, Json)>) -> Seq<(Seq<char>, JsonV)>
    decreases s,
{
    Seq::new(
        s.len(),
        |i: int|
            if 0 <= i < s.len() {
                (s[i].0@, s[i].1.view())
            } else {
                (Seq::empty(), JsonV::Null)
            },
    )
}

impl Json {
    pub open spec fn view(self) -> JsonV
        decreases self,
    {
        match self {
            Json::Null => JsonV::Null,
            Json::Bool(b) => JsonV::Bool(b),
            Json::Int(n) => JsonV::Int(n),
            Json::UInt(n) => JsonV::UInt(n),
            Json::Float(d) => JsonV::Float(d@),
            Json::Str(s) => JsonV::Str(s@),
            Json::Array(a) => JsonV::Array(jsons_view(a@)),
            Json::Object(o) => JsonV::Object(entries_view(o@)),
        }
    }

    pub fn copy(&self) -> (r: Json)
        ensures
            r.view() == self.view(),
        decreases *self, 1nat,
    {
        match self {
            Json::Null => Json::Null,
            Json::Bool(b) => Json::Bool(*b),
            Json::Int(n) => Json::Int(*n),
            Json::UInt(n) => Json::UInt(*n),
            Json::Float(d) => Json::Float(d.copy()),
            Json::Str(s) => Json::Str(s.clone()),
            Json::Array(a) => {
                let mut out: Vec<Json> = Vec::new();
                let mut i: usize = 0;
                while i < a.len()
                    invariant
                        i <= a@.len(),
                        out@.len() == i,
                        forall|k: int| 0 <= k < i ==> (#[trigger] out@[k]).view() == a@[k].view(),
                        *self == Json::Array(*a),
                    decreases a@.len() - i,
                {
                    assert(decreases_to!(*self => self->Array_0));
                    assert(decreases_to!(a@ => a@[i as int]));
                    out.push(a[i].copy());
                    i += 1;
                }
                assert(jsons_view(out@) =~= jsons_view(a@));
                Json::Array(out)
            },
            Json::Object(o) => {
                let out = copy_entries(o, Ghost(*self));
                Json::Object(out)
            },
        }
    }

    /// The member of an object under a key.
    pub fn get(&self, k: &str) -> (r: Option<&Json>)
        ensures
            match r {
                Some(j) => json_get(self.view(), k@) == Some(j.view()),
                None => json_get(self.view(), k@) is None,
            },
    {
        match self {
            Json::Object(o) => {
                let ghost q = entries_view(o@);
                let i = find_key::<Json, JsonV>(o, k, Ghost(q));
                if i < o.len() {
                    Some(&o[i].1)
                } else {
                    None
                }
            },
            _ => None,
        }
    }

    pub fn as_str(&self) -> (r: Option<&String>)
        ensures
            match r {
                Some(s) => self.view() == JsonV::Str(s@),
                None => !(self.view() is Str),
            },
    {
        match self {
            Json::Str(s) => Some(s),
            _ => None,
        }
    }
}

fn copy_entries(o: &Vec<(String, Json)>, owner: Ghost<Json>) -> (r: Vec<(String, Json)>)
    requires
        owner@ == Json::Object(*o),
    ensures
        entries_view(r@) == entries_view(o@),
    decreases owner@, 0nat,
{
    let mut out: Vec<(String, Json)> = Vec::new();
    let mut i: usize = 0;
    while i < o.len()
        invariant
            i <= o@.len(),
            out@.len() == i,
            forall|k: int|
                0 <= k < i ==> (#[trigger] out@[k]).0@ == o@[k].0@ && out@[k].1.view()
                    == o@[k].1.view(),
            owner@ == Json::Object(*o),
        decreases o@.len() - i,
    {
        assert(decreases_to!(owner@ => owner@->Object_0));
        assert(decreases_to!(o@ => o@[i as int]));
        assert(decreases_to!(o@[i as int] => o@[i as int].1));
        out.push((o[i].0.clone(), o[i].1.copy()));
        i += 1;
    }
    assert(entries_view(out@) =~= entries_view(o@));
    out
}

/// The member of an object under a key; nothing else has members by name.
pub open spec fn json_get(j: JsonV, k: Seq<char>) -> Option<JsonV> {
    match j {
        JsonV::Object(p) => lookup(p, k),
        _ => None,
    }
}

/// Puts a member into a list of members.
pub(crate) fn put_json(p: &mut Vec<(String, Json)>, k: &str, v: Json)
    ensures
        entries_view(final(p)@) == put(entries_view(old(p)@), k@, v.view()),
{
    let i = find_key::<Json, JsonV>(p, k, Ghost(entries_view(p@)));
    let ghost before = entries_view(p@);
    let ghost w = (k@, v.view());
    if i < p.len() {
        p.set(i, (k.to_owned(), v));
        assert(entries_view(p@) =~= before.update(i as int, w));
    } else {
        p.push((k.to_owned(), v));
        proof {
            lemma_key_from(before, k@, 0);
        }
        assert(entries_view(p@) =~= before.push(w));
    }
}

/// Removes a member from a list of members.
pub(crate) fn remove_json(p: &mut Vec<(String, Json)>, k: &str)
    ensures
        entries_view(final(p)@) == without(entries_view(old(p)@), k@),
{
    let i = find_key::<Json, JsonV>(p, k, Ghost(entries_view(p@)));
    let ghost before = entries_view(p@);
    if i < p.len() {
        let _ = p.remove(i);
        assert(entries_view(p@) =~= before.remove(i as int));
    }
}

/// The value of a member in a list of members.
pub(crate) fn find_json<'a>(p: &'a Vec<(String, Json)>, k: &str) -> (r: Option<&'a Json>)
    ensures
        match r {
            Some(v) => lookup(entries_view(p@), k@) == Some(v.view()),
            None => lookup(entries_view(p@), k@) is None,
        },
{
    let i = find_key::<Json, JsonV>(p, k, Ghost(entries_view(p@)));
    if i < p.len() {
        assert(entries_view(p@)[i as int] == (p@[i as int].0@, p@[i as int].1.view()));
        Some(&p[i].1)
    } else {
        None
    }
}

/// A copy of a list of members.
pub(crate) fn copy_json_map(p: &Vec<(String, Json)>) -> (r: Vec<(String, Json)>)
    ensures
        entries_view(r@) == entries_view(p@),
{
    let mut out: Vec<(String, Json)> = Vec::new();
    let mut i: usize = 0;
    while i < p.len()
        invariant
            i <= p@.len(),
            out@.len() == i,
            forall|k: int|
                0 <= k < i ==> (#[trigger] out@[k]).0@ == p@[k].0@ && out@[k].1.view()
                    == p@[k].1.view(),
        decreases p@.len() - i,
    {
        out.push((p[i].0.clone(), p[i].1.copy()));
        i += 1;
    }
    assert(entries_view(out@) =~= entries_view(p@));
    out
}

/// A text as a value.
pub(crate) fn text_value(s: &str) -> (r: Json)
    ensures
        r.view() == JsonV::Str(s@),
{
    Json::Str(s.to_owned())
}

} // verus!
