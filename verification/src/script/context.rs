//! What a script can see and change.
use crate::dict::{find_key, lemma_key_from, put};
use crate::json::{copy_json_map, entries_view, put_json, Json, JsonV};
use crate::script::semantics::{
    get_path, member_or_null, nested, set_local, set_path, source_field, with_nested, CtxV,
};
use crate::script::value::{map_put, map_view, value_of_json, ScriptV, ScriptValue};
use crate::text::{split, split_text, starts_with, texts_view};
use vstd::prelude::*;

verus! {

broadcast use vstd::string::group_string_axioms;

/// The fields, parameters and variables that a script works on.
#[derive(Debug, PartialEq)]
pub struct ScriptContext {
    /// Field values of the document, as `doc['field']` reads them.
    pub doc: Vec<(String, Json)>,
    /// The document's source, which scripts may change.
    pub source: Json,
    /// Parameters handed to the script.
    pub params: Vec<(String, Json)>,
    /// Variables of the script.
    pub locals: Vec<(String, ScriptValue)>,
    /// Metadata such as `_id` and `_index`.
    pub metadata: Vec<(String, String)>,
    /// How many random numbers were drawn.
    pub draws: i64,
}

pub open spec fn texts_map(s: Seq<(String, String)>) -> Seq<(Seq<char>, Seq<char>)> {
    s.map_values(|e: (String, String)| (e.0@, e.1@))
}

impl View for ScriptContext {
    type V = CtxV;

    open spec fn view(&self) -> CtxV {
        CtxV {
            doc: entries_view(self.doc@),
            source: self.source.view(),
            params: entries_view(self.params@),
            locals: map_view(self.locals@),
            metadata: texts_map(self.metadata@),
            draws: self.draws,
        }
    }
}

/// Nothing set, and an empty object as source.
pub open spec fn empty_context() -> CtxV {
    CtxV {
        doc: Seq::empty(),
        source: JsonV::Object(Seq::empty()),
        params: Seq::empty(),
        locals: Seq::empty(),
        metadata: Seq::empty(),
        draws: 0,
    }
}

impl ScriptContext {
    pub fn new() -> (r: Self)
        ensures
            r@ == empty_context(),
    {
        let r = Self {
            doc: Vec::new(),
            source: Json::Object(Vec::new()),
            params: Vec::new(),
            locals: Vec::new(),
            metadata: Vec::new(),
            draws: 0,
        };
        proof {
            let none = Seq::<(Seq<char>, JsonV)>::empty();
            assert(entries_view(r.doc@) =~= none);
            assert(entries_view(r.params@) =~= none);
            assert(entries_view(r.source->Object_0@) =~= none);
            assert(map_view(r.locals@) =~= Seq::<(Seq<char>, ScriptV)>::empty());
            assert(texts_map(r.metadata@) =~= Seq::<(Seq<char>, Seq<char>)>::empty());
        }
        r
    }

    /// Sets a field value of the document.
    pub fn set_doc(&mut self, name: &str, value: Json)
        ensures
            final(self)@ == (CtxV { doc: put(old(self)@.doc, name@, value.view()), ..old(self)@ }),
    {
        put_json(&mut self.doc, name, value);
    }

    /// Sets a parameter.
    pub fn set_param(&mut self, name: &str, value: Json)
        ensures
            final(self)@ == (CtxV {
                params: put(old(self)@.params, name@, value.view()),
                ..old(self)@
            }),
    {
        put_json(&mut self.params, name, value);
    }

    /// Sets a variable.
    pub fn set_local(&mut self, name: &str, value: ScriptValue)
        ensures
            final(self)@ == set_local(old(self)@, name@, value.view()),
    {
        map_put(&mut self.locals, name.to_owned(), value);
    }

    /// Sets a metadata field.
    pub fn set_metadata(&mut self, name: &str, value: &str)
        ensures
            final(self)@ == (CtxV {
                metadata: put(old(self)@.metadata, name@, value@),
                ..old(self)@
            }),
    {
        let ghost before = texts_map(self.metadata@);
        let i = find_key::<String, Seq<char>>(&self.metadata, name, Ghost(before));
        if i < self.metadata.len() {
            self.metadata.set(i, (name.to_owned(), value.to_owned()));
            assert(texts_map(self.metadata@) =~= before.update(i as int, (name@, value@)));
        } else {
            self.metadata.push((name.to_owned(), value.to_owned()));
            proof {
                lemma_key_from(before, name@, 0);
            }
            assert(texts_map(self.metadata@) =~= before.push((name@, value@)));
        }
    }

    /// A context with the same contents.
    pub fn copy(&self) -> (r: Self)
        ensures
            r@ == self@,
    {
        let mut locals: Vec<(String, ScriptValue)> = Vec::new();
        let mut i: usize = 0;
        while i < self.locals.len()
            invariant
                i <= self.locals@.len(),
                locals@.len() == i,
                forall|k: int|
                    0 <= k < i ==> (#[trigger] locals@[k]).0@ == self.locals@[k].0@
                        && locals@[k].1.view() == self.locals@[k].1.view(),
            decreases self.locals@.len() - i,
        {
            locals.push((self.locals[i].0.clone(), self.locals[i].1.copy()));
            i += 1;
        }
        assert(map_view(locals@) =~= map_view(self.locals@));
        let mut metadata: Vec<(String, String)> = Vec::new();
        let mut i: usize = 0;
        while i < self.metadata.len()
            invariant
                i <= self.metadata@.len(),
                metadata@.len() == i,
                forall|k: int|
                    0 <= k < i ==> (#[trigger] metadata@[k]).0@ == self.metadata@[k].0@
                        && metadata@[k].1@ == self.metadata@[k].1@,
            decreases self.metadata@.len() - i,
        {
            metadata.push((self.metadata[i].0.clone(), self.metadata[i].1.clone()));
            i += 1;
        }
        assert(texts_map(metadata@) =~= texts_map(self.metadata@));
        Self {
            doc: copy_json_map(&self.doc),
            source: self.source.copy(),
            params: copy_json_map(&self.params),
            locals,
            metadata,
            draws: self.draws,
        }
    }

    /// `ctx.field` as it reads.
    pub(crate) fn read_source(&self, field: &str) -> (r: ScriptValue)
        ensures
            r.view() == source_field(self@, field@),
    {
        proof {
            reveal_strlit("_");
            assert("_"@.is_prefix_of(field@) == (field@.len() > 0 && field@[0] == '_')) by {
                assert("_"@.len() == 1 && "_"@[0] == '_');
                if field@.len() > 0 && field@[0] == '_' {
                    assert("_"@ =~= field@.subrange(0, 1));
                }
                if "_"@.is_prefix_of(field@) {
                    assert(field@.subrange(0, 1)[0] == field@[0]);
                }
            }
        }
        if starts_with(field, "_") {
            let ghost q = texts_map(self.metadata@);
            let i = find_key::<String, Seq<char>>(&self.metadata, field, Ghost(q));
            if i < self.metadata.len() {
                assert(q[i as int] == (self.metadata@[i as int].0@, self.metadata@[i as int].1@));
                return ScriptValue::Str(self.metadata[i].1.clone());
            }
        }
        ScriptValue::from(&get_nested_value(&self.source, field))
    }
}

/// Reads a member of a list of fields, or null.
pub(crate) fn read_member(p: &Vec<(String, Json)>, k: &str) -> (r: ScriptValue)
    ensures
        r.view() == value_of_json(member_or_null(entries_view(p@), k@)),
{
    let i = find_key::<Json, JsonV>(p, k, Ghost(entries_view(p@)));
    if i < p.len() {
        assert(entries_view(p@)[i as int] == (p@[i as int].0@, p@[i as int].1.view()));
        ScriptValue::from(&p[i].1)
    } else {
        ScriptValue::Null
    }
}

impl Default for ScriptContext {
    fn default() -> (r: Self)
        ensures
            r@ == empty_context(),
    {
        Self::new()
    }
}

/// The value at a dotted path, or null.
pub fn get_nested_value(source: &Json, path: &str) -> (r: Json)
    ensures
        r.view() == nested(source.view(), path@),
{
    let parts = split(path, ".");
    let mut current = source;
    let mut i: usize = 0;
    while i < parts.len()
        invariant
            i <= parts@.len(),
            texts_view(parts@) == split_text(path@, "."@),
            get_path(source.view(), texts_view(parts@), 0) == get_path(
                current.view(),
                texts_view(parts@),
                i as int,
            ),
        decreases parts@.len() - i,
    {
        match current.get(&parts[i]) {
            Some(v) => {
                current = v;
            },
            None => return Json::Null,
        }
        i += 1;
    }
    current.copy()
}

/// Puts a value at a dotted path. Only an object takes members; a member on
/// the way that is no object becomes one.
pub fn set_nested_value(source: &mut Json, path: &str, value: Json)
    ensures
        final(source).view() == with_nested(old(source).view(), path@, value.view()),
{
    let parts = split(path, ".");
    set_at(source, &parts, 0, value);
}

fn set_at(source: &mut Json, parts: &Vec<String>, i: usize, value: Json)
    requires
        i < parts@.len(),
    ensures
        final(source).view() == set_path(
            old(source).view(),
            texts_view(parts@),
            i as int,
            value.view(),
        ),
    decreases parts@.len() - i,
{
    if let Json::Object(p) = source {
        if parts.len() - i == 1 {
            put_json(p, &parts[i], value);
        } else {
            let ghost before = entries_view(p@);
            let k = find_key::<Json, JsonV>(p, &parts[i], Ghost(before));
            proof {
                lemma_key_from(before, parts@[i as int]@, 0);
            }
            let mut child = Json::Object(Vec::new());
            assert(entries_view(child->Object_0@) =~= Seq::<(Seq<char>, JsonV)>::empty());
            if k < p.len() {
                assert(before[k as int] == (p@[k as int].0@, p@[k as int].1.view()));
                if let Json::Object(_) = &p[k].1 {
                    child = p[k].1.copy();
                }
            }
            set_at(&mut child, parts, i + 1, value);
            put_json(p, &parts[i], child);
        }
    }
}

} // verus!
