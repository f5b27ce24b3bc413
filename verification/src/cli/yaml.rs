//! YAML values as plain data, as far as settings files need them.
use crate::text::same;
use serde_yaml::Value;
use vstd::prelude::*;

verus! {

broadcast use vstd::string::group_string_axioms;

#[verifier::external_type_specification]
#[verifier::external_body]
pub struct ExYamlValue(serde_yaml::Value);

/// A YAML value. A number is held as its text.
#[derive(Debug, PartialEq)]
pub enum Yaml {
    Null,
    Bool(bool),
    Number(String),
    Text(String),
    List(Vec<Yaml>),
    Mapping(Vec<(Yaml, Yaml)>),
    /// A value with a tag, such as `!name`, before it.
    Tagged(String, Box<Yaml>),
}

/// What a [`Yaml`] says.
#[verifier::ext_equal]
pub enum YamlV {
    Null,
    Bool(bool),
    Number(Seq<char>),
    Text(Seq<char>),
    List(Seq<YamlV>),
    Mapping(Seq<(YamlV, YamlV)>),
    Tagged(Seq<char>, Box<YamlV>),
}

pub open spec fn items_view(s: Seq<Yaml>) -> Seq<YamlV>
    decreases s,
{
    Seq::new(
        s.len(),
        |i: int|
            if 0 <= i < s.len() {
                s[i].view()
            } else {
                YamlV::Null
            },
    )
}

pub open spec fn members_view(s: Seq<(Yaml, Yaml)>) -> Seq<(YamlV, YamlV)>
    decreases s,
{
    Seq::new(
        s.len(),
        |i: int|
            if 0 <= i < s.len() {
                (s[i].0.view(), s[i].1.view())
            } else {
                (YamlV::Null, YamlV::Null)
            },
    )
}

impl Yaml {
    pub open spec fn view(self) -> YamlV
        decreases self,
    {
        match self {
            Yaml::Null => YamlV::Null,
            Yaml::Bool(b) => YamlV::Bool(b),
            Yaml::Number(s) => YamlV::Number(s@),
            Yaml::Text(s) => YamlV::Text(s@),
            Yaml::List(a) => YamlV::List(items_view(a@)),
            Yaml::Mapping(m) => YamlV::Mapping(members_view(m@)),
            Yaml::Tagged(t, v) => YamlV::Tagged(t@, Box::new((*v).view())),
        }
    }
}

/// What a value of serde_yaml holds. Numbers are held as the text that
/// serde_yaml prints for them, tags likewise, and the members of a mapping come
/// in their order.
pub uninterp spec fn yaml_model(v: serde_yaml::Value) -> YamlV;

/// What serde_yaml reads from a text, if it reads a value.
pub uninterp spec fn yaml_read(content: Seq<char>) -> Option<YamlV>;

/// `serde_yaml::from_str` into a `serde_yaml::Value`: what comes out is a
/// function of the text, which [`yaml_read`] names; why nothing does is dropped.
#[verifier::external_body]
pub(crate) fn yaml_from_str(content: &str) -> (r: Option<serde_yaml::Value>)
    ensures
        match r {
            Some(v) => yaml_read(content@) == Some(yaml_model(v)),
            None => yaml_read(content@) is None,
        },
{
    serde_yaml::from_str(content).ok()
}

/// The plain value that a `serde_yaml::Value` holds, variant by variant.
#[verifier::external_body]
pub(crate) fn yaml_of_value(v: &serde_yaml::Value) -> (r: Yaml)
    ensures
        r.view() == yaml_model(*v),
{
    match v {
        Value::Null => Yaml::Null,
        Value::Bool(b) => Yaml::Bool(*b),
        Value::Number(n) => Yaml::Number(n.to_string()),
        Value::String(s) => Yaml::Text(s.clone()),
        Value::Sequence(a) => Yaml::List(a.iter().map(yaml_of_value).collect()),
        Value::Mapping(m) => Yaml::Mapping(
            m.iter().map(|(k, x)| (yaml_of_value(k), yaml_of_value(x))).collect()),
        Value::Tagged(t) => Yaml::Tagged(t.tag.to_string(), Box::new(yaml_of_value(&t.value))),
    }
}

/// Reads a YAML text.
pub fn parse_yaml(content: &str) -> (r: Option<Yaml>)
    ensures
        match r {
            Some(y) => yaml_read(content@) == Some(y.view()),
            None => yaml_read(content@) is None,
        },
{
    match yaml_from_str(content) {
        Some(v) => Some(yaml_of_value(&v)),
        None => None,
    }
}

/// The value behind all tags.
pub open spec fn untagged(v: YamlV) -> YamlV
    decreases v,
{
    match v {
        YamlV::Tagged(_, x) => untagged(*x),
        _ => v,
    }
}

/// The first value from the member `i` on whose key is a text.
pub open spec fn value_under(m: Seq<(YamlV, YamlV)>, key: Seq<char>, i: int) -> Option<YamlV>
    decreases m.len() - i,
{
    if i < 0 || i >= m.len() {
        None
    } else if m[i].0 == YamlV::Text(key) {
        Some(m[i].1)
    } else {
        value_under(m, key, i + 1)
    }
}

/// The text that a mapping holds under a key; tags before the mapping and
/// before the text do not count.
pub open spec fn text_under(v: YamlV, key: Seq<char>) -> Option<Seq<char>> {
    match untagged(v) {
        YamlV::Mapping(m) => match value_under(m, key, 0) {
            Some(x) => match untagged(x) {
                YamlV::Text(s) => Some(s),
                _ => None,
            },
            None => None,
        },
        _ => None,
    }
}

/// The text that a YAML text holds under a key, if it is a mapping and holds
/// one.
pub open spec fn yaml_text(content: Seq<char>, key: Seq<char>) -> Option<Seq<char>> {
    match yaml_read(content) {
        Some(v) => text_under(v, key),
        None => None,
    }
}

impl Yaml {
    fn untag(&self) -> (r: &Yaml)
        ensures
            r.view() == untagged(self.view()),
            !(r is Tagged),
        decreases *self,
    {
        match self {
            Yaml::Tagged(_, v) => v.untag(),
            _ => self,
        }
    }

    /// The text that a mapping holds under a key.
    pub fn text(&self, key: &str) -> (r: Option<String>)
        ensures
            match r {
                Some(s) => text_under(self.view(), key@) == Some(s@),
                None => text_under(self.view(), key@) is None,
            },
    {
        let m = match self.untag() {
            Yaml::Mapping(m) => m,
            _ => return None,
        };
        let mut i: usize = 0;
        while i < m.len()
            invariant
                i <= m@.len(),
                untagged(self.view()) == YamlV::Mapping(members_view(m@)),
                value_under(members_view(m@), key@, 0) == value_under(
                    members_view(m@),
                    key@,
                    i as int,
                ),
            decreases m@.len() - i,
        {
            assert(members_view(m@)[i as int] == (m@[i as int].0.view(), m@[i as int].1.view()));
            if let Yaml::Text(k) = &m[i].0 {
                if same(k, key) {
                    return match m[i].1.untag() {
                        Yaml::Text(s) => Some(s.clone()),
                        _ => None,
                    };
                }
            }
            i += 1;
        }
        None
    }
}

} // verus!
