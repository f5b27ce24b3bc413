//! Rubydebug codec: events as Ruby's `pp` prints them.
use crate::codec::dots::trimmed_event;
use crate::codec::{
    lossy_text, one_event, text_bytes, Codec, CodecErrV, CodecError, DecodedV, EncodedV,
    TemplatesV,
};
use crate::double::{ask1, ask_text, query, Answers, AnswersV, DoubleQuery, QueryV};
use crate::event::{Event, EventV};
use crate::json::{entries_view, jsons_view, Json, JsonV};
use crate::moment::{format_rfc3339, rfc3339_text, Moment};
use crate::script::value::gives_text;
use crate::text::{chars_of, i64_text, int_text, join3, nat_text, texts_view, trim_end, u64_text};
use vstd::prelude::*;
use vstd::utf8::encode_utf8;

verus! {

broadcast use vstd::string::group_string_axioms;

/// Encodes events in the style of Ruby's `pp`, such as
/// ```text
/// {
///     "@timestamp" => 2026-04-12T10:00:00.000Z,
///        "message" => "hello world",
///           "host" => "server01"
/// }
/// ```
#[derive(Debug, Clone, Copy, PartialEq, Eq)]
pub struct RubydebugCodec;

/// A value as Ruby inspects it.
pub open spec fn ruby_text(t: AnswersV, v: JsonV) -> Result<Seq<char>, QueryV>
    decreases v, 0nat,
{
    match v {
        JsonV::Str(s) => Ok("\""@ + s + "\""@),
        JsonV::Int(n) => Ok(int_text(n as int)),
        JsonV::UInt(n) => Ok(nat_text(n as nat)),
        JsonV::Float(d) => ask_text(t, query("display"@, seq![d])),
        JsonV::Bool(b) => Ok(
            if b {
                "true"@
            } else {
                "false"@
            },
        ),
        JsonV::Null => Ok("nil"@),
        JsonV::Array(a) => match ruby_items(t, a, 0, "["@) {
            Ok(s) => Ok(s + "]"@),
            Err(q) => Err(q),
        },
        JsonV::Object(o) => match ruby_entries(t, o, 0, "{"@) {
            Ok(s) => Ok(s + "}"@),
            Err(q) => Err(q),
        },
    }
}

pub open spec fn ruby_items(t: AnswersV, a: Seq<JsonV>, i: int, acc: Seq<char>) -> Result<
    Seq<char>,
    QueryV,
>
    decreases a, a.len() - i,
{
    if i < 0 || i >= a.len() {
        Ok(acc)
    } else {
        match ruby_text(t, a[i]) {
            Ok(s) => ruby_items(
                t,
                a,
                i + 1,
                if i > 0 {
                    acc + ", "@ + s
                } else {
                    acc + s
                },
            ),
            Err(q) => Err(q),
        }
    }
}

pub open spec fn ruby_entries(
    t: AnswersV,
    o: Seq<(Seq<char>, JsonV)>,
    i: int,
    acc: Seq<char>,
) -> Result<Seq<char>, QueryV>
    decreases o, o.len() - i,
{
    if i < 0 || i >= o.len() {
        Ok(acc)
    } else {
        match ruby_text(t, o[i].1) {
            Ok(s) => ruby_entries(
                t,
                o,
                i + 1,
                (if i > 0 {
                    acc + ", "@
                } else {
                    acc
                }) + "\""@ + o[i].0 + "\" => "@ + s,
            ),
            Err(q) => Err(q),
        }
    }
}

pub type Pairs = Seq<(Seq<char>, Seq<char>)>;

/// The fields from `i` on with their texts, behind `acc`.
pub open spec fn field_pairs(
    t: AnswersV,
    p: Seq<(Seq<char>, JsonV)>,
    i: int,
    acc: Pairs,
) -> Result<Pairs, QueryV>
    decreases p.len() - i,
{
    if i < 0 || i >= p.len() {
        Ok(acc)
    } else {
        match ruby_text(t, p[i].1) {
            Ok(s) => field_pairs(t, p, i + 1, acc.push((p[i].0, s))),
            Err(q) => Err(q),
        }
    }
}

/// The tags from `i` on as a list, behind `acc`.
pub open spec fn tags_from(tags: Seq<Seq<char>>, i: int, acc: Seq<char>) -> Seq<char>
    decreases tags.len() - i,
{
    if i < 0 || i >= tags.len() {
        acc + "]"@
    } else {
        tags_from(
            tags,
            i + 1,
            (if i > 0 {
                acc + ", "@
            } else {
                acc
            }) + "\""@ + tags[i] + "\""@,
        )
    }
}

/// What an event shows: its time, its fields, and its tags, if any.
pub open spec fn shown_pairs(t: AnswersV, e: EventV) -> Result<Pairs, QueryV> {
    let time = ("@timestamp"@, rfc3339_text(e.timestamp.secs, e.timestamp.nanos));
    match field_pairs(t, e.fields, 0, seq![time]) {
        Err(q) => Err(q),
        Ok(p) => Ok(
            if e.tags.len() > 0 {
                p.push(("tags"@, tags_from(e.tags, 0, "["@)))
            } else {
                p
            },
        ),
    }
}

/// The length in bytes of the longest key from `i` on, or `most`.
pub open spec fn longest_key(p: Pairs, i: int, most: nat) -> nat
    decreases p.len() - i,
{
    if i < 0 || i >= p.len() {
        most
    } else {
        let n = encode_utf8(p[i].0).len();
        longest_key(
            p,
            i + 1,
            if n > most {
                n
            } else {
                most
            },
        )
    }
}

/// So many spaces.
pub open spec fn spaces(n: nat) -> Seq<char> {
    Seq::new(n, |i: int| ' ')
}

/// A line: the key, its end aligned with that of others, and the value.
pub open spec fn pair_line(key: Seq<char>, value: Seq<char>, width: nat, last: bool) -> Seq<char> {
    "    "@ + spaces(
        if width > key.len() {
            (width - key.len()) as nat
        } else {
            0
        },
    ) + "\""@ + key + "\" => "@ + value + (if last {
        "\n"@
    } else {
        ",\n"@
    })
}

/// The lines from `i` on, behind `acc`.
pub open spec fn pair_lines(p: Pairs, i: int, width: nat, acc: Seq<char>) -> Seq<char>
    decreases p.len() - i,
{
    if i < 0 || i >= p.len() {
        acc
    } else {
        pair_lines(p, i + 1, width, acc + pair_line(p[i].0, p[i].1, width, i + 1 == p.len()))
    }
}

/// The text of what an event shows.
pub open spec fn ruby_event(p: Pairs) -> Seq<char> {
    pair_lines(p, 0, longest_key(p, 0, 0), "{\n"@) + "}\n"@
}

pub open spec fn pairs_view(v: Seq<(String, String)>) -> Pairs {
    v.map_values(|p: (String, String)| (p.0@, p.1@))
}

impl RubydebugCodec {
    pub fn from_config(_settings: &Json) -> (r: Result<Self, CodecError>)
        ensures
            r is Ok,
    {
        Ok(Self)
    }

    /// A value as Ruby inspects it.
    pub fn format_value(v: &Json, answers: &Answers) -> (r: Result<String, DoubleQuery>)
        ensures
            gives_text(r, ruby_text(answers@, v.view())),
        decreases *v,
    {
        match v {
            Json::Str(s) => Ok(join3("\"", s, "\"")),
            Json::Int(n) => Ok(i64_text(*n)),
            Json::UInt(n) => Ok(u64_text(*n)),
            Json::Float(d) => answers.text(ask1("display", d.copy())),
            Json::Bool(b) => Ok(
                if *b {
                    "true".to_owned()
                } else {
                    "false".to_owned()
                },
            ),
            Json::Null => Ok("nil".to_owned()),
            Json::Array(a) => {
                let mut out = "[".to_owned();
                let mut i: usize = 0;
                while i < a.len()
                    invariant
                        i <= a@.len(),
                        ruby_items(answers@, jsons_view(a@), 0, "["@) == ruby_items(
                            answers@,
                            jsons_view(a@),
                            i as int,
                            out@,
                        ),
                        *v == Json::Array(*a),
                    decreases a@.len() - i,
                {
                    assert(decreases_to!(*v => v->Array_0));
                    assert(decreases_to!(a@ => a@[i as int]));
                    assert(jsons_view(a@)[i as int] == a@[i as int].view());
                    let s = match Self::format_value(&a[i], answers) {
                        Ok(s) => s,
                        Err(q) => return Err(q),
                    };
                    if i > 0 {
                        out.append(", ");
                    }
                    out.append(&s);
                    i += 1;
                }
                out.append("]");
                Ok(out)
            },
            Json::Object(o) => {
                let mut out = "{".to_owned();
                let mut i: usize = 0;
                while i < o.len()
                    invariant
                        i <= o@.len(),
                        ruby_entries(answers@, entries_view(o@), 0, "{"@) == ruby_entries(
                            answers@,
                            entries_view(o@),
                            i as int,
                            out@,
                        ),
                        *v == Json::Object(*o),
                    decreases o@.len() - i,
                {
                    assert(decreases_to!(*v => v->Object_0));
                    assert(decreases_to!(o@ => o@[i as int]));
                    assert(decreases_to!(o@[i as int] => o@[i as int].1));
                    assert(entries_view(o@)[i as int] == (o@[i as int].0@, o@[i as int].1.view()));
                    let s = match Self::format_value(&o[i].1, answers) {
                        Ok(s) => s,
                        Err(q) => return Err(q),
                    };
                    if i > 0 {
                        out.append(", ");
                    }
                    out.append("\"");
                    out.append(&o[i].0);
                    out.append("\" => ");
                    out.append(&s);
                    i += 1;
                }
                out.append("}");
                Ok(out)
            },
        }
    }

    fn format_tags(tags: &Vec<String>) -> (r: String)
        ensures
            r@ == tags_from(texts_view(tags@), 0, "["@),
    {
        let ghost tv = texts_view(tags@);
        let mut out = "[".to_owned();
        let mut i: usize = 0;
        while i < tags.len()
            invariant
                i <= tags@.len(),
                tv == texts_view(tags@),
                tags_from(tv, 0, "["@) == tags_from(tv, i as int, out@),
            decreases tags@.len() - i,
        {
            assert(tv[i as int] == tags@[i as int]@);
            if i > 0 {
                out.append(", ");
            }
            out.append("\"");
            out.append(&tags[i]);
            out.append("\"");
            i += 1;
        }
        out.append("]");
        out
    }

    fn pairs_of(event: &Event, answers: &Answers) -> (r: Result<
        Vec<(String, String)>,
        DoubleQuery,
    >)
        ensures
            match (r, shown_pairs(answers@, event@)) {
                (Ok(x), Ok(y)) => pairs_view(x@) == y,
                (Err(x), Err(y)) => x@ == y,
                _ => false,
            },
    {
        let ghost pv = entries_view(event.fields@);
        let ghost first = seq![
            ("@timestamp"@, rfc3339_text(event.timestamp.secs, event.timestamp.nanos)),
        ];
        let mut out: Vec<(String, String)> = Vec::new();
        out.push(("@timestamp".to_owned(), format_rfc3339(event.timestamp)));
        assert(pairs_view(out@) =~= first);
        let mut i: usize = 0;
        while i < event.fields.len()
            invariant
                i <= event.fields@.len(),
                pv == entries_view(event.fields@),
                event@.fields == pv,
                first == seq![
                    (
                        "@timestamp"@,
                        rfc3339_text(event@.timestamp.secs, event@.timestamp.nanos),
                    ),
                ],
                field_pairs(answers@, pv, 0, first) == field_pairs(
                    answers@,
                    pv,
                    i as int,
                    pairs_view(out@),
                ),
            decreases event.fields@.len() - i,
        {
            assert(pv[i as int] == (event.fields@[i as int].0@, event.fields@[i as int].1.view()));
            let s = match Self::format_value(&event.fields[i].1, answers) {
                Ok(s) => s,
                Err(q) => return Err(q),
            };
            let k = event.fields[i].0.clone();
            let ghost before = pairs_view(out@);
            out.push((k, s));
            assert(pairs_view(out@) =~= before.push((k@, s@)));
            i += 1;
        }
        if event.tags.len() > 0 {
            let s = Self::format_tags(&event.tags);
            let ghost before = pairs_view(out@);
            out.push(("tags".to_owned(), s));
            assert(pairs_view(out@) =~= before.push(("tags"@, s@)));
        }
        Ok(out)
    }

    fn push_pair(out: &mut String, key: &str, value: &str, width: usize, last: bool)
        ensures
            final(out)@ == old(out)@ + pair_line(key@, value@, width as nat, last),
    {
        let ghost before = out@;
        let n: usize = chars_of(key).len();
        out.append("    ");
        let pad: usize = if width > n {
            width - n
        } else {
            0
        };
        let ghost lead = out@;
        let mut i: usize = 0;
        while i < pad
            invariant
                i <= pad,
                out@ =~= lead + spaces(i as nat),
            decreases pad - i,
        {
            out.push(' ');
            i += 1;
        }
        out.append("\"");
        out.append(key);
        out.append("\" => ");
        out.append(value);
        if last {
            out.append("\n");
        } else {
            out.append(",\n");
        }
        assert(out@ =~= before + pair_line(key@, value@, width as nat, last));
    }

    fn format_pairs(p: &Vec<(String, String)>) -> (r: String)
        ensures
            r@ == ruby_event(pairs_view(p@)),
    {
        let ghost pv = pairs_view(p@);
        let mut width: usize = 0;
        let mut i: usize = 0;
        while i < p.len()
            invariant
                i <= p@.len(),
                pv == pairs_view(p@),
                longest_key(pv, 0, 0) == longest_key(pv, i as int, width as nat),
            decreases p@.len() - i,
        {
            assert(pv[i as int] == (p@[i as int].0@, p@[i as int].1@));
            let n: usize = text_bytes(&p[i].0).len();
            if n > width {
                width = n;
            }
            i += 1;
        }
        let mut out = "{\n".to_owned();
        i = 0;
        while i < p.len()
            invariant
                i <= p@.len(),
                pv == pairs_view(p@),
                pair_lines(pv, 0, width as nat, "{\n"@) == pair_lines(
                    pv,
                    i as int,
                    width as nat,
                    out@,
                ),
            decreases p@.len() - i,
        {
            assert(pv[i as int] == (p@[i as int].0@, p@[i as int].1@));
            Self::push_pair(&mut out, &p[i].0, &p[i].1, width, i == p.len() - 1);
            i += 1;
        }
        out.append("}\n");
        out
    }
}

impl Default for RubydebugCodec {
    fn default() -> Self {
        Self
    }
}

impl Codec for RubydebugCodec {
    open spec fn name_v(&self) -> Seq<char> {
        "rubydebug"@
    }

    open spec fn decoded(&self, data: Seq<u8>, now: Moment, t: AnswersV) -> DecodedV {
        Ok(seq![trimmed_event(data, now)])
    }

    open spec fn encoded(&self, e: EventV, t: AnswersV) -> EncodedV {
        match shown_pairs(t, e) {
            Ok(p) => Ok(encode_utf8(ruby_event(p))),
            Err(q) => Err(CodecErrV::Ask(q)),
        }
    }

    open spec fn learned(&self) -> TemplatesV {
        Map::empty()
    }

    open spec fn learned_after(&self, data: Seq<u8>) -> TemplatesV {
        Map::empty()
    }

    open spec fn stateful(&self) -> bool {
        false
    }

    fn name(&self) -> (r: &'static str) {
        "rubydebug"
    }

    fn decode(&mut self, data: &[u8], now: Moment, answers: &Answers) -> (r: Result<
        Vec<Event>,
        CodecError,
    >)
        ensures
            *final(self) == *old(self),
    {
        Ok(one_event(Event::new(&trim_end(&lossy_text(data)), now)))
    }

    fn encode(&self, event: &Event, answers: &Answers) -> (r: Result<Vec<u8>, CodecError>) {
        match Self::pairs_of(event, answers) {
            Ok(p) => Ok(text_bytes(&Self::format_pairs(&p))),
            Err(q) => Err(CodecError::Ask(q)),
        }
    }

    fn is_stateful(&self) -> (r: bool) {
        false
    }
}

} // verus!
