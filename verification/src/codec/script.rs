//! Script codec: events changed by a few statements of the user.
//!
//! The statements, with semicolons between them, are
//! `event.set("field", value)`, `event.remove("field")`, `event.tag("name")` and
//! `event.cancel()`; a value may be `event.get("field")`.
use crate::codec::json::{get_text, opt_view, text_setting};
use crate::codec::plain::{drop_line_end, end_without, line_text};
use crate::codec::{
    lossy_text, one_event, text_bytes, utf8_lossy, Codec, CodecErrV, CodecError, DecodedV,
    EncodedV, TemplatesV,
};
use crate::double::{ask_parse, Answers, AnswersV, Double, DoubleQuery, DoubleV, QueryV};
use crate::event::{
    field_of, is_event, json_of_event, message_event, with_field, with_tag, without_field, Event,
    EventV,
};
use crate::interchange::text_of;
use crate::json::{text_value, Json, JsonV};
use crate::moment::Moment;
use crate::text::{
    chars_of, find_chars, find_from, i64_of_text, join2, parse_i64, same, split, split_text,
    starts_with, string_of, texts_view, trim, trim_text,
};
use vstd::prelude::*;
use vstd::utf8::encode_utf8;

verus! {

broadcast use vstd::string::group_string_axioms;

/// Script codec configuration.
#[derive(Debug, PartialEq)]
pub struct ScriptCodec {
    /// Script to run on decode.
    pub decode_script: String,
    /// Script to run on encode.
    pub encode_script: String,
    /// Optional init script, for information only.
    pub init: Option<String>,
}

/// The first position at or behind `i` that does not hold `c`, or the end.
pub open spec fn start_without(s: Seq<char>, c: char, i: int) -> int
    decreases s.len() - i,
{
    if i >= s.len() || s[i] != c {
        i
    } else {
        start_without(s, c, i + 1)
    }
}

/// A text without the characters `c` at its two ends.
pub open spec fn trimmed_of(s: Seq<char>, c: char) -> Seq<char> {
    let a = start_without(s, c, 0);
    let b = end_without(s, c, s.len() as int);
    if a < b {
        s.subrange(a, b)
    } else {
        Seq::empty()
    }
}

/// A text without the quotes around it.
pub open spec fn unquoted(s: Seq<char>) -> Seq<char> {
    trimmed_of(trimmed_of(s, '"'), '\'')
}

/// What stands between `open` at the start and a bracket at the end.
pub open spec fn argument(s: Seq<char>, open: Seq<char>) -> Option<Seq<char>> {
    if open.is_prefix_of(s) && s.len() > open.len() && s.last() == ')' {
        Some(s.subrange(open.len() as int, s.len() - 1))
    } else {
        None
    }
}

/// The value of an expression: a text in quotes, a number, a word, a field, or
/// the expression itself.
pub open spec fn value_of(t: AnswersV, s: Seq<char>, e: EventV) -> Result<JsonV, QueryV> {
    if "\""@.is_prefix_of(s) || "'"@.is_prefix_of(s) {
        Ok(JsonV::Str(unquoted(s)))
    } else {
        match i64_of_text(s) {
            Some(n) => Ok(JsonV::Int(n)),
            None => match ask_parse(t, s) {
                Err(q) => Err(q),
                Ok(Some(b)) => Ok(JsonV::Float(DoubleV::Bits(b))),
                Ok(None) => if s == "true"@ {
                    Ok(JsonV::Bool(true))
                } else if s == "false"@ {
                    Ok(JsonV::Bool(false))
                } else if s == "nil"@ || s == "null"@ {
                    Ok(JsonV::Null)
                } else {
                    match argument(s, "event.get("@) {
                        Some(f) => match field_of(e, unquoted(trim_text(f))) {
                            Some(v) => Ok(v),
                            None => Ok(JsonV::Null),
                        },
                        None => Ok(JsonV::Str(s)),
                    }
                },
            },
        }
    }
}

/// The event after a statement; what is no statement changes nothing.
pub open spec fn after_statement(t: AnswersV, e: EventV, s: Seq<char>) -> Result<EventV, QueryV> {
    if s == "event.cancel()"@ {
        Ok(EventV { cancelled: true, ..e })
    } else {
        match argument(s, "event.tag("@) {
            Some(x) => Ok(with_tag(e, unquoted(trim_text(x)))),
            None => match argument(s, "event.set("@) {
                Some(x) => match find_from(x, ","@, 0) {
                    Some(k) => match value_of(
                        t,
                        trim_text(x.subrange(k + 1, x.len() as int)),
                        e,
                    ) {
                        Ok(v) => Ok(with_field(e, unquoted(trim_text(x.subrange(0, k))), v)),
                        Err(q) => Err(q),
                    },
                    None => Ok(e),
                },
                None => match argument(s, "event.remove("@) {
                    Some(x) => Ok(without_field(e, unquoted(trim_text(x)))),
                    None => Ok(e),
                },
            },
        }
    }
}

/// The event after the statements from `i` on; empty ones are passed over.
pub open spec fn after_statements(t: AnswersV, e: EventV, s: Seq<Seq<char>>, i: int) -> Result<
    EventV,
    QueryV,
>
    decreases s.len() - i,
{
    if i < 0 || i >= s.len() {
        Ok(e)
    } else {
        let x = trim_text(s[i]);
        if x.len() == 0 {
            after_statements(t, e, s, i + 1)
        } else {
            match after_statement(t, e, x) {
                Ok(e2) => after_statements(t, e2, s, i + 1),
                Err(q) => Err(q),
            }
        }
    }
}

/// The event after a script.
pub open spec fn after_script(t: AnswersV, e: EventV, script: Seq<char>) -> Result<EventV, QueryV> {
    if script.len() == 0 {
        Ok(e)
    } else {
        after_statements(t, e, split_text(script, ";"@), 0)
    }
}

fn trim_matches(s: &str, c: char) -> (r: String)
    ensures
        r@ == trimmed_of(s@, c),
{
    let v = chars_of(s);
    let mut a: usize = 0;
    while a < v.len() && v[a] == c
        invariant
            a <= v@.len(),
            v@ == s@,
            start_without(s@, c, 0) == start_without(s@, c, a as int),
        decreases v@.len() - a,
    {
        a += 1;
    }
    let mut b: usize = v.len();
    while b > 0 && v[b - 1] == c
        invariant
            b <= v@.len(),
            v@ == s@,
            end_without(s@, c, s@.len() as int) == end_without(s@, c, b as int),
        decreases b,
    {
        b -= 1;
    }
    if a < b {
        string_of(v.as_slice(), a, b)
    } else {
        let r = String::new();
        assert(r@ =~= Seq::<char>::empty());
        r
    }
}

fn unquote(s: &str) -> (r: String)
    ensures
        r@ == unquoted(s@),
{
    trim_matches(&trim_matches(s, '"'), '\'')
}

fn argument_of(s: &str, open: &str) -> (r: Option<String>)
    ensures
        opt_view(r) == argument(s@, open@),
{
    let v = chars_of(s);
    let n: usize = chars_of(open).len();
    if starts_with(s, open) && v.len() > n && v[v.len() - 1] == ')' {
        Some(string_of(v.as_slice(), n, v.len() - 1))
    } else {
        None
    }
}

impl ScriptCodec {
    /// Whether the codec is the one that settings ask for.
    pub open spec fn configured(&self, settings: JsonV) -> bool {
        self.decode_script@ == (match text_setting(
                settings,
                "decode"@,
            ) {
                Some(s) => s,
                None => ""@,
            }) && self.encode_script@ == (match text_setting(settings, "encode"@) {
                Some(s) => s,
                None => ""@,
            }) && opt_view(self.init) == text_setting(settings, "init"@)
    }

    pub fn from_config(settings: &Json) -> (r: Result<Self, CodecError>)
        ensures
            r matches Ok(c) && c.configured(settings.view()),
    {
        let decode_script = match get_text(settings, "decode") {
            Some(s) => s,
            None => "".to_owned(),
        };
        let encode_script = match get_text(settings, "encode") {
            Some(s) => s,
            None => "".to_owned(),
        };
        Ok(Self { decode_script, encode_script, init: get_text(settings, "init") })
    }

    /// Runs a script on an event.
    fn evaluate(script: &str, event: Event, answers: &Answers) -> (r: Result<Event, DoubleQuery>)
        ensures
            match (r, after_script(answers@, event@, script@)) {
                (Ok(x), Ok(y)) => x@ == y && (is_event(event@) ==> is_event(x@)),
                (Err(x), Err(y)) => x@ == y,
                _ => false,
            },
    {
        if script.is_empty() {
            return Ok(event);
        }
        let ghost first = event@;
        let stmts = split(script, ";");
        let ghost sv = texts_view(stmts@);
        let mut e = event;
        let mut i: usize = 0;
        while i < stmts.len()
            invariant
                i <= stmts@.len(),
                is_event(first) ==> is_event(e@),
                sv == texts_view(stmts@),
                first == event@,
                script@.len() > 0,
                sv == split_text(script@, ";"@),
                after_statements(answers@, first, sv, 0) == after_statements(
                    answers@,
                    e@,
                    sv,
                    i as int,
                ),
            decreases stmts@.len() - i,
        {
            assert(sv[i as int] == stmts@[i as int]@);
            let stmt = trim(&stmts[i]);
            if !stmt.as_str().is_empty() {
                match Self::eval_statement(e, &stmt, answers) {
                    Ok(x) => {
                        e = x;
                    },
                    Err(q) => return Err(q),
                }
            }
            i += 1;
        }
        Ok(e)
    }

    fn eval_statement(event: Event, stmt: &str, answers: &Answers) -> (r: Result<
        Event,
        DoubleQuery,
    >)
        ensures
            match (r, after_statement(answers@, event@, stmt@)) {
                (Ok(x), Ok(y)) => x@ == y && (is_event(event@) ==> is_event(x@)),
                (Err(x), Err(y)) => x@ == y,
                _ => false,
            },
    {
        proof {
            reveal_strlit(",");
            reveal_strlit("event.tag(");
            reveal_strlit("event.set(");
            reveal_strlit("event.remove(");
        }
        let mut e = event;
        if same(stmt, "event.cancel()") {
            e.cancel();
            return Ok(e);
        }
        if let Some(x) = argument_of(stmt, "event.tag(") {
            e.add_tag(&unquote(&trim(&x)));
            return Ok(e);
        }
        if let Some(x) = argument_of(stmt, "event.set(") {
            let v = chars_of(&x);
            if let Some(k) = find_chars(&v, &chars_of(","), 0) {
                let field = unquote(&trim(&string_of(v.as_slice(), 0, k)));
                let value_str = trim(&string_of(v.as_slice(), k + 1, v.len()));
                match Self::parse_value(&value_str, &e, answers) {
                    Ok(value) => e.set(&field, value),
                    Err(q) => return Err(q),
                }
            }
            return Ok(e);
        }
        if let Some(x) = argument_of(stmt, "event.remove(") {
            e.remove(&unquote(&trim(&x)));
        }
        Ok(e)
    }

    fn parse_value(value_str: &str, event: &Event, answers: &Answers) -> (r: Result<
        Json,
        DoubleQuery,
    >)
        ensures
            match (r, value_of(answers@, value_str@, event@)) {
                (Ok(x), Ok(y)) => x.view() == y,
                (Err(x), Err(y)) => x@ == y,
                _ => false,
            },
    {
        if starts_with(value_str, "\"") || starts_with(value_str, "'") {
            return Ok(Json::Str(unquote(value_str)));
        }
        if let Some(n) = parse_i64(value_str) {
            return Ok(Json::Int(n));
        }
        match answers.parsed(value_str) {
            Err(q) => return Err(q),
            Ok(Some(b)) => return Ok(Json::Float(Double::Bits(b))),
            Ok(None) => {},
        }
        if same(value_str, "true") {
            return Ok(Json::Bool(true));
        }
        if same(value_str, "false") {
            return Ok(Json::Bool(false));
        }
        if same(value_str, "nil") || same(value_str, "null") {
            return Ok(Json::Null);
        }
        if let Some(f) = argument_of(value_str, "event.get(") {
            return match event.get(&unquote(&trim(&f))) {
                Some(v) => Ok(v.copy()),
                None => Ok(Json::Null),
            };
        }
        Ok(text_value(value_str))
    }
}

impl Codec for ScriptCodec {
    open spec fn name_v(&self) -> Seq<char> {
        "script"@
    }

    open spec fn decoded(&self, data: Seq<u8>, now: Moment, t: AnswersV) -> DecodedV {
        match after_script(
            t,
            message_event(line_text(utf8_lossy(data)), now),
            self.decode_script@,
        ) {
            Ok(e) => Ok(seq![e]),
            Err(q) => Err(CodecErrV::Ask(q)),
        }
    }

    open spec fn encoded(&self, e: EventV, t: AnswersV) -> EncodedV {
        match after_script(t, e, self.encode_script@) {
            Ok(e2) => match text_of(t, json_of_event(e2)) {
                Ok(s) => Ok(encode_utf8(s + "\n"@)),
                Err(q) => Err(CodecErrV::Ask(q)),
            },
            Err(q) => Err(CodecErrV::Ask(q)),
        }
    }

    open spec fn learned(&self) -> TemplatesV {
        Map::empty()
    }

    open spec fn learned_after(&self, data: Seq<u8>) -> TemplatesV {
        Map::empty()
    }

    open spec fn stateful(&self) -> bool {
        false
    }

    fn name(&self) -> (r: &'static str) {
        "script"
    }

    fn decode(&mut self, data: &[u8], now: Moment, answers: &Answers) -> (r: Result<
        Vec<Event>,
        CodecError,
    >)
        ensures
            *final(self) == *old(self),
    {
        let event = Event::new(&drop_line_end(&lossy_text(data)), now);
        match Self::evaluate(&self.decode_script, event, answers) {
            Ok(e) => Ok(one_event(e)),
            Err(q) => Err(CodecError::Ask(q)),
        }
    }

    fn encode(&self, event: &Event, answers: &Answers) -> (r: Result<Vec<u8>, CodecError>) {
        let e = match Self::evaluate(&self.encode_script, event.copy(), answers) {
            Ok(e) => e,
            Err(q) => return Err(CodecError::Ask(q)),
        };
        match e.to_json_string(answers) {
            Ok(s) => Ok(text_bytes(&join2(&s, "\n"))),
            Err(q) => Err(CodecError::Ask(q)),
        }
    }

    fn is_stateful(&self) -> (r: bool) {
        false
    }
}

} // verus!
