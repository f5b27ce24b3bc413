//! JSON codec: JSON objects as events, and events as JSON.
use crate::codec::{
    one_event, text_bytes, Codec, CodecErrV, CodecError, DecodedV, EncodedV, TemplatesV,
};
use crate::double::{Answers, AnswersV};
use crate::event::{blank, event_of_json, is_event, json_of_event, with_field, Event, EventV};
use crate::interchange::{
    json_pretty_text, json_read, json_text, parse_json, readable, serde_view, write_json,
    write_json_pretty, written,
};
use crate::json::{json_get, jsons_view, Json, JsonV};
use crate::moment::Moment;
use crate::text::{join2, texts_view};
use vstd::prelude::*;
use vstd::utf8::encode_utf8;

verus! {

broadcast use vstd::string::group_string_axioms;

/// JSON codec configuration.
#[derive(Debug, PartialEq)]
pub struct JsonCodec {
    /// Target field to place the parsed JSON (none: merge into root).
    pub target: Option<String>,
    /// Whether to pretty-print output.
    pub pretty: bool,
}

/// A text setting.
pub open spec fn text_setting(settings: JsonV, k: Seq<char>) -> Option<Seq<char>> {
    match json_get(settings, k) {
        Some(JsonV::Str(s)) => Some(s),
        _ => None,
    }
}

/// A yes-or-no setting; no where it is not set.
pub open spec fn flag_setting(settings: JsonV, k: Seq<char>, default: bool) -> bool {
    match json_get(settings, k) {
        Some(JsonV::Bool(b)) => b,
        _ => default,
    }
}

pub(crate) fn get_text(settings: &Json, k: &str) -> (r: Option<String>)
    ensures
        match r {
            Some(s) => text_setting(settings.view(), k@) == Some(s@),
            None => text_setting(settings.view(), k@) is None,
        },
{
    match settings.get(k) {
        Some(Json::Str(s)) => Some(s.clone()),
        _ => None,
    }
}

pub(crate) fn get_flag(settings: &Json, k: &str, default: bool) -> (r: bool)
    ensures
        r == flag_setting(settings.view(), k@, default),
{
    match settings.get(k) {
        Some(Json::Bool(b)) => *b,
        _ => default,
    }
}

/// The texts in a list from `i` on, behind `acc`.
pub open spec fn texts_from(a: Seq<JsonV>, i: int, acc: Seq<Seq<char>>) -> Seq<Seq<char>>
    decreases a.len() - i,
{
    if i < 0 || i >= a.len() {
        acc
    } else {
        texts_from(
            a,
            i + 1,
            match a[i] {
                JsonV::Str(s) => acc.push(s),
                _ => acc,
            },
        )
    }
}

/// A setting that is a list: the texts in it.
pub open spec fn texts_setting(settings: JsonV, k: Seq<char>) -> Option<Seq<Seq<char>>> {
    match json_get(settings, k) {
        Some(JsonV::Array(a)) => Some(texts_from(a, 0, Seq::empty())),
        _ => None,
    }
}

pub(crate) fn get_texts(settings: &Json, k: &str) -> (r: Option<Vec<String>>)
    ensures
        match r {
            Some(v) => texts_setting(settings.view(), k@) == Some(texts_view(v@)),
            None => texts_setting(settings.view(), k@) is None,
        },
{
    let a = match settings.get(k) {
        Some(Json::Array(a)) => a,
        _ => return None,
    };
    let mut out: Vec<String> = Vec::new();
    let mut i: usize = 0;
    assert(texts_view(out@) =~= Seq::<Seq<char>>::empty());
    while i < a.len()
        invariant
            i <= a@.len(),
            texts_from(jsons_view(a@), 0, Seq::empty()) == texts_from(
                jsons_view(a@),
                i as int,
                texts_view(out@),
            ),
        decreases a@.len() - i,
    {
        assert(jsons_view(a@)[i as int] == a@[i as int].view());
        if let Json::Str(s) = &a[i] {
            let ghost before = texts_view(out@);
            out.push(s.clone());
            assert(texts_view(out@) =~= before.push(s@));
        }
        i += 1;
    }
    Some(out)
}

/// What an optional text holds.
pub open spec fn opt_view(s: Option<String>) -> Option<Seq<char>> {
    match s {
        Some(x) => Some(x@),
        None => None,
    }
}

/// The event that holds a value: under a field, or as its fields.
pub open spec fn value_event(target: Option<Seq<char>>, j: JsonV, now: Moment) -> EventV {
    match target {
        Some(f) => with_field(blank(now), f, j),
        None => event_of_json(j, now),
    }
}

pub(crate) fn make_event(target: &Option<String>, j: Json, now: Moment) -> (r: Event)
    ensures
        r@ == value_event(opt_view(*target), j.view(), now),
        is_event(r@),
{
    match target {
        Some(f) => {
            let mut e = Event::empty(now);
            e.set(f, j);
            e
        },
        None => Event::from_json(&j, now),
    }
}

/// The bytes of an event's JSON text.
pub open spec fn json_bytes(e: EventV, t: AnswersV, pretty: bool) -> EncodedV {
    match written(t, json_of_event(e)) {
        Ok(w) => Ok(
            encode_utf8(
                if pretty {
                    json_pretty_text(serde_view(w))
                } else {
                    json_text(serde_view(w))
                },
            ),
        ),
        Err(q) => Err(CodecErrV::Ask(q)),
    }
}

impl JsonCodec {
    /// Whether the codec is the one that settings ask for.
    pub open spec fn configured(&self, settings: JsonV) -> bool {
        opt_view(self.target) == text_setting(settings, "target"@)
                && self.pretty == flag_setting(settings, "pretty"@, false)
    }

    pub fn from_config(settings: &Json) -> (r: Result<Self, CodecError>)
        ensures
            r matches Ok(c) && c.configured(settings.view()),
    {
        Ok(
            Self {
                target: get_text(settings, "target"),
                pretty: get_flag(settings, "pretty", false),
            },
        )
    }
}

impl Default for JsonCodec {
    fn default() -> (r: Self)
        ensures
            r.target is None,
            !r.pretty,
    {
        Self { target: None, pretty: false }
    }
}

impl Codec for JsonCodec {
    open spec fn name_v(&self) -> Seq<char> {
        "json"@
    }

    open spec fn decoded(&self, data: Seq<u8>, now: Moment, t: AnswersV) -> DecodedV {
        match json_read(data) {
            Ok(j) => Ok(seq![value_event(opt_view(self.target), j, now)]),
            Err(e) => Err(CodecErrV::Codec("JSON decode error: "@ + e)),
        }
    }

    open spec fn encoded(&self, e: EventV, t: AnswersV) -> EncodedV {
        json_bytes(e, t, self.pretty)
    }

    open spec fn learned(&self) -> TemplatesV {
        Map::empty()
    }

    open spec fn learned_after(&self, data: Seq<u8>) -> TemplatesV {
        Map::empty()
    }

    open spec fn stateful(&self) -> bool {
        false
    }

    fn name(&self) -> (r: &'static str) {
        "json"
    }

    fn decode(&mut self, data: &[u8], now: Moment, answers: &Answers) -> (r: Result<
        Vec<Event>,
        CodecError,
    >)
        ensures
            *final(self) == *old(self),
    {
        match parse_json(data) {
            Ok(j) => Ok(one_event(make_event(&self.target, j, now))),
            Err(e) => Err(CodecError::Codec(join2("JSON decode error: ", &e))),
        }
    }

    fn encode(&self, event: &Event, answers: &Answers) -> (r: Result<Vec<u8>, CodecError>)
        ensures
            match (r, written(answers@, json_of_event(event@))) {
                (Ok(b), Ok(w)) => readable(serde_view(w)) ==> forall|
                    now: Moment,
                    t: AnswersV,
                | #[trigger]
                    self.decoded(b@, now, t) == Ok::<Seq<EventV>, CodecErrV>(
                        seq![value_event(opt_view(self.target), serde_view(w), now)],
                    ),
                _ => true,
            },
    {
        let json = event.to_json();
        let text = if self.pretty {
            write_json_pretty(&json, answers)
        } else {
            write_json(&json, answers)
        };
        match text {
            Ok(s) => Ok(text_bytes(&s)),
            Err(q) => Err(CodecError::Ask(q)),
        }
    }

    fn is_stateful(&self) -> (r: bool) {
        false
    }
}

} // verus!
