//! CloudFront codec: the access log of AWS CloudFront.
//!
//! The log has tabs between its values, and two comments before them:
//! ```text
//! #Version: 1.0
//! #Fields: date time x-edge-location ...
//! ```
use crate::codec::json::{get_texts, texts_setting};
use crate::codec::{
    lossy_text, one_event, text_bytes, utf8_lossy, Codec, CodecErrV, CodecError, DecodedV,
    EncodedV, TemplatesV,
};
use crate::double::{ask_parse, Answers, AnswersV, Double, DoubleQuery, DoubleV, QueryV};
use crate::event::{
    blank, field_of, is_event, lossy, message_event, timed_by, to_string_lossy, with_field,
    with_tag, Event, EventV,
};
use crate::json::{jsons_view, text_value, Json, JsonV};
use crate::moment::Moment;
use crate::text::{
    chars_of, i64_of_text, join2, join3, nat_text, parse_i64, same, split, split_text, starts_with,
    string_of, texts_view, trim, trim_text, u64_text, words, words_from,
};
use vstd::prelude::*;
use vstd::utf8::encode_utf8;

verus! {

broadcast use vstd::string::group_string_axioms;

/// The field names of a CloudFront log (W3C Extended Log Format).
pub open spec fn default_fields() -> Seq<Seq<char>> {
    seq![
        "date"@,
        "time"@,
        "x-edge-location"@,
        "sc-bytes"@,
        "c-ip"@,
        "cs-method"@,
        "cs-host"@,
        "cs-uri-stem"@,
        "sc-status"@,
        "cs-referer"@,
        "cs-user-agent"@,
        "cs-uri-query"@,
        "cs-cookie"@,
        "x-edge-result-type"@,
        "x-edge-request-id"@,
        "x-host-header"@,
        "cs-protocol"@,
        "cs-bytes"@,
        "time-taken"@,
        "x-forwarded-for"@,
        "ssl-protocol"@,
        "ssl-cipher"@,
        "x-edge-response-result-type"@,
        "cs-protocol-version"@,
        "fle-status"@,
        "fle-encrypted-fields"@,
        "c-port"@,
        "time-to-first-byte"@,
        "x-edge-detailed-result-type"@,
        "sc-content-type"@,
        "sc-content-len"@,
        "sc-range-start"@,
        "sc-range-end"@,
    ]
}

fn make_default_fields() -> (r: Vec<String>)
    ensures
        texts_view(r@) == default_fields(),
{
    let mut r: Vec<String> = Vec::new();
    r.push("date".to_owned());
    r.push("time".to_owned());
    r.push("x-edge-location".to_owned());
    r.push("sc-bytes".to_owned());
    r.push("c-ip".to_owned());
    r.push("cs-method".to_owned());
    r.push("cs-host".to_owned());
    r.push("cs-uri-stem".to_owned());
    r.push("sc-status".to_owned());
    r.push("cs-referer".to_owned());
    r.push("cs-user-agent".to_owned());
    r.push("cs-uri-query".to_owned());
    r.push("cs-cookie".to_owned());
    r.push("x-edge-result-type".to_owned());
    r.push("x-edge-request-id".to_owned());
    r.push("x-host-header".to_owned());
    r.push("cs-protocol".to_owned());
    r.push("cs-bytes".to_owned());
    r.push("time-taken".to_owned());
    r.push("x-forwarded-for".to_owned());
    r.push("ssl-protocol".to_owned());
    r.push("ssl-cipher".to_owned());
    r.push("x-edge-response-result-type".to_owned());
    r.push("cs-protocol-version".to_owned());
    r.push("fle-status".to_owned());
    r.push("fle-encrypted-fields".to_owned());
    r.push("c-port".to_owned());
    r.push("time-to-first-byte".to_owned());
    r.push("x-edge-detailed-result-type".to_owned());
    r.push("sc-content-type".to_owned());
    r.push("sc-content-len".to_owned());
    r.push("sc-range-start".to_owned());
    r.push("sc-range-end".to_owned());
    assert(texts_view(r@) =~= default_fields());
    r
}

/// AWS CloudFront access log codec.
#[derive(Debug, PartialEq)]
pub struct CloudfrontCodec {
    /// Names of the columns.
    pub fields: Vec<String>,
    /// Whether a `#Fields:` header gives the names; names of one's own
    /// override it.
    pub detect: bool,
}

/// A column whose values are integers.
pub open spec fn is_integer_field(f: Seq<char>) -> bool {
    f == "sc-bytes"@ || f == "cs-bytes"@ || f == "sc-status"@ || f == "c-port"@ || f
        == "sc-content-len"@ || f == "sc-range-start"@ || f == "sc-range-end"@
}

/// A column whose values are numbers of seconds.
pub open spec fn is_seconds_field(f: Seq<char>) -> bool {
    f == "time-taken"@ || f == "time-to-first-byte"@
}

/// The value that a column's text stands for; a dash is none.
pub open spec fn typed(t: AnswersV, f: Seq<char>, raw: Seq<char>) -> Result<JsonV, QueryV> {
    if raw == "-"@ {
        Ok(JsonV::Null)
    } else if is_integer_field(f) && i64_of_text(raw) is Some {
        Ok(JsonV::Int(i64_of_text(raw)->0))
    } else if is_seconds_field(f) {
        match ask_parse(t, raw) {
            Ok(Some(b)) => Ok(JsonV::Float(DoubleV::Bits(b))),
            Ok(None) => Ok(JsonV::Str(raw)),
            Err(q) => Err(q),
        }
    } else {
        Ok(JsonV::Str(raw))
    }
}

/// The name of the column at `i`; extra columns are numbered from one.
pub open spec fn column_name(fields: Seq<Seq<char>>, i: int) -> Seq<char> {
    if i < fields.len() {
        fields[i]
    } else {
        "field"@ + nat_text((i + 1) as nat)
    }
}

/// The event with the values from `i` on as fields.
pub open spec fn with_columns(
    t: AnswersV,
    e: EventV,
    fields: Seq<Seq<char>>,
    values: Seq<Seq<char>>,
    i: int,
) -> Result<EventV, QueryV>
    decreases values.len() - i,
{
    if i < 0 || i >= values.len() {
        Ok(e)
    } else {
        match typed(t, column_name(fields, i), values[i]) {
            Ok(v) => with_columns(t, with_field(e, column_name(fields, i), v), fields, values, i + 1),
            Err(q) => Err(q),
        }
    }
}

/// The event at the moment that its date and time give, if it has both.
pub open spec fn dated(e: EventV) -> EventV {
    match (field_of(e, "date"@), field_of(e, "time"@)) {
        (Some(JsonV::Str(date)), Some(JsonV::Str(time))) => timed_by(
            e,
            date + "T"@ + time + "Z"@,
        ),
        _ => e,
    }
}

/// Texts as values.
pub open spec fn text_values(s: Seq<Seq<char>>) -> Seq<JsonV> {
    s.map_values(|x: Seq<char>| JsonV::Str(x))
}

/// The names in a `#Fields:` header, if a text is one.
pub open spec fn header_names(text: Seq<char>) -> Option<Seq<Seq<char>>> {
    if "#Fields:"@.is_prefix_of(text) {
        Some(words_from(text.subrange(8, text.len() as int), 0, Seq::empty()))
    } else {
        None
    }
}

/// The event of a comment.
pub open spec fn comment_event(text: Seq<char>, now: Moment) -> EventV {
    if let Some(names) = header_names(text) {
        with_tag(
            with_field(blank(now), "cloudfront_fields"@, JsonV::Array(text_values(names))),
            "_cloudfront_header"@,
        )
    } else {
        with_tag(message_event(text, now), "_cloudfront_comment"@)
    }
}

/// The columns from `i` on of an event, with tabs between them, behind `acc`; a
/// field that is none is a dash.
pub open spec fn line_from(
    t: AnswersV,
    e: EventV,
    fields: Seq<Seq<char>>,
    i: int,
    acc: Seq<char>,
) -> Result<Seq<char>, QueryV>
    decreases fields.len() - i,
{
    if i < 0 || i >= fields.len() {
        Ok(acc)
    } else {
        let lead = if i > 0 {
            acc + "\t"@
        } else {
            acc
        };
        match field_of(e, fields[i]) {
            None => line_from(t, e, fields, i + 1, lead + "-"@),
            Some(v) => match lossy(t, v) {
                Ok(s) => line_from(t, e, fields, i + 1, lead + s),
                Err(q) => Err(q),
            },
        }
    }
}

/// The texts as values.
pub(crate) fn make_text_values(v: &Vec<String>) -> (r: Vec<Json>)
    ensures
        jsons_view(r@) == text_values(texts_view(v@)),
{
    let mut r: Vec<Json> = Vec::new();
    let mut i: usize = 0;
    while i < v.len()
        invariant
            i <= v@.len(),
            jsons_view(r@) =~= text_values(texts_view(v@).subrange(0, i as int)),
        decreases v@.len() - i,
    {
        let w = text_value(&v[i]);
        let ghost before = jsons_view(r@);
        r.push(w);
        assert(jsons_view(r@) =~= before.push(w.view()));
        i += 1;
    }
    assert(texts_view(v@).subrange(0, i as int) =~= texts_view(v@));
    r
}

impl CloudfrontCodec {
    /// Whether the codec is the one that settings ask for.
    pub open spec fn configured(&self, settings: JsonV) -> bool {
        texts_view(self.fields@) == (match texts_setting(
                settings,
                "fields"@,
            ) {
                Some(f) => f,
                None => default_fields(),
            }) && self.detect == (texts_setting(settings, "fields"@) is None)
    }

    pub fn from_config(settings: &Json) -> (r: Result<Self, CodecError>)
        ensures
            r matches Ok(c) && c.configured(settings.view()),
    {
        match get_texts(settings, "fields") {
            Some(fields) => Ok(Self { fields, detect: false }),
            None => Ok(Self { fields: make_default_fields(), detect: true }),
        }
    }

    fn typed_value(field_name: &str, raw: &str, answers: &Answers) -> (r: Result<
        Json,
        DoubleQuery,
    >)
        ensures
            match (r, typed(answers@, field_name@, raw@)) {
                (Ok(x), Ok(y)) => x.view() == y,
                (Err(x), Err(y)) => x@ == y,
                _ => false,
            },
    {
        if same(raw, "-") {
            return Ok(Json::Null);
        }
        if same(field_name, "sc-bytes") || same(field_name, "cs-bytes") || same(
            field_name,
            "sc-status",
        ) || same(field_name, "c-port") || same(field_name, "sc-content-len") || same(
            field_name,
            "sc-range-start",
        ) || same(field_name, "sc-range-end") {
            if let Some(n) = parse_i64(raw) {
                return Ok(Json::Int(n));
            }
        }
        if same(field_name, "time-taken") || same(field_name, "time-to-first-byte") {
            match answers.parsed(raw) {
                Ok(Some(b)) => return Ok(Json::Float(Double::Bits(b))),
                Ok(None) => {},
                Err(q) => return Err(q),
            }
        }
        Ok(text_value(raw))
    }

    /// The names of the columns behind a chunk of data.
    pub open spec fn fields_after(&self, data: Seq<u8>) -> Seq<Seq<char>> {
        match header_names(trim_text(utf8_lossy(data))) {
            Some(names) => if self.detect && names.len() > 0 {
                names
            } else {
                texts_view(self.fields@)
            },
            None => texts_view(self.fields@),
        }
    }

    fn find_names(text: &str) -> (r: Option<Vec<String>>)
        ensures
            match r {
                Some(v) => header_names(text@) == Some(texts_view(v@)),
                None => header_names(text@) is None,
            },
    {
        proof {
            reveal_strlit("#Fields:");
        }
        if starts_with(text, "#Fields:") {
            let c = chars_of(text);
            Some(words(&string_of(c.as_slice(), 8, c.len())))
        } else {
            None
        }
    }

    fn decode_comment(text: &str, names: &Option<Vec<String>>, now: Moment) -> (r: Event)
        requires
            match *names {
                Some(v) => header_names(text@) == Some(texts_view(v@)),
                None => header_names(text@) is None,
            },
        ensures
            r@ == comment_event(text@, now),
            is_event(r@),
    {
        if let Some(v) = names {
            let mut event = Event::empty(now);
            event.set("cloudfront_fields", Json::Array(make_text_values(v)));
            event.add_tag("_cloudfront_header");
            return event;
        }
        let mut event = Event::new(text, now);
        event.add_tag("_cloudfront_comment");
        event
    }

    fn decode_values(&self, text: &str, now: Moment, answers: &Answers) -> (r: Result<
        Event,
        DoubleQuery,
    >)
        ensures
            match (
                r,
                with_columns(
                    answers@,
                    message_event(text@, now),
                    texts_view(self.fields@),
                    split_text(text@, "\t"@),
                    0,
                ),
            ) {
                (Ok(x), Ok(y)) => x@ == dated(y) && is_event(x@),
                (Err(x), Err(y)) => x@ == y,
                _ => false,
            },
    {
        let values = split(text, "\t");
        let ghost fv = texts_view(self.fields@);
        let ghost vv = texts_view(values@);
        let mut event = Event::new(text, now);
        let mut i: usize = 0;
        while i < values.len()
            invariant
                i <= values.len(),
                is_event(event@),
                fv == texts_view(self.fields@),
                vv == texts_view(values@),
                vv == split_text(text@, "\t"@),
                with_columns(answers@, message_event(text@, now), fv, vv, 0) == with_columns(
                    answers@,
                    event@,
                    fv,
                    vv,
                    i as int,
                ),
            decreases values@.len() - i,
        {
            assert(vv[i as int] == values@[i as int]@);
            let name = if i < self.fields.len() {
                assert(fv[i as int] == self.fields@[i as int]@);
                self.fields[i].clone()
            } else {
                join2("field", &u64_text(i as u64 + 1))
            };
            match Self::typed_value(&name, &values[i], answers) {
                Ok(v) => event.set(&name, v),
                Err(q) => return Err(q),
            }
            i += 1;
        }
        let date = match event.get("date") {
            Some(Json::Str(s)) => Some(s.clone()),
            _ => None,
        };
        let time = match event.get("time") {
            Some(Json::Str(s)) => Some(s.clone()),
            _ => None,
        };
        if let (Some(d), Some(t)) = (date, time) {
            event.set_time_by(&join2(&join3(&d, "T", &t), "Z"));
        }
        Ok(event)
    }
}

impl Default for CloudfrontCodec {
    fn default() -> (r: Self)
        ensures
            texts_view(r.fields@) == default_fields(),
            r.detect,
    {
        Self { fields: make_default_fields(), detect: true }
    }
}

impl Codec for CloudfrontCodec {
    open spec fn name_v(&self) -> Seq<char> {
        "cloudfront"@
    }

    open spec fn decoded(&self, data: Seq<u8>, now: Moment, t: AnswersV) -> DecodedV {
        let text = trim_text(utf8_lossy(data));
        if "#"@.is_prefix_of(text) {
            Ok(seq![comment_event(text, now)])
        } else {
            match with_columns(
                t,
                message_event(text, now),
                texts_view(self.fields@),
                split_text(text, "\t"@),
                0,
            ) {
                Ok(e) => Ok(seq![dated(e)]),
                Err(q) => Err(CodecErrV::Ask(q)),
            }
        }
    }

    open spec fn encoded(&self, e: EventV, t: AnswersV) -> EncodedV {
        match line_from(t, e, texts_view(self.fields@), 0, Seq::empty()) {
            Ok(s) => Ok(encode_utf8(s + "\n"@)),
            Err(q) => Err(CodecErrV::Ask(q)),
        }
    }

    open spec fn learned(&self) -> TemplatesV {
        Map::empty()
    }

    open spec fn learned_after(&self, data: Seq<u8>) -> TemplatesV {
        Map::empty()
    }

    open spec fn stateful(&self) -> bool {
        false
    }

    fn name(&self) -> (r: &'static str) {
        "cloudfront"
    }

    fn decode(&mut self, data: &[u8], now: Moment, answers: &Answers) -> (r: Result<
        Vec<Event>,
        CodecError,
    >)
        ensures
            texts_view(final(self).fields@) == old(self).fields_after(data@),
            final(self).detect == old(self).detect,
    {
        proof {
            reveal_strlit("#");
            reveal_strlit("#Fields:");
        }
        let text = trim(&lossy_text(data));
        if starts_with(&text, "#") {
            let names = Self::find_names(&text);
            let event = Self::decode_comment(&text, &names, now);
            if let Some(v) = names {
                assert(texts_view(v@).len() == v@.len());
                if self.detect && v.len() > 0 {
                    self.fields = v;
                }
            }
            return Ok(one_event(event));
        }
        assert(header_names(text@) is None) by {
            if "#Fields:"@.is_prefix_of(text@) {
                assert(text@[0] == "#Fields:"@[0]);
                assert(text@.subrange(0, 1) =~= "#"@);
            }
        }
        match self.decode_values(&text, now, answers) {
            Ok(e) => Ok(one_event(e)),
            Err(q) => Err(CodecError::Ask(q)),
        }
    }

    fn encode(&self, event: &Event, answers: &Answers) -> (r: Result<Vec<u8>, CodecError>) {
        let ghost fv = texts_view(self.fields@);
        let mut line = String::new();
        let mut i: usize = 0;
        assert(line@ =~= Seq::<char>::empty());
        while i < self.fields.len()
            invariant
                i <= self.fields@.len(),
                fv == texts_view(self.fields@),
                line_from(answers@, event@, fv, 0, Seq::empty()) == line_from(
                    answers@,
                    event@,
                    fv,
                    i as int,
                    line@,
                ),
            decreases self.fields@.len() - i,
        {
            assert(fv[i as int] == self.fields@[i as int]@);
            if i > 0 {
                line.append("\t");
            }
            match event.get(&self.fields[i]) {
                None => line.append("-"),
                Some(v) => match to_string_lossy(v, answers) {
                    Ok(s) => line.append(&s),
                    Err(q) => return Err(CodecError::Ask(q)),
                },
            }
            i += 1;
        }
        line.append("\n");
        Ok(text_bytes(&line))
    }

    fn is_stateful(&self) -> (r: bool) {
        false
    }
}

} // verus!
