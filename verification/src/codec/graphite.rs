//! Graphite codec: the plain text protocol of Graphite.
//!
//! A line reads `metric_path value timestamp`, such as
//! `servers.web01.cpu.load 0.75 1712880000`.
use crate::codec::cloudfront::{make_text_values, text_values};
use crate::codec::json::{flag_setting, get_flag, get_text, opt_view, text_setting};
use crate::codec::{
    lossy_text, one_event, text_bytes, utf8_lossy, Codec, CodecErrV, CodecError, DecodedV,
    EncodedV, TemplatesV,
};
use crate::double::{ask1, ask_parse, ask_text, query, Answers, AnswersV, Double, DoubleV};
use crate::event::{blank, field_of, is_event, timed, with_field, with_message, Event, EventV};
use crate::json::{text_value, Json, JsonV};
use crate::moment::Moment;
use crate::text::{
    chars_of, find_chars, find_from, i64_of_text, i64_text, int_text, join2, join3, nat_text,
    parse_i64, split, split_text, starts_with, string_of, texts_view, trim, trim_text, u64_text,
};
use vstd::prelude::*;
use vstd::utf8::encode_utf8;

verus! {

broadcast use vstd::string::group_string_axioms;

/// Graphite line protocol codec.
#[derive(Debug, PartialEq)]
pub struct GraphiteCodec {
    /// Whether to write the time of the event (default: true).
    pub include_timestamp: bool,
    /// Metrics prefix for encoding.
    pub metrics_prefix: Option<String>,
}

/// The event of a metric, its value, and the rest of its line.
pub open spec fn metric_event(
    text: Seq<char>,
    metric: Seq<char>,
    value: u64,
    rest: Option<Seq<char>>,
    now: Moment,
) -> EventV {
    let e = with_field(blank(now), "metric"@, JsonV::Str(metric));
    let e = with_field(e, "value"@, JsonV::Float(DoubleV::Bits(value)));
    let e = with_message(e, text);
    let e = match rest {
        Some(r) => match i64_of_text(r) {
            Some(ts) => timed(with_field(e, "timestamp_epoch"@, JsonV::Int(ts)), ts, 0),
            None => e,
        },
        None => e,
    };
    let parts = split_text(metric, "."@);
    if parts.len() > 1 {
        with_field(e, "metric_path"@, JsonV::Array(text_values(parts)))
    } else {
        e
    }
}

/// The events of a line whose metric ends at `a`.
pub open spec fn line_events(t: AnswersV, text: Seq<char>, a: int, now: Moment) -> DecodedV {
    let (value, rest) = match find_from(text, " "@, a + 1) {
        Some(b) => (text.subrange(a + 1, b), Some(text.subrange(b + 1, text.len() as int))),
        None => (text.subrange(a + 1, text.len() as int), None),
    };
    match ask_parse(t, value) {
        Err(q) => Err(CodecErrV::Ask(q)),
        Ok(None) => Err(
            CodecErrV::Codec(
                "invalid graphite value: "@ + (if value.len() == 0 {
                    "cannot parse float from empty string"@
                } else {
                    "invalid float literal"@
                }),
            ),
        ),
        Ok(Some(v)) => Ok(seq![metric_event(text, text.subrange(0, a), v, rest, now)]),
    }
}

/// The number that a value is.
pub open spec fn number_of(v: JsonV) -> Option<DoubleV> {
    match v {
        JsonV::Int(n) => Some(DoubleV::Int(n)),
        JsonV::UInt(n) => Some(DoubleV::Text(nat_text(n as nat))),
        JsonV::Float(d) => Some(d),
        _ => None,
    }
}

fn get_number(v: &Json) -> (r: Option<Double>)
    ensures
        match r {
            Some(d) => number_of(v.view()) == Some(d@),
            None => number_of(v.view()) is None,
        },
{
    match v {
        Json::Int(n) => Some(Double::Int(*n)),
        Json::UInt(n) => Some(Double::Text(u64_text(*n))),
        Json::Float(d) => Some(d.copy()),
        _ => None,
    }
}

impl GraphiteCodec {
    /// Whether the codec is the one that settings ask for.
    pub open spec fn configured(&self, settings: JsonV) -> bool {
        self.include_timestamp == flag_setting(
                settings,
                "include_timestamp"@,
                true,
            ) && opt_view(self.metrics_prefix) == text_setting(settings, "metrics_prefix"@)
    }

    pub fn from_config(settings: &Json) -> (r: Result<Self, CodecError>)
        ensures
            r matches Ok(c) && c.configured(settings.view()),
    {
        Ok(
            Self {
                include_timestamp: get_flag(settings, "include_timestamp", true),
                metrics_prefix: get_text(settings, "metrics_prefix"),
            },
        )
    }

    fn make_event(text: &str, metric: &str, value: u64, rest: &Option<String>, now: Moment) -> (r:
        Event)
        ensures
            r@ == metric_event(text@, metric@, value, opt_view(*rest), now),
            is_event(r@),
    {
        let mut e = Event::empty(now);
        e.set("metric", text_value(metric));
        e.set("value", Json::Float(Double::Bits(value)));
        e.set_message(text);
        if let Some(s) = rest {
            if let Some(ts) = parse_i64(s) {
                e.set("timestamp_epoch", Json::Int(ts));
                e.set_time(ts, 0);
            }
        }
        let parts = split(metric, ".");
        assert(texts_view(parts@).len() == parts@.len());
        if parts.len() > 1 {
            e.set("metric_path", Json::Array(make_text_values(&parts)));
        }
        e
    }
}

impl Default for GraphiteCodec {
    fn default() -> (r: Self)
        ensures
            r.include_timestamp,
            r.metrics_prefix is None,
    {
        Self { include_timestamp: true, metrics_prefix: None }
    }
}

impl Codec for GraphiteCodec {
    open spec fn name_v(&self) -> Seq<char> {
        "graphite"@
    }

    open spec fn decoded(&self, data: Seq<u8>, now: Moment, t: AnswersV) -> DecodedV {
        let text = trim_text(utf8_lossy(data));
        if text.len() == 0 || "#"@.is_prefix_of(text) {
            Err(CodecErrV::Codec("empty or comment graphite line"@))
        } else {
            match find_from(text, " "@, 0) {
                None => Err(
                    CodecErrV::Codec(
                        "invalid graphite line: expected 'metric value [timestamp]', got: "@ + text,
                    ),
                ),
                Some(a) => line_events(t, text, a, now),
            }
        }
    }

    open spec fn encoded(&self, e: EventV, t: AnswersV) -> EncodedV {
        match field_of(e, "metric"@) {
            Some(JsonV::Str(metric)) => match field_of(e, "value"@) {
                Some(v) => match number_of(v) {
                    Some(d) => match ask_text(t, query("display"@, seq![d])) {
                        Err(q) => Err(CodecErrV::Ask(q)),
                        Ok(value) => Ok(
                            encode_utf8(
                                (match self.metrics_prefix {
                                    Some(p) => p@ + "."@ + metric,
                                    None => metric,
                                }) + " "@ + value + (if self.include_timestamp {
                                    " "@ + int_text(e.timestamp.secs as int)
                                } else {
                                    Seq::empty()
                                }) + "\n"@,
                            ),
                        ),
                    },
                    None => Err(CodecErrV::Codec("missing 'value' field"@)),
                },
                None => Err(CodecErrV::Codec("missing 'value' field"@)),
            },
            _ => Err(CodecErrV::Codec("missing 'metric' field"@)),
        }
    }

    open spec fn learned(&self) -> TemplatesV {
        Map::empty()
    }

    open spec fn learned_after(&self, data: Seq<u8>) -> TemplatesV {
        Map::empty()
    }

    open spec fn stateful(&self) -> bool {
        false
    }

    fn name(&self) -> (r: &'static str) {
        "graphite"
    }

    fn decode(&mut self, data: &[u8], now: Moment, answers: &Answers) -> (r: Result<
        Vec<Event>,
        CodecError,
    >)
        ensures
            *final(self) == *old(self),
    {
        proof {
            reveal_strlit(" ");
        }
        let text = trim(&lossy_text(data));
        if text.as_str().is_empty() || starts_with(&text, "#") {
            return Err(CodecError::Codec("empty or comment graphite line".to_owned()));
        }
        let c = chars_of(&text);
        let space = chars_of(" ");
        let a = match find_chars(&c, &space, 0) {
            Some(a) => a,
            None => return Err(
                CodecError::Codec(
                    join2(
                        "invalid graphite line: expected 'metric value [timestamp]', got: ",
                        &text,
                    ),
                ),
            ),
        };
        let metric = string_of(c.as_slice(), 0, a);
        let (value, rest) = match find_chars(&c, &space, a + 1) {
            Some(b) => (
                string_of(c.as_slice(), a + 1, b),
                Some(string_of(c.as_slice(), b + 1, c.len())),
            ),
            None => (string_of(c.as_slice(), a + 1, c.len()), None),
        };
        match answers.parsed(&value) {
            Err(q) => Err(CodecError::Ask(q)),
            Ok(None) => {
                let why = if value.as_str().is_empty() {
                    "cannot parse float from empty string"
                } else {
                    "invalid float literal"
                };
                Err(CodecError::Codec(join2("invalid graphite value: ", why)))
            },
            Ok(Some(v)) => Ok(one_event(Self::make_event(&text, &metric, v, &rest, now))),
        }
    }

    fn encode(&self, event: &Event, answers: &Answers) -> (r: Result<Vec<u8>, CodecError>) {
        let metric = match event.get("metric") {
            Some(Json::Str(s)) => s,
            _ => return Err(CodecError::Codec("missing 'metric' field".to_owned())),
        };
        let d = match event.get("value") {
            Some(v) => match get_number(v) {
                Some(d) => d,
                None => return Err(CodecError::Codec("missing 'value' field".to_owned())),
            },
            None => return Err(CodecError::Codec("missing 'value' field".to_owned())),
        };
        let value = match answers.text(ask1("display", d)) {
            Ok(s) => s,
            Err(q) => return Err(CodecError::Ask(q)),
        };
        let mut line = match &self.metrics_prefix {
            Some(p) => join3(p, ".", metric),
            None => metric.clone(),
        };
        line.append(" ");
        line.append(&value);
        let ghost before = line@;
        if self.include_timestamp {
            line.append(" ");
            line.append(&i64_text(event.timestamp.secs));
        }
        assert(line@ =~= before + (if self.include_timestamp {
            " "@ + int_text(event@.timestamp.secs as int)
        } else {
            Seq::empty()
        }));
        line.append("\n");
        Ok(text_bytes(&line))
    }

    fn is_stateful(&self) -> (r: bool) {
        false
    }
}

} // verus!
