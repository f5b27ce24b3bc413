//! CloudTrail codec: the JSON log of AWS CloudTrail.
//!
//! A log file is an object whose `Records` are the calls, one event each.
use crate::codec::json::{get_text, make_event, opt_view, text_setting, value_event};
use crate::codec::{
    are_events, events_view, one_event, text_bytes, Codec, CodecErrV, CodecError, DecodedV,
    EncodedV, TemplatesV,
};
use crate::double::{Answers, AnswersV};
use crate::event::{is_event, json_of_event, timed_by, with_field, with_tag, Event, EventV};
use crate::interchange::{json_read, parse_json, text_of, write_json};
use crate::json::{json_get, jsons_view, Json, JsonV};
use crate::moment::Moment;
use crate::text::join2;
use vstd::prelude::*;
use vstd::utf8::encode_utf8;

verus! {

broadcast use vstd::string::group_string_axioms;

/// AWS CloudTrail JSON codec.
#[derive(Debug, PartialEq)]
pub struct CloudtrailCodec {
    /// Target field for the record (none: merge into root).
    pub target: Option<String>,
}

/// The event at the time that its record gives, if it gives one, with the
/// codec's tag.
pub open spec fn marked(e: EventV, record: JsonV) -> EventV {
    with_tag(
        match json_get(record, "eventTime"@) {
            Some(JsonV::Str(s)) => timed_by(e, s),
            _ => e,
        },
        "cloudtrail"@,
    )
}

/// The event of a record that is one of `total`.
pub open spec fn record_event(
    target: Option<Seq<char>>,
    record: JsonV,
    total: nat,
    now: Moment,
) -> EventV {
    marked(
        with_field(
            value_event(target, record, now),
            "cloudtrail_record_count"@,
            JsonV::Int(total as i64),
        ),
        record,
    )
}

/// The events of a log: one for each record, or one for a record alone.
pub open spec fn log_events(target: Option<Seq<char>>, j: JsonV, now: Moment) -> Seq<EventV> {
    match json_get(j, "Records"@) {
        Some(JsonV::Array(a)) => Seq::new(
            a.len(),
            |i: int| record_event(target, a[i], a.len(), now),
        ),
        _ => seq![marked(value_event(target, j, now), j)],
    }
}

fn mark(e: &mut Event, record: &Json)
    ensures
        final(e)@ == marked(old(e)@, record.view()),
        is_event(old(e)@) ==> is_event(final(e)@),
{
    if let Some(Json::Str(s)) = record.get("eventTime") {
        e.set_time_by(s);
    }
    e.add_tag("cloudtrail");
}

impl CloudtrailCodec {
    /// Whether the codec is the one that settings ask for.
    pub open spec fn configured(&self, settings: JsonV) -> bool {
        opt_view(self.target) == text_setting(settings, "target"@)
    }

    pub fn from_config(settings: &Json) -> (r: Result<Self, CodecError>)
        ensures
            r matches Ok(c) && c.configured(settings.view()),
    {
        Ok(Self { target: get_text(settings, "target") })
    }
}

impl Default for CloudtrailCodec {
    fn default() -> (r: Self)
        ensures
            r.target is None,
    {
        Self { target: None }
    }
}

impl Codec for CloudtrailCodec {
    open spec fn name_v(&self) -> Seq<char> {
        "cloudtrail"@
    }

    open spec fn decoded(&self, data: Seq<u8>, now: Moment, t: AnswersV) -> DecodedV {
        match json_read(data) {
            Err(e) => Err(CodecErrV::Codec("CloudTrail JSON error: "@ + e)),
            Ok(j) => Ok(log_events(opt_view(self.target), j, now)),
        }
    }

    open spec fn encoded(&self, e: EventV, t: AnswersV) -> EncodedV {
        match text_of(t, json_of_event(e)) {
            Ok(s) => Ok(encode_utf8(s + "\n"@)),
            Err(q) => Err(CodecErrV::Ask(q)),
        }
    }

    open spec fn learned(&self) -> TemplatesV {
        Map::empty()
    }

    open spec fn learned_after(&self, data: Seq<u8>) -> TemplatesV {
        Map::empty()
    }

    open spec fn stateful(&self) -> bool {
        false
    }

    fn name(&self) -> (r: &'static str) {
        "cloudtrail"
    }

    fn decode(&mut self, data: &[u8], now: Moment, answers: &Answers) -> (r: Result<
        Vec<Event>,
        CodecError,
    >)
        ensures
            *final(self) == *old(self),
    {
        let j = match parse_json(data) {
            Ok(j) => j,
            Err(e) => return Err(CodecError::Codec(join2("CloudTrail JSON error: ", &e))),
        };
        let ghost target = opt_view(self.target);
        if let Some(Json::Array(a)) = j.get("Records") {
            let ghost av = jsons_view(a@);
            let total = a.len() as i64;
            let mut events: Vec<Event> = Vec::new();
            let mut i: usize = 0;
            while i < a.len()
                invariant
                    i <= a@.len(),
                    are_events(events@),
                    av == jsons_view(a@),
                    total == av.len() as i64,
                    target == opt_view(self.target),
                    events_view(events@) =~= Seq::new(
                        i as nat,
                        |k: int| record_event(target, av[k], av.len(), now),
                    ),
                decreases a@.len() - i,
            {
                assert(av[i as int] == a@[i as int].view());
                let mut e = make_event(&self.target, a[i].copy(), now);
                e.set("cloudtrail_record_count", Json::Int(total));
                mark(&mut e, &a[i]);
                let ghost before = events_view(events@);
                events.push(e);
                assert(events_view(events@) =~= before.push(e@));
                i += 1;
            }
            return Ok(events);
        }
        let mut e = make_event(&self.target, j.copy(), now);
        mark(&mut e, &j);
        Ok(one_event(e))
    }

    fn encode(&self, event: &Event, answers: &Answers) -> (r: Result<Vec<u8>, CodecError>) {
        match write_json(&event.to_json(), answers) {
            Ok(s) => Ok(text_bytes(&join2(&s, "\n"))),
            Err(q) => Err(CodecError::Ask(q)),
        }
    }

    fn is_stateful(&self) -> (r: bool) {
        false
    }
}

} // verus!
