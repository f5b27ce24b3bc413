//! Fluent codec: the Forward protocol of Fluentd and Fluent Bit.
//!
//! A message is MessagePack: `[tag, timestamp, record]`, or, for several
//! records, `[tag, [[timestamp, record], ...]]`.
use crate::codec::cef::{field_text, text_field};
use crate::codec::json::{get_text, text_setting};
use crate::codec::{
    are_events, events_view, one_event, Codec, CodecErrV, CodecError, DecodedV, EncodedV,
    TemplatesV,
};
use crate::double::{
    ask1, ask2, ask_bits, ask_int, query, Answers, AnswersV, Double, DoubleQuery, DoubleV, QueryV,
};
use crate::event::{event_of_json, is_event, json_of_event, timed, with_field, Event, EventV};
use crate::interchange::{
    is_short, msgpack_bytes, msgpack_read, parse_msgpack, readable, serde_view, write_msgpack,
    written,
};
use crate::json::{jsons_view, text_value, Json, JsonV};
use crate::moment::Moment;
use crate::text::{join2, nat_text, u64_text};
use vstd::prelude::*;

verus! {

broadcast use vstd::string::group_string_axioms;

/// Fluent Forward Protocol codec.
#[derive(Debug, PartialEq)]
pub struct FluentCodec {
    /// Default tag for encoding.
    pub tag: String,
}

/// A number held within the range of a `u32`.
pub open spec fn held_u32(n: i64) -> u32 {
    if n < 0 {
        0
    } else if n > u32::MAX {
        u32::MAX
    } else {
        n as u32
    }
}

/// The whole seconds of a double, and the nanoseconds behind them.
pub open spec fn split_seconds(t: AnswersV, d: DoubleV) -> Result<(i64, u32), QueryV> {
    match ask_int(t, query("int"@, seq![d])) {
        Err(q) => Err(q),
        Ok(secs) => match ask_bits(t, query("-"@, seq![d, DoubleV::Int(secs)])) {
            Err(q) => Err(q),
            Ok(fraction) => match ask_bits(
                t,
                query("*"@, seq![DoubleV::Bits(fraction), DoubleV::Int(1_000_000_000)]),
            ) {
                Err(q) => Err(q),
                Ok(nanos) => match ask_int(t, query("int"@, seq![DoubleV::Bits(nanos)])) {
                    Err(q) => Err(q),
                    Ok(n) => Ok((secs, held_u32(n))),
                },
            },
        },
    }
}

/// The event at the time that a number of seconds gives, if it gives one. An
/// integer beyond the range of an `i64` gives none.
pub open spec fn stamped(t: AnswersV, e: EventV, v: JsonV) -> Result<EventV, QueryV> {
    match v {
        JsonV::Int(n) => Ok(timed(e, n, 0)),
        JsonV::Float(d) => match split_seconds(t, d) {
            Ok((secs, nanos)) => Ok(timed(e, secs, nanos)),
            Err(q) => Err(q),
        },
        _ => Ok(e),
    }
}

/// The event of a record.
pub open spec fn record_event(
    t: AnswersV,
    tag: Seq<char>,
    stamp: JsonV,
    record: JsonV,
    now: Moment,
) -> Result<EventV, QueryV> {
    stamped(t, with_field(event_of_json(record, now), "fluent_tag"@, JsonV::Str(tag)), stamp)
}

/// The events of the entries from `i` on, behind `acc`; what is no pair is
/// passed over.
pub open spec fn entries_from(
    t: AnswersV,
    tag: Seq<char>,
    a: Seq<JsonV>,
    i: int,
    now: Moment,
    acc: Seq<EventV>,
) -> Result<Seq<EventV>, QueryV>
    decreases a.len() - i,
{
    if i < 0 || i >= a.len() {
        Ok(acc)
    } else {
        match a[i] {
            JsonV::Array(p) => if p.len() >= 2 {
                match record_event(t, tag, p[0], p[1], now) {
                    Ok(e) => entries_from(t, tag, a, i + 1, now, acc.push(e)),
                    Err(q) => Err(q),
                }
            } else {
                entries_from(t, tag, a, i + 1, now, acc)
            },
            _ => entries_from(t, tag, a, i + 1, now, acc),
        }
    }
}

/// The tag of a message.
pub open spec fn tag_of(v: JsonV) -> Seq<char> {
    match v {
        JsonV::Str(s) => s,
        _ => "unknown"@,
    }
}

pub open spec fn too_short(need: Seq<char>, n: nat) -> CodecErrV {
    CodecErrV::Codec("fluent message needs at least "@ + need + " elements, got "@ + nat_text(n))
}

/// The events of a message with one record.
pub open spec fn message_events(t: AnswersV, a: Seq<JsonV>, now: Moment) -> DecodedV {
    if a.len() < 3 {
        Err(too_short("3"@, a.len()))
    } else {
        match record_event(t, tag_of(a[0]), a[1], a[2], now) {
            Ok(e) => Ok(seq![e]),
            Err(q) => Err(CodecErrV::Ask(q)),
        }
    }
}

/// The events of a message.
pub open spec fn fluent_events(t: AnswersV, v: JsonV, now: Moment) -> DecodedV {
    match v {
        JsonV::Array(a) => if a.len() < 2 {
            Err(too_short("2"@, a.len()))
        } else if a.len() == 2 && a[1] is Array {
            match entries_from(t, tag_of(a[0]), a[1]->Array_0, 0, now, Seq::empty()) {
                Err(q) => Err(CodecErrV::Ask(q)),
                Ok(s) => if s.len() > 0 {
                    Ok(s)
                } else {
                    message_events(t, a, now)
                },
            }
        } else {
            message_events(t, a, now)
        },
        _ => Err(CodecErrV::Codec("fluent message must be an array"@)),
    }
}

fn needs(need: &str, n: usize) -> (r: CodecError)
    ensures
        r@ == too_short(need@, n as nat),
{
    let mut m = join2("fluent message needs at least ", need);
    m.append(" elements, got ");
    m.append(&u64_text(n as u64));
    CodecError::Codec(m)
}

/// Whether `r` is the event or the open computation `s`.
pub open spec fn gives_event(r: Result<Event, DoubleQuery>, s: Result<EventV, QueryV>) -> bool {
    match (r, s) {
        (Ok(x), Ok(y)) => x@ == y,
        (Err(x), Err(y)) => x@ == y,
        _ => false,
    }
}

impl FluentCodec {
    /// The message of an event: its tag, the seconds of its time, and its JSON
    /// object.
    pub open spec fn message(&self, e: EventV) -> JsonV {
        JsonV::Array(
            seq![
                JsonV::Str(field_text(e, "fluent_tag"@, self.tag@)),
                JsonV::Int(e.timestamp.secs),
                json_of_event(e),
            ],
        )
    }

    /// Whether the codec is the one that settings ask for.
    pub open spec fn configured(&self, settings: JsonV) -> bool {
        self.tag@ == (match text_setting(settings, "tag"@) {
                Some(s) => s,
                None => "ferrostash"@,
            })
    }

    pub fn from_config(settings: &Json) -> (r: Result<Self, CodecError>)
        ensures
            r matches Ok(c) && c.configured(settings.view()),
    {
        let tag = match get_text(settings, "tag") {
            Some(s) => s,
            None => "ferrostash".to_owned(),
        };
        Ok(Self { tag })
    }

    fn seconds_of(d: &Double, answers: &Answers) -> (r: Result<(i64, u32), DoubleQuery>)
        ensures
            match (r, split_seconds(answers@, d@)) {
                (Ok(x), Ok(y)) => x == y,
                (Err(x), Err(y)) => x@ == y,
                _ => false,
            },
    {
        let secs = match answers.integer(ask1("int", d.copy())) {
            Ok(n) => n,
            Err(q) => return Err(q),
        };
        let fraction = match answers.bits(ask2("-", d.copy(), Double::Int(secs))) {
            Ok(b) => b,
            Err(q) => return Err(q),
        };
        let nanos = match answers.bits(
            ask2("*", Double::Bits(fraction), Double::Int(1_000_000_000)),
        ) {
            Ok(b) => b,
            Err(q) => return Err(q),
        };
        let n = match answers.integer(ask1("int", Double::Bits(nanos))) {
            Ok(n) => n,
            Err(q) => return Err(q),
        };
        let held: u32 = if n < 0 {
            0
        } else if n > u32::MAX as i64 {
            u32::MAX
        } else {
            n as u32
        };
        Ok((secs, held))
    }

    /// Gives an event the time that a number of seconds gives, if it gives one.
    fn set_timestamp(event: Event, ts_value: &Json, answers: &Answers) -> (r: Result<
        Event,
        DoubleQuery,
    >)
        ensures
            gives_event(r, stamped(answers@, event@, ts_value.view())),
            r matches Ok(e) ==> (is_event(event@) ==> is_event(e@)),
    {
        let mut e = event;
        match ts_value {
            Json::Int(n) => e.set_time(*n, 0),
            Json::Float(d) => match Self::seconds_of(d, answers) {
                Ok((secs, nanos)) => e.set_time(secs, nanos),
                Err(q) => return Err(q),
            },
            _ => {},
        }
        Ok(e)
    }

    fn make_event(tag: &str, stamp: &Json, record: &Json, now: Moment, answers: &Answers) -> (r:
        Result<Event, DoubleQuery>)
        ensures
            gives_event(r, record_event(answers@, tag@, stamp.view(), record.view(), now)),
            r matches Ok(e) ==> is_event(e@),
    {
        let mut e = Event::from_json(record, now);
        e.set("fluent_tag", text_value(tag));
        Self::set_timestamp(e, stamp, answers)
    }

    fn decode_entries(tag: &str, a: &Vec<Json>, now: Moment, answers: &Answers) -> (r: Result<
        Vec<Event>,
        DoubleQuery,
    >)
        ensures
            match (r, entries_from(answers@, tag@, jsons_view(a@), 0, now, Seq::empty())) {
                (Ok(x), Ok(y)) => events_view(x@) == y && are_events(x@),
                (Err(x), Err(y)) => x@ == y,
                _ => false,
            },
    {
        let ghost av = jsons_view(a@);
        let mut events: Vec<Event> = Vec::new();
        let mut i: usize = 0;
        assert(events_view(events@) =~= Seq::<EventV>::empty());
        while i < a.len()
            invariant
                i <= a@.len(),
                are_events(events@),
                av == jsons_view(a@),
                entries_from(answers@, tag@, av, 0, now, Seq::empty()) == entries_from(
                    answers@,
                    tag@,
                    av,
                    i as int,
                    now,
                    events_view(events@),
                ),
            decreases a@.len() - i,
        {
            assert(av[i as int] == a@[i as int].view());
            if let Json::Array(p) = &a[i] {
                if p.len() >= 2 {
                    assert(jsons_view(p@)[0] == p@[0].view());
                    assert(jsons_view(p@)[1] == p@[1].view());
                    match Self::make_event(tag, &p[0], &p[1], now, answers) {
                        Ok(e) => {
                            let ghost before = events_view(events@);
                            events.push(e);
                            assert(events_view(events@) =~= before.push(e@));
                        },
                        Err(q) => return Err(q),
                    }
                }
            }
            i += 1;
        }
        Ok(events)
    }

    /// The events of a message.
    pub fn decode_value(v: &Json, now: Moment, answers: &Answers) -> (r: Result<
        Vec<Event>,
        CodecError,
    >)
        ensures
            crate::codec::gives_events(r, fluent_events(answers@, v.view(), now)),
            r matches Ok(events) ==> are_events(events@),
    {
        let a = match v {
            Json::Array(a) => a,
            _ => return Err(CodecError::Codec("fluent message must be an array".to_owned())),
        };
        if a.len() < 2 {
            return Err(needs("2", a.len()));
        }
        let ghost av = jsons_view(a@);
        assert(av[0] == a@[0].view());
        assert(av[1] == a@[1].view());
        let tag = match &a[0] {
            Json::Str(s) => s.as_str(),
            _ => "unknown",
        };
        if a.len() == 2 {
            if let Json::Array(p) = &a[1] {
                match Self::decode_entries(tag, p, now, answers) {
                    Ok(events) => {
                        assert(events_view(events@).len() == events@.len());
                        if events.len() > 0 {
                            return Ok(events);
                        }
                    },
                    Err(q) => return Err(CodecError::Ask(q)),
                }
            }
        }
        if a.len() < 3 {
            return Err(needs("3", a.len()));
        }
        assert(av[2] == a@[2].view());
        match Self::make_event(tag, &a[1], &a[2], now, answers) {
            Ok(e) => Ok(one_event(e)),
            Err(q) => Err(CodecError::Ask(q)),
        }
    }
}

impl Default for FluentCodec {
    fn default() -> (r: Self)
        ensures
            r.tag@ == "ferrostash"@,
    {
        Self { tag: "ferrostash".to_owned() }
    }
}

impl Codec for FluentCodec {
    open spec fn name_v(&self) -> Seq<char> {
        "fluent"@
    }

    open spec fn decoded(&self, data: Seq<u8>, now: Moment, t: AnswersV) -> DecodedV {
        match msgpack_read(data) {
            Err(e) => Err(CodecErrV::Codec("fluent decode error: "@ + e)),
            Ok(v) => fluent_events(t, v, now),
        }
    }

    open spec fn encoded(&self, e: EventV, t: AnswersV) -> EncodedV {
        match written(t, self.message(e)) {
            Ok(w) => Ok(msgpack_bytes(serde_view(w))),
            Err(q) => Err(CodecErrV::Ask(q)),
        }
    }

    open spec fn learned(&self) -> TemplatesV {
        Map::empty()
    }

    open spec fn learned_after(&self, data: Seq<u8>) -> TemplatesV {
        Map::empty()
    }

    open spec fn stateful(&self) -> bool {
        false
    }

    fn name(&self) -> (r: &'static str) {
        "fluent"
    }

    fn decode(&mut self, data: &[u8], now: Moment, answers: &Answers) -> (r: Result<
        Vec<Event>,
        CodecError,
    >)
        ensures
            *final(self) == *old(self),
    {
        match parse_msgpack(data) {
            Err(e) => Err(CodecError::Codec(join2("fluent decode error: ", &e))),
            Ok(v) => Self::decode_value(&v, now, answers),
        }
    }

    fn encode(&self, event: &Event, answers: &Answers) -> (r: Result<Vec<u8>, CodecError>)
        ensures
            match (r, written(answers@, self.message(event@))) {
                (Ok(b), Ok(w)) => readable(serde_view(w)) && is_short(serde_view(w))
                    ==> forall|now: Moment, t: AnswersV| #[trigger]
                    self.decoded(b@, now, t) == fluent_events(t, serde_view(w), now),
                _ => true,
            },
    {
        let mut a: Vec<Json> = Vec::new();
        a.push(text_value(text_field(event, "fluent_tag", &self.tag)));
        a.push(Json::Int(event.timestamp.secs));
        a.push(event.to_json());
        assert(jsons_view(a@) =~= seq![
            JsonV::Str(field_text(event@, "fluent_tag"@, self.tag@)),
            JsonV::Int(event@.timestamp.secs),
            json_of_event(event@),
        ]);
        match write_msgpack(&Json::Array(a), answers) {
            Ok(b) => Ok(b),
            Err(q) => Err(CodecError::Ask(q)),
        }
    }

    fn is_stateful(&self) -> (r: bool) {
        false
    }
}

} // verus!
