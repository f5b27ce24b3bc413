//! Collectd codec: the binary protocol and JSON of collectd.
//!
//! A binary packet is a row of parts: a type and a length of two bytes each,
//! the length counting them too, and a payload.
use crate::codec::json::{flag_setting, get_flag};
use crate::codec::plain::{drop_end, without_end};
use crate::codec::wire::{be_at, be_u16, be_u64, le_at, le_u64, sub_slice};
use crate::codec::{
    are_events, events_view, lossy_text, one_event, text_bytes, utf8_lossy, Codec, CodecErrV,
    CodecError, DecodedV, EncodedV, TemplatesV,
};
use crate::double::{Answers, AnswersV, Double, DoubleV};
use crate::event::{blank, event_of_json, is_event, json_of_event, timed, with_field, Event, EventV};
use crate::interchange::{json_read, parse_json, text_of};
use crate::json::{jsons_view, text_value, Json, JsonV};
use crate::moment::Moment;
use crate::text::join2;
use vstd::prelude::*;
use vstd::utf8::encode_utf8;

verus! {

broadcast use vstd::string::group_string_axioms;

pub const PART_HOST: u16 = 0x0000;

pub const PART_TIME: u16 = 0x0001;

pub const PART_PLUGIN: u16 = 0x0002;

pub const PART_PLUGIN_INSTANCE: u16 = 0x0003;

pub const PART_TYPE: u16 = 0x0004;

pub const PART_TYPE_INSTANCE: u16 = 0x0005;

pub const PART_VALUES: u16 = 0x0006;

pub const PART_INTERVAL: u16 = 0x0007;

pub const PART_TIME_HR: u16 = 0x0008;

pub const PART_INTERVAL_HR: u16 = 0x0009;

/// Collectd codec configuration.
#[derive(Debug, Clone, Copy, PartialEq, Eq)]
pub struct CollectdCodec {
    /// Whether to expect JSON format instead of binary (write_http plugin).
    pub json_mode: bool,
}

/// An event marked with the format that it came in.
pub open spec fn marked(e: EventV, format: Seq<char>) -> EventV {
    with_field(e, "collectd_type"@, JsonV::Str(format))
}

/// The event of a JSON record.
pub open spec fn record_event(j: JsonV, now: Moment) -> EventV {
    marked(event_of_json(j, now), "json"@)
}

/// The events of a JSON packet: one per record of a list, a bare one for an
/// empty list, and one for anything else.
pub open spec fn json_events(j: JsonV, now: Moment) -> Seq<EventV> {
    match j {
        JsonV::Array(a) => if a.len() == 0 {
            seq![marked(blank(now), "json"@)]
        } else {
            a.map_values(|r: JsonV| record_event(r, now))
        },
        _ => seq![record_event(j, now)],
    }
}

/// The field that a text part sets.
pub open spec fn text_part(kind: int) -> Option<Seq<char>> {
    if kind == PART_HOST {
        Some("host"@)
    } else if kind == PART_PLUGIN {
        Some("plugin"@)
    } else if kind == PART_PLUGIN_INSTANCE {
        Some("plugin_instance"@)
    } else if kind == PART_TYPE {
        Some("type"@)
    } else if kind == PART_TYPE_INSTANCE {
        Some("type_instance"@)
    } else {
        None
    }
}

/// A value of eight bytes: a counter (0) or absolute (3) is an unsigned number,
/// a derive (2) a signed one, a gauge (1) a double, least significant byte
/// first.
pub open spec fn value_at(kind: u8, p: Seq<u8>, at: int) -> JsonV {
    if kind == 0 || kind == 2 || kind == 3 {
        JsonV::Int((be_at(p, at, 8) as u64) as i64)
    } else if kind == 1 {
        JsonV::Float(DoubleV::Bits(le_at(p, at, 8) as u64))
    } else {
        JsonV::Null
    }
}

/// The values of a payload from `i` on, behind `acc`: the count, one byte of
/// type per value, then the values. It ends where the payload does.
pub open spec fn values_from(p: Seq<u8>, i: int, acc: Seq<JsonV>) -> Seq<JsonV>
    decreases be_at(p, 0, 2) - i,
{
    let n = be_at(p, 0, 2) as int;
    let at = 2 + n + i * 8;
    if i < 0 || i >= n || at + 8 > p.len() {
        acc
    } else {
        values_from(p, i + 1, acc.push(value_at(p[2 + i], p, at)))
    }
}

/// An event with the values of a payload: alone under `value`, or as a list
/// under `values`.
pub open spec fn with_values(e: EventV, p: Seq<u8>) -> EventV {
    let v = values_from(p, 0, Seq::empty());
    if v.len() == 1 {
        with_field(e, "value"@, v[0])
    } else {
        with_field(e, "values"@, JsonV::Array(v))
    }
}

/// An event behind a part with payload `p`.
pub open spec fn with_part(e: EventV, kind: int, p: Seq<u8>) -> EventV {
    if text_part(kind) is Some {
        with_field(e, text_part(kind)->0, JsonV::Str(without_end(utf8_lossy(p), '\0')))
    } else if kind == PART_TIME && p.len() >= 8 {
        let ts = (be_at(p, 0, 8) as u64) as i64;
        timed(with_field(e, "time"@, JsonV::Int(ts)), ts, 0)
    } else if kind == PART_TIME_HR && p.len() >= 8 {
        let ts = be_at(p, 0, 8);
        timed(
            with_field(e, "time_hr"@, JsonV::Int((ts as u64) as i64)),
            (ts / 0x4000_0000) as i64,
            ((ts % 0x4000_0000) * 1_000_000_000 / 0x4000_0000) as u32,
        )
    } else if kind == PART_INTERVAL && p.len() >= 8 {
        with_field(e, "interval"@, JsonV::Int((be_at(p, 0, 8) as u64) as i64))
    } else if kind == PART_INTERVAL_HR && p.len() >= 8 {
        with_field(e, "interval"@, JsonV::Int((be_at(p, 0, 8) / 0x4000_0000) as i64))
    } else if kind == PART_VALUES && p.len() >= 2 {
        with_values(e, p)
    } else {
        e
    }
}

/// An event behind the parts from `at` on. A part that is too short or leaves
/// the packet ends it.
pub open spec fn with_parts(e: EventV, d: Seq<u8>, at: int) -> EventV
    decreases d.len() - at,
{
    if at < 0 || at + 4 > d.len() {
        e
    } else {
        let n = be_at(d, at + 2, 2);
        if n < 4 || at + n > d.len() {
            e
        } else {
            with_parts(
                with_part(e, be_at(d, at, 2) as int, d.subrange(at + 4, at + n)),
                d,
                at + n,
            )
        }
    }
}

/// The event of a binary packet.
pub open spec fn binary_event(d: Seq<u8>, now: Moment) -> EventV {
    with_parts(marked(blank(now), "binary"@), d, 0)
}

fn text_part_name(kind: u16) -> (r: Option<&'static str>)
    ensures
        match r {
            Some(s) => text_part(kind as int) == Some(s@),
            None => text_part(kind as int) is None,
        },
{
    match kind {
        PART_HOST => Some("host"),
        PART_PLUGIN => Some("plugin"),
        PART_PLUGIN_INSTANCE => Some("plugin_instance"),
        PART_TYPE => Some("type"),
        PART_TYPE_INSTANCE => Some("type_instance"),
        _ => None,
    }
}

fn read_values(p: &[u8]) -> (r: Vec<Json>)
    requires
        p@.len() >= 2,
    ensures
        jsons_view(r@) == values_from(p@, 0, Seq::empty()),
{
    let n = be_u16(p, 0) as usize;
    let mut out: Vec<Json> = Vec::new();
    let mut i: usize = 0;
    assert(jsons_view(out@) =~= Seq::<JsonV>::empty());
    loop
        invariant
            i <= n <= 65535,
            n == be_at(p@, 0, 2),
            p@.len() >= 2,
            values_from(p@, 0, Seq::empty()) == values_from(p@, i as int, jsons_view(out@)),
        decreases n - i,
    {
        if i >= n {
            return out;
        }
        let at: usize = 2 + n + i * 8;
        if at > p.len() || p.len() - at < 8 {
            return out;
        }
        let ghost before = jsons_view(out@);
        let v = match p[2 + i] {
            0 | 2 | 3 => Json::Int(be_u64(p, at, 8) as i64),
            1 => Json::Float(Double::Bits(le_u64(p, at, 8))),
            _ => Json::Null,
        };
        assert(v.view() == value_at(p@[2 + i], p@, at as int));
        let ghost w = v.view();
        out.push(v);
        assert(jsons_view(out@) =~= before.push(w));
        i += 1;
    }
}

fn read_part(event: &mut Event, kind: u16, p: &[u8])
    ensures
        final(event)@ == with_part(old(event)@, kind as int, p@),
        is_event(old(event)@) ==> is_event(final(event)@),
{
    if let Some(field) = text_part_name(kind) {
        event.set(field, Json::Str(drop_end(&lossy_text(p), '\0')));
        return;
    }
    if kind == PART_VALUES {
        if p.len() >= 2 {
            let mut v = read_values(p);
            let ghost vs = jsons_view(v@);
            if v.len() == 1 {
                assert(vs[0] == v@[0].view());
                let only = v.remove(0);
                event.set("value", only);
            } else {
                event.set("values", Json::Array(v));
            }
        }
        return;
    }
    if p.len() < 8 {
        return;
    }
    let n = be_u64(p, 0, 8);
    if kind == PART_TIME {
        event.set("time", Json::Int(n as i64));
        event.set_time(n as i64, 0);
    } else if kind == PART_TIME_HR {
        let secs = (n / 0x4000_0000) as i64;
        let nanos = ((n % 0x4000_0000) * 1_000_000_000 / 0x4000_0000) as u32;
        event.set("time_hr", Json::Int(n as i64));
        event.set_time(secs, nanos);
    } else if kind == PART_INTERVAL {
        event.set("interval", Json::Int(n as i64));
    } else if kind == PART_INTERVAL_HR {
        event.set("interval", Json::Int((n / 0x4000_0000) as i64));
    }
}

impl CollectdCodec {
    /// Whether the codec is the one that settings ask for.
    pub open spec fn configured(&self, settings: JsonV) -> bool {
        self.json_mode == flag_setting(settings, "json_mode"@, false)
    }

    pub fn from_config(settings: &Json) -> (r: Result<Self, CodecError>)
        ensures
            r matches Ok(c) && c.configured(settings.view()),
    {
        Ok(Self { json_mode: get_flag(settings, "json_mode", false) })
    }

    fn decode_json(&self, data: &[u8], now: Moment) -> (r: Result<Vec<Event>, CodecError>)
        ensures
            match (r, json_read(data@)) {
                (Ok(x), Ok(j)) => events_view(x@) == json_events(j, now) && are_events(x@),
                (Err(x), Err(e)) => x@ == CodecErrV::Codec("collectd JSON error: "@ + e),
                _ => false,
            },
    {
        let j = match parse_json(data) {
            Ok(j) => j,
            Err(e) => return Err(CodecError::Codec(join2("collectd JSON error: ", &e))),
        };
        Ok(decode_records(&j, now))
    }

    /// Decodes a binary packet.
    pub fn decode_binary(&self, data: &[u8], now: Moment) -> (r: Vec<Event>)
        ensures
            events_view(r@) == seq![binary_event(data@, now)],
            are_events(r@),
    {
        let mut event = Event::empty(now);
        event.set("collectd_type", text_value("binary"));
        let mut at: usize = 0;
        while at <= data.len() && data.len() - at >= 4
            invariant
                at <= data@.len(),
                is_event(event@),
                binary_event(data@, now) == with_parts(event@, data@, at as int),
            decreases data@.len() - at,
        {
            let kind = be_u16(data, at);
            let n = be_u16(data, at + 2) as usize;
            if n < 4 || n > data.len() - at {
                return one_event(event);
            }
            read_part(&mut event, kind, sub_slice(data, at + 4, at + n));
            at += n;
        }
        one_event(event)
    }
}

/// The events of a JSON packet.
pub fn decode_records(j: &Json, now: Moment) -> (r: Vec<Event>)
    ensures
        events_view(r@) == json_events(j.view(), now),
        are_events(r@),
{
    if let Json::Array(a) = j {
        if a.len() == 0 {
            let mut e = Event::empty(now);
            e.set("collectd_type", text_value("json"));
            return one_event(e);
        }
        let mut out: Vec<Event> = Vec::new();
        let mut i: usize = 0;
        while i < a.len()
            invariant
                i <= a@.len(),
                out@.len() == i,
                are_events(out@),
                forall|k: int|
                    0 <= k < i ==> (#[trigger] out@[k])@ == record_event(a@[k].view(), now),
            decreases a@.len() - i,
        {
            let mut e = Event::from_json(&a[i], now);
            e.set("collectd_type", text_value("json"));
            out.push(e);
            i += 1;
        }
        proof {
            let w = jsons_view(a@);
            assert forall|k: int| 0 <= k < a@.len() implies #[trigger] w[k] == a@[k].view() by {}
            assert(events_view(out@) =~= w.map_values(|r: JsonV| record_event(r, now)));
        }
        return out;
    }
    let mut e = Event::from_json(j, now);
    e.set("collectd_type", text_value("json"));
    one_event(e)
}

impl Default for CollectdCodec {
    fn default() -> (r: Self)
        ensures
            !r.json_mode,
    {
        Self { json_mode: false }
    }
}

/// Whether data is JSON by its first byte: a bracket or a brace.
pub open spec fn looks_like_json(data: Seq<u8>) -> bool {
    data.len() > 0 && (data[0] == 0x5b || data[0] == 0x7b)
}

impl Codec for CollectdCodec {
    open spec fn name_v(&self) -> Seq<char> {
        "collectd"@
    }

    open spec fn decoded(&self, data: Seq<u8>, now: Moment, t: AnswersV) -> DecodedV {
        if self.json_mode || looks_like_json(data) {
            match json_read(data) {
                Ok(j) => Ok(json_events(j, now)),
                Err(e) => Err(CodecErrV::Codec("collectd JSON error: "@ + e)),
            }
        } else {
            Ok(seq![binary_event(data, now)])
        }
    }

    open spec fn encoded(&self, e: EventV, t: AnswersV) -> EncodedV {
        match text_of(t, json_of_event(e)) {
            Ok(s) => Ok(encode_utf8(s + "\n"@)),
            Err(q) => Err(CodecErrV::Ask(q)),
        }
    }

    open spec fn learned(&self) -> TemplatesV {
        Map::empty()
    }

    open spec fn learned_after(&self, data: Seq<u8>) -> TemplatesV {
        Map::empty()
    }

    open spec fn stateful(&self) -> bool {
        false
    }

    fn name(&self) -> (r: &'static str) {
        "collectd"
    }

    fn decode(&mut self, data: &[u8], now: Moment, answers: &Answers) -> (r: Result<
        Vec<Event>,
        CodecError,
    >)
        ensures
            *final(self) == *old(self),
    {
        if self.json_mode || (data.len() > 0 && (data[0] == 0x5b || data[0] == 0x7b)) {
            return self.decode_json(data, now);
        }
        Ok(self.decode_binary(data, now))
    }

    fn encode(&self, event: &Event, answers: &Answers) -> (r: Result<Vec<u8>, CodecError>) {
        match event.to_json_string(answers) {
            Ok(s) => Ok(text_bytes(&join2(&s, "\n"))),
            Err(q) => Err(CodecError::Ask(q)),
        }
    }

    fn is_stateful(&self) -> (r: bool) {
        false
    }
}

} // verus!
