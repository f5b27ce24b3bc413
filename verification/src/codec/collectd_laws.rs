//! What the collectd codec reads, stated over packets that are written out.
use crate::codec::collectd::{
    marked, value_at, values_from, with_part, with_parts, with_values, CollectdCodec,
};
use crate::codec::laws::text_survives;
use crate::codec::layout::{
    be_bytes, le_bytes, lemma_be_bytes, lemma_le_bytes, lemma_stands_within, number_is_read_back,
    reversed_number_is_read_back, stands_at,
};
use crate::codec::plain::{end_without, without_end};
use crate::codec::wire::{be_at, lemma_pow256};
use crate::codec::Codec;
use crate::double::{AnswersV, DoubleV};
use crate::event::{blank, field_of, is_plain_name, lemma_fields_stay, timed, with_field, EventV};
use crate::json::JsonV;
use crate::moment::{moment_exists, Moment};
use vstd::prelude::*;
use vstd::utf8::encode_utf8;

verus! {

/// A value of a metric. A gauge is a double, given by its bits.
pub enum MetricValue {
    Counter(u64),
    Gauge(u64),
    Derive(i64),
    Absolute(u64),
}

/// A part of a packet: its type and its payload, with the length of both and of
/// itself between them.
pub open spec fn part_bytes(kind: u16, payload: Seq<u8>) -> Seq<u8> {
    be_bytes(kind as nat, 2) + be_bytes(4 + payload.len(), 2) + payload
}

/// A text as a payload: a null character ends it.
pub open spec fn text_payload(s: Seq<char>) -> Seq<u8> {
    encode_utf8(s.push('\0'))
}

/// The byte that tells the type of a value.
pub open spec fn value_type(v: MetricValue) -> u8 {
    match v {
        MetricValue::Counter(_) => 0,
        MetricValue::Gauge(_) => 1,
        MetricValue::Derive(_) => 2,
        MetricValue::Absolute(_) => 3,
    }
}

/// The eight bytes of a value: integers in network order, a negative one as its
/// complement; doubles the other way round.
pub open spec fn value_bytes(v: MetricValue) -> Seq<u8> {
    match v {
        MetricValue::Counter(n) => be_bytes(n as nat, 8),
        MetricValue::Gauge(bits) => le_bytes(bits as nat, 8),
        MetricValue::Derive(n) => be_bytes(
            if n >= 0 {
                n as nat
            } else {
                (0x1_0000_0000_0000_0000 + n) as nat
            },
            8,
        ),
        MetricValue::Absolute(n) => be_bytes(n as nat, 8),
    }
}

/// Whether a value that was read is the value that was written. An unsigned
/// number beyond an `i64` has no exact counterpart.
pub open spec fn is_metric_value(j: JsonV, v: MetricValue) -> bool {
    match v {
        MetricValue::Counter(n) => n <= i64::MAX ==> (j matches JsonV::Int(x) && x == n),
        MetricValue::Gauge(bits) => j == JsonV::Float(DoubleV::Bits(bits)),
        MetricValue::Derive(n) => j == JsonV::Int(n),
        MetricValue::Absolute(n) => n <= i64::MAX ==> (j matches JsonV::Int(x) && x == n),
    }
}

/// The types of values, one byte each.
pub open spec fn value_types(vs: Seq<MetricValue>) -> Seq<u8> {
    vs.map_values(|v: MetricValue| value_type(v))
}

/// The bytes of values, one behind the other.
pub open spec fn all_value_bytes(vs: Seq<MetricValue>) -> Seq<u8>
    decreases vs.len(),
{
    if vs.len() == 0 {
        Seq::empty()
    } else {
        all_value_bytes(vs.drop_last()) + value_bytes(vs.last())
    }
}

/// Values as a payload: their number, their types, and then they themselves.
pub open spec fn values_payload(vs: Seq<MetricValue>) -> Seq<u8> {
    be_bytes(vs.len(), 2) + value_types(vs) + all_value_bytes(vs)
}

/// A metric, in the order in which collectd sends its parts.
pub struct Metric {
    pub host: Seq<char>,
    pub time: u64,
    pub interval: u64,
    pub plugin: Seq<char>,
    pub plugin_instance: Seq<char>,
    pub kind: Seq<char>,
    pub type_instance: Seq<char>,
    pub values: Seq<MetricValue>,
}

/// A text that a part can hold: it does not end in a null character and is not
/// too long.
pub open spec fn fits_part(s: Seq<char>) -> bool {
    text_payload(s).len() < 65532 && (s.len() > 0 ==> s.last() != '\0')
}

/// A metric that a packet can hold.
pub open spec fn fits_packet(m: Metric) -> bool {
    fits_part(m.host) && fits_part(m.plugin) && fits_part(m.plugin_instance) && fits_part(
        m.kind,
    ) && fits_part(m.type_instance) && m.time <= i64::MAX && m.interval <= i64::MAX
        && m.values.len() <= 7000
}

/// The packet of a metric.
pub open spec fn metric_packet(m: Metric) -> Seq<u8> {
    part_bytes(0, text_payload(m.host)) + part_bytes(1, be_bytes(m.time as nat, 8)) + part_bytes(
        7,
        be_bytes(m.interval as nat, 8),
    ) + part_bytes(2, text_payload(m.plugin)) + part_bytes(3, text_payload(m.plugin_instance))
        + part_bytes(4, text_payload(m.kind)) + part_bytes(5, text_payload(m.type_instance))
        + part_bytes(6, values_payload(m.values))
}

/// Whether a field holds a text.
pub open spec fn holds(e: EventV, field: Seq<char>, s: Seq<char>) -> bool {
    field_of(e, field) == Some(JsonV::Str(s))
}

/// Whether an event says what a metric says: a single value under `value`,
/// several under `values`.
pub open spec fn tells_metric(e: EventV, m: Metric) -> bool {
    &&& holds(e, "host"@, m.host)
    &&& holds(e, "plugin"@, m.plugin)
    &&& holds(e, "plugin_instance"@, m.plugin_instance)
    &&& holds(e, "type"@, m.kind)
    &&& holds(e, "type_instance"@, m.type_instance)
    &&& field_of(e, "time"@) == Some(JsonV::Int(m.time as i64))
    &&& field_of(e, "interval"@) == Some(JsonV::Int(m.interval as i64))
    &&& moment_exists(m.time as i64, 0) ==> e.timestamp.secs == m.time && e.timestamp.nanos == 0
    &&& m.values.len() == 1 ==> (field_of(e, "value"@) matches Some(j) && is_metric_value(
        j,
        m.values[0],
    ))
    &&& m.values.len() > 1 ==> (field_of(e, "values"@) matches Some(JsonV::Array(a)) && a.len()
        == m.values.len() && forall|i: int|
        0 <= i < a.len() ==> is_metric_value(#[trigger] a[i], m.values[i]))
}

proof fn lemma_names()
    ensures
        is_plain_name("collectd_type"@),
        "collectd_type"@.len() == 13,
        is_plain_name("host"@),
        "host"@.len() == 4,
        is_plain_name("plugin"@),
        "plugin"@.len() == 6,
        is_plain_name("plugin_instance"@),
        "plugin_instance"@.len() == 15,
        is_plain_name("type"@),
        "type"@.len() == 4,
        is_plain_name("type_instance"@),
        "type_instance"@.len() == 13,
        is_plain_name("time"@),
        "time"@.len() == 4,
        is_plain_name("time_hr"@),
        "time_hr"@.len() == 7,
        is_plain_name("interval"@),
        "interval"@.len() == 8,
        is_plain_name("value"@),
        "value"@.len() == 5,
        is_plain_name("values"@),
        "values"@.len() == 6,
        "type"@ != "host"@,
        "type_instance"@ != "collectd_type"@,
        "time"@ != "host"@,
        "time"@ != "type"@,
        "values"@ != "plugin"@,
{
    reveal_strlit("collectd_type");
    reveal_strlit("host");
    reveal_strlit("plugin");
    reveal_strlit("plugin_instance");
    reveal_strlit("type");
    reveal_strlit("type_instance");
    reveal_strlit("time");
    reveal_strlit("time_hr");
    reveal_strlit("interval");
    reveal_strlit("value");
    reveal_strlit("values");
    assert("type"@[0] != "host"@[0]);
    assert("type_instance"@[0] != "collectd_type"@[0]);
    assert("time"@[0] != "host"@[0]);
    assert("time"@[1] != "type"@[1]);
    assert("values"@[0] != "plugin"@[0]);
}

proof fn lemma_part_bytes(kind: u16, payload: Seq<u8>)
    ensures
        part_bytes(kind, payload).len() == 4 + payload.len(),
        stands_at(part_bytes(kind, payload), 0, be_bytes(kind as nat, 2)),
        stands_at(part_bytes(kind, payload), 2, be_bytes(4 + payload.len(), 2)),
        stands_at(part_bytes(kind, payload), 4, payload),
{
    let s = part_bytes(kind, payload);
    lemma_be_bytes(kind as nat, 2);
    lemma_be_bytes(4 + payload.len(), 2);
    assert(s.subrange(0, 2) =~= be_bytes(kind as nat, 2));
    assert(s.subrange(2, 4) =~= be_bytes(4 + payload.len(), 2));
    assert(s.subrange(4, s.len() as int) =~= payload);
}

/// A part takes effect, and reading goes on behind it.
proof fn lemma_part(e: EventV, d: Seq<u8>, at: int, kind: u16, payload: Seq<u8>)
    requires
        stands_at(d, at, part_bytes(kind, payload)),
        payload.len() < 65532,
    ensures
        with_parts(e, d, at) == with_parts(
            with_part(e, kind as int, payload),
            d,
            at + 4 + payload.len(),
        ),
{
    let s = part_bytes(kind, payload);
    lemma_part_bytes(kind, payload);
    lemma_pow256();
    lemma_stands_within(d, at, s, 0, be_bytes(kind as nat, 2));
    lemma_stands_within(d, at, s, 2, be_bytes(4 + payload.len(), 2));
    lemma_stands_within(d, at, s, 4, payload);
    number_is_read_back(d, at, kind as nat, 2);
    number_is_read_back(d, at + 2, 4 + payload.len(), 2);
}

/// The upper half of the unsigned numbers stands for the negative ones.
pub proof fn lemma_complement(w: u64)
    ensures
        w >= 0x8000_0000_0000_0000 ==> w as i64 == w - 0x1_0000_0000_0000_0000,
        w < 0x8000_0000_0000_0000 ==> w as i64 == w,
{
    assert(w >= 0x8000_0000_0000_0000 ==> (w as i64) == -1 - ((!w) as i64)) by (bit_vector);
    assert(!w == 0xffff_ffff_ffff_ffff - w) by (bit_vector);
}

proof fn lemma_value(v: MetricValue, p: Seq<u8>, at: int)
    requires
        stands_at(p, at, value_bytes(v)),
    ensures
        value_bytes(v).len() == 8,
        is_metric_value(value_at(value_type(v), p, at), v),
{
    lemma_pow256();
    match v {
        MetricValue::Counter(n) => {
            lemma_be_bytes(n as nat, 8);
            number_is_read_back(p, at, n as nat, 8);
        },
        MetricValue::Gauge(bits) => {
            lemma_le_bytes(bits as nat, 8);
            reversed_number_is_read_back(p, at, bits as nat, 8);
        },
        MetricValue::Derive(n) => {
            let x = if n >= 0 {
                n as nat
            } else {
                (0x1_0000_0000_0000_0000 + n) as nat
            };
            lemma_be_bytes(x, 8);
            number_is_read_back(p, at, x, 8);
            lemma_complement(x as u64);
        },
        MetricValue::Absolute(n) => {
            lemma_be_bytes(n as nat, 8);
            number_is_read_back(p, at, n as nat, 8);
        },
    }
}

proof fn lemma_value_len(v: MetricValue)
    ensures
        value_bytes(v).len() == 8,
{
    match v {
        MetricValue::Counter(n) => lemma_be_bytes(n as nat, 8),
        MetricValue::Gauge(bits) => lemma_le_bytes(bits as nat, 8),
        MetricValue::Derive(n) => lemma_be_bytes(
            if n >= 0 {
                n as nat
            } else {
                (0x1_0000_0000_0000_0000 + n) as nat
            },
            8,
        ),
        MetricValue::Absolute(n) => lemma_be_bytes(n as nat, 8),
    }
}

proof fn lemma_all_values(vs: Seq<MetricValue>, i: int)
    requires
        0 <= i < vs.len(),
    ensures
        all_value_bytes(vs).len() == 8 * vs.len(),
        stands_at(all_value_bytes(vs), 8 * i, value_bytes(vs[i])),
    decreases vs.len(),
{
    let front = vs.drop_last();
    let s = all_value_bytes(front);
    lemma_value_len(vs.last());
    lemma_value_len(vs[i]);
    if front.len() > 0 {
        lemma_all_values(front, if i < front.len() {
            i
        } else {
            0
        });
    }
    let d = all_value_bytes(vs);
    if i < front.len() {
        assert(front[i] == vs[i]);
        assert(d.subrange(8 * i, 8 * i + 8) =~= s.subrange(8 * i, 8 * i + 8));
    } else {
        assert(d.subrange(8 * i, 8 * i + 8) =~= value_bytes(vs.last()));
    }
}

proof fn lemma_values(vs: Seq<MetricValue>, i: int, acc: Seq<JsonV>)
    requires
        0 <= i <= vs.len() <= 7000,
        acc.len() == i,
        forall|k: int| 0 <= k < i ==> is_metric_value(#[trigger] acc[k], vs[k]),
    ensures
        ({
            let all = values_from(values_payload(vs), i, acc);
            all.len() == vs.len() && forall|k: int|
                0 <= k < vs.len() ==> is_metric_value(#[trigger] all[k], vs[k])
        }),
    decreases vs.len() - i,
{
    let p = values_payload(vs);
    let n = vs.len() as int;
    lemma_be_bytes(vs.len(), 2);
    lemma_pow256();
    assert(p.subrange(0, 2) =~= be_bytes(vs.len(), 2));
    number_is_read_back(p, 0, vs.len(), 2);
    if i < n {
        lemma_all_values(vs, i);
        lemma_value_len(vs[i]);
        let at = 2 + n + i * 8;
        assert(p.subrange(at, at + 8) =~= all_value_bytes(vs).subrange(8 * i, 8 * i + 8));
        lemma_value(vs[i], p, at);
        assert(p[2 + i] == value_type(vs[i]));
        lemma_values(vs, i + 1, acc.push(value_at(p[2 + i], p, at)));
    }
}

/// A values part that holds one value gives that value: counters, derives and
/// absolutes in network order, gauges the other way round.
pub proof fn a_value_is_read_back(e: EventV, v: MetricValue)
    ensures
        field_of(with_values(e, values_payload(Seq::empty().push(v))), "value"@) matches Some(j)
            && is_metric_value(j, v),
{
    let vs = Seq::empty().push(v);
    lemma_values(vs, 0, Seq::empty());
    lemma_names();
    lemma_fields_stay();
}

proof fn lemma_text(e: EventV, kind: u16, s: Seq<char>)
    requires
        fits_part(s),
    ensures
        kind == 0 ==> with_part(e, 0, text_payload(s)) == with_field(e, "host"@, JsonV::Str(s)),
        kind == 2 ==> with_part(e, 2, text_payload(s)) == with_field(e, "plugin"@, JsonV::Str(s)),
        kind == 3 ==> with_part(e, 3, text_payload(s)) == with_field(
            e,
            "plugin_instance"@,
            JsonV::Str(s),
        ),
        kind == 4 ==> with_part(e, 4, text_payload(s)) == with_field(e, "type"@, JsonV::Str(s)),
        kind == 5 ==> with_part(e, 5, text_payload(s)) == with_field(
            e,
            "type_instance"@,
            JsonV::Str(s),
        ),
{
    let z = s.push('\0');
    text_survives(z);
    assert(end_without(z, '\0', z.len() as int) == s.len()) by {
        reveal_with_fuel(end_without, 3);
        if s.len() > 0 {
            assert(z[s.len() - 1] == s.last());
        }
    }
    assert(without_end(z, '\0') =~= s);
}

proof fn lemma_number_part(n: u64)
    ensures
        be_bytes(n as nat, 8).len() == 8,
        be_at(be_bytes(n as nat, 8), 0, 8) == n,
{
    lemma_be_bytes(n as nat, 8);
    lemma_pow256();
    let s = be_bytes(n as nat, 8);
    assert(s.subrange(0, 8) =~= s);
    number_is_read_back(s, 0, n as nat, 8);
}

/// Where the parts of a packet begin.
spec fn part_start(m: Metric, k: int) -> int {
    let a = 4 + text_payload(m.host).len();
    let b = a + 12;
    let c = b + 12;
    let d = c + 4 + text_payload(m.plugin).len();
    let e = d + 4 + text_payload(m.plugin_instance).len();
    let f = e + 4 + text_payload(m.kind).len();
    let g = f + 4 + text_payload(m.type_instance).len();
    if k == 0 {
        0
    } else if k == 1 {
        a as int
    } else if k == 2 {
        b as int
    } else if k == 3 {
        c as int
    } else if k == 4 {
        d as int
    } else if k == 5 {
        e as int
    } else if k == 6 {
        f as int
    } else {
        g as int
    }
}

#[verifier::spinoff_prover]
proof fn lemma_packet(m: Metric)
    ensures
        ({
            let d = metric_packet(m);
            &&& stands_at(d, 0, part_bytes(0, text_payload(m.host)))
            &&& stands_at(d, part_start(m, 1), part_bytes(1, be_bytes(m.time as nat, 8)))
            &&& stands_at(d, part_start(m, 2), part_bytes(7, be_bytes(m.interval as nat, 8)))
            &&& stands_at(d, part_start(m, 3), part_bytes(2, text_payload(m.plugin)))
            &&& stands_at(d, part_start(m, 4), part_bytes(3, text_payload(m.plugin_instance)))
            &&& stands_at(d, part_start(m, 5), part_bytes(4, text_payload(m.kind)))
            &&& stands_at(d, part_start(m, 6), part_bytes(5, text_payload(m.type_instance)))
            &&& stands_at(d, part_start(m, 7), part_bytes(6, values_payload(m.values)))
            &&& d.len() == part_start(m, 7) + 4 + values_payload(m.values).len()
            &&& d[0] == 0
        }),
{
    let p0 = part_bytes(0, text_payload(m.host));
    let p1 = part_bytes(1, be_bytes(m.time as nat, 8));
    let p2 = part_bytes(7, be_bytes(m.interval as nat, 8));
    let p3 = part_bytes(2, text_payload(m.plugin));
    let p4 = part_bytes(3, text_payload(m.plugin_instance));
    let p5 = part_bytes(4, text_payload(m.kind));
    let p6 = part_bytes(5, text_payload(m.type_instance));
    let p7 = part_bytes(6, values_payload(m.values));
    lemma_number_part(m.time);
    lemma_number_part(m.interval);
    lemma_part_bytes(0, text_payload(m.host));
    lemma_part_bytes(1, be_bytes(m.time as nat, 8));
    lemma_part_bytes(7, be_bytes(m.interval as nat, 8));
    lemma_part_bytes(2, text_payload(m.plugin));
    lemma_part_bytes(3, text_payload(m.plugin_instance));
    lemma_part_bytes(4, text_payload(m.kind));
    lemma_part_bytes(5, text_payload(m.type_instance));
    lemma_part_bytes(6, values_payload(m.values));
    let d = metric_packet(m);
    assert(d == p0 + p1 + p2 + p3 + p4 + p5 + p6 + p7);
    assert(d.subrange(0, part_start(m, 1)) =~= p0);
    assert(d.subrange(part_start(m, 1), part_start(m, 2)) =~= p1);
    assert(d.subrange(part_start(m, 2), part_start(m, 3)) =~= p2);
    assert(d.subrange(part_start(m, 3), part_start(m, 4)) =~= p3);
    assert(d.subrange(part_start(m, 4), part_start(m, 5)) =~= p4);
    assert(d.subrange(part_start(m, 5), part_start(m, 6)) =~= p5);
    assert(d.subrange(part_start(m, 6), part_start(m, 7)) =~= p6);
    assert(d.subrange(part_start(m, 7), d.len() as int) =~= p7);
    assert(d[0] == p0[0]);
    assert(p0.subrange(0, 2)[0] == p0[0]);
    reveal_with_fuel(be_bytes, 3);
}

/// The event of the first seven parts.
spec fn before_values(m: Metric, now: Moment) -> EventV {
    let e0 = with_field(marked(blank(now), "binary"@), "host"@, JsonV::Str(m.host));
    let e1 = timed(with_field(e0, "time"@, JsonV::Int(m.time as i64)), m.time as i64, 0);
    let e2 = with_field(e1, "interval"@, JsonV::Int(m.interval as i64));
    let e3 = with_field(e2, "plugin"@, JsonV::Str(m.plugin));
    let e4 = with_field(e3, "plugin_instance"@, JsonV::Str(m.plugin_instance));
    let e5 = with_field(e4, "type"@, JsonV::Str(m.kind));
    with_field(e5, "type_instance"@, JsonV::Str(m.type_instance))
}

#[verifier::spinoff_prover]
proof fn lemma_first_parts(m: Metric, now: Moment)
    requires
        fits_packet(m),
    ensures
        with_parts(marked(blank(now), "binary"@), metric_packet(m), 0) == with_parts(
            before_values(m, now),
            metric_packet(m),
            part_start(m, 7),
        ),
{
    let d = metric_packet(m);
    lemma_packet(m);
    lemma_number_part(m.time);
    lemma_number_part(m.interval);
    let e = marked(blank(now), "binary"@);
    lemma_part(e, d, 0, 0, text_payload(m.host));
    lemma_text(e, 0, m.host);
    let e0 = with_field(e, "host"@, JsonV::Str(m.host));
    lemma_part(e0, d, part_start(m, 1), 1, be_bytes(m.time as nat, 8));
    let e1 = timed(
        with_field(e0, "time"@, JsonV::Int(m.time as i64)),
        m.time as i64,
        0,
    );
    lemma_number_parts(e0, m.time);
    lemma_part(e1, d, part_start(m, 2), 7, be_bytes(m.interval as nat, 8));
    let e2 = with_field(e1, "interval"@, JsonV::Int(m.interval as i64));
    lemma_number_parts(e1, m.interval);
    lemma_part(e2, d, part_start(m, 3), 2, text_payload(m.plugin));
    lemma_text(e2, 2, m.plugin);
    let e3 = with_field(e2, "plugin"@, JsonV::Str(m.plugin));
    lemma_part(e3, d, part_start(m, 4), 3, text_payload(m.plugin_instance));
    lemma_text(e3, 3, m.plugin_instance);
    let e4 = with_field(e3, "plugin_instance"@, JsonV::Str(m.plugin_instance));
    lemma_part(e4, d, part_start(m, 5), 4, text_payload(m.kind));
    lemma_text(e4, 4, m.kind);
    let e5 = with_field(e4, "type"@, JsonV::Str(m.kind));
    lemma_part(e5, d, part_start(m, 6), 5, text_payload(m.type_instance));
    lemma_text(e5, 5, m.type_instance);
}

proof fn lemma_number_parts(e: EventV, n: u64)
    requires
        n <= i64::MAX,
    ensures
        with_part(e, 1, be_bytes(n as nat, 8)) == timed(
            with_field(e, "time"@, JsonV::Int(n as i64)),
            n as i64,
            0,
        ),
        with_part(e, 7, be_bytes(n as nat, 8)) == with_field(
            e,
            "interval"@,
            JsonV::Int(n as i64),
        ),
{
    lemma_number_part(n);
}

/// The packet of a metric is decoded to one event, which says what the metric
/// says.
#[verifier::spinoff_prover]
pub proof fn packets_tell_their_metric(
    c: CollectdCodec,
    t: AnswersV,
    m: Metric,
    now: Moment,
)
    requires
        !c.json_mode,
        fits_packet(m),
    ensures
        c.decoded(metric_packet(m), now, t) matches Ok(events) && events.len() == 1
            && tells_metric(events[0], m),
{
    let d = metric_packet(m);
    lemma_packet(m);
    lemma_first_parts(m, now);
    let e = before_values(m, now);
    lemma_values_len(m.values);
    lemma_part(e, d, part_start(m, 7), 6, values_payload(m.values));
    let last = with_values(e, values_payload(m.values));
    assert(with_part(e, 6, values_payload(m.values)) == last);
    assert(with_parts(last, d, d.len() as int) == last);
    lemma_values(m.values, 0, Seq::empty());
    lemma_told(m, now);
}

#[verifier::spinoff_prover]
proof fn lemma_told(m: Metric, now: Moment)
    requires
        m.time <= i64::MAX,
        ({
            let v = values_from(values_payload(m.values), 0, Seq::empty());
            v.len() == m.values.len() && forall|k: int|
                0 <= k < v.len() ==> is_metric_value(#[trigger] v[k], m.values[k])
        }),
    ensures
        tells_metric(with_values(before_values(m, now), values_payload(m.values)), m),
{
    lemma_names();
    lemma_fields_stay();
}

proof fn lemma_values_len(vs: Seq<MetricValue>)
    ensures
        values_payload(vs).len() == 2 + 9 * vs.len(),
{
    lemma_be_bytes(vs.len(), 2);
    if vs.len() > 0 {
        lemma_all_values(vs, 0);
    }
}

/// A time of high resolution counts 2^30ths of a second: the whole seconds and
/// the fraction, in nanoseconds and rounded down, become the time of the event.
pub proof fn fine_times_count_fractions(e: EventV, secs: u64, fraction: u64)
    requires
        secs < 0x4_0000_0000,
        fraction < 0x4000_0000,
    ensures
        ({
            let p = be_bytes((secs * 0x4000_0000 + fraction) as nat, 8);
            let after = with_part(e, 8, p);
            let every = with_part(e, 9, p);
            &&& field_of(every, "interval"@) == Some(JsonV::Int(secs as i64))
            &&& forall|nanos: u32|
                #![trigger moment_exists(secs as i64, nanos)]
                nanos * 0x4000_0000 <= fraction * 1_000_000_000 < (nanos + 1) * 0x4000_0000
                    && moment_exists(secs as i64, nanos) ==> after.timestamp.secs == secs
                    && after.timestamp.nanos == nanos
        }),
{
    let n = (secs * 0x4000_0000 + fraction) as u64;
    lemma_number_part(n);
    let nanos = ((n as nat % 0x4000_0000) * 1_000_000_000 / 0x4000_0000) as u32;
    assert(n as nat / 0x4000_0000 == secs && n as nat % 0x4000_0000 == fraction);
    let x = fraction * 1_000_000_000;
    assert(x / 0x4000_0000 < 1_000_000_000);
    assert forall|other: u32|
        #![trigger moment_exists(secs as i64, other)]
        other * 0x4000_0000 <= x < (other + 1) * 0x4000_0000 implies other == nanos by {
        assert(x as int / 0x4000_0000 == other);
    }
    lemma_names();
    lemma_fields_stay();
}

} // verus!
