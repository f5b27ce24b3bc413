//! NetFlow codec: versions 5 and 9, and IPFIX.
//!
//! Version 9 and IPFIX describe their records by templates, which the codec
//! keeps from one packet to the next.
use crate::codec::hex::{encode, hex_number, hex_text, push_number};
use crate::codec::json::json_bytes;
use crate::codec::wire::{be_at, be_u16, be_u32, be_u64, sub_slice};
use crate::codec::{
    are_events, events_view, one_event, text_bytes, Codec, CodecErrV, CodecError, DecodedV,
    EncodedV, TemplatesV,
};
use crate::double::{Answers, AnswersV};
use crate::event::{blank, is_event, timed, with_field, Event, EventV};
use crate::json::{json_get, Json, JsonV};
use crate::moment::Moment;
use crate::text::{join2, nat_text, same, u64_text};
use std::collections::HashMap;
use vstd::prelude::*;

verus! {

broadcast use {vstd::string::group_string_axioms, vstd::std_specs::hash::group_hash_axioms};

/// NetFlow codec: configuration and the templates seen so far.
#[derive(Debug)]
pub struct NetflowCodec {
    /// The templates seen so far: type and length of their fields.
    pub templates: HashMap<u16, Vec<(u16, u16)>>,
    /// NetFlow version to expect.
    pub target_version: u16,
}

/// The name of a field type.
pub open spec fn field_name_text(field_type: u16) -> Seq<char> {
    match field_type {
        1 => "in_bytes"@,
        2 => "in_pkts"@,
        3 => "flows"@,
        4 => "protocol"@,
        5 => "src_tos"@,
        6 => "tcp_flags"@,
        7 => "l4_src_port"@,
        8 => "ipv4_src_addr"@,
        9 => "src_mask"@,
        10 => "input_snmp"@,
        11 => "l4_dst_port"@,
        12 => "ipv4_dst_addr"@,
        13 => "dst_mask"@,
        14 => "output_snmp"@,
        15 => "ipv4_next_hop"@,
        16 => "src_as"@,
        17 => "dst_as"@,
        18 => "bgp_ipv4_next_hop"@,
        19 => "mul_dst_pkts"@,
        20 => "mul_dst_bytes"@,
        21 => "last_switched"@,
        22 => "first_switched"@,
        23 => "out_bytes"@,
        24 => "out_pkts"@,
        25 => "min_pkt_length"@,
        26 => "max_pkt_length"@,
        27 => "ipv6_src_addr"@,
        28 => "ipv6_dst_addr"@,
        29 => "ipv6_src_mask"@,
        30 => "ipv6_dst_mask"@,
        31 => "ipv6_flow_label"@,
        32 => "icmp_type"@,
        33 => "mul_igmp_type"@,
        34 => "sampling_interval"@,
        35 => "sampling_algorithm"@,
        36 => "flow_active_timeout"@,
        37 => "flow_inactive_timeout"@,
        38 => "engine_type"@,
        39 => "engine_id"@,
        40 => "total_bytes_exp"@,
        41 => "total_pkts_exp"@,
        42 => "total_flows_exp"@,
        44 => "ipv4_src_prefix"@,
        45 => "ipv4_dst_prefix"@,
        46 => "mpls_top_label_type"@,
        47 => "mpls_top_label_ip_addr"@,
        48 => "flow_sampler_id"@,
        49 => "flow_sampler_mode"@,
        50 => "flow_sampler_random_interval"@,
        52 => "min_ttl"@,
        53 => "max_ttl"@,
        54 => "ipv4_ident"@,
        55 => "dst_tos"@,
        56 => "in_src_mac"@,
        57 => "out_dst_mac"@,
        58 => "src_vlan"@,
        59 => "dst_vlan"@,
        60 => "ip_protocol_version"@,
        61 => "direction"@,
        62 => "ipv6_next_hop"@,
        63 => "bgp_ipv6_next_hop"@,
        64 => "ipv6_option_headers"@,
        70 => "mpls_label_1"@,
        71 => "mpls_label_2"@,
        72 => "mpls_label_3"@,
        73 => "mpls_label_4"@,
        74 => "mpls_label_5"@,
        75 => "mpls_label_6"@,
        76 => "mpls_label_7"@,
        77 => "mpls_label_8"@,
        78 => "mpls_label_9"@,
        79 => "mpls_label_10"@,
        80 => "in_dst_mac"@,
        81 => "out_src_mac"@,
        82 => "interface_name"@,
        83 => "interface_description"@,
        85 => "octet_total_count"@,
        86 => "packet_total_count"@,
        88 => "fragment_offset"@,
        89 => "forwarding_status"@,
        90 => "mpls_vpn_rd"@,
        128 => "bgp_next_adjacent_as"@,
        129 => "bgp_prev_adjacent_as"@,
        130 => "exporter_ipv4_address"@,
        131 => "exporter_ipv6_address"@,
        136 => "flow_sampler_id"@,
        139 => "icmp_type_ipv4"@,
        140 => "icmp_code_ipv4"@,
        141 => "icmp_type_ipv6"@,
        142 => "icmp_code_ipv6"@,
        148 => "connection_id"@,
        150 => "flow_start_milliseconds"@,
        151 => "flow_end_milliseconds"@,
        152 => "flow_start_microseconds"@,
        153 => "flow_end_microseconds"@,
        154 => "flow_start_nanoseconds"@,
        155 => "flow_end_nanoseconds"@,
        156 => "flow_start_delta_microseconds"@,
        157 => "flow_end_delta_microseconds"@,
        158 => "system_init_time_milliseconds"@,
        159 => "flow_duration_milliseconds"@,
        160 => "flow_duration_microseconds"@,
        161 => "flow_end_reason"@,
        176 => "icmp_type_code_ipv4"@,
        177 => "icmp_type_code_ipv6"@,
        225 => "post_nat_source_ipv4_address"@,
        226 => "post_nat_destination_ipv4_address"@,
        227 => "post_napt_source_transport_port"@,
        228 => "post_napt_destination_transport_port"@,
        230 => "nat_originating_address_realm"@,
        231 => "nat_event"@,
        233 => "firewall_event"@,
        234 => "ingress_vrfid"@,
        235 => "egress_vrfid"@,
        _ => "unknown"@,
    }
}

/// The field that a field type sets.
pub open spec fn field_key(field_type: u16) -> Seq<char> {
    if field_name_text(field_type) == "unknown"@ {
        "field_"@ + nat_text(field_type as nat)
    } else {
        field_name_text(field_type)
    }
}

/// Four bytes as an IPv4 address.
pub open spec fn ipv4_text(d: Seq<u8>, at: int) -> Seq<char> {
    nat_text(d[at] as nat) + "."@ + nat_text(d[at + 1] as nat) + "."@ + nat_text(d[at + 2] as nat)
        + "."@ + nat_text(d[at + 3] as nat)
}

/// The first `n` groups of an IPv6 address: hexadecimal numbers of two bytes,
/// with colons between them.
pub open spec fn ipv6_groups(d: Seq<u8>, n: int) -> Seq<char>
    decreases n,
{
    if n <= 0 {
        Seq::empty()
    } else if n == 1 {
        hex_number(be_at(d, 0, 2))
    } else {
        ipv6_groups(d, n - 1) + ":"@ + hex_number(be_at(d, 2 * (n - 1), 2))
    }
}

/// Whether a field type of four bytes is an address.
pub open spec fn is_ipv4_type(field_type: u16) -> bool {
    field_type == 8 || field_type == 12 || field_type == 15
}

/// The value of a field by its length: numbers of 1, 2, 4 and 8 bytes,
/// addresses of 4 and 16 bytes, and anything else in hexadecimal.
pub open spec fn field_value(field_type: u16, p: Seq<u8>) -> JsonV {
    let n = p.len();
    if n == 4 && is_ipv4_type(field_type) {
        JsonV::Str(ipv4_text(p, 0))
    } else if n == 1 || n == 2 || n == 4 || n == 8 {
        JsonV::Int((be_at(p, 0, n as int) as u64) as i64)
    } else if n == 16 {
        JsonV::Str(ipv6_groups(p, 8))
    } else {
        JsonV::Str(hex_text(p))
    }
}

/// An event with the fields of a record from template field `i` on, which
/// stand in the data from `at` on. It ends where the data does.
pub open spec fn with_record(e: EventV, fields: Seq<(u16, u16)>, i: int, d: Seq<u8>, at: int) -> EventV
    decreases fields.len() - i,
{
    if i < 0 || i >= fields.len() || at + fields[i].1 > d.len() {
        e
    } else {
        let (kind, n) = fields[i];
        with_record(
            with_field(e, field_key(kind), field_value(kind, d.subrange(at, at + n))),
            fields,
            i + 1,
            d,
            at + n,
        )
    }
}

/// The `n` fields of a template from `at` on, behind `acc`, and the position
/// behind them. It ends where the data does.
pub open spec fn template_fields(d: Seq<u8>, at: int, n: int, acc: Seq<(u16, u16)>) -> (
    Seq<(u16, u16)>,
    int,
)
    decreases n,
{
    if n <= 0 || at + 4 > d.len() {
        (acc, at)
    } else {
        template_fields(
            d,
            at + 4,
            n - 1,
            acc.push((be_at(d, at, 2) as u16, be_at(d, at + 2, 2) as u16)),
        )
    }
}

pub proof fn lemma_template_fields(d: Seq<u8>, at: int, n: int, acc: Seq<(u16, u16)>)
    requires
        0 <= at <= d.len(),
    ensures
        at <= template_fields(d, at, n, acc).1 <= d.len(),
    decreases n,
{
    if n > 0 && at + 4 <= d.len() {
        lemma_template_fields(
            d,
            at + 4,
            n - 1,
            acc.push((be_at(d, at, 2) as u16, be_at(d, at + 2, 2) as u16)),
        );
    }
}

/// The templates behind those that the data from `at` on describes. A later
/// template takes the place of an earlier one with its number.
pub open spec fn learn(t: TemplatesV, d: Seq<u8>, at: int) -> TemplatesV
    decreases d.len() - at,
{
    if at < 0 || at + 4 > d.len() {
        t
    } else {
        proof {
            lemma_template_fields(d, at + 4, be_at(d, at + 2, 2) as int, Seq::empty());
        }
        let (fields, next) = template_fields(d, at + 4, be_at(d, at + 2, 2) as int, Seq::empty());
        learn(t.insert(be_at(d, at, 2) as u16, fields), d, next)
    }
}

/// An event and templates behind the sets of a packet from `at` on: a set with
/// the number `template_id` describes templates, one above 255 is a record of
/// that template. A set that is too short or leaves the packet ends it.
pub open spec fn with_sets(e: EventV, t: TemplatesV, d: Seq<u8>, at: int, template_id: int) -> (
    EventV,
    TemplatesV,
)
    decreases d.len() - at,
{
    if at < 0 || at + 4 > d.len() {
        (e, t)
    } else {
        let id = be_at(d, at, 2);
        let n = be_at(d, at + 2, 2);
        let body = d.subrange(at + 4, at + n);
        if n < 4 || at + n > d.len() {
            (e, t)
        } else if id == template_id {
            with_sets(e, learn(t, body, 0), d, at + n, template_id)
        } else if id > 255 && t.dom().contains(id as u16) {
            with_sets(with_record(e, t[id as u16], 0, body, 0), t, d, at + n, template_id)
        } else {
            with_sets(e, t, d, at + n, template_id)
        }
    }
}

/// An event with a number of `n` bytes as a field.
pub open spec fn with_number(e: EventV, field: Seq<char>, d: Seq<u8>, at: int, n: int) -> EventV {
    with_field(e, field, JsonV::Int(be_at(d, at, n) as i64))
}

/// The time of a version 5 packet.
pub open spec fn v5_timed(e: EventV, d: Seq<u8>) -> EventV {
    timed(e, be_at(d, 8, 4) as i64, be_at(d, 12, 4) as u32)
}

/// The event of the record at `r` of a version 5 packet.
pub open spec fn v5_event(d: Seq<u8>, r: int, now: Moment) -> EventV {
    let e = with_field(blank(now), "netflow_version"@, JsonV::Int(5));
    let e = with_number(e, "flow_count"@, d, 2, 2);
    let e = with_number(e, "sys_uptime_ms"@, d, 4, 4);
    let e = with_number(e, "unix_secs"@, d, 8, 4);
    let e = with_number(e, "unix_nsecs"@, d, 12, 4);
    let e = with_number(e, "flow_sequence"@, d, 16, 4);
    let e = with_number(e, "engine_type"@, d, 20, 1);
    let e = with_number(e, "engine_id"@, d, 21, 1);
    let e = v5_timed(e, d);
    let e = with_field(e, "ipv4_src_addr"@, JsonV::Str(ipv4_text(d, r)));
    let e = with_field(e, "ipv4_dst_addr"@, JsonV::Str(ipv4_text(d, r + 4)));
    let e = with_field(e, "ipv4_next_hop"@, JsonV::Str(ipv4_text(d, r + 8)));
    let e = with_number(e, "input_snmp"@, d, r + 12, 2);
    let e = with_number(e, "output_snmp"@, d, r + 14, 2);
    let e = with_number(e, "in_pkts"@, d, r + 16, 4);
    let e = with_number(e, "in_bytes"@, d, r + 20, 4);
    let e = with_number(e, "l4_src_port"@, d, r + 32, 2);
    let e = with_number(e, "l4_dst_port"@, d, r + 34, 2);
    let e = with_number(e, "protocol"@, d, r + 38, 1);
    with_number(e, "tcp_flags"@, d, r + 37, 1)
}

/// The events of the records from `i` on, behind `acc`, as far as the packet
/// holds them.
pub open spec fn v5_records(d: Seq<u8>, i: int, acc: Seq<EventV>, now: Moment) -> Seq<EventV>
    decreases be_at(d, 2, 2) - i,
{
    if i < 0 || i >= be_at(d, 2, 2) || 24 + i * 48 + 48 > d.len() {
        acc
    } else {
        v5_records(d, i + 1, acc.push(v5_event(d, 24 + i * 48, now)), now)
    }
}

/// The events of a version 5 packet; a packet without records gives one that
/// says so.
pub open spec fn v5_events(d: Seq<u8>, now: Moment) -> DecodedV {
    if d.len() < 24 {
        Err(CodecErrV::Codec("netflow v5: packet too short for header"@))
    } else {
        let r = v5_records(d, 0, Seq::empty(), now);
        if r.len() == 0 {
            let e = with_field(blank(now), "netflow_version"@, JsonV::Int(5));
            Ok(seq![v5_timed(with_field(e, "flow_count"@, JsonV::Int(0)), d)])
        } else {
            Ok(r)
        }
    }
}

/// The header of a version 9 packet.
pub open spec fn v9_header(d: Seq<u8>, now: Moment) -> EventV {
    let e = with_field(blank(now), "netflow_version"@, JsonV::Int(9));
    let e = with_number(e, "flow_count"@, d, 2, 2);
    let e = with_number(e, "sys_uptime_ms"@, d, 4, 4);
    let e = with_number(e, "unix_secs"@, d, 8, 4);
    let e = with_number(e, "flow_sequence"@, d, 12, 4);
    let e = with_number(e, "source_id"@, d, 16, 4);
    timed(e, be_at(d, 8, 4) as i64, 0)
}

/// The header of an IPFIX packet.
pub open spec fn ipfix_header(d: Seq<u8>, now: Moment) -> EventV {
    let e = with_field(blank(now), "netflow_version"@, JsonV::Int(10));
    let e = with_number(e, "export_time"@, d, 4, 4);
    let e = with_number(e, "flow_sequence"@, d, 8, 4);
    let e = with_number(e, "observation_domain"@, d, 12, 4);
    timed(e, be_at(d, 4, 4) as i64, 0)
}

/// What a packet gives where the templates `t` are known.
pub open spec fn packet_events(t: TemplatesV, d: Seq<u8>, now: Moment) -> DecodedV {
    let version = be_at(d, 0, 2);
    if d.len() < 4 {
        Err(CodecErrV::Codec("netflow: packet too short"@))
    } else if version == 5 {
        v5_events(d, now)
    } else if version == 9 {
        if d.len() < 20 {
            Err(CodecErrV::Codec("netflow v9: packet too short for header"@))
        } else {
            Ok(seq![with_sets(v9_header(d, now), t, d, 20, 0).0])
        }
    } else if version == 10 {
        if d.len() < 16 {
            Err(CodecErrV::Codec("IPFIX: packet too short for header"@))
        } else {
            Ok(seq![with_sets(ipfix_header(d, now), t, d, 16, 2).0])
        }
    } else {
        Err(CodecErrV::Codec("unsupported netflow version: "@ + nat_text(version)))
    }
}

/// The templates that are known behind a packet. They depend on its sets
/// alone, so any event may stand for its header.
pub open spec fn packet_templates(t: TemplatesV, d: Seq<u8>) -> TemplatesV {
    let version = be_at(d, 0, 2);
    let any = blank(Moment { secs: 0, nanos: 0 });
    if d.len() >= 20 && version == 9 {
        with_sets(any, t, d, 20, 0).1
    } else if d.len() >= 16 && version == 10 {
        with_sets(any, t, d, 16, 2).1
    } else {
        t
    }
}

/// The templates behind the sets of a packet do not depend on the event.
pub proof fn sets_teach_the_same(
    a: EventV,
    b: EventV,
    t: TemplatesV,
    d: Seq<u8>,
    at: int,
    template_id: int,
)
    ensures
        with_sets(a, t, d, at, template_id).1 == with_sets(b, t, d, at, template_id).1,
    decreases d.len() - at,
{
    if 0 <= at && at + 4 <= d.len() {
        let id = be_at(d, at, 2);
        let n = be_at(d, at + 2, 2);
        let body = d.subrange(at + 4, at + n);
        if n < 4 || at + n > d.len() {
        } else if id == template_id {
            sets_teach_the_same(a, b, learn(t, body, 0), d, at + n, template_id);
        } else if id > 255 && t.dom().contains(id as u16) {
            sets_teach_the_same(
                with_record(a, t[id as u16], 0, body, 0),
                with_record(b, t[id as u16], 0, body, 0),
                t,
                d,
                at + n,
                template_id,
            );
        } else {
            sets_teach_the_same(a, b, t, d, at + n, template_id);
        }
    }
}

/// The templates of a codec.
pub open spec fn templates_view(m: Map<u16, Vec<(u16, u16)>>) -> TemplatesV {
    m.map_values(|v: Vec<(u16, u16)>| v@)
}

fn push_ipv4(out: &mut String, d: &[u8], at: usize)
    requires
        at + 4 <= d@.len(),
    ensures
        final(out)@ == old(out)@ + ipv4_text(d@, at as int),
{
    let ghost before = out@;
    out.append(&u64_text(d[at] as u64));
    out.append(".");
    out.append(&u64_text(d[at + 1] as u64));
    out.append(".");
    out.append(&u64_text(d[at + 2] as u64));
    out.append(".");
    out.append(&u64_text(d[at + 3] as u64));
    assert(out@ =~= before + ipv4_text(d@, at as int));
}

fn ipv4(d: &[u8], at: usize) -> (r: Json)
    requires
        at + 4 <= d@.len(),
    ensures
        r.view() == JsonV::Str(ipv4_text(d@, at as int)),
{
    let mut out = String::new();
    push_ipv4(&mut out, d, at);
    assert(out@ =~= ipv4_text(d@, at as int));
    Json::Str(out)
}

fn ipv6(d: &[u8]) -> (r: Json)
    requires
        d@.len() == 16,
    ensures
        r.view() == JsonV::Str(ipv6_groups(d@, 8)),
{
    let mut out = String::new();
    let mut i: usize = 0;
    while i < 8
        invariant
            i <= 8,
            d@.len() == 16,
            out@ == ipv6_groups(d@, i as int),
        decreases 8 - i,
    {
        let ghost before = out@;
        if i > 0 {
            out.append(":");
        }
        push_number(&mut out, be_u16(d, 2 * i));
        assert(out@ =~= ipv6_groups(d@, i + 1));
        i += 1;
    }
    Json::Str(out)
}

fn set_number(e: &mut Event, field: &str, d: &[u8], at: usize, n: usize)
    requires
        n <= 4,
        at + n <= d@.len(),
    ensures
        final(e)@ == with_number(old(e)@, field@, d@, at as int, n as int),
        is_event(old(e)@) ==> is_event(final(e)@),
{
    e.set(field, Json::Int(be_u64(d, at, n) as i64));
}

impl NetflowCodec {
    /// The templates seen so far.
    pub open spec fn templates_v(&self) -> TemplatesV {
        templates_view(self.templates@)
    }

    /// Whether the codec is the one that settings ask for.
    pub open spec fn configured(&self, settings: JsonV) -> bool {
        self.templates_v() == Map::<u16, Seq<(u16, u16)>>::empty()
                && self.target_version == (match json_get(settings, "target_version"@) {
                Some(JsonV::Int(n)) => if n >= 0 {
                    n as u16
                } else {
                    5
                },
                Some(JsonV::UInt(n)) => n as u16,
                _ => 5,
            })
    }

    pub fn from_config(settings: &Json) -> (r: Result<Self, CodecError>)
        ensures
            r matches Ok(c) && c.configured(settings.view()),
    {
        let target_version: u16 = match settings.get("target_version") {
            Some(Json::Int(n)) => if *n >= 0 {
                *n as u16
            } else {
                5
            },
            Some(Json::UInt(n)) => *n as u16,
            _ => 5,
        };
        let c = Self { templates: HashMap::new(), target_version };
        assert(c.templates_v() =~= Map::<u16, Seq<(u16, u16)>>::empty());
        Ok(c)
    }

    /// The name of a field type.
    pub fn field_name(field_type: u16) -> (r: &'static str)
        ensures
            r@ == field_name_text(field_type),
    {
        match field_type {
            1 => "in_bytes",
            2 => "in_pkts",
            3 => "flows",
            4 => "protocol",
            5 => "src_tos",
            6 => "tcp_flags",
            7 => "l4_src_port",
            8 => "ipv4_src_addr",
            9 => "src_mask",
            10 => "input_snmp",
            11 => "l4_dst_port",
            12 => "ipv4_dst_addr",
            13 => "dst_mask",
            14 => "output_snmp",
            15 => "ipv4_next_hop",
            16 => "src_as",
            17 => "dst_as",
            18 => "bgp_ipv4_next_hop",
            19 => "mul_dst_pkts",
            20 => "mul_dst_bytes",
            21 => "last_switched",
            22 => "first_switched",
            23 => "out_bytes",
            24 => "out_pkts",
            25 => "min_pkt_length",
            26 => "max_pkt_length",
            27 => "ipv6_src_addr",
            28 => "ipv6_dst_addr",
            29 => "ipv6_src_mask",
            30 => "ipv6_dst_mask",
            31 => "ipv6_flow_label",
            32 => "icmp_type",
            33 => "mul_igmp_type",
            34 => "sampling_interval",
            35 => "sampling_algorithm",
            36 => "flow_active_timeout",
            37 => "flow_inactive_timeout",
            38 => "engine_type",
            39 => "engine_id",
            40 => "total_bytes_exp",
            41 => "total_pkts_exp",
            42 => "total_flows_exp",
            44 => "ipv4_src_prefix",
            45 => "ipv4_dst_prefix",
            46 => "mpls_top_label_type",
            47 => "mpls_top_label_ip_addr",
            48 => "flow_sampler_id",
            49 => "flow_sampler_mode",
            50 => "flow_sampler_random_interval",
            52 => "min_ttl",
            53 => "max_ttl",
            54 => "ipv4_ident",
            55 => "dst_tos",
            56 => "in_src_mac",
            57 => "out_dst_mac",
            58 => "src_vlan",
            59 => "dst_vlan",
            60 => "ip_protocol_version",
            61 => "direction",
            62 => "ipv6_next_hop",
            63 => "bgp_ipv6_next_hop",
            64 => "ipv6_option_headers",
            70 => "mpls_label_1",
            71 => "mpls_label_2",
            72 => "mpls_label_3",
            73 => "mpls_label_4",
            74 => "mpls_label_5",
            75 => "mpls_label_6",
            76 => "mpls_label_7",
            77 => "mpls_label_8",
            78 => "mpls_label_9",
            79 => "mpls_label_10",
            80 => "in_dst_mac",
            81 => "out_src_mac",
            82 => "interface_name",
            83 => "interface_description",
            85 => "octet_total_count",
            86 => "packet_total_count",
            88 => "fragment_offset",
            89 => "forwarding_status",
            90 => "mpls_vpn_rd",
            128 => "bgp_next_adjacent_as",
            129 => "bgp_prev_adjacent_as",
            130 => "exporter_ipv4_address",
            131 => "exporter_ipv6_address",
            136 => "flow_sampler_id",
            139 => "icmp_type_ipv4",
            140 => "icmp_code_ipv4",
            141 => "icmp_type_ipv6",
            142 => "icmp_code_ipv6",
            148 => "connection_id",
            150 => "flow_start_milliseconds",
            151 => "flow_end_milliseconds",
            152 => "flow_start_microseconds",
            153 => "flow_end_microseconds",
            154 => "flow_start_nanoseconds",
            155 => "flow_end_nanoseconds",
            156 => "flow_start_delta_microseconds",
            157 => "flow_end_delta_microseconds",
            158 => "system_init_time_milliseconds",
            159 => "flow_duration_milliseconds",
            160 => "flow_duration_microseconds",
            161 => "flow_end_reason",
            176 => "icmp_type_code_ipv4",
            177 => "icmp_type_code_ipv6",
            225 => "post_nat_source_ipv4_address",
            226 => "post_nat_destination_ipv4_address",
            227 => "post_napt_source_transport_port",
            228 => "post_napt_destination_transport_port",
            230 => "nat_originating_address_realm",
            231 => "nat_event",
            233 => "firewall_event",
            234 => "ingress_vrfid",
            235 => "egress_vrfid",
            _ => "unknown",
        }
    }

    fn decode_v5(&self, data: &[u8], now: Moment) -> (r: Result<Vec<Event>, CodecError>)
        ensures
            crate::codec::gives_events(r, v5_events(data@, now)),
            r matches Ok(events) ==> are_events(events@),
    {
        if data.len() < 24 {
            return Err(
                CodecError::Codec("netflow v5: packet too short for header".to_owned()),
            );
        }
        let count = be_u16(data, 2) as usize;
        let mut events: Vec<Event> = Vec::new();
        let mut i: usize = 0;
        assert(events_view(events@) =~= Seq::<EventV>::empty());
        while i < count && data.len() - 24 >= 48 && i <= (data.len() - 24 - 48) / 48
            invariant
                i <= count <= 65535,
                are_events(events@),
                count == be_at(data@, 2, 2),
                data@.len() >= 24,
                v5_records(data@, 0, Seq::empty(), now) == v5_records(
                    data@,
                    i as int,
                    events_view(events@),
                    now,
                ),
            decreases count - i,
        {
            let ghost before = events_view(events@);
            let e = v5_record(data, 24 + i * 48, now);
            let ghost w = e@;
            events.push(e);
            assert(events_view(events@) =~= before.push(w));
            i += 1;
        }
        assert(events_view(events@) == v5_records(data@, 0, Seq::empty(), now));
        if events.len() == 0 {
            let mut e = Event::empty(now);
            e.set("netflow_version", Json::Int(5));
            e.set("flow_count", Json::Int(0));
            e.set_time(be_u32(data, 8) as i64, be_u32(data, 12));
            return Ok(one_event(e));
        }
        Ok(events)
    }

    fn parse_v9_template(&mut self, data: &[u8])
        ensures
            final(self).templates_v() == learn(old(self).templates_v(), data@, 0),
            final(self).target_version == old(self).target_version,
    {
        let mut at: usize = 0;
        while at <= data.len() && data.len() - at >= 4
            invariant
                at <= data@.len(),
                self.target_version == old(self).target_version,
                learn(old(self).templates_v(), data@, 0) == learn(
                    self.templates_v(),
                    data@,
                    at as int,
                ),
            decreases data@.len() - at,
        {
            let id = be_u16(data, at);
            let count = be_u16(data, at + 2);
            let ghost start = at + 4;
            let mut next: usize = at + 4;
            let mut n: u16 = count;
            let mut fields: Vec<(u16, u16)> = Vec::new();
            proof {
                lemma_template_fields(data@, start as int, count as int, Seq::empty());
            }
            while n > 0 && data.len() - next >= 4
                invariant
                    start <= next <= data@.len(),
                    template_fields(data@, start as int, count as int, Seq::empty())
                        == template_fields(data@, next as int, n as int, fields@),
                decreases n,
            {
                fields.push((be_u16(data, next), be_u16(data, next + 2)));
                next += 4;
                n -= 1;
            }
            let ghost before = self.templates_v();
            let ghost fs = fields@;
            self.templates.insert(id, fields);
            assert(self.templates_v() =~= before.insert(id, fs));
            at = next;
        }
    }

    fn parse_v9_data(&self, id: u16, data: &[u8], event: &mut Event)
        ensures
            final(event)@ == (if self.templates_v().dom().contains(id) {
                with_record(old(event)@, self.templates_v()[id], 0, data@, 0)
            } else {
                old(event)@
            }),
            is_event(old(event)@) ==> is_event(final(event)@),
    {
        let fields = match self.templates.get(&id) {
            Some(f) => f,
            None => return,
        };
        let ghost fs = fields@;
        assert(self.templates_v()[id] == fs);
        let mut at: usize = 0;
        let mut i: usize = 0;
        while i < fields.len()
            invariant
                i <= fields@.len(),
                at <= data@.len(),
                is_event(old(event)@) ==> is_event(event@),
                fs == fields@,
                self.templates_v().dom().contains(id) && self.templates_v()[id] == fs,
                with_record(old(event)@, fs, 0, data@, 0) == with_record(
                    event@,
                    fs,
                    i as int,
                    data@,
                    at as int,
                ),
            decreases fields@.len() - i,
        {
            let (kind, len) = fields[i];
            let n = len as usize;
            if n > data.len() - at {
                assert(with_record(event@, fs, i as int, data@, at as int) == event@);
                return;
            }
            let p = sub_slice(data, at, at + n);
            let value = read_field(kind, p);
            let name = Self::field_name(kind);
            if same(name, "unknown") {
                event.set(&join2("field_", &u64_text(kind as u64)), value);
            } else {
                event.set(name, value);
            }
            at += n;
            i += 1;
        }
    }

    fn decode_sets(&mut self, data: &[u8], from: usize, template_id: u16, event: Event) -> (r: Event)
        requires
            from <= data@.len(),
        ensures
            (r@, final(self).templates_v()) == with_sets(
                event@,
                old(self).templates_v(),
                data@,
                from as int,
                template_id as int,
            ),
            final(self).target_version == old(self).target_version,
            is_event(event@) ==> is_event(r@),
    {
        let mut e = event;
        let mut at: usize = from;
        while at <= data.len() && data.len() - at >= 4
            invariant
                from <= at <= data@.len(),
                is_event(event@) ==> is_event(e@),
                self.target_version == old(self).target_version,
                with_sets(
                    event@,
                    old(self).templates_v(),
                    data@,
                    from as int,
                    template_id as int,
                ) == with_sets(
                    e@,
                    self.templates_v(),
                    data@,
                    at as int,
                    template_id as int,
                ),
            decreases data@.len() - at,
        {
            let id = be_u16(data, at);
            let n = be_u16(data, at + 2) as usize;
            if n < 4 || n > data.len() - at {
                return e;
            }
            let body = sub_slice(data, at + 4, at + n);
            if id == template_id {
                self.parse_v9_template(body);
            } else if id > 255 {
                self.parse_v9_data(id, body, &mut e);
            }
            at += n;
        }
        e
    }

    fn decode_v9(&mut self, data: &[u8], now: Moment) -> (r: Event)
        requires
            data@.len() >= 20,
        ensures
            (r@, final(self).templates_v()) == with_sets(
                v9_header(data@, now),
                old(self).templates_v(),
                data@,
                20,
                0,
            ),
            final(self).target_version == old(self).target_version,
            is_event(r@),
    {
        let mut e = Event::empty(now);
        e.set("netflow_version", Json::Int(9));
        set_number(&mut e, "flow_count", data, 2, 2);
        set_number(&mut e, "sys_uptime_ms", data, 4, 4);
        set_number(&mut e, "unix_secs", data, 8, 4);
        set_number(&mut e, "flow_sequence", data, 12, 4);
        set_number(&mut e, "source_id", data, 16, 4);
        e.set_time(be_u32(data, 8) as i64, 0);
        self.decode_sets(data, 20, 0, e)
    }

    fn decode_ipfix(&mut self, data: &[u8], now: Moment) -> (r: Event)
        requires
            data@.len() >= 16,
        ensures
            (r@, final(self).templates_v()) == with_sets(
                ipfix_header(data@, now),
                old(self).templates_v(),
                data@,
                16,
                2,
            ),
            final(self).target_version == old(self).target_version,
            is_event(r@),
    {
        let mut e = Event::empty(now);
        e.set("netflow_version", Json::Int(10));
        set_number(&mut e, "export_time", data, 4, 4);
        set_number(&mut e, "flow_sequence", data, 8, 4);
        set_number(&mut e, "observation_domain", data, 12, 4);
        e.set_time(be_u32(data, 4) as i64, 0);
        self.decode_sets(data, 16, 2, e)
    }
}

fn read_field(kind: u16, p: &[u8]) -> (r: Json)
    ensures
        r.view() == field_value(kind, p@),
{
    let n = p.len();
    if n == 4 && (kind == 8 || kind == 12 || kind == 15) {
        ipv4(p, 0)
    } else if n == 1 || n == 2 || n == 4 || n == 8 {
        Json::Int(be_u64(p, 0, n) as i64)
    } else if n == 16 {
        ipv6(p)
    } else {
        Json::Str(encode(p))
    }
}

fn v5_record(d: &[u8], r: usize, now: Moment) -> (e: Event)
    requires
        d@.len() >= 24,
        r + 48 <= d.len(),
    ensures
        e@ == v5_event(d@, r as int, now),
        is_event(e@),
{
    let mut e = Event::empty(now);
    e.set("netflow_version", Json::Int(5));
    set_number(&mut e, "flow_count", d, 2, 2);
    set_number(&mut e, "sys_uptime_ms", d, 4, 4);
    set_number(&mut e, "unix_secs", d, 8, 4);
    set_number(&mut e, "unix_nsecs", d, 12, 4);
    set_number(&mut e, "flow_sequence", d, 16, 4);
    set_number(&mut e, "engine_type", d, 20, 1);
    set_number(&mut e, "engine_id", d, 21, 1);
    e.set_time(be_u32(d, 8) as i64, be_u32(d, 12));
    e.set("ipv4_src_addr", ipv4(d, r));
    e.set("ipv4_dst_addr", ipv4(d, r + 4));
    e.set("ipv4_next_hop", ipv4(d, r + 8));
    set_number(&mut e, "input_snmp", d, r + 12, 2);
    set_number(&mut e, "output_snmp", d, r + 14, 2);
    set_number(&mut e, "in_pkts", d, r + 16, 4);
    set_number(&mut e, "in_bytes", d, r + 20, 4);
    set_number(&mut e, "l4_src_port", d, r + 32, 2);
    set_number(&mut e, "l4_dst_port", d, r + 34, 2);
    set_number(&mut e, "protocol", d, r + 38, 1);
    set_number(&mut e, "tcp_flags", d, r + 37, 1);
    e
}

impl Default for NetflowCodec {
    fn default() -> (r: Self)
        ensures
            r.templates_v() == Map::<u16, Seq<(u16, u16)>>::empty(),
            r.target_version == 5,
    {
        let c = Self { templates: HashMap::new(), target_version: 5 };
        assert(c.templates_v() =~= Map::<u16, Seq<(u16, u16)>>::empty());
        c
    }
}

impl Codec for NetflowCodec {
    open spec fn name_v(&self) -> Seq<char> {
        "netflow"@
    }

    open spec fn decoded(&self, data: Seq<u8>, now: Moment, t: AnswersV) -> DecodedV {
        packet_events(self.templates_v(), data, now)
    }

    open spec fn encoded(&self, e: EventV, t: AnswersV) -> EncodedV {
        json_bytes(e, t, false)
    }

    open spec fn learned(&self) -> TemplatesV {
        self.templates_v()
    }

    open spec fn learned_after(&self, data: Seq<u8>) -> TemplatesV {
        packet_templates(self.templates_v(), data)
    }

    open spec fn stateful(&self) -> bool {
        false
    }

    fn name(&self) -> (r: &'static str) {
        "netflow"
    }

    fn decode(&mut self, data: &[u8], now: Moment, answers: &Answers) -> (r: Result<
        Vec<Event>,
        CodecError,
    >)
        ensures
            final(self).target_version == old(self).target_version,
    {
        if data.len() < 4 {
            return Err(CodecError::Codec("netflow: packet too short".to_owned()));
        }
        let ghost any = blank(Moment { secs: 0, nanos: 0 });
        let version = be_u16(data, 0);
        match version {
            5 => self.decode_v5(data, now),
            9 => {
                if data.len() < 20 {
                    return Err(
                        CodecError::Codec("netflow v9: packet too short for header".to_owned()),
                    );
                }
                proof {
                    sets_teach_the_same(
                        v9_header(data@, now),
                        any,
                        self.templates_v(),
                        data@,
                        20,
                        0,
                    );
                }
                Ok(one_event(self.decode_v9(data, now)))
            },
            10 => {
                if data.len() < 16 {
                    return Err(CodecError::Codec("IPFIX: packet too short for header".to_owned()));
                }
                proof {
                    sets_teach_the_same(
                        ipfix_header(data@, now),
                        any,
                        self.templates_v(),
                        data@,
                        16,
                        2,
                    );
                }
                Ok(one_event(self.decode_ipfix(data, now)))
            },
            _ => Err(
                CodecError::Codec(join2("unsupported netflow version: ", &u64_text(version as u64))),
            ),
        }
    }

    fn encode(&self, event: &Event, answers: &Answers) -> (r: Result<Vec<u8>, CodecError>) {
        match event.to_json_string(answers) {
            Ok(s) => Ok(text_bytes(&s)),
            Err(q) => Err(CodecError::Ask(q)),
        }
    }

    fn is_stateful(&self) -> (r: bool) {
        false
    }
}

} // verus!
