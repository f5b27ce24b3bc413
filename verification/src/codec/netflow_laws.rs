//! What the NetFlow codec reads, stated over packets that are written out.
use crate::codec::layout::{
    be_bytes, lemma_be_bytes, lemma_stands_within, number_is_read_back, stands_at,
};
use crate::codec::netflow::{ipv4_text, v5_event, v5_records, NetflowCodec};
use crate::codec::netflow::{
    field_key, field_value, ipfix_header, is_ipv4_type, learn, template_fields, v9_header,
    with_record, with_sets,
};
use crate::codec::TemplatesV;
use crate::event::{blank, with_field};
use crate::codec::wire::be_at;
use crate::codec::wire::lemma_pow256;
use crate::codec::Codec;
use crate::double::AnswersV;
use crate::event::{field_of, is_plain_name, lemma_fields_stay, EventV};
use crate::json::JsonV;
use crate::moment::{moment_exists, Moment};
use crate::text::nat_text;
use vstd::prelude::*;

verus! {

/// An IPv4 address.
pub struct Ipv4 {
    pub a: u8,
    pub b: u8,
    pub c: u8,
    pub d: u8,
}

impl Ipv4 {
    /// The address in a packet.
    pub open spec fn bytes(self) -> Seq<u8> {
        Seq::empty().push(self.a).push(self.b).push(self.c).push(self.d)
    }

    /// The address as people write it.
    pub open spec fn text(self) -> Seq<char> {
        nat_text(self.a as nat) + "."@ + nat_text(self.b as nat) + "."@ + nat_text(self.c as nat)
            + "."@ + nat_text(self.d as nat)
    }
}

/// What the header of a version 5 packet says, in the order of its bytes.
pub struct V5Header {
    pub count: u16,
    pub uptime: u32,
    pub secs: u32,
    pub nanos: u32,
    pub sequence: u32,
    pub engine_type: u8,
    pub engine_id: u8,
    pub sampling: u16,
}

/// What a flow of a version 5 packet says, in the order of its bytes.
pub struct V5Flow {
    pub source: Ipv4,
    pub destination: Ipv4,
    pub next_hop: Ipv4,
    pub input: u16,
    pub output: u16,
    pub packets: u32,
    pub octets: u32,
    pub first: u32,
    pub last: u32,
    pub source_port: u16,
    pub destination_port: u16,
    pub pad: u8,
    pub tcp_flags: u8,
    pub protocol: u8,
    pub tos: u8,
    pub source_as: u16,
    pub destination_as: u16,
    pub source_mask: u8,
    pub destination_mask: u8,
    pub padding: u16,
}

/// The bytes of a header.
pub open spec fn v5_header_bytes(h: V5Header) -> Seq<u8> {
    be_bytes(5, 2)
        + be_bytes(h.count as nat, 2)
        + be_bytes(h.uptime as nat, 4)
        + be_bytes(h.secs as nat, 4)
        + be_bytes(h.nanos as nat, 4)
        + be_bytes(h.sequence as nat, 4)
        + be_bytes(h.engine_type as nat, 1)
        + be_bytes(h.engine_id as nat, 1)
        + be_bytes(h.sampling as nat, 2)
}

/// The bytes of a flow.
pub open spec fn v5_flow_bytes(f: V5Flow) -> Seq<u8> {
    f.source.bytes()
        + f.destination.bytes()
        + f.next_hop.bytes()
        + be_bytes(f.input as nat, 2)
        + be_bytes(f.output as nat, 2)
        + be_bytes(f.packets as nat, 4)
        + be_bytes(f.octets as nat, 4)
        + be_bytes(f.first as nat, 4)
        + be_bytes(f.last as nat, 4)
        + be_bytes(f.source_port as nat, 2)
        + be_bytes(f.destination_port as nat, 2)
        + be_bytes(f.pad as nat, 1)
        + be_bytes(f.tcp_flags as nat, 1)
        + be_bytes(f.protocol as nat, 1)
        + be_bytes(f.tos as nat, 1)
        + be_bytes(f.source_as as nat, 2)
        + be_bytes(f.destination_as as nat, 2)
        + be_bytes(f.source_mask as nat, 1)
        + be_bytes(f.destination_mask as nat, 1)
        + be_bytes(f.padding as nat, 2)
}

/// The bytes of flows, one behind the other.
pub open spec fn v5_flows_bytes(flows: Seq<V5Flow>) -> Seq<u8>
    decreases flows.len(),
{
    if flows.len() == 0 {
        Seq::empty()
    } else {
        v5_flows_bytes(flows.drop_last()) + v5_flow_bytes(flows.last())
    }
}

/// A version 5 packet.
pub open spec fn v5_packet(h: V5Header, flows: Seq<V5Flow>) -> Seq<u8> {
    v5_header_bytes(h) + v5_flows_bytes(flows)
}

/// Whether a field holds a number.
pub open spec fn holds_number(e: EventV, field: Seq<char>, n: int) -> bool {
    field_of(e, field) matches Some(JsonV::Int(x)) && x == n
}

/// Whether a field holds a text.
pub open spec fn holds_text(e: EventV, field: Seq<char>, s: Seq<char>) -> bool {
    field_of(e, field) == Some(JsonV::Str(s))
}

/// Whether an event says what a flow and the header before it say.
pub open spec fn tells_flow(e: EventV, h: V5Header, f: V5Flow, now: Moment) -> bool {
    &&& holds_number(e, "netflow_version"@, 5)
    &&& holds_number(e, "flow_count"@, h.count as int)
    &&& holds_number(e, "sys_uptime_ms"@, h.uptime as int)
    &&& holds_number(e, "unix_secs"@, h.secs as int)
    &&& holds_number(e, "unix_nsecs"@, h.nanos as int)
    &&& holds_number(e, "flow_sequence"@, h.sequence as int)
    &&& holds_number(e, "engine_type"@, h.engine_type as int)
    &&& holds_number(e, "engine_id"@, h.engine_id as int)
    &&& holds_text(e, "ipv4_src_addr"@, f.source.text())
    &&& holds_text(e, "ipv4_dst_addr"@, f.destination.text())
    &&& holds_text(e, "ipv4_next_hop"@, f.next_hop.text())
    &&& holds_number(e, "input_snmp"@, f.input as int)
    &&& holds_number(e, "output_snmp"@, f.output as int)
    &&& holds_number(e, "in_pkts"@, f.packets as int)
    &&& holds_number(e, "in_bytes"@, f.octets as int)
    &&& holds_number(e, "l4_src_port"@, f.source_port as int)
    &&& holds_number(e, "l4_dst_port"@, f.destination_port as int)
    &&& holds_number(e, "tcp_flags"@, f.tcp_flags as int)
    &&& holds_number(e, "protocol"@, f.protocol as int)
    &&& moment_exists(h.secs as i64, h.nanos) ==> e.timestamp.secs == h.secs && e.timestamp.nanos
        == h.nanos
}

proof fn lemma_v5_names()
    ensures
        is_plain_name("netflow_version"@),
        "netflow_version"@.len() == 15,
        is_plain_name("flow_count"@),
        "flow_count"@.len() == 10,
        is_plain_name("sys_uptime_ms"@),
        "sys_uptime_ms"@.len() == 13,
        is_plain_name("unix_secs"@),
        "unix_secs"@.len() == 9,
        is_plain_name("unix_nsecs"@),
        "unix_nsecs"@.len() == 10,
        is_plain_name("flow_sequence"@),
        "flow_sequence"@.len() == 13,
        is_plain_name("engine_type"@),
        "engine_type"@.len() == 11,
        is_plain_name("engine_id"@),
        "engine_id"@.len() == 9,
        is_plain_name("ipv4_src_addr"@),
        "ipv4_src_addr"@.len() == 13,
        is_plain_name("ipv4_dst_addr"@),
        "ipv4_dst_addr"@.len() == 13,
        is_plain_name("ipv4_next_hop"@),
        "ipv4_next_hop"@.len() == 13,
        is_plain_name("input_snmp"@),
        "input_snmp"@.len() == 10,
        is_plain_name("output_snmp"@),
        "output_snmp"@.len() == 11,
        is_plain_name("in_pkts"@),
        "in_pkts"@.len() == 7,
        is_plain_name("in_bytes"@),
        "in_bytes"@.len() == 8,
        is_plain_name("l4_src_port"@),
        "l4_src_port"@.len() == 11,
        is_plain_name("l4_dst_port"@),
        "l4_dst_port"@.len() == 11,
        is_plain_name("tcp_flags"@),
        "tcp_flags"@.len() == 9,
        is_plain_name("protocol"@),
        "protocol"@.len() == 8,
        "unix_nsecs"@ != "flow_count"@,
        "flow_sequence"@ != "sys_uptime_ms"@,
        "engine_id"@ != "unix_secs"@,
        "ipv4_src_addr"@ != "sys_uptime_ms"@,
        "ipv4_src_addr"@ != "flow_sequence"@,
        "ipv4_dst_addr"@ != "sys_uptime_ms"@,
        "ipv4_dst_addr"@ != "flow_sequence"@,
        "ipv4_dst_addr"@ != "ipv4_src_addr"@,
        "ipv4_next_hop"@ != "sys_uptime_ms"@,
        "ipv4_next_hop"@ != "flow_sequence"@,
        "ipv4_next_hop"@ != "ipv4_src_addr"@,
        "ipv4_next_hop"@ != "ipv4_dst_addr"@,
        "input_snmp"@ != "flow_count"@,
        "input_snmp"@ != "unix_nsecs"@,
        "output_snmp"@ != "engine_type"@,
        "l4_src_port"@ != "engine_type"@,
        "l4_src_port"@ != "output_snmp"@,
        "l4_dst_port"@ != "engine_type"@,
        "l4_dst_port"@ != "output_snmp"@,
        "l4_dst_port"@ != "l4_src_port"@,
        "tcp_flags"@ != "unix_secs"@,
        "tcp_flags"@ != "engine_id"@,
        "protocol"@ != "in_bytes"@,
{
    reveal_strlit("netflow_version");
    reveal_strlit("flow_count");
    reveal_strlit("sys_uptime_ms");
    reveal_strlit("unix_secs");
    reveal_strlit("unix_nsecs");
    reveal_strlit("flow_sequence");
    reveal_strlit("engine_type");
    reveal_strlit("engine_id");
    reveal_strlit("ipv4_src_addr");
    reveal_strlit("ipv4_dst_addr");
    reveal_strlit("ipv4_next_hop");
    reveal_strlit("input_snmp");
    reveal_strlit("output_snmp");
    reveal_strlit("in_pkts");
    reveal_strlit("in_bytes");
    reveal_strlit("l4_src_port");
    reveal_strlit("l4_dst_port");
    reveal_strlit("tcp_flags");
    reveal_strlit("protocol");
    assert("unix_nsecs"@[0] != "flow_count"@[0]);
    assert("flow_sequence"@[0] != "sys_uptime_ms"@[0]);
    assert("engine_id"@[0] != "unix_secs"@[0]);
    assert("ipv4_src_addr"@[0] != "sys_uptime_ms"@[0]);
    assert("ipv4_src_addr"@[0] != "flow_sequence"@[0]);
    assert("ipv4_dst_addr"@[0] != "sys_uptime_ms"@[0]);
    assert("ipv4_dst_addr"@[0] != "flow_sequence"@[0]);
    assert("ipv4_dst_addr"@[5] != "ipv4_src_addr"@[5]);
    assert("ipv4_next_hop"@[0] != "sys_uptime_ms"@[0]);
    assert("ipv4_next_hop"@[0] != "flow_sequence"@[0]);
    assert("ipv4_next_hop"@[5] != "ipv4_src_addr"@[5]);
    assert("ipv4_next_hop"@[5] != "ipv4_dst_addr"@[5]);
    assert("input_snmp"@[0] != "flow_count"@[0]);
    assert("input_snmp"@[0] != "unix_nsecs"@[0]);
    assert("output_snmp"@[0] != "engine_type"@[0]);
    assert("l4_src_port"@[0] != "engine_type"@[0]);
    assert("l4_src_port"@[0] != "output_snmp"@[0]);
    assert("l4_dst_port"@[0] != "engine_type"@[0]);
    assert("l4_dst_port"@[0] != "output_snmp"@[0]);
    assert("l4_dst_port"@[3] != "l4_src_port"@[3]);
    assert("tcp_flags"@[0] != "unix_secs"@[0]);
    assert("tcp_flags"@[0] != "engine_id"@[0]);
    assert("protocol"@[0] != "in_bytes"@[0]);
}

#[verifier::spinoff_prover]
proof fn lemma_v5_header(h: V5Header)
    ensures
        v5_header_bytes(h).len() == 24,
        stands_at(v5_header_bytes(h), 0, be_bytes(5, 2)),
        stands_at(v5_header_bytes(h), 2, be_bytes(h.count as nat, 2)),
        stands_at(v5_header_bytes(h), 4, be_bytes(h.uptime as nat, 4)),
        stands_at(v5_header_bytes(h), 8, be_bytes(h.secs as nat, 4)),
        stands_at(v5_header_bytes(h), 12, be_bytes(h.nanos as nat, 4)),
        stands_at(v5_header_bytes(h), 16, be_bytes(h.sequence as nat, 4)),
        stands_at(v5_header_bytes(h), 20, be_bytes(h.engine_type as nat, 1)),
        stands_at(v5_header_bytes(h), 21, be_bytes(h.engine_id as nat, 1)),
        stands_at(v5_header_bytes(h), 22, be_bytes(h.sampling as nat, 2)),
{
    lemma_be_bytes(5, 2);
    lemma_be_bytes(h.count as nat, 2);
    lemma_be_bytes(h.uptime as nat, 4);
    lemma_be_bytes(h.secs as nat, 4);
    lemma_be_bytes(h.nanos as nat, 4);
    lemma_be_bytes(h.sequence as nat, 4);
    lemma_be_bytes(h.engine_type as nat, 1);
    lemma_be_bytes(h.engine_id as nat, 1);
    lemma_be_bytes(h.sampling as nat, 2);
    let s = v5_header_bytes(h);
    assert(s.subrange(0, 2) =~= be_bytes(5, 2));
    assert(s.subrange(2, 4) =~= be_bytes(h.count as nat, 2));
    assert(s.subrange(4, 8) =~= be_bytes(h.uptime as nat, 4));
    assert(s.subrange(8, 12) =~= be_bytes(h.secs as nat, 4));
    assert(s.subrange(12, 16) =~= be_bytes(h.nanos as nat, 4));
    assert(s.subrange(16, 20) =~= be_bytes(h.sequence as nat, 4));
    assert(s.subrange(20, 21) =~= be_bytes(h.engine_type as nat, 1));
    assert(s.subrange(21, 22) =~= be_bytes(h.engine_id as nat, 1));
    assert(s.subrange(22, 24) =~= be_bytes(h.sampling as nat, 2));
}

#[verifier::spinoff_prover]
proof fn lemma_v5_flow(f: V5Flow)
    ensures
        v5_flow_bytes(f).len() == 48,
        stands_at(v5_flow_bytes(f), 0, f.source.bytes()),
        stands_at(v5_flow_bytes(f), 4, f.destination.bytes()),
        stands_at(v5_flow_bytes(f), 8, f.next_hop.bytes()),
        stands_at(v5_flow_bytes(f), 12, be_bytes(f.input as nat, 2)),
        stands_at(v5_flow_bytes(f), 14, be_bytes(f.output as nat, 2)),
        stands_at(v5_flow_bytes(f), 16, be_bytes(f.packets as nat, 4)),
        stands_at(v5_flow_bytes(f), 20, be_bytes(f.octets as nat, 4)),
        stands_at(v5_flow_bytes(f), 32, be_bytes(f.source_port as nat, 2)),
        stands_at(v5_flow_bytes(f), 34, be_bytes(f.destination_port as nat, 2)),
        stands_at(v5_flow_bytes(f), 37, be_bytes(f.tcp_flags as nat, 1)),
        stands_at(v5_flow_bytes(f), 38, be_bytes(f.protocol as nat, 1)),
{
    lemma_be_bytes(f.input as nat, 2);
    lemma_be_bytes(f.output as nat, 2);
    lemma_be_bytes(f.packets as nat, 4);
    lemma_be_bytes(f.octets as nat, 4);
    lemma_be_bytes(f.first as nat, 4);
    lemma_be_bytes(f.last as nat, 4);
    lemma_be_bytes(f.source_port as nat, 2);
    lemma_be_bytes(f.destination_port as nat, 2);
    lemma_be_bytes(f.pad as nat, 1);
    lemma_be_bytes(f.tcp_flags as nat, 1);
    lemma_be_bytes(f.protocol as nat, 1);
    lemma_be_bytes(f.tos as nat, 1);
    lemma_be_bytes(f.source_as as nat, 2);
    lemma_be_bytes(f.destination_as as nat, 2);
    lemma_be_bytes(f.source_mask as nat, 1);
    lemma_be_bytes(f.destination_mask as nat, 1);
    lemma_be_bytes(f.padding as nat, 2);
    let s = v5_flow_bytes(f);
    assert(s.subrange(0, 4) =~= f.source.bytes());
    assert(s.subrange(4, 8) =~= f.destination.bytes());
    assert(s.subrange(8, 12) =~= f.next_hop.bytes());
    assert(s.subrange(12, 14) =~= be_bytes(f.input as nat, 2));
    assert(s.subrange(14, 16) =~= be_bytes(f.output as nat, 2));
    assert(s.subrange(16, 20) =~= be_bytes(f.packets as nat, 4));
    assert(s.subrange(20, 24) =~= be_bytes(f.octets as nat, 4));
    assert(s.subrange(32, 34) =~= be_bytes(f.source_port as nat, 2));
    assert(s.subrange(34, 36) =~= be_bytes(f.destination_port as nat, 2));
    assert(s.subrange(37, 38) =~= be_bytes(f.tcp_flags as nat, 1));
    assert(s.subrange(38, 39) =~= be_bytes(f.protocol as nat, 1));
}

proof fn lemma_v5_flows(flows: Seq<V5Flow>, i: int)
    requires
        0 <= i < flows.len(),
    ensures
        v5_flows_bytes(flows).len() == 48 * flows.len(),
        stands_at(v5_flows_bytes(flows), 48 * i, v5_flow_bytes(flows[i])),
    decreases flows.len(),
{
    let front = flows.drop_last();
    let s = v5_flows_bytes(front);
    lemma_v5_flow(flows.last());
    if front.len() == 0 {
        assert(s.len() == 0);
    } else {
        lemma_v5_flows(front, if i < front.len() {
            i
        } else {
            0
        });
    }
    assert(s.len() == 48 * front.len());
    let d = v5_flows_bytes(flows);
    lemma_v5_flow(flows[i]);
    if i < front.len() {
        assert(d.subrange(48 * i, 48 * i + 48) =~= s.subrange(48 * i, 48 * i + 48));
        assert(front[i] == flows[i]);
    } else {
        assert(d.subrange(48 * i, 48 * i + 48) =~= v5_flow_bytes(flows.last()));
    }
}

#[verifier::spinoff_prover]
proof fn lemma_v5_event(d: Seq<u8>, h: V5Header, f: V5Flow, r: int, now: Moment)
    requires
        stands_at(d, 0, v5_header_bytes(h)),
        stands_at(d, r, v5_flow_bytes(f)),
    ensures
        tells_flow(v5_event(d, r, now), h, f, now),
{
    lemma_v5_header(h);
    lemma_v5_flow(f);
    lemma_pow256();
    lemma_v5_names();
    lemma_fields_stay();
    lemma_stands_within(d, 0, v5_header_bytes(h), 2, be_bytes(h.count as nat, 2));
    number_is_read_back(d, 2, h.count as nat, 2);
    lemma_stands_within(d, 0, v5_header_bytes(h), 4, be_bytes(h.uptime as nat, 4));
    number_is_read_back(d, 4, h.uptime as nat, 4);
    lemma_stands_within(d, 0, v5_header_bytes(h), 8, be_bytes(h.secs as nat, 4));
    number_is_read_back(d, 8, h.secs as nat, 4);
    lemma_stands_within(d, 0, v5_header_bytes(h), 12, be_bytes(h.nanos as nat, 4));
    number_is_read_back(d, 12, h.nanos as nat, 4);
    lemma_stands_within(d, 0, v5_header_bytes(h), 16, be_bytes(h.sequence as nat, 4));
    number_is_read_back(d, 16, h.sequence as nat, 4);
    lemma_stands_within(d, 0, v5_header_bytes(h), 20, be_bytes(h.engine_type as nat, 1));
    number_is_read_back(d, 20, h.engine_type as nat, 1);
    lemma_stands_within(d, 0, v5_header_bytes(h), 21, be_bytes(h.engine_id as nat, 1));
    number_is_read_back(d, 21, h.engine_id as nat, 1);
    lemma_stands_within(d, r, v5_flow_bytes(f), 0, f.source.bytes());
    lemma_ipv4(d, r + 0, f.source);
    lemma_stands_within(d, r, v5_flow_bytes(f), 4, f.destination.bytes());
    lemma_ipv4(d, r + 4, f.destination);
    lemma_stands_within(d, r, v5_flow_bytes(f), 8, f.next_hop.bytes());
    lemma_ipv4(d, r + 8, f.next_hop);
    lemma_stands_within(d, r, v5_flow_bytes(f), 12, be_bytes(f.input as nat, 2));
    number_is_read_back(d, r + 12, f.input as nat, 2);
    lemma_stands_within(d, r, v5_flow_bytes(f), 14, be_bytes(f.output as nat, 2));
    number_is_read_back(d, r + 14, f.output as nat, 2);
    lemma_stands_within(d, r, v5_flow_bytes(f), 16, be_bytes(f.packets as nat, 4));
    number_is_read_back(d, r + 16, f.packets as nat, 4);
    lemma_stands_within(d, r, v5_flow_bytes(f), 20, be_bytes(f.octets as nat, 4));
    number_is_read_back(d, r + 20, f.octets as nat, 4);
    lemma_stands_within(d, r, v5_flow_bytes(f), 32, be_bytes(f.source_port as nat, 2));
    number_is_read_back(d, r + 32, f.source_port as nat, 2);
    lemma_stands_within(d, r, v5_flow_bytes(f), 34, be_bytes(f.destination_port as nat, 2));
    number_is_read_back(d, r + 34, f.destination_port as nat, 2);
    lemma_stands_within(d, r, v5_flow_bytes(f), 37, be_bytes(f.tcp_flags as nat, 1));
    number_is_read_back(d, r + 37, f.tcp_flags as nat, 1);
    lemma_stands_within(d, r, v5_flow_bytes(f), 38, be_bytes(f.protocol as nat, 1));
    number_is_read_back(d, r + 38, f.protocol as nat, 1);
}

proof fn lemma_ipv4(d: Seq<u8>, at: int, ip: Ipv4)
    requires
        stands_at(d, at, ip.bytes()),
    ensures
        ipv4_text(d, at) == ip.text(),
{
    let s = d.subrange(at, at + 4);
    assert(s[0] == d[at] && s[1] == d[at + 1] && s[2] == d[at + 2] && s[3] == d[at + 3]);
}

proof fn lemma_v5_records(d: Seq<u8>, h: V5Header, flows: Seq<V5Flow>, i: int, now: Moment)
    requires
        d == v5_packet(h, flows),
        flows.len() == h.count,
        0 <= i <= flows.len(),
    ensures
        ({
            let all = v5_records(
                d,
                i,
                Seq::new(i as nat, |k: int| v5_event(d, 24 + k * 48, now)),
                now,
            );
            all.len() == flows.len() && forall|k: int|
                0 <= k < flows.len() ==> #[trigger] all[k] == v5_event(d, 24 + k * 48, now)
        }),
    decreases flows.len() - i,
{
    lemma_v5_header(h);
    lemma_pow256();
    assert(stands_at(d, 0, v5_header_bytes(h))) by {
        assert(d.subrange(0, 24) =~= v5_header_bytes(h));
    }
    lemma_stands_within(d, 0, v5_header_bytes(h), 2, be_bytes(h.count as nat, 2));
    number_is_read_back(d, 2, h.count as nat, 2);
    let acc = Seq::new(i as nat, |k: int| v5_event(d, 24 + k * 48, now));
    if i < flows.len() {
        lemma_v5_flows(flows, i);
        assert(acc.push(v5_event(d, 24 + i * 48, now)) =~= Seq::new(
            (i + 1) as nat,
            |k: int| v5_event(d, 24 + k * 48, now),
        ));
        lemma_v5_records(d, h, flows, i + 1, now);
    }
}

/// A version 5 packet that is written out from its header and its flows is
/// decoded to one event for each flow, which says what the flow and the header
/// say.
pub proof fn v5_packets_tell_their_flows(
    c: NetflowCodec,
    t: AnswersV,
    h: V5Header,
    flows: Seq<V5Flow>,
    now: Moment,
)
    requires
        flows.len() > 0,
        flows.len() == h.count,
    ensures
        c.decoded(v5_packet(h, flows), now, t) matches Ok(events) && events.len() == flows.len()
            && forall|i: int|
            0 <= i < flows.len() ==> tells_flow(#[trigger] events[i], h, flows[i], now),
{
    let d = v5_packet(h, flows);
    lemma_v5_header(h);
    lemma_v5_flows(flows, 0);
    lemma_pow256();
    assert(d.subrange(0, 24) =~= v5_header_bytes(h));
    lemma_stands_within(d, 0, v5_header_bytes(h), 0, be_bytes(5, 2));
    number_is_read_back(d, 0, 5, 2);
    assert(Seq::<EventV>::empty() =~= Seq::new(0, |k: int| v5_event(d, 24 + k * 48, now)));
    lemma_v5_records(d, h, flows, 0, now);
    let events = v5_records(d, 0, Seq::empty(), now);
    assert forall|i: int| 0 <= i < flows.len() implies tells_flow(
        #[trigger] events[i],
        h,
        flows[i],
        now,
    ) by {
        lemma_v5_flows(flows, i);
        let r = 24 + 48 * i;
        assert(d.subrange(r, r + 48) =~= v5_flows_bytes(flows).subrange(48 * i, 48 * i + 48));
        lemma_v5_flow(flows[i]);
        lemma_v5_event(d, h, flows[i], r, now);
    }
}

/// A set: its number and its length, and what it holds.
pub open spec fn set_bytes(id: u16, body: Seq<u8>) -> Seq<u8> {
    be_bytes(id as nat, 2) + be_bytes(4 + body.len(), 2) + body
}

/// The fields of a template, types and lengths.
pub open spec fn field_bytes(fields: Seq<(u16, u16)>) -> Seq<u8>
    decreases fields.len(),
{
    if fields.len() == 0 {
        Seq::empty()
    } else {
        be_bytes(fields[0].0 as nat, 2) + be_bytes(fields[0].1 as nat, 2) + field_bytes(
            fields.skip(1),
        )
    }
}

/// A template: its number, how many fields it has, and these.
pub open spec fn template_bytes(id: u16, fields: Seq<(u16, u16)>) -> Seq<u8> {
    be_bytes(id as nat, 2) + be_bytes(fields.len(), 2) + field_bytes(fields)
}

proof fn lemma_four(a: nat, b: nat, rest: Seq<u8>)
    requires
        a < 65536,
        b < 65536,
    ensures
        ({
            let d = be_bytes(a, 2) + be_bytes(b, 2) + rest;
            &&& d.len() == 4 + rest.len()
            &&& be_at(d, 0, 2) == a
            &&& be_at(d, 2, 2) == b
            &&& d.skip(4) == rest
        }),
{
    let d = be_bytes(a, 2) + be_bytes(b, 2) + rest;
    lemma_be_bytes(a, 2);
    lemma_be_bytes(b, 2);
    lemma_pow256();
    assert(d.subrange(0, 2) =~= be_bytes(a, 2));
    assert(d.subrange(2, 4) =~= be_bytes(b, 2));
    number_is_read_back(d, 0, a, 2);
    number_is_read_back(d, 2, b, 2);
    assert(d.skip(4) =~= rest);
}

proof fn lemma_at_skip(d: Seq<u8>, at: int, off: int, k: int)
    requires
        0 <= at <= d.len(),
        0 <= off,
        0 <= k,
        at + off + k <= d.len(),
    ensures
        be_at(d, at + off, k) == be_at(d.skip(at), off, k),
{
    assert(d.subrange(at + off, at + off + k) =~= d.skip(at).subrange(off, off + k));
}

proof fn lemma_template_read(d: Seq<u8>, at: int, fields: Seq<(u16, u16)>, acc: Seq<(u16, u16)>)
    requires
        0 <= at <= d.len(),
        d.skip(at) == field_bytes(fields),
    ensures
        template_fields(d, at, fields.len() as int, acc) == (acc + fields, d.len() as int),
    decreases fields.len(),
{
    if fields.len() > 0 {
        let rest = fields.skip(1);
        lemma_four(fields[0].0 as nat, fields[0].1 as nat, field_bytes(rest));
        lemma_at_skip(d, at, 0, 2);
        lemma_at_skip(d, at, 2, 2);
        assert(d.skip(at + 4) =~= d.skip(at).skip(4));
        lemma_template_read(d, at + 4, rest, acc.push(fields[0]));
        assert(acc.push(fields[0]) + rest =~= acc + fields);
    } else {
        assert(acc + fields =~= acc);
        assert(d.skip(at).len() == 0);
    }
}

/// A template is learned as it was written.
pub proof fn templates_are_learned(t: TemplatesV, id: u16, fields: Seq<(u16, u16)>)
    requires
        fields.len() < 16000,
    ensures
        learn(t, template_bytes(id, fields), 0) == t.insert(id, fields),
{
    let d = template_bytes(id, fields);
    lemma_four(id as nat, fields.len(), field_bytes(fields));
    lemma_template_read(d, 4, fields, Seq::empty());
    assert(Seq::<(u16, u16)>::empty() + fields =~= fields);
    reveal_with_fuel(learn, 2);
}

/// A set that stands at a position takes effect, and reading goes on behind it.
proof fn lemma_set(
    e: EventV,
    t: TemplatesV,
    d: Seq<u8>,
    at: int,
    template_id: int,
    id: u16,
    body: Seq<u8>,
)
    requires
        stands_at(d, at, set_bytes(id, body)),
        body.len() < 65532,
    ensures
        with_sets(e, t, d, at, template_id) == (if id == template_id {
            with_sets(e, learn(t, body, 0), d, at + 4 + body.len(), template_id)
        } else if id > 255 && t.dom().contains(id) {
            with_sets(
                with_record(e, t[id], 0, body, 0),
                t,
                d,
                at + 4 + body.len(),
                template_id,
            )
        } else {
            with_sets(e, t, d, at + 4 + body.len(), template_id)
        }),
{
    let s = set_bytes(id, body);
    lemma_four(id as nat, 4 + body.len(), body);
    assert(be_at(d, at, 2) == be_at(s, 0, 2)) by {
        assert(d.subrange(at, at + 2) =~= s.subrange(0, 2));
    }
    assert(be_at(d, at + 2, 2) == be_at(s, 2, 2)) by {
        assert(d.subrange(at + 2, at + 4) =~= s.subrange(2, 4));
    }
    assert(d.subrange(at + 4, at + 4 + body.len()) =~= body) by {
        assert(d.subrange(at + 4, at + 4 + body.len()) =~= s.skip(4));
    }
}

/// One field of a record.
proof fn lemma_record_step(e: EventV, fields: Seq<(u16, u16)>, i: int, d: Seq<u8>, at: int, x: Seq<u8>)
    requires
        0 <= i < fields.len(),
        stands_at(d, at, x),
        x.len() == fields[i].1,
    ensures
        with_record(e, fields, i, d, at) == with_record(
            with_field(e, field_key(fields[i].0), field_value(fields[i].0, x)),
            fields,
            i + 1,
            d,
            at + x.len(),
        ),
{
}

/// The template of a flow: addresses, interfaces, counts, ports, flags and
/// protocol.
pub open spec fn flow_template() -> Seq<(u16, u16)> {
    Seq::empty().push((8u16, 4u16)).push((12u16, 4u16)).push((15u16, 4u16)).push((10u16, 2u16)).push((14u16, 2u16)).push((2u16, 4u16)).push((1u16, 4u16)).push((7u16, 2u16)).push((11u16, 2u16)).push((6u16, 1u16)).push((4u16, 1u16))
}

/// The record of a flow by that template.
pub open spec fn flow_record(f: V5Flow) -> Seq<u8> {
    f.source.bytes()
        + f.destination.bytes()
        + f.next_hop.bytes()
        + be_bytes(f.input as nat, 2)
        + be_bytes(f.output as nat, 2)
        + be_bytes(f.packets as nat, 4)
        + be_bytes(f.octets as nat, 4)
        + be_bytes(f.source_port as nat, 2)
        + be_bytes(f.destination_port as nat, 2)
        + be_bytes(f.tcp_flags as nat, 1)
        + be_bytes(f.protocol as nat, 1)
}

/// Whether an event says of a flow what its record holds.
pub open spec fn tells_record(e: EventV, f: V5Flow) -> bool {
    &&& holds_text(e, "ipv4_src_addr"@, f.source.text())
    &&& holds_text(e, "ipv4_dst_addr"@, f.destination.text())
    &&& holds_text(e, "ipv4_next_hop"@, f.next_hop.text())
    &&& holds_number(e, "input_snmp"@, f.input as int)
    &&& holds_number(e, "output_snmp"@, f.output as int)
    &&& holds_number(e, "in_pkts"@, f.packets as int)
    &&& holds_number(e, "in_bytes"@, f.octets as int)
    &&& holds_number(e, "l4_src_port"@, f.source_port as int)
    &&& holds_number(e, "l4_dst_port"@, f.destination_port as int)
    &&& holds_number(e, "tcp_flags"@, f.tcp_flags as int)
    &&& holds_number(e, "protocol"@, f.protocol as int)
}

#[verifier::spinoff_prover]
proof fn lemma_flow_record(f: V5Flow)
    ensures
        flow_record(f).len() == 30,
        stands_at(flow_record(f), 0, f.source.bytes()),
        stands_at(flow_record(f), 4, f.destination.bytes()),
        stands_at(flow_record(f), 8, f.next_hop.bytes()),
        stands_at(flow_record(f), 12, be_bytes(f.input as nat, 2)),
        stands_at(flow_record(f), 14, be_bytes(f.output as nat, 2)),
        stands_at(flow_record(f), 16, be_bytes(f.packets as nat, 4)),
        stands_at(flow_record(f), 20, be_bytes(f.octets as nat, 4)),
        stands_at(flow_record(f), 24, be_bytes(f.source_port as nat, 2)),
        stands_at(flow_record(f), 26, be_bytes(f.destination_port as nat, 2)),
        stands_at(flow_record(f), 28, be_bytes(f.tcp_flags as nat, 1)),
        stands_at(flow_record(f), 29, be_bytes(f.protocol as nat, 1)),
{
    lemma_be_bytes(f.input as nat, 2);
    lemma_be_bytes(f.output as nat, 2);
    lemma_be_bytes(f.packets as nat, 4);
    lemma_be_bytes(f.octets as nat, 4);
    lemma_be_bytes(f.source_port as nat, 2);
    lemma_be_bytes(f.destination_port as nat, 2);
    lemma_be_bytes(f.tcp_flags as nat, 1);
    lemma_be_bytes(f.protocol as nat, 1);
    let s = flow_record(f);
    assert(s.subrange(0, 4) =~= f.source.bytes());
    assert(s.subrange(4, 8) =~= f.destination.bytes());
    assert(s.subrange(8, 12) =~= f.next_hop.bytes());
    assert(s.subrange(12, 14) =~= be_bytes(f.input as nat, 2));
    assert(s.subrange(14, 16) =~= be_bytes(f.output as nat, 2));
    assert(s.subrange(16, 20) =~= be_bytes(f.packets as nat, 4));
    assert(s.subrange(20, 24) =~= be_bytes(f.octets as nat, 4));
    assert(s.subrange(24, 26) =~= be_bytes(f.source_port as nat, 2));
    assert(s.subrange(26, 28) =~= be_bytes(f.destination_port as nat, 2));
    assert(s.subrange(28, 29) =~= be_bytes(f.tcp_flags as nat, 1));
    assert(s.subrange(29, 30) =~= be_bytes(f.protocol as nat, 1));
}

proof fn lemma_record_names()
    ensures
        is_plain_name("ipv4_src_addr"@),
        "ipv4_src_addr"@.len() == 13,
        is_plain_name("ipv4_dst_addr"@),
        "ipv4_dst_addr"@.len() == 13,
        is_plain_name("ipv4_next_hop"@),
        "ipv4_next_hop"@.len() == 13,
        is_plain_name("input_snmp"@),
        "input_snmp"@.len() == 10,
        is_plain_name("output_snmp"@),
        "output_snmp"@.len() == 11,
        is_plain_name("in_pkts"@),
        "in_pkts"@.len() == 7,
        is_plain_name("in_bytes"@),
        "in_bytes"@.len() == 8,
        is_plain_name("l4_src_port"@),
        "l4_src_port"@.len() == 11,
        is_plain_name("l4_dst_port"@),
        "l4_dst_port"@.len() == 11,
        is_plain_name("tcp_flags"@),
        "tcp_flags"@.len() == 9,
        is_plain_name("protocol"@),
        "protocol"@.len() == 8,
        is_plain_name("unknown"@),
        "unknown"@.len() == 7,
        is_plain_name("netflow_version"@),
        "netflow_version"@.len() == 15,
        is_plain_name("flow_count"@),
        "flow_count"@.len() == 10,
        is_plain_name("sys_uptime_ms"@),
        "sys_uptime_ms"@.len() == 13,
        is_plain_name("unix_secs"@),
        "unix_secs"@.len() == 9,
        is_plain_name("flow_sequence"@),
        "flow_sequence"@.len() == 13,
        is_plain_name("source_id"@),
        "source_id"@.len() == 9,
        is_plain_name("export_time"@),
        "export_time"@.len() == 11,
        is_plain_name("observation_domain"@),
        "observation_domain"@.len() == 18,
        "ipv4_dst_addr"@ != "ipv4_src_addr"@,
        "ipv4_next_hop"@ != "ipv4_src_addr"@,
        "ipv4_next_hop"@ != "ipv4_dst_addr"@,
        "l4_src_port"@ != "output_snmp"@,
        "l4_dst_port"@ != "output_snmp"@,
        "l4_dst_port"@ != "l4_src_port"@,
        "protocol"@ != "in_bytes"@,
        "unknown"@ != "in_pkts"@,
        "flow_count"@ != "input_snmp"@,
        "sys_uptime_ms"@ != "ipv4_src_addr"@,
        "sys_uptime_ms"@ != "ipv4_dst_addr"@,
        "sys_uptime_ms"@ != "ipv4_next_hop"@,
        "unix_secs"@ != "tcp_flags"@,
        "flow_sequence"@ != "ipv4_src_addr"@,
        "flow_sequence"@ != "ipv4_dst_addr"@,
        "flow_sequence"@ != "ipv4_next_hop"@,
        "flow_sequence"@ != "sys_uptime_ms"@,
        "source_id"@ != "tcp_flags"@,
        "source_id"@ != "unix_secs"@,
        "export_time"@ != "output_snmp"@,
        "export_time"@ != "l4_src_port"@,
        "export_time"@ != "l4_dst_port"@,
{
    reveal_strlit("ipv4_src_addr");
    reveal_strlit("ipv4_dst_addr");
    reveal_strlit("ipv4_next_hop");
    reveal_strlit("input_snmp");
    reveal_strlit("output_snmp");
    reveal_strlit("in_pkts");
    reveal_strlit("in_bytes");
    reveal_strlit("l4_src_port");
    reveal_strlit("l4_dst_port");
    reveal_strlit("tcp_flags");
    reveal_strlit("protocol");
    reveal_strlit("unknown");
    reveal_strlit("netflow_version");
    reveal_strlit("flow_count");
    reveal_strlit("sys_uptime_ms");
    reveal_strlit("unix_secs");
    reveal_strlit("flow_sequence");
    reveal_strlit("source_id");
    reveal_strlit("export_time");
    reveal_strlit("observation_domain");
    assert("ipv4_dst_addr"@[5] != "ipv4_src_addr"@[5]);
    assert("ipv4_next_hop"@[5] != "ipv4_src_addr"@[5]);
    assert("ipv4_next_hop"@[5] != "ipv4_dst_addr"@[5]);
    assert("l4_src_port"@[0] != "output_snmp"@[0]);
    assert("l4_dst_port"@[0] != "output_snmp"@[0]);
    assert("l4_dst_port"@[3] != "l4_src_port"@[3]);
    assert("protocol"@[0] != "in_bytes"@[0]);
    assert("unknown"@[0] != "in_pkts"@[0]);
    assert("flow_count"@[0] != "input_snmp"@[0]);
    assert("sys_uptime_ms"@[0] != "ipv4_src_addr"@[0]);
    assert("sys_uptime_ms"@[0] != "ipv4_dst_addr"@[0]);
    assert("sys_uptime_ms"@[0] != "ipv4_next_hop"@[0]);
    assert("unix_secs"@[0] != "tcp_flags"@[0]);
    assert("flow_sequence"@[0] != "ipv4_src_addr"@[0]);
    assert("flow_sequence"@[0] != "ipv4_dst_addr"@[0]);
    assert("flow_sequence"@[0] != "ipv4_next_hop"@[0]);
    assert("flow_sequence"@[0] != "sys_uptime_ms"@[0]);
    assert("source_id"@[0] != "tcp_flags"@[0]);
    assert("source_id"@[0] != "unix_secs"@[0]);
    assert("export_time"@[0] != "output_snmp"@[0]);
    assert("export_time"@[0] != "l4_src_port"@[0]);
    assert("export_time"@[0] != "l4_dst_port"@[0]);
}

#[verifier::spinoff_prover]
proof fn lemma_field_keys()
    ensures
        field_key(8) == "ipv4_src_addr"@,
        field_key(12) == "ipv4_dst_addr"@,
        field_key(15) == "ipv4_next_hop"@,
        field_key(10) == "input_snmp"@,
        field_key(14) == "output_snmp"@,
        field_key(2) == "in_pkts"@,
        field_key(1) == "in_bytes"@,
        field_key(7) == "l4_src_port"@,
        field_key(11) == "l4_dst_port"@,
        field_key(6) == "tcp_flags"@,
        field_key(4) == "protocol"@,
{
    lemma_record_names();
}

proof fn lemma_number_value(kind: u16, n: nat, k: nat)
    requires
        k == 1 || k == 2 || k == 4,
        k == 1 ==> n < 256,
        k == 2 ==> n < 65536,
        n < 0x1_0000_0000,
        !(k == 4 && is_ipv4_type(kind)),
    ensures
        field_value(kind, be_bytes(n, k)) == JsonV::Int(n as i64),
{
    lemma_be_bytes(n, k);
    lemma_pow256();
    let x = be_bytes(n, k);
    assert(x.subrange(0, k as int) =~= x);
}

proof fn lemma_address_value(kind: u16, ip: Ipv4)
    requires
        is_ipv4_type(kind),
    ensures
        field_value(kind, ip.bytes()) == JsonV::Str(ip.text()),
{
    let x = ip.bytes();
    assert(x.subrange(0, 4) =~= x);
    lemma_ipv4(x, 0, ip);
}

/// The event behind a record.
spec fn recorded(e: EventV, f: V5Flow) -> EventV {
    let e0 = with_field(e, "ipv4_src_addr"@, JsonV::Str(f.source.text()));
    let e1 = with_field(e0, "ipv4_dst_addr"@, JsonV::Str(f.destination.text()));
    let e2 = with_field(e1, "ipv4_next_hop"@, JsonV::Str(f.next_hop.text()));
    let e3 = with_field(e2, "input_snmp"@, JsonV::Int(f.input as i64));
    let e4 = with_field(e3, "output_snmp"@, JsonV::Int(f.output as i64));
    let e5 = with_field(e4, "in_pkts"@, JsonV::Int(f.packets as i64));
    let e6 = with_field(e5, "in_bytes"@, JsonV::Int(f.octets as i64));
    let e7 = with_field(e6, "l4_src_port"@, JsonV::Int(f.source_port as i64));
    let e8 = with_field(e7, "l4_dst_port"@, JsonV::Int(f.destination_port as i64));
    let e9 = with_field(e8, "tcp_flags"@, JsonV::Int(f.tcp_flags as i64));
    with_field(e9, "protocol"@, JsonV::Int(f.protocol as i64))
}

#[verifier::spinoff_prover]
proof fn lemma_recorded(e: EventV, f: V5Flow)
    ensures
        with_record(e, flow_template(), 0, flow_record(f), 0) == recorded(e, f),
{
    let d = flow_record(f);
    let fields = flow_template();
    assert(fields.len() == 11);
    lemma_flow_record(f);
    lemma_field_keys();
    assert(fields[0] == (8u16, 4u16));
    lemma_address_value(8, f.source);
    lemma_record_step(e, fields, 0, d, 0, f.source.bytes());
    let e0 = with_field(e, "ipv4_src_addr"@, JsonV::Str(f.source.text()));
    assert(fields[1] == (12u16, 4u16));
    lemma_address_value(12, f.destination);
    lemma_record_step(e0, fields, 1, d, 4, f.destination.bytes());
    let e1 = with_field(e0, "ipv4_dst_addr"@, JsonV::Str(f.destination.text()));
    assert(fields[2] == (15u16, 4u16));
    lemma_address_value(15, f.next_hop);
    lemma_record_step(e1, fields, 2, d, 8, f.next_hop.bytes());
    let e2 = with_field(e1, "ipv4_next_hop"@, JsonV::Str(f.next_hop.text()));
    assert(fields[3] == (10u16, 2u16));
    lemma_be_bytes(f.input as nat, 2);
    lemma_number_value(10, f.input as nat, 2);
    lemma_record_step(e2, fields, 3, d, 12, be_bytes(f.input as nat, 2));
    let e3 = with_field(e2, "input_snmp"@, JsonV::Int(f.input as i64));
    assert(fields[4] == (14u16, 2u16));
    lemma_be_bytes(f.output as nat, 2);
    lemma_number_value(14, f.output as nat, 2);
    lemma_record_step(e3, fields, 4, d, 14, be_bytes(f.output as nat, 2));
    let e4 = with_field(e3, "output_snmp"@, JsonV::Int(f.output as i64));
    assert(fields[5] == (2u16, 4u16));
    lemma_be_bytes(f.packets as nat, 4);
    lemma_number_value(2, f.packets as nat, 4);
    lemma_record_step(e4, fields, 5, d, 16, be_bytes(f.packets as nat, 4));
    let e5 = with_field(e4, "in_pkts"@, JsonV::Int(f.packets as i64));
    assert(fields[6] == (1u16, 4u16));
    lemma_be_bytes(f.octets as nat, 4);
    lemma_number_value(1, f.octets as nat, 4);
    lemma_record_step(e5, fields, 6, d, 20, be_bytes(f.octets as nat, 4));
    let e6 = with_field(e5, "in_bytes"@, JsonV::Int(f.octets as i64));
    assert(fields[7] == (7u16, 2u16));
    lemma_be_bytes(f.source_port as nat, 2);
    lemma_number_value(7, f.source_port as nat, 2);
    lemma_record_step(e6, fields, 7, d, 24, be_bytes(f.source_port as nat, 2));
    let e7 = with_field(e6, "l4_src_port"@, JsonV::Int(f.source_port as i64));
    assert(fields[8] == (11u16, 2u16));
    lemma_be_bytes(f.destination_port as nat, 2);
    lemma_number_value(11, f.destination_port as nat, 2);
    lemma_record_step(e7, fields, 8, d, 26, be_bytes(f.destination_port as nat, 2));
    let e8 = with_field(e7, "l4_dst_port"@, JsonV::Int(f.destination_port as i64));
    assert(fields[9] == (6u16, 1u16));
    lemma_be_bytes(f.tcp_flags as nat, 1);
    lemma_number_value(6, f.tcp_flags as nat, 1);
    lemma_record_step(e8, fields, 9, d, 28, be_bytes(f.tcp_flags as nat, 1));
    let e9 = with_field(e8, "tcp_flags"@, JsonV::Int(f.tcp_flags as i64));
    assert(fields[10] == (4u16, 1u16));
    lemma_be_bytes(f.protocol as nat, 1);
    lemma_number_value(4, f.protocol as nat, 1);
    lemma_record_step(e9, fields, 10, d, 29, be_bytes(f.protocol as nat, 1));
    let e10 = with_field(e9, "protocol"@, JsonV::Int(f.protocol as i64));
    assert(with_record(e10, fields, 11, d, 30) == e10);
}

#[verifier::spinoff_prover]
proof fn lemma_record_told(e: EventV, f: V5Flow)
    ensures
        tells_record(recorded(e, f), f),
        recorded(e, f).timestamp == e.timestamp,
        field_of(recorded(e, f), "netflow_version"@) == field_of(e, "netflow_version"@),
        field_of(recorded(e, f), "flow_count"@) == field_of(e, "flow_count"@),
        field_of(recorded(e, f), "sys_uptime_ms"@) == field_of(e, "sys_uptime_ms"@),
        field_of(recorded(e, f), "unix_secs"@) == field_of(e, "unix_secs"@),
        field_of(recorded(e, f), "flow_sequence"@) == field_of(e, "flow_sequence"@),
        field_of(recorded(e, f), "source_id"@) == field_of(e, "source_id"@),
        field_of(recorded(e, f), "export_time"@) == field_of(e, "export_time"@),
        field_of(recorded(e, f), "observation_domain"@) == field_of(e, "observation_domain"@),
{
    lemma_record_names();
    lemma_fields_stay();
    lemma_times_stay();
}

proof fn lemma_times_stay()
    ensures
        forall|e: EventV, f: Seq<char>, v: JsonV|
            (#[trigger] with_field(e, f, v)).timestamp == e.timestamp,
{
}

/// What the header of a version 9 packet says, in the order of its bytes.
pub struct V9Header {
    pub count: u16,
    pub uptime: u32,
    pub secs: u32,
    pub sequence: u32,
    pub source: u32,
}

/// What the header of an IPFIX packet says, in the order of its bytes.
pub struct IpfixHeader {
    pub length: u16,
    pub time: u32,
    pub sequence: u32,
    pub domain: u32,
}

pub open spec fn v9_header_bytes(h: V9Header) -> Seq<u8> {
    be_bytes(9, 2) + be_bytes(h.count as nat, 2) + be_bytes(h.uptime as nat, 4) + be_bytes(
        h.secs as nat,
        4,
    ) + be_bytes(h.sequence as nat, 4) + be_bytes(h.source as nat, 4)
}

pub open spec fn ipfix_header_bytes(h: IpfixHeader) -> Seq<u8> {
    be_bytes(10, 2) + be_bytes(h.length as nat, 2) + be_bytes(h.time as nat, 4) + be_bytes(
        h.sequence as nat,
        4,
    ) + be_bytes(h.domain as nat, 4)
}

/// A header, a set that describes flows, and a set with one.
pub open spec fn flow_packet(header: Seq<u8>, set_id: u16, id: u16, f: V5Flow) -> Seq<u8> {
    header + set_bytes(set_id, template_bytes(id, flow_template())) + set_bytes(id, flow_record(f))
}

#[verifier::spinoff_prover]
proof fn lemma_flow_packet(
    e: EventV,
    t: TemplatesV,
    header: Seq<u8>,
    set_id: u16,
    id: u16,
    f: V5Flow,
)
    requires
        id > 255,
        set_id <= 255,
    ensures
        ({
            let d = flow_packet(header, set_id, id, f);
            let (after, known) = with_sets(e, t, d, header.len() as int, set_id as int);
            &&& after == recorded(e, f)
            &&& known == t.insert(id, flow_template())
            &&& d.len() > header.len() && stands_at(d, 0, header)
        }),
{
    let d = flow_packet(header, set_id, id, f);
    let tb = template_bytes(id, flow_template());
    let fb = flow_record(f);
    let n = header.len() as int;
    lemma_flow_record(f);
    lemma_template_len(id);
    lemma_four(set_id as nat, 4 + tb.len(), tb);
    lemma_four(id as nat, 4 + fb.len(), fb);
    let a = set_bytes(set_id, tb);
    let b = set_bytes(id, fb);
    assert(d.subrange(0, n) =~= header);
    assert(d.subrange(n, n + a.len()) =~= a);
    assert(d.subrange(n + a.len(), d.len() as int) =~= b);
    templates_are_learned(t, id, flow_template());
    let known = t.insert(id, flow_template());
    lemma_set(e, t, d, n, set_id as int, set_id, tb);
    lemma_set(e, known, d, n + a.len(), set_id as int, id, fb);
    lemma_recorded(e, f);
    assert(with_sets(recorded(e, f), known, d, d.len() as int, set_id as int) == (
        recorded(e, f),
        known,
    ));
}

proof fn lemma_template_len(id: u16)
    ensures
        template_bytes(id, flow_template()).len() < 1000,
{
    lemma_field_bytes_len(flow_template());
    lemma_be_bytes(id as nat, 2);
    lemma_be_bytes(flow_template().len(), 2);
}

proof fn lemma_field_bytes_len(fields: Seq<(u16, u16)>)
    ensures
        field_bytes(fields).len() == 4 * fields.len(),
    decreases fields.len(),
{
    if fields.len() > 0 {
        lemma_be_bytes(fields[0].0 as nat, 2);
        lemma_be_bytes(fields[0].1 as nat, 2);
        lemma_field_bytes_len(fields.skip(1));
    }
}

#[verifier::spinoff_prover]
proof fn lemma_v9_header(h: V9Header, d: Seq<u8>)
    requires
        stands_at(d, 0, v9_header_bytes(h)),
    ensures
        v9_header_bytes(h).len() == 20,
        be_at(d, 0, 2) == 9,
        be_at(d, 2, 2) == h.count,
        be_at(d, 4, 4) == h.uptime,
        be_at(d, 8, 4) == h.secs,
        be_at(d, 12, 4) == h.sequence,
        be_at(d, 16, 4) == h.source,
{
    lemma_pow256();
    lemma_be_bytes(9, 2);
    lemma_be_bytes(h.count as nat, 2);
    lemma_be_bytes(h.uptime as nat, 4);
    lemma_be_bytes(h.secs as nat, 4);
    lemma_be_bytes(h.sequence as nat, 4);
    lemma_be_bytes(h.source as nat, 4);
    let s = v9_header_bytes(h);
    assert(s.subrange(0, 2) =~= be_bytes(9, 2));
    assert(s.subrange(2, 4) =~= be_bytes(h.count as nat, 2));
    assert(s.subrange(4, 8) =~= be_bytes(h.uptime as nat, 4));
    assert(s.subrange(8, 12) =~= be_bytes(h.secs as nat, 4));
    assert(s.subrange(12, 16) =~= be_bytes(h.sequence as nat, 4));
    assert(s.subrange(16, 20) =~= be_bytes(h.source as nat, 4));
    assert(d.subrange(0, 2) =~= s.subrange(0, 2));
    assert(d.subrange(2, 4) =~= s.subrange(2, 4));
    assert(d.subrange(4, 8) =~= s.subrange(4, 8));
    assert(d.subrange(8, 12) =~= s.subrange(8, 12));
    assert(d.subrange(12, 16) =~= s.subrange(12, 16));
    assert(d.subrange(16, 20) =~= s.subrange(16, 20));
}

#[verifier::spinoff_prover]
proof fn lemma_ipfix_header(h: IpfixHeader, d: Seq<u8>)
    requires
        stands_at(d, 0, ipfix_header_bytes(h)),
    ensures
        ipfix_header_bytes(h).len() == 16,
        be_at(d, 0, 2) == 10,
        be_at(d, 4, 4) == h.time,
        be_at(d, 8, 4) == h.sequence,
        be_at(d, 12, 4) == h.domain,
{
    lemma_pow256();
    lemma_be_bytes(10, 2);
    lemma_be_bytes(h.length as nat, 2);
    lemma_be_bytes(h.time as nat, 4);
    lemma_be_bytes(h.sequence as nat, 4);
    lemma_be_bytes(h.domain as nat, 4);
    let s = ipfix_header_bytes(h);
    assert(s.subrange(0, 2) =~= be_bytes(10, 2));
    assert(s.subrange(4, 8) =~= be_bytes(h.time as nat, 4));
    assert(s.subrange(8, 12) =~= be_bytes(h.sequence as nat, 4));
    assert(s.subrange(12, 16) =~= be_bytes(h.domain as nat, 4));
    assert(d.subrange(0, 2) =~= s.subrange(0, 2));
    assert(d.subrange(4, 8) =~= s.subrange(4, 8));
    assert(d.subrange(8, 12) =~= s.subrange(8, 12));
    assert(d.subrange(12, 16) =~= s.subrange(12, 16));
}

/// A version 9 packet with a template and a record of it is decoded to one
/// event, which says what the header and the record say, whatever templates were
/// known before.
pub proof fn v9_packets_tell_their_flow(
    c: NetflowCodec,
    t: AnswersV,
    h: V9Header,
    id: u16,
    f: V5Flow,
    now: Moment,
)
    requires
        id > 255,
    ensures
        c.decoded(flow_packet(v9_header_bytes(h), 0, id, f), now, t) matches Ok(events)
            && events.len() == 1 && {
            let e = events[0];
            &&& tells_record(e, f)
            &&& holds_number(e, "netflow_version"@, 9)
            &&& holds_number(e, "flow_count"@, h.count as int)
            &&& holds_number(e, "sys_uptime_ms"@, h.uptime as int)
            &&& holds_number(e, "unix_secs"@, h.secs as int)
            &&& holds_number(e, "flow_sequence"@, h.sequence as int)
            &&& holds_number(e, "source_id"@, h.source as int)
            &&& moment_exists(h.secs as i64, 0) ==> e.timestamp.secs == h.secs && e.timestamp.nanos
                == 0
        },
{
    let d = flow_packet(v9_header_bytes(h), 0, id, f);
    assert(stands_at(d, 0, v9_header_bytes(h))) by {
        lemma_flow_packet(blank(now), c.templates_v(), v9_header_bytes(h), 0, id, f);
    }
    lemma_v9_header(h, d);
    let e = v9_header(d, now);
    lemma_flow_packet(e, c.templates_v(), v9_header_bytes(h), 0, id, f);
    lemma_record_told(e, f);
    lemma_record_names();
    lemma_fields_stay();
    lemma_times_stay();
}

/// An IPFIX packet with a template and a record of it is decoded to one event,
/// which says what the header and the record say.
pub proof fn ipfix_packets_tell_their_flow(
    c: NetflowCodec,
    t: AnswersV,
    h: IpfixHeader,
    id: u16,
    f: V5Flow,
    now: Moment,
)
    requires
        id > 255,
    ensures
        c.decoded(flow_packet(ipfix_header_bytes(h), 2, id, f), now, t) matches Ok(events)
            && events.len() == 1 && {
            let e = events[0];
            &&& tells_record(e, f)
            &&& holds_number(e, "netflow_version"@, 10)
            &&& holds_number(e, "export_time"@, h.time as int)
            &&& holds_number(e, "flow_sequence"@, h.sequence as int)
            &&& holds_number(e, "observation_domain"@, h.domain as int)
            &&& moment_exists(h.time as i64, 0) ==> e.timestamp.secs == h.time && e.timestamp.nanos
                == 0
        },
{
    let d = flow_packet(ipfix_header_bytes(h), 2, id, f);
    assert(stands_at(d, 0, ipfix_header_bytes(h))) by {
        lemma_flow_packet(blank(now), c.templates_v(), ipfix_header_bytes(h), 2, id, f);
    }
    lemma_ipfix_header(h, d);
    let e = ipfix_header(d, now);
    lemma_flow_packet(e, c.templates_v(), ipfix_header_bytes(h), 2, id, f);
    lemma_record_told(e, f);
    lemma_record_names();
    lemma_fields_stay();
    lemma_times_stay();
}

} // verus!
