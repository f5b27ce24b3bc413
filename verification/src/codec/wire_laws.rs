//! What the codecs of binary messages read, stated over messages that are
//! written out.
use crate::codec::avro::{block_at, header_meta, long_at, meta_from, meta_text, AvroCodec};
use crate::codec::laws::text_survives;
use crate::codec::layout::{le_bytes, lemma_le_bytes, reversed_number_is_read_back, stands_at};
use crate::codec::protobuf::{
    delimited, field_key, is_odd_control, is_text, proto_fields, proto_value, with_fields,
    ProtobufCodec,
};
use crate::codec::varint::{varint_bytes, varint_round_trip, zigzag_of, zigzag_round_trip};
use crate::codec::wire::lemma_pow256;
use crate::codec::Codec;
use crate::dict::{put, put_then_lookup};
use crate::double::{AnswersV, DoubleV, QueryV};
use crate::event::{blank, field_of, is_plain_name, lemma_fields_stay, with_field, EventV};
use crate::interchange::json_read;
use crate::json::JsonV;
use crate::moment::Moment;
use crate::text::{int_text, int_text_reads_back, nat_text};
use crate::whole::whole_v;
use vstd::prelude::*;
use vstd::utf8::{encode_utf8, encode_utf8_decode_utf8, encode_utf8_valid_utf8};

verus! {

/// The value of a protobuf field.
pub enum ProtoV {
    Number(u64),
    Text(Seq<char>),
    Double(u64),
}

/// The wire type of a value.
pub open spec fn wire_type(v: ProtoV) -> nat {
    match v {
        ProtoV::Number(_) => 0,
        ProtoV::Double(_) => 1,
        ProtoV::Text(_) => 2,
    }
}

/// The bytes of a value behind its tag.
pub open spec fn proto_value_bytes(v: ProtoV) -> Seq<u8> {
    match v {
        ProtoV::Number(n) => varint_bytes(n as nat),
        ProtoV::Double(bits) => le_bytes(bits as nat, 8),
        ProtoV::Text(s) => varint_bytes(encode_utf8(s).len()) + encode_utf8(s),
    }
}

/// The bytes of a field: its number and wire type in one tag, and the value.
pub open spec fn proto_field_bytes(number: u32, v: ProtoV) -> Seq<u8> {
    varint_bytes((number * 8 + wire_type(v)) as nat) + proto_value_bytes(v)
}

/// The bytes of a message.
pub open spec fn proto_message(fields: Seq<(u32, ProtoV)>) -> Seq<u8>
    decreases fields.len(),
{
    if fields.len() == 0 {
        Seq::empty()
    } else {
        proto_field_bytes(fields[0].0, fields[0].1) + proto_message(fields.skip(1))
    }
}

/// Whether a value that was read is the value that was written. A double that is
/// a whole number comes out as an integer.
pub open spec fn is_proto_value(j: JsonV, v: ProtoV) -> bool {
    match v {
        ProtoV::Number(n) => n <= i64::MAX ==> (j matches JsonV::Int(x) && x == n),
        ProtoV::Text(s) => j == JsonV::Str(s),
        ProtoV::Double(bits) => match whole_v(bits) {
            None => j == JsonV::Float(DoubleV::Bits(bits)),
            Some(n) => j == JsonV::Int(n as i64),
        },
    }
}

/// A value that can be written: its text holds no control characters, but for
/// line ends and tabs, and is not too long.
pub open spec fn is_plain_value(v: ProtoV) -> bool {
    match v {
        ProtoV::Text(s) => encode_utf8(s).len() <= u32::MAX && forall|i: int|
            0 <= i < s.len() ==> !is_odd_control(#[trigger] s[i]),
        _ => true,
    }
}

proof fn lemma_varint_len(n: nat)
    ensures
        varint_bytes(n).len() > 0,
{
}

proof fn lemma_proto_value(t: AnswersV, d: Seq<u8>, at: int, v: ProtoV)
    requires
        0 < at,
        stands_at(d, at, proto_value_bytes(v)),
        is_plain_value(v),
    ensures
        proto_value(t, d, at, wire_type(v) as int) matches Ok(Some((j, next))) && is_proto_value(j, v)
            && next == at + proto_value_bytes(v).len(),
{
    match v {
        ProtoV::Number(n) => {
            varint_round_trip(d, at, n);
        },
        ProtoV::Double(bits) => {
            lemma_pow256();
            lemma_le_bytes(bits as nat, 8);
            reversed_number_is_read_back(d, at, bits as nat, 8);
        },
        ProtoV::Text(s) => {
            let b = encode_utf8(s);
            let head = varint_bytes(b.len());
            let x = d.subrange(at, at + head.len() + b.len());
            assert(d.subrange(at, at + head.len()) =~= head) by {
                assert(x.subrange(0, head.len() as int) =~= head);
                assert(x.subrange(0, head.len() as int) =~= d.subrange(at, at + head.len()));
            }
            let from = at + head.len();
            assert(d.subrange(from, from + b.len()) =~= b) by {
                assert(x.skip(head.len() as int) =~= b);
                assert(x.skip(head.len() as int) =~= d.subrange(from, from + b.len()));
            }
            lemma_varint_len(b.len());
            varint_round_trip(d, at, b.len() as u64);
            encode_utf8_valid_utf8(s);
            encode_utf8_decode_utf8(s);
            assert(is_text(b));
            assert(delimited(t, b) == Ok::<JsonV, QueryV>(JsonV::Str(s)));
        },
    }
}

/// Whether the fields that were read are those that were written.
pub open spec fn are_proto_fields(read: Seq<(u32, JsonV)>, fields: Seq<(u32, ProtoV)>) -> bool {
    read.len() == fields.len() && forall|i: int|
        0 <= i < fields.len() ==> (#[trigger] read[i]).0 == fields[i].0 && is_proto_value(
            read[i].1,
            fields[i].1,
        )
}

proof fn lemma_message(
    t: AnswersV,
    d: Seq<u8>,
    at: int,
    fields: Seq<(u32, ProtoV)>,
    done: Seq<(u32, ProtoV)>,
    acc: Seq<(u32, JsonV)>,
)
    requires
        0 <= at <= d.len(),
        d.skip(at) == proto_message(fields),
        forall|i: int| 0 <= i < fields.len() ==> is_plain_value((#[trigger] fields[i]).1),
        are_proto_fields(acc, done),
    ensures
        proto_fields(t, d, at, acc) matches Ok(read) && are_proto_fields(read, done + fields),
    decreases fields.len(),
{
    if fields.len() > 0 {
        let (number, v) = fields[0];
        let tag = (number * 8 + wire_type(v)) as nat;
        let head = varint_bytes(tag);
        let body = proto_value_bytes(v);
        let rest = fields.skip(1);
        let y = d.skip(at);
        assert(y == head + body + proto_message(rest));
        assert(d.subrange(at, at + head.len()) =~= head) by {
            assert(y.subrange(0, head.len() as int) =~= head);
            assert(y.subrange(0, head.len() as int) =~= d.subrange(at, at + head.len()));
        }
        let from = at + head.len();
        assert(d.subrange(from, from + body.len()) =~= body) by {
            assert(y.subrange(head.len() as int, (head.len() + body.len()) as int) =~= body);
            assert(y.subrange(head.len() as int, (head.len() + body.len()) as int) =~= d.subrange(
                from,
                from + body.len(),
            ));
        }
        let behind = from + body.len();
        assert(d.skip(behind) =~= proto_message(rest)) by {
            assert(y.skip((head.len() + body.len()) as int) =~= proto_message(rest));
        }
        lemma_varint_len(tag);
        varint_round_trip(d, at, tag as u64);
        assert(is_plain_value(fields[0].1));
        lemma_proto_value(t, d, from, v);
        assert(tag % 8 == wire_type(v) && tag / 8 == number as nat);
        let j = proto_value(t, d, from, wire_type(v) as int)->Ok_0->Some_0.0;
        assert forall|i: int| 0 <= i < rest.len() implies is_plain_value((#[trigger] rest[i]).1) by {
            assert(rest[i] == fields[i + 1]);
        }
        lemma_message(t, d, behind, rest, done.push(fields[0]), acc.push((number, j)));
        assert(done.push(fields[0]) + rest =~= done + fields);
    } else {
        assert(done + fields =~= done);
        assert(d.skip(at).len() == 0);
    }
}

/// A message that is written out field by field is read as those fields, in
/// their order.
pub proof fn messages_are_read_back(t: AnswersV, fields: Seq<(u32, ProtoV)>)
    requires
        forall|i: int| 0 <= i < fields.len() ==> is_plain_value((#[trigger] fields[i]).1),
    ensures
        proto_fields(t, proto_message(fields), 0, Seq::empty()) matches Ok(read)
            && are_proto_fields(read, fields),
{
    let d = proto_message(fields);
    let none = Seq::<(u32, ProtoV)>::empty();
    assert(d.skip(0) =~= d);
    lemma_message(t, d, 0, fields, none, Seq::empty());
    assert(none + fields =~= fields);
}

proof fn lemma_field_key(a: u32, b: u32)
    ensures
        is_plain_name(field_key(a)),
        a != b ==> field_key(a) != field_key(b),
{
    reveal_strlit("field_");
    int_text_reads_back(a as int);
    int_text_reads_back(b as int);
    assert(int_text(a as int) == nat_text(a as nat) && int_text(b as int) == nat_text(b as nat));
    if field_key(a) == field_key(b) {
        assert(field_key(a).skip(6) =~= nat_text(a as nat));
        assert(field_key(b).skip(6) =~= nat_text(b as nat));
    }
}

proof fn lemma_with_fields(e: EventV, f: Seq<(u32, JsonV)>, i: int, k: int)
    requires
        0 <= k < f.len(),
        0 <= i <= f.len(),
        forall|a: int, b: int| 0 <= a < b < f.len() ==> (#[trigger] f[a]).0 != (#[trigger] f[b]).0,
        k < i ==> field_of(e, field_key(f[k].0)) == Some(f[k].1),
    ensures
        field_of(with_fields(e, f, i), field_key(f[k].0)) == Some(f[k].1),
    decreases f.len() - i,
{
    if i < f.len() {
        lemma_fields_stay();
        lemma_field_key(f[i].0, f[k].0);
        lemma_field_key(f[k].0, f[i].0);
        let next = with_field(e, field_key(f[i].0), f[i].1);
        if i < k {
            assert(f[i].0 != f[k].0);
        } else if k < i {
            assert(f[k].0 != f[i].0);
        }
        lemma_with_fields(next, f, i + 1, k);
    }
}

/// A message whose fields have different numbers is decoded to one event in
/// which each value stands under the number of its field.
pub proof fn messages_fill_their_fields(
    c: ProtobufCodec,
    t: AnswersV,
    fields: Seq<(u32, ProtoV)>,
    now: Moment,
    k: int,
)
    requires
        0 <= k < fields.len(),
        forall|i: int| 0 <= i < fields.len() ==> is_plain_value((#[trigger] fields[i]).1),
        forall|a: int, b: int|
            0 <= a < b < fields.len() ==> (#[trigger] fields[a]).0 != (#[trigger] fields[b]).0,
        c.class_name is None,
        !c.include_raw,
    ensures
        c.decoded(proto_message(fields), now, t) matches Ok(events) && events.len() == 1 && (
        field_of(events[0], "field_"@ + nat_text(fields[k].0 as nat)) matches Some(j)
            && is_proto_value(j, fields[k].1)),
{
    messages_are_read_back(t, fields);
    let d = proto_message(fields);
    let read = proto_fields(t, d, 0, Seq::empty())->Ok_0;
    assert(read.len() == fields.len());
    assert forall|a: int, b: int| 0 <= a < b < read.len() implies (#[trigger] read[a]).0 != (
    #[trigger] read[b]).0 by {
        assert(fields[a].0 != fields[b].0);
    }
    lemma_with_fields(blank(now), read, 0, k);
    assert(read[k].0 == fields[k].0);
    assert(d.len() > 0) by {
        lemma_varint_len((fields[0].0 * 8 + wire_type(fields[0].1)) as nat);
    }
}

/// A signed number in Avro.
pub open spec fn avro_long(n: int) -> Seq<u8> {
    varint_bytes(zigzag_of(n) as nat)
}

/// A text in Avro: the length of its bytes, and these.
pub open spec fn avro_text(s: Seq<char>) -> Seq<u8> {
    avro_long(encode_utf8(s).len() as int) + encode_utf8(s)
}

/// An object container file: the mark, a schema and a codec in the header, the
/// end of the header, sixteen bytes that mark blocks, and a block: the number of
/// its records, its length, and what it holds.
pub open spec fn avro_file(
    schema: Seq<char>,
    codec: Seq<char>,
    sync: Seq<u8>,
    count: i64,
    block: Seq<u8>,
) -> Seq<u8> {
    Seq::empty().push(0x4fu8).push(0x62u8).push(0x6au8).push(1u8) + (avro_long(2) + (avro_text(
        "avro.schema"@,
    ) + (avro_text(schema) + (avro_text("avro.codec"@) + (avro_text(codec) + (avro_long(0) + (sync
        + (avro_long(count as int) + (avro_long(block.len() as int) + block)))))))))
}

proof fn lemma_avro_long(d: Seq<u8>, at: int, n: i64, rest: Seq<u8>)
    requires
        0 <= at <= d.len(),
        d.skip(at) == avro_long(n as int) + rest,
    ensures
        long_at(d, at) == (Some(n), at + avro_long(n as int).len()),
        at + avro_long(n as int).len() <= d.len(),
        d.skip(at + avro_long(n as int).len()) == rest,
{
    let x = avro_long(n as int);
    let y = d.skip(at);
    zigzag_round_trip(n);
    assert(y.len() == x.len() + rest.len() && y.len() == d.len() - at);
    assert(d.subrange(at, at + x.len()) =~= x) by {
        assert(y.subrange(0, x.len() as int) =~= x);
        assert(y.subrange(0, x.len() as int) =~= d.subrange(at, at + x.len()));
    }
    assert(d.skip(at + x.len()) =~= rest) by {
        assert(y.skip(x.len() as int) =~= rest);
    }
    varint_round_trip(d, at, zigzag_of(n as int) as u64);
}

proof fn lemma_avro_text(d: Seq<u8>, at: int, s: Seq<char>, rest: Seq<u8>)
    requires
        0 <= at <= d.len(),
        d.skip(at) == avro_text(s) + rest,
        encode_utf8(s).len() <= i64::MAX,
    ensures
        block_at(d, at) == Some((encode_utf8(s), at + avro_text(s).len())),
        at + avro_text(s).len() <= d.len(),
        d.skip(at + avro_text(s).len()) == rest,
{
    let b = encode_utf8(s);
    let n = b.len() as i64;
    let head = avro_long(n as int);
    assert(avro_text(s) + rest =~= head + (b + rest));
    lemma_avro_long(d, at, n, b + rest);
    let from = at + head.len();
    let y = d.skip(from);
    assert(d.subrange(from, from + b.len()) =~= b) by {
        assert(y.subrange(0, b.len() as int) =~= b);
        assert(y.subrange(0, b.len() as int) =~= d.subrange(from, from + b.len()));
    }
    assert(d.skip(from + b.len()) =~= rest) by {
        assert(y.skip(b.len() as int) =~= rest);
    }
}

proof fn lemma_avro_names()
    ensures
        is_plain_name("avro_schema"@),
        "avro_schema"@.len() == 11,
        is_plain_name("avro_codec"@),
        "avro_codec"@.len() == 10,
        is_plain_name("avro_format"@),
        "avro_format"@.len() == 11,
        is_plain_name("block_record_count"@),
        "block_record_count"@.len() == 18,
        is_plain_name("block_size"@),
        "block_size"@.len() == 10,
        "avro_format"@ != "avro_schema"@,
        "block_size"@ != "avro_codec"@,
{
    reveal_strlit("avro_schema");
    reveal_strlit("avro_codec");
    reveal_strlit("avro_format");
    reveal_strlit("block_record_count");
    reveal_strlit("block_size");
    assert("avro_format"@[5] != "avro_schema"@[5]);
    assert("block_size"@[0] != "avro_codec"@[0]);
}

proof fn lemma_two_entries(d: Seq<u8>, at: int, schema: Seq<char>, codec: Seq<char>, rest: Seq<u8>)
    requires
        0 <= at <= d.len(),
        encode_utf8(schema).len() <= i64::MAX,
        encode_utf8(codec).len() <= i64::MAX,
        d.skip(at) == avro_long(2) + (avro_text("avro.schema"@) + (avro_text(schema) + (avro_text(
            "avro.codec"@,
        ) + (avro_text(codec) + (avro_long(0) + rest))))),
    ensures
        header_meta(d, at) matches Some((m, next)) && meta_text(m, "avro.schema"@) == schema
            && meta_text(m, "avro.codec"@) == codec && next <= d.len() && next > at && d.skip(next)
            == rest,
{
    reveal_strlit("avro.schema");
    reveal_strlit("avro.codec");
    vstd::utf8::is_ascii_chars_encode_utf8("avro.schema"@);
    vstd::utf8::is_ascii_chars_encode_utf8("avro.codec"@);
    let r5 = avro_long(0) + rest;
    let r4 = avro_text(codec) + r5;
    let r3 = avro_text("avro.codec"@) + r4;
    let r2 = avro_text(schema) + r3;
    let r1 = avro_text("avro.schema"@) + r2;
    lemma_avro_long(d, at, 2, r1);
    let a1 = at + avro_long(2).len();
    lemma_avro_text(d, a1, "avro.schema"@, r2);
    let a2 = a1 + avro_text("avro.schema"@).len();
    lemma_avro_text(d, a2, schema, r3);
    let a3 = a2 + avro_text(schema).len();
    lemma_avro_text(d, a3, "avro.codec"@, r4);
    let a4 = a3 + avro_text("avro.codec"@).len();
    lemma_avro_text(d, a4, codec, r5);
    let a5 = a4 + avro_text(codec).len();
    lemma_avro_long(d, a5, 0, rest);
    text_survives("avro.schema"@);
    text_survives("avro.codec"@);
    text_survives(schema);
    text_survives(codec);
    let none = Seq::<(Seq<char>, Seq<char>)>::empty();
    let m1 = put(none, "avro.schema"@, schema);
    let m2 = put(m1, "avro.codec"@, codec);
    assert(meta_from(d, a5, 0, m2) == Some((m2, a5)));
    assert(meta_from(d, a3, 1, m1) == Some((m2, a5)));
    assert(meta_from(d, a1, 2, none) == Some((m2, a5)));
    put_then_lookup(none, "avro.schema"@, schema, "avro.schema"@);
    put_then_lookup(m1, "avro.codec"@, codec, "avro.schema"@);
    lemma_varint_len(zigzag_of(2) as nat);
}

/// An object container file tells its schema and its codec, how many records its
/// first block has, and how long that is.
#[verifier::spinoff_prover]
pub proof fn avro_files_tell_their_header(
    c: AvroCodec,
    t: AnswersV,
    schema: Seq<char>,
    codec: Seq<char>,
    sync: Seq<u8>,
    count: i64,
    block: Seq<u8>,
    now: Moment,
)
    requires
        sync.len() == 16,
        encode_utf8(schema).len() <= i64::MAX,
        encode_utf8(codec).len() <= i64::MAX,
        2 < block.len() <= u32::MAX,
        json_read(block) is Err,
    ensures
        c.decoded(avro_file(schema, codec, sync, count, block), now, t) matches Ok(events)
            && events.len() == 1 && {
            let e = events[0];
            &&& field_of(e, "avro_schema"@) == Some(JsonV::Str(schema))
            &&& field_of(e, "avro_codec"@) == Some(JsonV::Str(codec))
            &&& field_of(e, "avro_format"@) == Some(JsonV::Str("ocf"@))
            &&& field_of(e, "block_record_count"@) == Some(JsonV::Int(count))
            &&& field_of(e, "block_size"@) == Some(JsonV::Int(block.len() as i64))
        },
{
    let d = avro_file(schema, codec, sync, count, block);
    let size = block.len() as i64;
    let tail = avro_long(count as int) + (avro_long(size as int) + block);
    let rest = sync + tail;
    assert(d.skip(4) =~= avro_long(2) + (avro_text("avro.schema"@) + (avro_text(schema) + (
    avro_text("avro.codec"@) + (avro_text(codec) + (avro_long(0) + rest))))));
    lemma_two_entries(d, 4, schema, codec, rest);
    let at = header_meta(d, 4)->Some_0.1;
    let y = d.skip(at);
    assert(d.skip(at + 16) =~= tail) by {
        assert(y.skip(16) =~= tail);
    }
    lemma_avro_long(d, at + 16, count, avro_long(size as int) + block);
    let a1 = at + 16 + avro_long(count as int).len();
    lemma_avro_long(d, a1, size, block);
    let a2 = a1 + avro_long(size as int).len();
    assert(d.skip(a2) =~= block);
    assert(d.len() == a2 + block.len());
    assert(d.subrange(a2, d.len() as int) =~= block) by {
        assert(d.subrange(a2, d.len() as int) =~= d.skip(a2));
    }
    lemma_varint_len(zigzag_of(count as int) as nat);
    lemma_varint_len(zigzag_of(size as int) as nat);
    lemma_avro_names();
    lemma_fields_stay();
}

} // verus!
