//! Protobuf codec: the wire format, read without a schema.
use crate::codec::hex::{encode, hex_text};
use crate::codec::json::{flag_setting, get_flag, get_text, json_bytes, opt_view, text_setting};
use crate::codec::varint::{read_varint, varint};
use crate::codec::wire::{le_at, le_u64, sub_slice};
use crate::codec::{
    one_event, text_bytes, utf8_text, Codec, CodecErrV, CodecError, DecodedV, EncodedV, TemplatesV,
};
use crate::dict::put;
use crate::double::{ask1, ask_bits, query, Answers, AnswersV, Double, DoubleQuery, DoubleV, QueryV};
use crate::event::{blank, is_event, with_field, Event, EventV};
use crate::json::{entries_view, put_json, Json, JsonV};
use crate::moment::Moment;
use crate::text::{chars_of, join2, nat_text, u64_text};
use crate::whole::{whole, whole_v};
use vstd::prelude::*;
use vstd::utf8::{decode_utf8, valid_utf8};

verus! {

broadcast use vstd::string::group_string_axioms;

/// Protobuf codec configuration.
#[derive(Debug, PartialEq)]
pub struct ProtobufCodec {
    /// Optional class/message name hint for metadata.
    pub class_name: Option<String>,
    /// Whether to keep the raw bytes, in hexadecimal.
    pub include_raw: bool,
}

/// A control character that no text field holds.
pub open spec fn is_odd_control(c: char) -> bool {
    let n = c as int;
    (n < 0x20 || 0x7f <= n < 0xa0) && c != '\n' && c != '\r' && c != '\t'
}

/// Whether bytes read as text: UTF-8 without control characters, but for line
/// ends and tabs.
pub open spec fn is_text(b: Seq<u8>) -> bool {
    valid_utf8(b) && forall|i: int|
        0 <= i < decode_utf8(b).len() ==> !is_odd_control(#[trigger] decode_utf8(b)[i])
}

/// The key of a field by its number.
pub open spec fn field_key(n: u32) -> Seq<char> {
    "field_"@ + nat_text(n as nat)
}

/// The first `n` fields as members of an object; the last of several with one
/// number stays.
pub open spec fn members(f: Seq<(u32, JsonV)>, n: int) -> Seq<(Seq<char>, JsonV)>
    decreases n,
{
    if n <= 0 || n > f.len() {
        Seq::empty()
    } else {
        put(members(f, n - 1), field_key(f[n - 1].0), f[n - 1].1)
    }
}

/// A double of eight bytes: an integer where it is whole and fits one.
pub open spec fn fixed64(bits: u64) -> JsonV {
    match whole_v(bits) {
        Some(n) => JsonV::Int(n as i64),
        None => JsonV::Float(DoubleV::Bits(bits)),
    }
}

/// A single-precision number of four bytes, as a double.
pub open spec fn fixed32(t: AnswersV, bits: u32) -> Result<JsonV, QueryV> {
    match ask_bits(t, query("single"@, seq![DoubleV::Int(bits as i64)])) {
        Ok(b) => Ok(JsonV::Float(DoubleV::Bits(b))),
        Err(q) => Err(q),
    }
}

/// A field with a length: text, a message of fields, or bytes in hexadecimal.
pub open spec fn delimited(t: AnswersV, b: Seq<u8>) -> Result<JsonV, QueryV>
    decreases b.len(), 1nat, 0nat,
{
    if is_text(b) {
        Ok(JsonV::Str(decode_utf8(b)))
    } else {
        match proto_fields(t, b, 0, Seq::empty()) {
            Err(q) => Err(q),
            Ok(f) => if f.len() == 0 {
                Ok(JsonV::Str(hex_text(b)))
            } else {
                Ok(JsonV::Object(members(f, f.len() as int)))
            },
        }
    }
}

/// The value of a field of a wire type at `at`, and the position behind it;
/// none where the data does not hold one.
pub open spec fn proto_value(t: AnswersV, d: Seq<u8>, at: int, wire: int) -> Result<
    Option<(JsonV, int)>,
    QueryV,
>
    decreases d.len(), 0nat, 0nat,
{
    if at <= 0 || at > d.len() {
        Ok(None)
    } else if wire == 0 {
        match varint(d, at) {
            (Some(v), next) => Ok(Some((JsonV::Int(v as i64), next))),
            _ => Ok(None),
        }
    } else if wire == 1 {
        if at + 8 > d.len() {
            Ok(None)
        } else {
            Ok(Some((fixed64(le_at(d, at, 8) as u64), at + 8)))
        }
    } else if wire == 2 {
        match varint(d, at) {
            (Some(n), from) => if from < at || from + n > d.len() {
                Ok(None)
            } else {
                match delimited(t, d.subrange(from, from + n)) {
                    Ok(v) => Ok(Some((v, from + n))),
                    Err(q) => Err(q),
                }
            },
            _ => Ok(None),
        }
    } else if wire == 5 {
        if at + 4 > d.len() {
            Ok(None)
        } else {
            match fixed32(t, le_at(d, at, 4) as u32) {
                Ok(v) => Ok(Some((v, at + 4))),
                Err(q) => Err(q),
            }
        }
    } else {
        Ok(None)
    }
}

/// The fields of a message from `at` on, behind `acc`, up to the first that is
/// not well formed.
pub open spec fn proto_fields(t: AnswersV, d: Seq<u8>, at: int, acc: Seq<(u32, JsonV)>) -> Result<
    Seq<(u32, JsonV)>,
    QueryV,
>
    decreases d.len(), 0nat, d.len() - at + 1,
{
    if at < 0 || at >= d.len() {
        Ok(acc)
    } else {
        match varint(d, at) {
            (Some(tag), next) => match proto_value(t, d, next, (tag % 8) as int) {
                Err(q) => Err(q),
                Ok(None) => Ok(acc),
                Ok(Some((v, behind))) => if at < behind <= d.len() {
                    proto_fields(t, d, behind, acc.push(((tag / 8) as u32, v)))
                } else {
                    Ok(acc)
                },
            },
            _ => Ok(acc),
        }
    }
}

/// The fields as fields of an event.
pub open spec fn with_fields(e: EventV, f: Seq<(u32, JsonV)>, i: int) -> EventV
    decreases f.len() - i,
{
    if i < 0 || i >= f.len() {
        e
    } else {
        with_fields(with_field(e, field_key(f[i].0), f[i].1), f, i + 1)
    }
}

/// The event of a message, as a codec is set up.
pub open spec fn message_fields(
    d: Seq<u8>,
    f: Seq<(u32, JsonV)>,
    class_name: Option<Seq<char>>,
    include_raw: bool,
    now: Moment,
) -> EventV {
    let e = with_fields(blank(now), f, 0);
    let e = match class_name {
        Some(s) => with_field(e, "protobuf_class"@, JsonV::Str(s)),
        None => e,
    };
    if include_raw {
        with_field(e, "raw_bytes"@, JsonV::Str(hex_text(d)))
    } else {
        e
    }
}

/// The fields that a list of pairs holds.
pub open spec fn fields_view(f: Seq<(u32, Json)>) -> Seq<(u32, JsonV)> {
    f.map_values(|x: (u32, Json)| (x.0, x.1.view()))
}

fn odd_control(c: char) -> (r: bool)
    ensures
        r == is_odd_control(c),
{
    let n = c as u32;
    (n < 0x20 || (0x7f <= n && n < 0xa0)) && c != '\n' && c != '\r' && c != '\t'
}

/// The text that bytes read as, if they do.
fn plain_text(b: &[u8]) -> (r: Option<String>)
    ensures
        match r {
            Some(s) => is_text(b@) && s@ == decode_utf8(b@),
            None => !is_text(b@),
        },
{
    let s = match utf8_text(b) {
        Some(s) => s,
        None => return None,
    };
    let c = chars_of(&s);
    let mut i: usize = 0;
    while i < c.len()
        invariant
            i <= c@.len(),
            valid_utf8(b@),
            c@ == decode_utf8(b@),
            forall|k: int| 0 <= k < i ==> !is_odd_control(#[trigger] c@[k]),
        decreases c@.len() - i,
    {
        if odd_control(c[i]) {
            return None;
        }
        i += 1;
    }
    Some(s)
}

fn field_name(n: u32) -> (r: String)
    ensures
        r@ == field_key(n),
{
    join2("field_", &u64_text(n as u64))
}

fn object_of(f: &Vec<(u32, Json)>) -> (r: Json)
    ensures
        r.view() == JsonV::Object(members(fields_view(f@), f@.len() as int)),
{
    let mut out: Vec<(String, Json)> = Vec::new();
    let mut i: usize = 0;
    assert(entries_view(out@) =~= Seq::<(Seq<char>, JsonV)>::empty());
    while i < f.len()
        invariant
            i <= f@.len(),
            entries_view(out@) == members(fields_view(f@), i as int),
        decreases f@.len() - i,
    {
        assert(fields_view(f@)[i as int] == (f@[i as int].0, f@[i as int].1.view()));
        put_json(&mut out, &field_name(f[i].0), f[i].1.copy());
        i += 1;
    }
    Json::Object(out)
}

impl ProtobufCodec {
    /// Whether the codec is the one that settings ask for.
    pub open spec fn configured(&self, settings: JsonV) -> bool {
        opt_view(self.class_name) == text_setting(
                settings,
                "class_name"@,
            ) && self.include_raw == flag_setting(settings, "include_raw"@, false)
    }

    pub fn from_config(settings: &Json) -> (r: Result<Self, CodecError>)
        ensures
            r matches Ok(c) && c.configured(settings.view()),
    {
        Ok(
            Self {
                class_name: get_text(settings, "class_name"),
                include_raw: get_flag(settings, "include_raw", false),
            },
        )
    }

    /// Reads the number at `offset` and moves behind it.
    pub fn read_varint(data: &[u8], offset: &mut usize) -> (r: Option<u64>)
        ensures
            *old(offset) <= data@.len() ==> (r, *final(offset) as int) == varint(
                data@,
                *old(offset) as int,
            ),
            *old(offset) > data@.len() ==> r is None && *final(offset) == *old(offset),
    {
        read_varint(data, offset)
    }

    fn decode_delimited(b: &[u8], answers: &Answers) -> (r: Result<Json, DoubleQuery>)
        ensures
            match (r, delimited(answers@, b@)) {
                (Ok(x), Ok(y)) => x.view() == y,
                (Err(x), Err(y)) => x@ == y,
                _ => false,
            },
        decreases b@.len(), 2nat,
    {
        if let Some(s) = plain_text(b) {
            return Ok(Json::Str(s));
        }
        match Self::decode_fields(b, answers) {
            Err(q) => Err(q),
            Ok(f) => {
                assert(fields_view(f@).len() == f@.len());
                if f.len() == 0 {
                    Ok(Json::Str(encode(b)))
                } else {
                    Ok(object_of(&f))
                }
            },
        }
    }

    #[verifier::spinoff_prover]
    fn decode_value(data: &[u8], at: usize, wire: u64, answers: &Answers) -> (r: Result<
        Option<(Json, usize)>,
        DoubleQuery,
    >)
        requires
            0 < at <= data.len(),
        ensures
            match (r, proto_value(answers@, data@, at as int, wire as int)) {
                (Ok(Some((x, n))), Ok(Some((y, m)))) => x.view() == y && n == m && at <= n
                    <= data@.len(),
                (Ok(None), Ok(None)) => true,
                (Err(x), Err(y)) => x@ == y,
                _ => false,
            },
        decreases data@.len(), 0nat,
    {
        let mut next: usize = at;
        match wire {
            0 => match read_varint(data, &mut next) {
                Some(v) => Ok(Some((Json::Int(v as i64), next))),
                None => Ok(None),
            },
            1 => {
                if data.len() - at < 8 {
                    return Ok(None);
                }
                let bits = le_u64(data, at, 8);
                match whole(bits) {
                    Some(n) => Ok(Some((Json::Int(n), at + 8))),
                    None => Ok(Some((Json::Float(Double::Bits(bits)), at + 8))),
                }
            },
            2 => {
                let n = match read_varint(data, &mut next) {
                    Some(n) => n,
                    None => return Ok(None),
                };
                if n > (data.len() - next) as u64 {
                    return Ok(None);
                }
                let end: usize = next + n as usize;
                match Self::decode_delimited(sub_slice(data, next, end), answers) {
                    Ok(v) => Ok(Some((v, end))),
                    Err(q) => Err(q),
                }
            },
            5 => {
                if data.len() - at < 4 {
                    return Ok(None);
                }
                proof {
                    crate::codec::wire::lemma_pow256();
                }
                let bits = le_u64(data, at, 4);
                match answers.bits(ask1("single", Double::Int(bits as i64))) {
                    Ok(b) => Ok(Some((Json::Float(Double::Bits(b)), at + 4))),
                    Err(q) => Err(q),
                }
            },
            _ => Ok(None),
        }
    }

    /// The fields of a message, up to the first that is not well formed.
    #[verifier::spinoff_prover]
    pub fn decode_fields(data: &[u8], answers: &Answers) -> (r: Result<
        Vec<(u32, Json)>,
        DoubleQuery,
    >)
        ensures
            match (r, proto_fields(answers@, data@, 0, Seq::empty())) {
                (Ok(x), Ok(y)) => fields_view(x@) == y,
                (Err(x), Err(y)) => x@ == y,
                _ => false,
            },
        decreases data@.len(), 1nat,
    {
        let mut out: Vec<(u32, Json)> = Vec::new();
        let mut at: usize = 0;
        assert(fields_view(out@) =~= Seq::<(u32, JsonV)>::empty());
        while at < data.len()
            invariant
                at <= data@.len(),
                proto_fields(answers@, data@, 0, Seq::empty()) == proto_fields(
                    answers@,
                    data@,
                    at as int,
                    fields_view(out@),
                ),
            decreases data@.len() - at,
        {
            let mut next: usize = at;
            let tag = match read_varint(data, &mut next) {
                Some(t) => t,
                None => return Ok(out),
            };
            match Self::decode_value(data, next, tag % 8, answers) {
                Err(q) => return Err(q),
                Ok(None) => return Ok(out),
                Ok(Some((v, behind))) => {
                    let ghost before = fields_view(out@);
                    let ghost w = ((tag / 8) as u32, v.view());
                    out.push(((tag / 8) as u32, v));
                    assert(fields_view(out@) =~= before.push(w));
                    at = behind;
                },
            }
        }
        Ok(out)
    }
}

/// The bytes in lower-case hexadecimal.
pub fn hex_encode(data: &[u8]) -> (r: String)
    ensures
        r@ == hex_text(data@),
{
    encode(data)
}

impl Default for ProtobufCodec {
    fn default() -> (r: Self)
        ensures
            r.class_name is None,
            !r.include_raw,
    {
        Self { class_name: None, include_raw: false }
    }
}

impl Codec for ProtobufCodec {
    open spec fn name_v(&self) -> Seq<char> {
        "protobuf"@
    }

    open spec fn decoded(&self, data: Seq<u8>, now: Moment, t: AnswersV) -> DecodedV {
        if data.len() == 0 {
            Err(CodecErrV::Codec("empty protobuf data"@))
        } else {
            match proto_fields(t, data, 0, Seq::empty()) {
                Err(q) => Err(CodecErrV::Ask(q)),
                Ok(f) => if f.len() == 0 {
                    Err(CodecErrV::Codec("no valid protobuf fields decoded"@))
                } else {
                    Ok(
                        seq![
                            message_fields(
                                data,
                                f,
                                opt_view(self.class_name),
                                self.include_raw,
                                now,
                            ),
                        ],
                    )
                },
            }
        }
    }

    open spec fn encoded(&self, e: EventV, t: AnswersV) -> EncodedV {
        json_bytes(e, t, false)
    }

    open spec fn learned(&self) -> TemplatesV {
        Map::empty()
    }

    open spec fn learned_after(&self, data: Seq<u8>) -> TemplatesV {
        Map::empty()
    }

    open spec fn stateful(&self) -> bool {
        false
    }

    fn name(&self) -> (r: &'static str) {
        "protobuf"
    }

    fn decode(&mut self, data: &[u8], now: Moment, answers: &Answers) -> (r: Result<
        Vec<Event>,
        CodecError,
    >)
        ensures
            *final(self) == *old(self),
    {
        if data.len() == 0 {
            return Err(CodecError::Codec("empty protobuf data".to_owned()));
        }
        let fields = match Self::decode_fields(data, answers) {
            Ok(f) => f,
            Err(q) => return Err(CodecError::Ask(q)),
        };
        assert(fields_view(fields@).len() == fields@.len());
        if fields.len() == 0 {
            return Err(CodecError::Codec("no valid protobuf fields decoded".to_owned()));
        }
        let mut event = Event::empty(now);
        let ghost fs = fields_view(fields@);
        let mut i: usize = 0;
        while i < fields.len()
            invariant
                i <= fields@.len(),
                fs == fields_view(fields@),
                is_event(event@),
                with_fields(blank(now), fs, 0) == with_fields(event@, fs, i as int),
            decreases fields@.len() - i,
        {
            assert(fs[i as int] == (fields@[i as int].0, fields@[i as int].1.view()));
            event.set(&field_name(fields[i].0), fields[i].1.copy());
            i += 1;
        }
        if let Some(s) = &self.class_name {
            event.set("protobuf_class", Json::Str(s.clone()));
        }
        if self.include_raw {
            event.set("raw_bytes", Json::Str(hex_encode(data)));
        }
        Ok(one_event(event))
    }

    fn encode(&self, event: &Event, answers: &Answers) -> (r: Result<Vec<u8>, CodecError>) {
        match event.to_json_string(answers) {
            Ok(s) => Ok(text_bytes(&s)),
            Err(q) => Err(CodecError::Ask(q)),
        }
    }

    fn is_stateful(&self) -> (r: bool) {
        false
    }
}

} // verus!
