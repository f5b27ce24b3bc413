//! Bytes codec: raw data as the message, nothing split or trimmed.
use crate::codec::{
    lossy_text, one_event, text_bytes, utf8_lossy, utf8_text, Codec, CodecError, DecodedV,
    EncodedV, TemplatesV,
};
use crate::double::{Answers, AnswersV};
use crate::event::{field_of, message_event, message_of, with_field, Event, EventV};
use crate::json::{jsons_view, Json, JsonV};
use crate::moment::Moment;
use crate::text::same;
use vstd::prelude::*;
use vstd::utf8::{encode_utf8, valid_utf8};

verus! {

broadcast use vstd::string::group_string_axioms;

/// Passes raw bytes as the `message` field without line splitting.
///
/// Unlike the plain codec, which drops line ends, it keeps the content byte by
/// byte: data that is not UTF-8 is kept in the metadata beside the message.
#[derive(Debug, Clone, Copy, PartialEq, Eq)]
pub struct BytesCodec;

/// Bytes as a list of integers.
pub open spec fn bytes_json(data: Seq<u8>) -> JsonV {
    JsonV::Array(data.map_values(|b: u8| JsonV::Int(b as i64)))
}

/// A value that is a byte.
pub open spec fn is_byte(v: JsonV) -> bool {
    v matches JsonV::Int(n) && 0 <= n <= 255
}

/// The bytes that a list of integers is, if it is one.
pub open spec fn bytes_of_json(v: JsonV) -> Option<Seq<u8>> {
    match v {
        JsonV::Array(a) => if forall|i: int| 0 <= i < a.len() ==> is_byte(#[trigger] a[i]) {
            Some(a.map_values(|x: JsonV| x->Int_0 as u8))
        } else {
            None
        },
        _ => None,
    }
}

/// The text of the data as message, and its length in `content_length`; where
/// the data is not UTF-8, the data itself in the metadata.
pub open spec fn bytes_event(data: Seq<u8>, now: Moment) -> EventV {
    let e = with_field(
        message_event(utf8_lossy(data), now),
        "content_length"@,
        JsonV::Int(data.len() as i64),
    );
    if valid_utf8(data) {
        e
    } else {
        with_field(e, "[@metadata][bytes]"@, bytes_json(data))
    }
}

/// The raw bytes that an event keeps, where the message is still their text.
pub open spec fn raw_bytes(e: EventV) -> Option<Seq<u8>> {
    match field_of(e, "[@metadata][bytes]"@) {
        Some(v) => match bytes_of_json(v) {
            Some(b) => if message_of(e) == Some(utf8_lossy(b)) {
                Some(b)
            } else {
                None
            },
            None => None,
        },
        None => None,
    }
}

/// The raw bytes of the event, or those of its message; nothing where there is
/// none.
pub open spec fn message_bytes(e: EventV) -> Seq<u8> {
    match raw_bytes(e) {
        Some(b) => b,
        None => match message_of(e) {
            Some(s) => encode_utf8(s),
            None => Seq::empty(),
        },
    }
}

fn make_bytes_json(data: &[u8]) -> (r: Json)
    ensures
        r.view() == bytes_json(data@),
{
    let mut a: Vec<Json> = Vec::new();
    let mut i: usize = 0;
    while i < data.len()
        invariant
            i <= data@.len(),
            jsons_view(a@) =~= data@.subrange(0, i as int).map_values(|b: u8| JsonV::Int(b as i64)),
        decreases data@.len() - i,
    {
        let ghost before = jsons_view(a@);
        a.push(Json::Int(data[i] as i64));
        assert(jsons_view(a@) =~= before.push(JsonV::Int(data@[i as int] as i64)));
        i += 1;
    }
    assert(data@.subrange(0, i as int) =~= data@);
    Json::Array(a)
}

fn find_bytes_json(v: &Json) -> (r: Option<Vec<u8>>)
    ensures
        match r {
            Some(b) => bytes_of_json(v.view()) == Some(b@),
            None => bytes_of_json(v.view()) is None,
        },
{
    let a = match v {
        Json::Array(a) => a,
        _ => return None,
    };
    let ghost av = jsons_view(a@);
    let mut out: Vec<u8> = Vec::new();
    let mut i: usize = 0;
    while i < a.len()
        invariant
            i <= a@.len(),
            av == jsons_view(a@),
            v.view() == JsonV::Array(av),
            forall|k: int| 0 <= k < i ==> is_byte(#[trigger] av[k]),
            out@ =~= av.subrange(0, i as int).map_values(|x: JsonV| x->Int_0 as u8),
        decreases a@.len() - i,
    {
        assert(av[i as int] == a@[i as int].view());
        match &a[i] {
            Json::Int(n) => {
                if *n < 0 || *n > 255 {
                    assert(!is_byte(av[i as int]));
                    return None;
                }
                out.push(*n as u8);
            },
            _ => {
                assert(!is_byte(av[i as int]));
                return None;
            },
        }
        i += 1;
    }
    assert(av.subrange(0, i as int) =~= av);
    Some(out)
}

fn find_raw(event: &Event) -> (r: Option<Vec<u8>>)
    ensures
        match r {
            Some(b) => raw_bytes(event@) == Some(b@),
            None => raw_bytes(event@) is None,
        },
{
    let b = match event.get("[@metadata][bytes]") {
        Some(v) => match find_bytes_json(v) {
            Some(b) => b,
            None => return None,
        },
        None => return None,
    };
    match event.message() {
        Some(s) => if same(s, &lossy_text(b.as_slice())) {
            Some(b)
        } else {
            None
        },
        None => None,
    }
}

impl BytesCodec {
    pub fn from_config(_settings: &Json) -> (r: Result<Self, CodecError>)
        ensures
            r is Ok,
    {
        Ok(Self)
    }
}

impl Default for BytesCodec {
    fn default() -> Self {
        Self
    }
}

impl Codec for BytesCodec {
    open spec fn name_v(&self) -> Seq<char> {
        "bytes"@
    }

    open spec fn decoded(&self, data: Seq<u8>, now: Moment, t: AnswersV) -> DecodedV {
        Ok(seq![bytes_event(data, now)])
    }

    open spec fn encoded(&self, e: EventV, t: AnswersV) -> EncodedV {
        Ok(message_bytes(e))
    }

    open spec fn learned(&self) -> TemplatesV {
        Map::empty()
    }

    open spec fn learned_after(&self, data: Seq<u8>) -> TemplatesV {
        Map::empty()
    }

    open spec fn stateful(&self) -> bool {
        false
    }

    fn name(&self) -> (r: &'static str) {
        "bytes"
    }

    fn decode(&mut self, data: &[u8], now: Moment, answers: &Answers) -> (r: Result<
        Vec<Event>,
        CodecError,
    >)
        ensures
            *final(self) == *old(self),
    {
        let mut event = Event::new(&lossy_text(data), now);
        event.set("content_length", Json::Int(data.len() as i64));
        if utf8_text(data).is_none() {
            event.set("[@metadata][bytes]", make_bytes_json(data));
        }
        Ok(one_event(event))
    }

    fn encode(&self, event: &Event, answers: &Answers) -> (r: Result<Vec<u8>, CodecError>) {
        if let Some(b) = find_raw(event) {
            return Ok(b);
        }
        match event.message() {
            Some(s) => Ok(text_bytes(s)),
            None => Ok(Vec::new()),
        }
    }

    fn is_stateful(&self) -> (r: bool) {
        false
    }
}

} // verus!
