//! Codecs: events from bytes, and bytes from events.
pub mod avro;
pub mod bulk_laws;
pub mod bytes_codec;
pub mod cef;
pub mod cef_laws;
pub mod cloudfront;
pub mod cloudtrail;
pub mod collectd;
pub mod collectd_laws;
pub mod csv_codec;
pub mod dots;
pub mod edn;
pub mod edn_laws;
pub mod encode_laws;
pub mod es_bulk;
pub mod fluent;
pub mod format_laws;
pub mod graphite;
pub mod hex;
pub mod json;
pub mod laws;
pub mod msgpack;
pub mod layout;
pub mod multiline;
pub mod netflow;
pub mod netflow_laws;
pub mod nmap;
pub mod nmap_laws;
pub mod plain;
pub mod protobuf;
pub mod record_laws;
pub mod registry;
pub mod rubydebug;
pub mod script;
pub mod script_laws;
pub mod varint;
pub mod wire;
pub mod wire_laws;

pub use registry::{create_codec, default_codec, supported_codecs, AnyCodec};

use crate::double::{Answers, AnswersV, DoubleQuery, QueryV};
use crate::event::{is_event, Event, EventV};
use crate::moment::Moment;
use vstd::prelude::*;
use vstd::utf8::{decode_utf8, encode_utf8, valid_utf8};

verus! {

broadcast use vstd::string::group_string_axioms;

/// Why a codec gave no result.
#[derive(Debug, PartialEq)]
pub enum CodecError {
    /// The data or the event does not fit the format.
    Codec(String),
    /// The answer to a computation with doubles is not known yet.
    Ask(DoubleQuery),
}

/// What a [`CodecError`] says.
pub enum CodecErrV {
    Codec(Seq<char>),
    Ask(QueryV),
}

impl View for CodecError {
    type V = CodecErrV;

    open spec fn view(&self) -> CodecErrV {
        match self {
            CodecError::Codec(m) => CodecErrV::Codec(m@),
            CodecError::Ask(q) => CodecErrV::Ask(q@),
        }
    }
}

pub type DecodedV = Result<Seq<EventV>, CodecErrV>;

pub type EncodedV = Result<Seq<u8>, CodecErrV>;

pub open spec fn events_view(s: Seq<Event>) -> Seq<EventV> {
    s.map_values(|e: Event| e@)
}

/// No field and no tag of any of the events occurs twice.
pub open spec fn are_events(s: Seq<Event>) -> bool {
    forall|i: int| 0 <= i < s.len() ==> is_event(#[trigger] s[i]@)
}

/// Whether `r` are the events or the error `s`.
pub open spec fn gives_events(r: Result<Vec<Event>, CodecError>, s: DecodedV) -> bool {
    match (r, s) {
        (Ok(x), Ok(y)) => events_view(x@) == y,
        (Err(x), Err(y)) => x@ == y,
        _ => false,
    }
}

/// Whether `r` are the bytes or the error `s`.
pub open spec fn gives_bytes(r: Result<Vec<u8>, CodecError>, s: EncodedV) -> bool {
    match (r, s) {
        (Ok(x), Ok(y)) => x@ == y,
        (Err(x), Err(y)) => x@ == y,
        _ => false,
    }
}

/// Templates that a codec has learned: for each number, the type and length of
/// its fields.
pub type TemplatesV = Map<u16, Seq<(u16, u16)>>;

/// A codec that decodes raw bytes into events and encodes events to bytes.
pub trait Codec {
    /// The name that [`Codec::name`] gives.
    spec fn name_v(&self) -> Seq<char>;

    /// What [`Codec::decode`] gives.
    spec fn decoded(&self, data: Seq<u8>, now: Moment, t: AnswersV) -> DecodedV;

    /// What [`Codec::encode`] gives.
    spec fn encoded(&self, e: EventV, t: AnswersV) -> EncodedV;

    /// The templates that the codec keeps from one call of [`Codec::decode`] for
    /// later ones.
    spec fn learned(&self) -> TemplatesV;

    /// The templates that the codec keeps after it has decoded `data`.
    spec fn learned_after(&self, data: Seq<u8>) -> TemplatesV;

    /// What [`Codec::is_stateful`] gives.
    spec fn stateful(&self) -> bool;

    /// Codec name.
    fn name(&self) -> (r: &'static str)
        ensures
            r@ == self.name_v(),
    ;

    /// Decode a chunk of data into events; some formats give several. `now` is
    /// the time of events that carry none.
    fn decode(&mut self, data: &[u8], now: Moment, answers: &Answers) -> (r: Result<
        Vec<Event>,
        CodecError,
    >)
        ensures
            gives_events(r, old(self).decoded(data@, now, answers@)),
            r matches Ok(events) ==> are_events(events@),
            final(self).learned() == old(self).learned_after(data@),
    ;

    /// Encode an event to bytes for output.
    fn encode(&self, event: &Event, answers: &Answers) -> (r: Result<Vec<u8>, CodecError>)
        ensures
            gives_bytes(r, self.encoded(event@, answers@)),
    ;

    /// Whether this codec is meant to join the data of several calls of
    /// [`Codec::decode`], and may need flushing.
    fn is_stateful(&self) -> (r: bool)
        ensures
            r == self.stateful(),
    ;
}

/// The text of bytes that are not UTF-8: each part that is not is replaced by
/// U+FFFD.
pub uninterp spec fn utf8_repaired(data: Seq<u8>) -> Seq<char>;

/// The text that bytes are read as where they need not be UTF-8.
pub open spec fn utf8_lossy(data: Seq<u8>) -> Seq<char> {
    if valid_utf8(data) {
        decode_utf8(data)
    } else {
        utf8_repaired(data)
    }
}

/// `String::from_utf8_lossy`: bytes that are UTF-8 give their text; the text of
/// others is a function of the bytes, which [`utf8_repaired`] names.
#[verifier::external_body]
pub(crate) fn lossy_text(data: &[u8]) -> (r: String)
    ensures
        r@ == (if valid_utf8(data@) {
            decode_utf8(data@)
        } else {
            utf8_repaired(data@)
        }),
{
    String::from_utf8_lossy(data).into_owned()
}

/// `std::str::from_utf8`: the text of bytes that are UTF-8, and nothing for
/// others.
#[verifier::external_body]
pub(crate) fn utf8_text(data: &[u8]) -> (r: Option<String>)
    ensures
        match r {
            Some(s) => valid_utf8(data@) && s@ == decode_utf8(data@),
            None => !valid_utf8(data@),
        },
{
    std::str::from_utf8(data).ok().map(|s| s.to_owned())
}

/// A list of one event.
pub(crate) fn one_event(e: Event) -> (r: Vec<Event>)
    ensures
        events_view(r@) == seq![e@],
        is_event(e@) ==> are_events(r@),
{
    let mut r: Vec<Event> = Vec::new();
    r.push(e);
    assert(events_view(r@) =~= seq![e@]);
    r
}

/// The bytes of a text.
pub(crate) fn text_bytes(s: &str) -> (r: Vec<u8>)
    ensures
        r@ == encode_utf8(s@),
{
    s.as_bytes_vec()
}

} // verus!
