//! MessagePack codec: compact binary serialization.
use crate::codec::json::{get_text, make_event, opt_view, text_setting, value_event};
use crate::codec::{one_event, Codec, CodecErrV, CodecError, DecodedV, EncodedV, TemplatesV};
use crate::double::{Answers, AnswersV};
use crate::event::{json_of_event, Event, EventV};
use crate::interchange::{
    is_short, msgpack_bytes, msgpack_read, parse_msgpack, readable, serde_view, write_msgpack,
    written,
};
use crate::json::{Json, JsonV};
use crate::moment::Moment;
use crate::text::join2;
use vstd::prelude::*;

verus! {

broadcast use vstd::string::group_string_axioms;

/// MessagePack codec configuration.
#[derive(Debug, PartialEq)]
pub struct MsgpackCodec {
    /// Target field for decoded data (none: merge into root).
    pub target: Option<String>,
}

impl MsgpackCodec {
    /// Whether the codec is the one that settings ask for.
    pub open spec fn configured(&self, settings: JsonV) -> bool {
        opt_view(self.target) == text_setting(settings, "target"@)
    }

    pub fn from_config(settings: &Json) -> (r: Result<Self, CodecError>)
        ensures
            r matches Ok(c) && c.configured(settings.view()),
    {
        Ok(Self { target: get_text(settings, "target") })
    }
}

impl Default for MsgpackCodec {
    fn default() -> (r: Self)
        ensures
            r.target is None,
    {
        Self { target: None }
    }
}

impl Codec for MsgpackCodec {
    open spec fn name_v(&self) -> Seq<char> {
        "msgpack"@
    }

    open spec fn decoded(&self, data: Seq<u8>, now: Moment, t: AnswersV) -> DecodedV {
        match msgpack_read(data) {
            Ok(j) => Ok(seq![value_event(opt_view(self.target), j, now)]),
            Err(e) => Err(CodecErrV::Codec("msgpack decode error: "@ + e)),
        }
    }

    open spec fn encoded(&self, e: EventV, t: AnswersV) -> EncodedV {
        match written(t, json_of_event(e)) {
            Ok(w) => Ok(msgpack_bytes(serde_view(w))),
            Err(q) => Err(CodecErrV::Ask(q)),
        }
    }

    open spec fn learned(&self) -> TemplatesV {
        Map::empty()
    }

    open spec fn learned_after(&self, data: Seq<u8>) -> TemplatesV {
        Map::empty()
    }

    open spec fn stateful(&self) -> bool {
        false
    }

    fn name(&self) -> (r: &'static str) {
        "msgpack"
    }

    fn decode(&mut self, data: &[u8], now: Moment, answers: &Answers) -> (r: Result<
        Vec<Event>,
        CodecError,
    >)
        ensures
            *final(self) == *old(self),
    {
        match parse_msgpack(data) {
            Ok(j) => Ok(one_event(make_event(&self.target, j, now))),
            Err(e) => Err(CodecError::Codec(join2("msgpack decode error: ", &e))),
        }
    }

    fn encode(&self, event: &Event, answers: &Answers) -> (r: Result<Vec<u8>, CodecError>)
        ensures
            match (r, written(answers@, json_of_event(event@))) {
                (Ok(b), Ok(w)) => readable(serde_view(w)) && is_short(serde_view(w))
                    ==> forall|now: Moment, t: AnswersV| #[trigger]
                    self.decoded(b@, now, t) == Ok::<Seq<EventV>, CodecErrV>(
                        seq![value_event(opt_view(self.target), serde_view(w), now)],
                    ),
                _ => true,
            },
    {
        match write_msgpack(&event.to_json(), answers) {
            Ok(b) => Ok(b),
            Err(q) => Err(CodecError::Ask(q)),
        }
    }

    fn is_stateful(&self) -> (r: bool) {
        false
    }
}

} // verus!
