//! Dots codec: a dot for each event, to watch throughput.
use crate::codec::{
    lossy_text, one_event, utf8_lossy, Codec, CodecError, DecodedV, EncodedV, TemplatesV,
};
use crate::double::{Answers, AnswersV};
use crate::event::{message_event, Event, EventV};
use crate::json::Json;
use crate::moment::Moment;
use crate::text::{trim_end, trim_end_text};
use vstd::prelude::*;

verus! {

broadcast use vstd::string::group_string_axioms;

/// Writes a dot for each event.
#[derive(Debug, Clone, Copy, PartialEq, Eq)]
pub struct DotsCodec;

/// The text of the data without white space at its end, as message.
pub open spec fn trimmed_event(data: Seq<u8>, now: Moment) -> EventV {
    message_event(trim_end_text(utf8_lossy(data)), now)
}

impl DotsCodec {
    pub fn from_config(_settings: &Json) -> (r: Result<Self, CodecError>)
        ensures
            r is Ok,
    {
        Ok(Self)
    }
}

impl Default for DotsCodec {
    fn default() -> Self {
        Self
    }
}

impl Codec for DotsCodec {
    open spec fn name_v(&self) -> Seq<char> {
        "dots"@
    }

    open spec fn decoded(&self, data: Seq<u8>, now: Moment, t: AnswersV) -> DecodedV {
        Ok(seq![trimmed_event(data, now)])
    }

    open spec fn encoded(&self, e: EventV, t: AnswersV) -> EncodedV {
        Ok(seq![0x2e])
    }

    open spec fn learned(&self) -> TemplatesV {
        Map::empty()
    }

    open spec fn learned_after(&self, data: Seq<u8>) -> TemplatesV {
        Map::empty()
    }

    open spec fn stateful(&self) -> bool {
        false
    }

    fn name(&self) -> (r: &'static str) {
        "dots"
    }

    fn decode(&mut self, data: &[u8], now: Moment, answers: &Answers) -> (r: Result<
        Vec<Event>,
        CodecError,
    >)
        ensures
            *final(self) == *old(self),
    {
        Ok(one_event(Event::new(&trim_end(&lossy_text(data)), now)))
    }

    fn encode(&self, event: &Event, answers: &Answers) -> (r: Result<Vec<u8>, CodecError>) {
        let mut r: Vec<u8> = Vec::new();
        r.push(0x2e);
        assert(r@ =~= seq![0x2eu8]);
        Ok(r)
    }

    fn is_stateful(&self) -> (r: bool) {
        false
    }
}

} // verus!
