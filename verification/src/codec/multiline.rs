//! Multiline codec: several lines that belong to one event.
use crate::codec::dots::trimmed_event;
use crate::codec::json::{flag_setting, get_flag, get_text, text_setting};
use crate::codec::{
    lossy_text, one_event, text_bytes, Codec, CodecErrV, CodecError, DecodedV, EncodedV,
    TemplatesV,
};
use crate::double::{Answers, AnswersV};
use crate::event::{message_of, Event, EventV};
use crate::json::{json_get, Json, JsonV};
use crate::moment::Moment;
use crate::script::regexes::{regex_fault, regex_found, Pattern};
use crate::text::{join2, same, trim_end};
use vstd::prelude::*;
use vstd::utf8::encode_utf8;

verus! {

broadcast use vstd::string::group_string_axioms;

/// How to handle pattern matches.
#[derive(Debug, Clone, Copy, PartialEq, Eq, Structural)]
pub enum MultilineMode {
    /// Lines matching the pattern are the start of a new event.
    Previous,
    /// Lines matching the pattern are the end of the current event.
    Next,
}

/// Multiline codec configuration.
#[derive(Debug)]
pub struct MultilineCodec {
    pub pattern: Pattern,
    pub mode: MultilineMode,
    /// Whether lines that do not match are the ones to merge.
    pub negate: bool,
    pub max_lines: usize,
    pub max_bytes: usize,
}

/// A setting that is a natural number within the range of a `u64`.
pub open spec fn count_setting(settings: JsonV, k: Seq<char>, default: u64) -> u64 {
    match json_get(settings, k) {
        Some(JsonV::Int(n)) => if n >= 0 {
            n as u64
        } else {
            default
        },
        Some(JsonV::UInt(n)) => n,
        _ => default,
    }
}

pub(crate) fn get_count(settings: &Json, k: &str, default: u64) -> (r: u64)
    ensures
        r == count_setting(settings.view(), k@, default),
{
    match settings.get(k) {
        Some(Json::Int(n)) => if *n >= 0 {
            *n as u64
        } else {
            default
        },
        Some(Json::UInt(n)) => *n,
        _ => default,
    }
}

/// The pattern that settings name.
pub open spec fn pattern_setting(settings: JsonV) -> Seq<char> {
    match text_setting(settings, "pattern"@) {
        Some(s) => s,
        None => "^\\s"@,
    }
}

#[verifier::truncate]
fn to_size(n: u64) -> (r: usize)
    ensures
        r == n as usize,
{
    n as usize
}

/// Lines that begin with white space.
fn default_pattern() -> (r: Pattern)
    ensures
        r.source_v() == "^\\s"@,
{
    Pattern::new("^\\s").unwrap()
}

impl MultilineCodec {
    /// Whether the codec is the one that settings ask for.
    pub open spec fn configured(&self, settings: JsonV) -> bool {
        self.pattern.source_v() == pattern_setting(settings) && self.mode == (
                if text_setting(settings, "what"@) == Some("next"@) {
                    MultilineMode::Next
                } else {
                    MultilineMode::Previous
                }) && self.negate == flag_setting(settings, "negate"@, false) && self.max_lines
                    == count_setting(settings, "max_lines"@, 500) as usize && self.max_bytes
                    == count_setting(settings, "max_bytes"@, 1_048_576) as usize
    }

    pub fn from_config(settings: &Json) -> (r: Result<Self, CodecError>)
        ensures
            match (r, regex_fault(pattern_setting(settings.view()))) {
                (Ok(c), None) => c.configured(settings.view()),
                (Err(e), Some(m)) => e@ == CodecErrV::Codec("invalid multiline pattern: "@ + m),
                _ => false,
            },
            pattern_setting(settings.view()) == "^\\s"@ ==> r is Ok,
    {
        let source = match get_text(settings, "pattern") {
            Some(s) => s,
            None => "^\\s".to_owned(),
        };
        let pattern = match Pattern::new(&source) {
            Ok(p) => p,
            Err(m) => return Err(CodecError::Codec(join2("invalid multiline pattern: ", &m))),
        };
        let mode = match get_text(settings, "what") {
            Some(s) => if same(&s, "next") {
                MultilineMode::Next
            } else {
                MultilineMode::Previous
            },
            None => MultilineMode::Previous,
        };
        Ok(
            Self {
                pattern,
                mode,
                negate: get_flag(settings, "negate", false),
                max_lines: to_size(get_count(settings, "max_lines", 500)),
                max_bytes: to_size(get_count(settings, "max_bytes", 1_048_576)),
            },
        )
    }

    /// Whether a line is to be merged with the current event.
    pub fn should_merge(&self, line: &str) -> (r: bool)
        ensures
            r == (regex_found(self.pattern.source_v(), line@) != self.negate),
    {
        let found = self.pattern.is_match(line);
        if self.negate {
            !found
        } else {
            found
        }
    }

    /// Returns the mode.
    pub fn mode(&self) -> (r: &MultilineMode)
        ensures
            *r == self.mode,
    {
        &self.mode
    }

    /// Returns the max lines setting.
    pub fn max_lines(&self) -> (r: usize)
        ensures
            r == self.max_lines,
    {
        self.max_lines
    }

    /// Returns the max bytes setting.
    pub fn max_bytes(&self) -> (r: usize)
        ensures
            r == self.max_bytes,
    {
        self.max_bytes
    }
}

impl Default for MultilineCodec {
    fn default() -> (r: Self)
        ensures
            r.pattern.source_v() == "^\\s"@,
            r.mode == MultilineMode::Previous,
            !r.negate,
            r.max_lines == 500,
            r.max_bytes == 1_048_576,
    {
        Self {
            pattern: default_pattern(),
            mode: MultilineMode::Previous,
            negate: false,
            max_lines: 500,
            max_bytes: 1_048_576,
        }
    }
}

impl Codec for MultilineCodec {
    open spec fn name_v(&self) -> Seq<char> {
        "multiline"@
    }

    /// A line alone is an event: what belongs together is merged before.
    open spec fn decoded(&self, data: Seq<u8>, now: Moment, t: AnswersV) -> DecodedV {
        Ok(seq![trimmed_event(data, now)])
    }

    open spec fn encoded(&self, e: EventV, t: AnswersV) -> EncodedV {
        Ok(
            encode_utf8(
                (match message_of(e) {
                    Some(s) => s,
                    None => ""@,
                }) + "\n"@,
            ),
        )
    }

    open spec fn learned(&self) -> TemplatesV {
        Map::empty()
    }

    open spec fn learned_after(&self, data: Seq<u8>) -> TemplatesV {
        Map::empty()
    }

    open spec fn stateful(&self) -> bool {
        true
    }

    fn name(&self) -> (r: &'static str) {
        "multiline"
    }

    fn decode(&mut self, data: &[u8], now: Moment, answers: &Answers) -> (r: Result<
        Vec<Event>,
        CodecError,
    >)
        ensures
            *final(self) == *old(self),
    {
        Ok(one_event(Event::new(&trim_end(&lossy_text(data)), now)))
    }

    fn encode(&self, event: &Event, answers: &Answers) -> (r: Result<Vec<u8>, CodecError>) {
        let msg = match event.message() {
            Some(s) => s,
            None => "",
        };
        Ok(text_bytes(&join2(msg, "\n")))
    }

    fn is_stateful(&self) -> (r: bool) {
        true
    }
}

} // verus!
