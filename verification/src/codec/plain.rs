//! Plain text codec: each line is the message of an event.
use crate::codec::json::{get_text, opt_view, text_setting};
use crate::codec::{
    are_events, events_view, lossy_text, text_bytes, utf8_lossy, Codec, CodecErrV, CodecError,
    DecodedV, EncodedV, TemplatesV,
};
use crate::double::{Answers, AnswersV};
use crate::event::{filled, message_event, message_of, Event, EventV};
use crate::json::{Json, JsonV};
use crate::moment::Moment;
use crate::text::{chars_of, join2, split, split_text, string_of, texts_view};
use vstd::prelude::*;
use vstd::utf8::encode_utf8;

verus! {

broadcast use vstd::string::group_string_axioms;

/// Plain text codec configuration.
#[derive(Debug, PartialEq)]
pub struct PlainCodec {
    /// Character encoding (default: "UTF-8").
    pub charset: String,
    /// Output format string.
    pub format: Option<String>,
}

/// The length of a text without the characters `c` at its end, up to `j`.
pub open spec fn end_without(s: Seq<char>, c: char, j: int) -> int
    decreases j,
{
    if j <= 0 || s[j - 1] != c {
        j
    } else {
        end_without(s, c, j - 1)
    }
}

/// A text without the characters `c` at its end.
pub open spec fn without_end(s: Seq<char>, c: char) -> Seq<char> {
    s.subrange(0, end_without(s, c, s.len() as int))
}

/// A text without line feeds, then carriage returns, at its end.
pub open spec fn line_text(s: Seq<char>) -> Seq<char> {
    without_end(without_end(s, '\n'), '\r')
}

/// The lines of a text. Line feeds at its end do not count.
pub open spec fn text_lines(s: Seq<char>) -> Seq<Seq<char>> {
    split_text(without_end(s, '\n'), "\n"@)
}

/// One event for each line of a text, with the line as its message.
pub open spec fn line_events(s: Seq<char>, now: Moment) -> Seq<EventV> {
    Seq::new(
        text_lines(s).len(),
        |i: int| message_event(without_end(text_lines(s)[i], '\r'), now),
    )
}

/// Drops the characters `c` at the end of a text.
pub(crate) fn drop_end(s: &str, c: char) -> (r: String)
    ensures
        r@ == without_end(s@, c),
{
    let v = chars_of(s);
    let mut j: usize = v.len();
    while j > 0 && v[j - 1] == c
        invariant
            j <= v@.len(),
            v@ == s@,
            end_without(s@, c, s@.len() as int) == end_without(s@, c, j as int),
        decreases j,
    {
        j -= 1;
    }
    string_of(v.as_slice(), 0, j)
}

/// Drops line feeds, then carriage returns, at the end of a text.
pub(crate) fn drop_line_end(s: &str) -> (r: String)
    ensures
        r@ == line_text(s@),
{
    drop_end(&drop_end(s, '\n'), '\r')
}

impl PlainCodec {
    /// Whether the codec is the one that settings ask for.
    pub open spec fn configured(&self, settings: JsonV) -> bool {
        self.charset@ == (match text_setting(settings, "charset"@) {
                Some(s) => s,
                None => "UTF-8"@,
            }) && opt_view(self.format) == text_setting(settings, "format"@)
    }

    pub fn from_config(settings: &Json) -> (r: Result<Self, CodecError>)
        ensures
            r matches Ok(c) && c.configured(settings.view()),
    {
        let charset = match get_text(settings, "charset") {
            Some(s) => s,
            None => "UTF-8".to_owned(),
        };
        Ok(Self { charset, format: get_text(settings, "format") })
    }
}

impl Default for PlainCodec {
    fn default() -> (r: Self)
        ensures
            r.charset@ == "UTF-8"@,
            r.format is None,
    {
        Self { charset: "UTF-8".to_owned(), format: None }
    }
}

impl Codec for PlainCodec {
    open spec fn name_v(&self) -> Seq<char> {
        "plain"@
    }

    open spec fn decoded(&self, data: Seq<u8>, now: Moment, t: AnswersV) -> DecodedV {
        Ok(line_events(utf8_lossy(data), now))
    }

    open spec fn encoded(&self, e: EventV, t: AnswersV) -> EncodedV {
        match self.format {
            Some(f) => match filled(t, e, f@, 0, Seq::empty()) {
                Ok(s) => Ok(encode_utf8(s)),
                Err(q) => Err(CodecErrV::Ask(q)),
            },
            None => Ok(
                encode_utf8(
                    (match message_of(e) {
                        Some(s) => s,
                        None => ""@,
                    }) + "\n"@,
                ),
            ),
        }
    }

    open spec fn learned(&self) -> TemplatesV {
        Map::empty()
    }

    open spec fn learned_after(&self, data: Seq<u8>) -> TemplatesV {
        Map::empty()
    }

    open spec fn stateful(&self) -> bool {
        false
    }

    fn name(&self) -> (r: &'static str) {
        "plain"
    }

    fn decode(&mut self, data: &[u8], now: Moment, answers: &Answers) -> (r: Result<
        Vec<Event>,
        CodecError,
    >)
        ensures
            *final(self) == *old(self),
    {
        let lines = split(&drop_end(&lossy_text(data), '\n'), "\n");
        let ghost lv = texts_view(lines@);
        let mut events: Vec<Event> = Vec::new();
        let mut i: usize = 0;
        while i < lines.len()
            invariant
                i <= lines@.len(),
                lv == texts_view(lines@),
                are_events(events@),
                events_view(events@) =~= Seq::new(
                    i as nat,
                    |k: int| message_event(without_end(lv[k], '\r'), now),
                ),
            decreases lines@.len() - i,
        {
            assert(lv[i as int] == lines@[i as int]@);
            let e = Event::new(&drop_end(&lines[i], '\r'), now);
            let ghost before = events_view(events@);
            events.push(e);
            assert(events_view(events@) =~= before.push(e@));
            i += 1;
        }
        assert(events_view(events@) =~= line_events(utf8_lossy(data@), now));
        Ok(events)
    }

    fn encode(&self, event: &Event, answers: &Answers) -> (r: Result<Vec<u8>, CodecError>) {
        if let Some(f) = &self.format {
            return match event.sprintf(f, answers) {
                Ok(s) => Ok(text_bytes(&s)),
                Err(q) => Err(CodecError::Ask(q)),
            };
        }
        let msg = match event.message() {
            Some(s) => s,
            None => "",
        };
        Ok(text_bytes(&join2(msg, "\n")))
    }

    fn is_stateful(&self) -> (r: bool) {
        false
    }
}

} // verus!
