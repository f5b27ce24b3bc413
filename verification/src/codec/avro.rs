//! Avro codec: object container files, and JSON.
use crate::codec::json::{get_text, json_bytes, make_event, opt_view, text_setting, value_event};
use crate::codec::varint::{read_varint, unfold, varint, zigzag};
use crate::codec::wire::sub_slice;
use crate::codec::{
    lossy_text, one_event, text_bytes, utf8_lossy, Codec, CodecErrV, CodecError, DecodedV,
    EncodedV, TemplatesV,
};
use crate::dict::{find_key, lemma_key_from, lookup, put};
use crate::double::{Answers, AnswersV};
use crate::event::{blank, is_event, with_field, with_members, Event, EventV};
use crate::interchange::{json_read, parse_json};
use crate::json::{entries_view, text_value, Json, JsonV};
use crate::moment::Moment;
use crate::script::context::texts_map;
use vstd::prelude::*;

verus! {

broadcast use vstd::string::group_string_axioms;

/// Avro codec configuration.
#[derive(Debug, PartialEq)]
pub struct AvroCodec {
    /// Avro schema in JSON.
    pub schema_json: Option<String>,
    /// Target field for decoded data.
    pub target: Option<String>,
}

/// The signed number at a position, and the position behind it.
pub open spec fn long_at(d: Seq<u8>, at: int) -> (Option<i64>, int) {
    match varint(d, at) {
        (Some(n), next) => (Some(zigzag(n) as i64), next),
        (None, next) => (None, next),
    }
}

/// The bytes with a length at a position, and the position behind them.
pub open spec fn block_at(d: Seq<u8>, at: int) -> Option<(Seq<u8>, int)> {
    match long_at(d, at) {
        (Some(n), from) => if n >= 0 && from + n <= d.len() {
            Some((d.subrange(from, from + n), from + n))
        } else {
            None
        },
        _ => None,
    }
}

/// `n` entries of a header from `at` on, behind `acc`.
pub open spec fn meta_from(d: Seq<u8>, at: int, n: int, acc: Seq<(Seq<char>, Seq<char>)>) -> Option<
    (Seq<(Seq<char>, Seq<char>)>, int),
>
    decreases n,
{
    if n <= 0 {
        Some((acc, at))
    } else {
        match block_at(d, at) {
            None => None,
            Some((k, from)) => match block_at(d, from) {
                None => None,
                Some((v, next)) => meta_from(
                    d,
                    next,
                    n - 1,
                    put(acc, utf8_lossy(k), utf8_lossy(v)),
                ),
            },
        }
    }
}

/// The entries of a header, and the position behind it. A header with entries
/// ends with one more number.
pub open spec fn header_meta(d: Seq<u8>, at: int) -> Option<(Seq<(Seq<char>, Seq<char>)>, int)> {
    match long_at(d, at) {
        (Some(n), from) => if n <= 0 {
            Some((Seq::empty(), from))
        } else {
            match meta_from(d, from, n as int, Seq::empty()) {
                None => None,
                Some((m, behind)) => match long_at(d, behind) {
                    (Some(_), next) => Some((m, next)),
                    _ => None,
                },
            }
        },
        _ => None,
    }
}

/// The text under a key; empty where there is none.
pub open spec fn meta_text(m: Seq<(Seq<char>, Seq<char>)>, k: Seq<char>) -> Seq<char> {
    match lookup(m, k) {
        Some(s) => s,
        None => Seq::empty(),
    }
}

/// An event with what a block holds, where that is JSON: under a field, or the
/// members of an object as fields.
pub open spec fn with_block(e: EventV, block: Seq<u8>, target: Option<Seq<char>>) -> EventV {
    match json_read(block) {
        Ok(j) => match target {
            Some(f) => with_field(e, f, j),
            None => match j {
                JsonV::Object(p) => with_members(e, p, 0),
                _ => e,
            },
        },
        Err(_) => e,
    }
}

/// An event with the first block from `at` on. A size below zero, or beyond
/// what can be counted, is noted and nothing more.
pub open spec fn with_first_block(
    e: EventV,
    d: Seq<u8>,
    at: int,
    target: Option<Seq<char>>,
) -> EventV {
    if at + 4 > d.len() {
        e
    } else {
        let (count, behind) = long_at(d, at);
        let e = match count {
            Some(n) => with_field(e, "block_record_count"@, JsonV::Int(n)),
            None => e,
        };
        let (size, from) = long_at(d, behind);
        match size {
            None => e,
            Some(n) => {
                let e = with_field(e, "block_size"@, JsonV::Int(n));
                if n <= 0 || from + n > usize::MAX || from >= d.len() {
                    e
                } else {
                    let end = if from + n < d.len() {
                        from + n
                    } else {
                        d.len() as int
                    };
                    with_block(e, d.subrange(from, end), target)
                }
            },
        }
    }
}

/// The event of an object container file.
pub open spec fn ocf_event(d: Seq<u8>, target: Option<Seq<char>>, now: Moment) -> Result<
    EventV,
    Seq<char>,
> {
    match header_meta(d, 4) {
        None => Err("failed to read Avro header metadata"@),
        Some((m, at)) => if at + 16 > d.len() {
            Err("Avro OCF too short for sync marker"@)
        } else {
            let e = with_field(
                blank(now),
                "avro_schema"@,
                JsonV::Str(meta_text(m, "avro.schema"@)),
            );
            let e = with_field(e, "avro_codec"@, JsonV::Str(meta_text(m, "avro.codec"@)));
            let e = with_field(e, "avro_format"@, JsonV::Str("ocf"@));
            Ok(with_first_block(e, d, at + 16, target))
        },
    }
}

/// Whether data begins as an object container file does: `Obj` and a one.
pub open spec fn is_ocf(d: Seq<u8>) -> bool {
    d.len() >= 4 && d[0] == 0x4f && d[1] == 0x62 && d[2] == 0x6a && d[3] == 1
}

fn find_text(m: &Vec<(String, String)>, k: &str) -> (r: Json)
    ensures
        r.view() == JsonV::Str(meta_text(texts_map(m@), k@)),
{
    let i = find_key::<String, Seq<char>>(m, k, Ghost(texts_map(m@)));
    if i < m.len() {
        assert(texts_map(m@)[i as int] == (m@[i as int].0@, m@[i as int].1@));
        Json::Str(m[i].1.clone())
    } else {
        Json::Str(String::new())
    }
}

impl AvroCodec {
    /// Whether the codec is the one that settings ask for.
    pub open spec fn configured(&self, settings: JsonV) -> bool {
        opt_view(self.schema_json) == text_setting(settings, "schema"@)
                && opt_view(self.target) == text_setting(settings, "target"@)
    }

    pub fn from_config(settings: &Json) -> (r: Result<Self, CodecError>)
        ensures
            r matches Ok(c) && c.configured(settings.view()),
    {
        Ok(
            Self {
                schema_json: get_text(settings, "schema"),
                target: get_text(settings, "target"),
            },
        )
    }

    /// Reads the signed number at `offset` and moves behind it.
    pub fn read_varint(data: &[u8], offset: &mut usize) -> (r: Option<i64>)
        ensures
            *old(offset) <= data@.len() ==> (r, *final(offset) as int) == long_at(
                data@,
                *old(offset) as int,
            ),
            *old(offset) > data@.len() ==> r is None && *final(offset) == *old(offset),
            *old(offset) <= data@.len() ==> *old(offset) <= *final(offset) <= data@.len(),
    {
        match read_varint(data, offset) {
            Some(n) => Some(unfold(n)),
            None => None,
        }
    }

    fn read_range(data: &[u8], offset: &mut usize) -> (r: Option<(usize, usize)>)
        requires
            *old(offset) <= data@.len(),
        ensures
            match r {
                Some((a, b)) => a <= b <= data@.len() && *final(offset) == b && block_at(
                    data@,
                    *old(offset) as int,
                ) == Some((data@.subrange(a as int, b as int), b as int)),
                None => block_at(data@, *old(offset) as int) is None && *final(offset) == long_at(
                    data@,
                    *old(offset) as int,
                ).1,
            },
            *final(offset) <= data@.len(),
    {
        let n = match Self::read_varint(data, offset) {
            Some(n) => n,
            None => return None,
        };
        let from = *offset;
        if n < 0 || n as u64 > (data.len() - from) as u64 {
            return None;
        }
        let end: usize = from + n as usize;
        *offset = end;
        Some((from, end))
    }

    /// Reads the text with a length at `offset` and moves behind it; where the
    /// data ends before, behind its length only.
    pub fn read_string(data: &[u8], offset: &mut usize) -> (r: Option<String>)
        ensures
            *old(offset) <= data@.len() ==> match r {
                Some(s) => block_at(data@, *old(offset) as int) matches Some((b, next)) && s@
                    == utf8_lossy(b) && *final(offset) == next,
                None => block_at(data@, *old(offset) as int) is None && *final(offset) == long_at(
                    data@,
                    *old(offset) as int,
                ).1,
            },
            *old(offset) > data@.len() ==> r is None && *final(offset) == *old(offset),
            *old(offset) <= data@.len() ==> *final(offset) <= data@.len(),
    {
        if *offset > data.len() {
            return None;
        }
        match Self::read_range(data, offset) {
            Some((a, b)) => Some(lossy_text(sub_slice(data, a, b))),
            None => None,
        }
    }

    /// Reads the bytes with a length at `offset` and moves behind them; where the
    /// data ends before, behind their length only.
    pub fn read_bytes(data: &[u8], offset: &mut usize) -> (r: Option<Vec<u8>>)
        ensures
            *old(offset) <= data@.len() ==> match r {
                Some(s) => block_at(data@, *old(offset) as int) matches Some((b, next)) && s@ == b
                    && *final(offset) == next,
                None => block_at(data@, *old(offset) as int) is None && *final(offset) == long_at(
                    data@,
                    *old(offset) as int,
                ).1,
            },
            *old(offset) > data@.len() ==> r is None && *final(offset) == *old(offset),
            *old(offset) <= data@.len() ==> *final(offset) <= data@.len(),
    {
        if *offset > data.len() {
            return None;
        }
        match Self::read_range(data, offset) {
            Some((a, b)) => {
                let mut out: Vec<u8> = Vec::new();
                let mut i: usize = a;
                while i < b
                    invariant
                        a <= i <= b <= data@.len(),
                        out@ == data@.subrange(a as int, i as int),
                    decreases b - i,
                {
                    out.push(data[i]);
                    i += 1;
                    assert(out@ =~= data@.subrange(a as int, i as int));
                }
                Some(out)
            },
            None => None,
        }
    }

    fn read_header_meta(data: &[u8], offset: &mut usize) -> (r: Option<Vec<(String, String)>>)
        requires
            *old(offset) <= data@.len(),
        ensures
            match r {
                Some(m) => header_meta(data@, *old(offset) as int) == Some(
                    (texts_map(m@), *final(offset) as int),
                ) && *final(offset) <= data@.len(),
                None => header_meta(data@, *old(offset) as int) is None,
            },
    {
        let start = *offset;
        let count = match Self::read_varint(data, offset) {
            Some(n) => n,
            None => return None,
        };
        let mut meta: Vec<(String, String)> = Vec::new();
        assert(texts_map(meta@) =~= Seq::<(Seq<char>, Seq<char>)>::empty());
        if count <= 0 {
            return Some(meta);
        }
        let mut n: i64 = count;
        let from = *offset;
        while n > 0
            invariant
                0 <= n <= count,
                0 < count,
                start == *old(offset),
                *offset <= data@.len(),
                long_at(data@, start as int) == (Some(count), from as int),
                meta_from(data@, from as int, count as int, Seq::empty()) == meta_from(
                    data@,
                    *offset as int,
                    n as int,
                    texts_map(meta@),
                ),
            decreases n,
        {
            let key = match Self::read_string(data, offset) {
                Some(s) => s,
                None => return None,
            };
            let value = match Self::read_bytes(data, offset) {
                Some(b) => lossy_text(b.as_slice()),
                None => return None,
            };
            let ghost before = texts_map(meta@);
            let i = find_key::<String, Seq<char>>(&meta, &key, Ghost(before));
            let ghost w = (key@, value@);
            if i < meta.len() {
                meta.set(i, (key, value));
                assert(texts_map(meta@) =~= before.update(i as int, w));
            } else {
                meta.push((key, value));
                proof {
                    lemma_key_from(before, w.0, 0);
                }
                assert(texts_map(meta@) =~= before.push(w));
            }
            n -= 1;
        }
        match Self::read_varint(data, offset) {
            Some(_) => Some(meta),
            None => None,
        }
    }

    fn read_block(&self, event: &mut Event, block: &[u8])
        ensures
            final(event)@ == with_block(old(event)@, block@, opt_view(self.target)),
            is_event(old(event)@) ==> is_event(final(event)@),
    {
        let j = match parse_json(block) {
            Ok(j) => j,
            Err(_) => return,
        };
        if let Some(f) = &self.target {
            event.set(f, j);
        } else if let Json::Object(p) = &j {
            let mut i: usize = 0;
            while i < p.len()
                invariant
                    i <= p@.len(),
                    is_event(old(event)@) ==> is_event(event@),
                    with_members(old(event)@, entries_view(p@), 0) == with_members(
                        event@,
                        entries_view(p@),
                        i as int,
                    ),
                decreases p@.len() - i,
            {
                assert(entries_view(p@)[i as int] == (p@[i as int].0@, p@[i as int].1.view()));
                event.set(&p[i].0, p[i].1.copy());
                i += 1;
            }
        }
    }

    /// Decodes an object container file.
    pub fn decode_ocf(&self, data: &[u8], now: Moment) -> (r: Result<Event, CodecError>)
        ensures
            match (r, ocf_event(data@, opt_view(self.target), now)) {
                (Ok(x), Ok(y)) => x@ == y && is_event(x@),
                (Err(x), Err(m)) => x@ == CodecErrV::Codec(m),
                _ => false,
            },
    {
        if data.len() < 4 {
            return Err(CodecError::Codec("failed to read Avro header metadata".to_owned()));
        }
        let mut offset: usize = 4;
        let meta = match Self::read_header_meta(data, &mut offset) {
            Some(m) => m,
            None => return Err(
                CodecError::Codec("failed to read Avro header metadata".to_owned()),
            ),
        };
        if data.len() - offset < 16 {
            return Err(CodecError::Codec("Avro OCF too short for sync marker".to_owned()));
        }
        offset += 16;
        let mut event = Event::empty(now);
        event.set("avro_schema", find_text(&meta, "avro.schema"));
        event.set("avro_codec", find_text(&meta, "avro.codec"));
        event.set("avro_format", text_value("ocf"));
        if data.len() - offset < 4 {
            return Ok(event);
        }
        if let Some(n) = Self::read_varint(data, &mut offset) {
            event.set("block_record_count", Json::Int(n));
        }
        let size = match Self::read_varint(data, &mut offset) {
            Some(n) => n,
            None => return Ok(event),
        };
        event.set("block_size", Json::Int(size));
        if size <= 0 || size as u64 > (usize::MAX - offset) as u64 || offset >= data.len() {
            return Ok(event);
        }
        let end: usize = if size as u64 <= (data.len() - offset) as u64 {
            offset + size as usize
        } else {
            data.len()
        };
        self.read_block(&mut event, sub_slice(data, offset, end));
        Ok(event)
    }
}

impl Default for AvroCodec {
    fn default() -> (r: Self)
        ensures
            r.schema_json is None,
            r.target is None,
    {
        Self { schema_json: None, target: None }
    }
}

impl Codec for AvroCodec {
    open spec fn name_v(&self) -> Seq<char> {
        "avro"@
    }

    open spec fn decoded(&self, data: Seq<u8>, now: Moment, t: AnswersV) -> DecodedV {
        if is_ocf(data) {
            match ocf_event(data, opt_view(self.target), now) {
                Ok(e) => Ok(seq![e]),
                Err(m) => Err(CodecErrV::Codec(m)),
            }
        } else {
            match json_read(data) {
                Ok(j) => Ok(seq![value_event(opt_view(self.target), j, now)]),
                Err(_) => Err(CodecErrV::Codec("unrecognized Avro format"@)),
            }
        }
    }

    open spec fn encoded(&self, e: EventV, t: AnswersV) -> EncodedV {
        json_bytes(e, t, false)
    }

    open spec fn learned(&self) -> TemplatesV {
        Map::empty()
    }

    open spec fn learned_after(&self, data: Seq<u8>) -> TemplatesV {
        Map::empty()
    }

    open spec fn stateful(&self) -> bool {
        false
    }

    fn name(&self) -> (r: &'static str) {
        "avro"
    }

    fn decode(&mut self, data: &[u8], now: Moment, answers: &Answers) -> (r: Result<
        Vec<Event>,
        CodecError,
    >)
        ensures
            *final(self) == *old(self),
    {
        if data.len() >= 4 && data[0] == 0x4f && data[1] == 0x62 && data[2] == 0x6a && data[3] == 1 {
            return match self.decode_ocf(data, now) {
                Ok(e) => Ok(one_event(e)),
                Err(e) => Err(e),
            };
        }
        match parse_json(data) {
            Ok(j) => Ok(one_event(make_event(&self.target, j, now))),
            Err(_) => Err(CodecError::Codec("unrecognized Avro format".to_owned())),
        }
    }

    fn encode(&self, event: &Event, answers: &Answers) -> (r: Result<Vec<u8>, CodecError>) {
        match event.to_json_string(answers) {
            Ok(s) => Ok(text_bytes(&s)),
            Err(q) => Err(CodecError::Ask(q)),
        }
    }

    fn is_stateful(&self) -> (r: bool) {
        false
    }
}

} // verus!
