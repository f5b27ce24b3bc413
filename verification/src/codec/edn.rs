//! EDN codec: Extensible Data Notation.
use crate::codec::edn_laws::{event_survives_edn, tame};
use crate::codec::json::{get_text, opt_view, text_setting};
use crate::codec::{
    lossy_text, one_event, text_bytes, utf8_lossy, Codec, CodecErrV, CodecError, DecodedV,
    EncodedV, TemplatesV,
};
use crate::dict::put;
use crate::double::{
    ask1, ask_parse, ask_text, query, Answers, AnswersV, Double, DoubleQuery, DoubleV, QueryV,
};
use crate::event::{
    blank, lossy, to_string_lossy, with_field, with_members, with_message, Event, EventV,
};
use crate::interchange::depth;
use crate::json::{entries_view, jsons_view, put_json, Json, JsonV};
use crate::moment::{format_rfc3339_full, rfc3339_full_text, Moment};
use crate::script::value::gives_text;
use crate::text::{
    char_is_white, chars_of, i64_of_text, i64_text, int_text, is_white, join2, join3, nat_text,
    parse_i64, same, string_of, trim, trim_text, u64_text, white_end,
};
use vstd::prelude::*;
use vstd::utf8::encode_utf8;

verus! {

broadcast use vstd::string::group_string_axioms;

/// How deep values may be nested.
pub const MAX_DEPTH: u32 = 64;

/// How many lists and maps a text may open, exclusive.
pub const MAX_EDN_CONTAINER_OPENS_TOTAL: u64 = 32;

/// How many lists and maps a text may open in a row.
pub const MAX_EDN_CONSECUTIVE_OPENS: u64 = 4;

/// EDN codec configuration.
#[derive(Debug, PartialEq)]
pub struct EdnCodec {
    /// Target field for decoded data (none: merge into root).
    pub target: Option<String>,
}

/// The position behind a string whose opening quote stands before `i`.
pub open spec fn quote_end(c: Seq<char>, i: int) -> int
    decreases c.len() - i,
{
    if i >= c.len() {
        i
    } else if c[i] == '\\' && i + 1 < c.len() {
        quote_end(c, i + 2)
    } else if c[i] == '"' {
        i + 1
    } else {
        quote_end(c, i + 1)
    }
}

/// The position of the first line break at or behind `i`, or the end.
pub open spec fn line_break(c: Seq<char>, i: int) -> int
    decreases c.len() - i,
{
    if i >= c.len() || c[i] == '\n' {
        i
    } else {
        line_break(c, i + 1)
    }
}

/// How many lists and maps the text opens, and how many at most in a row, where
/// `total` and `most` were counted before `i` and `run` stand right before it.
/// Strings and comments do not count.
pub open spec fn opens(c: Seq<char>, i: int, total: nat, run: nat, most: nat) -> (nat, nat)
    decreases c.len() - i,
{
    proof {
        lemma_quote_end(c, i + 1);
        lemma_line_break(c, i + 1);
    }
    if i < 0 || i >= c.len() {
        (total, most)
    } else if c[i] == '"' {
        opens(c, quote_end(c, i + 1), total, 0, most)
    } else if c[i] == ';' {
        opens(c, line_break(c, i + 1), total, 0, most)
    } else if c[i] == '{' || c[i] == '[' {
        opens(
            c,
            i + 1,
            total + 1,
            run + 1,
            if run + 1 > most {
                run + 1
            } else {
                most
            },
        )
    } else {
        opens(c, i + 1, total, 0, most)
    }
}

pub proof fn lemma_quote_end(c: Seq<char>, i: int)
    ensures
        i <= quote_end(c, i),
        i <= c.len() ==> quote_end(c, i) <= c.len(),
    decreases c.len() - i,
{
    if i < c.len() {
        if c[i] == '\\' && i + 1 < c.len() {
            lemma_quote_end(c, i + 2);
        } else if c[i] != '"' {
            lemma_quote_end(c, i + 1);
        }
    }
}

pub proof fn lemma_line_break(c: Seq<char>, i: int)
    ensures
        i <= line_break(c, i),
        i <= c.len() ==> line_break(c, i) <= c.len(),
    decreases c.len() - i,
{
    if i < c.len() && c[i] != '\n' {
        lemma_line_break(c, i + 1);
    }
}

/// Why a text opens too many lists and maps, if it does.
pub open spec fn density_fault(c: Seq<char>) -> Option<Seq<char>> {
    let (total, most) = opens(c, 0, 0, 0, 0);
    if total >= MAX_EDN_CONTAINER_OPENS_TOTAL {
        Some(
            "EDN payload has "@ + nat_text(total)
                + " container-open bytes (`{`/`[`); maximum 32 (exclusive)"@,
        )
    } else if most > MAX_EDN_CONSECUTIVE_OPENS {
        Some(
            "EDN payload has a run of "@ + nat_text(most)
                + " consecutive container-open bytes (`{`/`[`); maximum 4"@,
        )
    } else {
        None
    }
}

/// Where a value begins at or behind `i`, behind white space and comments; none
/// if a comment is not ended.
pub open spec fn value_start(c: Seq<char>, i: int) -> Option<int>
    decreases c.len() - i,
{
    proof {
        lemma_white_end(c, i);
        lemma_line_break(c, white_end(c, i));
    }
    let a = white_end(c, i);
    if a < c.len() && c[a] == ';' {
        let n = line_break(c, a);
        if n >= c.len() {
            None
        } else {
            value_start(c, n + 1)
        }
    } else {
        Some(a)
    }
}

pub proof fn lemma_white_end(c: Seq<char>, i: int)
    ensures
        i <= white_end(c, i),
        i <= c.len() ==> white_end(c, i) <= c.len(),
    decreases c.len() - i,
{
    if i < c.len() && is_white(c[i]) {
        lemma_white_end(c, i + 1);
    }
}

/// A character that ends a word.
pub open spec fn ends_word(c: char) -> bool {
    is_white(c) || c == ',' || c == '}' || c == ']' || c == ')'
}

/// The first position at or behind `i` that ends a word, or the end.
pub open spec fn word_end(c: Seq<char>, i: int) -> int
    decreases c.len() - i,
{
    if i >= c.len() || ends_word(c[i]) {
        i
    } else {
        word_end(c, i + 1)
    }
}

/// The first white space at or behind `i`, or the end.
pub open spec fn tag_end(c: Seq<char>, i: int) -> int
    decreases c.len() - i,
{
    if i >= c.len() || is_white(c[i]) {
        i
    } else {
        tag_end(c, i + 1)
    }
}

/// The text of a string that goes on at `i`, behind `acc`, and the position
/// behind its closing quote. A string that is not closed goes to the end.
pub open spec fn string_from(c: Seq<char>, i: int, acc: Seq<char>) -> (Seq<char>, int)
    decreases c.len() - i,
{
    if i >= c.len() {
        (acc, c.len() as int)
    } else if c[i] == '\\' {
        if i + 1 >= c.len() {
            (acc, c.len() as int)
        } else {
            let e = c[i + 1];
            string_from(
                c,
                i + 2,
                if e == 'n' {
                    acc.push('\n')
                } else if e == 't' {
                    acc.push('\t')
                } else if e == 'r' {
                    acc.push('\r')
                } else if e == '"' || e == '\\' {
                    acc.push(e)
                } else {
                    acc.push('\\').push(e)
                },
            )
        }
    } else if c[i] == '"' {
        (acc, i + 1)
    } else {
        string_from(c, i + 1, acc.push(c[i]))
    }
}

/// The character that a name behind a backslash stands for.
pub open spec fn named_char(s: Seq<char>) -> char {
    if s == "newline"@ {
        '\n'
    } else if s == "return"@ {
        '\r'
    } else if s == "space"@ {
        ' '
    } else if s == "tab"@ {
        '\t'
    } else if s.len() == 1 && s[0] <= '\u{7f}' {
        s[0]
    } else {
        '?'
    }
}

/// Whether `w` stands in the text at `i`.
pub open spec fn starts(c: Seq<char>, i: int, w: Seq<char>) -> bool {
    i + w.len() <= c.len() && c.subrange(i, i + w.len()) == w
}

/// A value and the position behind it, if there is one.
pub type Found = Result<Option<(JsonV, int)>, QueryV>;

/// A number: an integer, a double, or the word itself.
pub open spec fn number(t: AnswersV, c: Seq<char>, i: int) -> Found {
    let e = word_end(c, i);
    let w = c.subrange(i, e);
    match i64_of_text(w) {
        Some(n) => Ok(Some((JsonV::Int(n), e))),
        None => match ask_parse(t, w) {
            Ok(Some(b)) => Ok(Some((JsonV::Float(DoubleV::Bits(b)), e))),
            Ok(None) => Ok(Some((JsonV::Str(w), e))),
            Err(q) => Err(q),
        },
    }
}

/// A tagged value: the tag of a list, a map, `inst` or `uuid` is dropped; any
/// other becomes part of the text.
pub open spec fn tagged(t: AnswersV, tag: Seq<char>, v: JsonV) -> Result<JsonV, QueryV> {
    if tag == "inst"@ || tag == "uuid"@ || v is Array || v is Object {
        Ok(v)
    } else {
        match lossy(t, v) {
            Ok(s) => Ok(JsonV::Str("#"@ + tag + " "@ + s)),
            Err(q) => Err(q),
        }
    }
}

/// The value at `i`, at a depth of nesting.
#[verifier::opaque]
pub open spec fn value_at(t: AnswersV, c: Seq<char>, i: int, depth: nat) -> Found
    decreases MAX_DEPTH - depth, 1nat, 0nat,
{
    if depth >= MAX_DEPTH {
        Ok(None)
    } else {
        match value_start(c, i) {
            None => Ok(None),
            Some(a) => if a < 0 || a >= c.len() {
                Ok(None)
            } else if c[a] == '"' {
                let (s, n) = string_from(c, a + 1, Seq::empty());
                Ok(Some((JsonV::Str(s), n)))
            } else if c[a] == '{' {
                map_from(t, c, a + 1, depth, Seq::empty())
            } else if c[a] == '[' {
                list_from(t, c, a + 1, depth, ']', Seq::empty())
            } else if c[a] == '#' && a + 1 < c.len() {
                if c[a + 1] == '{' {
                    list_from(t, c, a + 2, depth, '}', Seq::empty())
                } else {
                    let e = tag_end(c, a + 1);
                    match value_at(t, c, e, depth + 1) {
                        Ok(Some((v, n))) => match tagged(t, c.subrange(a + 1, e), v) {
                            Ok(w) => Ok(Some((w, n))),
                            Err(q) => Err(q),
                        },
                        r => r,
                    }
                }
            } else if c[a] == ':' {
                let e = word_end(c, a + 1);
                Ok(Some((JsonV::Str(c.subrange(a + 1, e)), e)))
            } else if starts(c, a, "true"@) {
                Ok(Some((JsonV::Bool(true), a + 4)))
            } else if starts(c, a, "false"@) {
                Ok(Some((JsonV::Bool(false), a + 5)))
            } else if starts(c, a, "nil"@) {
                Ok(Some((JsonV::Null, a + 3)))
            } else if c[a] == '\\' {
                let e = word_end(c, a + 1);
                Ok(Some((JsonV::Str(seq![named_char(c.subrange(a + 1, e))]), e)))
            } else if c[a] == '-' || '0' <= c[a] <= '9' {
                number(t, c, a)
            } else {
                let e = word_end(c, a);
                if e == a {
                    Ok(None)
                } else {
                    Ok(Some((JsonV::Str(c.subrange(a, e)), e)))
                }
            },
        }
    }
}

/// The first position at or behind `i` that is neither white space nor a comma.
pub open spec fn past_commas(c: Seq<char>, i: int) -> int
    decreases c.len() - i,
{
    proof {
        lemma_white_end(c, i);
    }
    let a = white_end(c, i);
    if a < c.len() && c[a] == ',' {
        past_commas(c, a + 1)
    } else {
        a
    }
}

pub proof fn lemma_past_commas(c: Seq<char>, i: int)
    ensures
        i <= past_commas(c, i),
        i <= c.len() ==> past_commas(c, i) <= c.len(),
    decreases c.len() - i,
{
    lemma_white_end(c, i);
    let a = white_end(c, i);
    if a < c.len() && c[a] == ',' {
        lemma_past_commas(c, a + 1);
    }
}

/// The members of a list or set from `i` on, behind `acc`, up to `close` or the
/// end.
#[verifier::opaque]
pub open spec fn list_from(
    t: AnswersV,
    c: Seq<char>,
    i: int,
    depth: nat,
    close: char,
    acc: Seq<JsonV>,
) -> Found
    decreases MAX_DEPTH - depth, 0nat, c.len() - i,
{
    proof {
        lemma_past_commas(c, i);
    }
    let a = past_commas(c, i);
    if a < 0 || a >= c.len() {
        Ok(Some((JsonV::Array(acc), a)))
    } else if c[a] == close {
        Ok(Some((JsonV::Array(acc), a + 1)))
    } else if depth >= MAX_DEPTH {
        Ok(None)
    } else {
        match value_at(t, c, a, depth + 1) {
            Err(q) => Err(q),
            Ok(None) => Ok(None),
            Ok(Some((v, n))) => if n <= a || n > c.len() {
                Ok(None)
            } else {
                list_from(t, c, n, depth, close, acc.push(v))
            },
        }
    }
}

/// The entries of a map from `i` on, behind `acc`, up to the closing brace or
/// the end. A list or map is no key.
#[verifier::opaque]
pub open spec fn map_from(
    t: AnswersV,
    c: Seq<char>,
    i: int,
    depth: nat,
    acc: Seq<(Seq<char>, JsonV)>,
) -> Found
    decreases MAX_DEPTH - depth, 0nat, c.len() - i,
{
    proof {
        lemma_past_commas(c, i);
    }
    let a = past_commas(c, i);
    if a < 0 || a >= c.len() {
        Ok(Some((JsonV::Object(acc), a)))
    } else if c[a] == '}' {
        Ok(Some((JsonV::Object(acc), a + 1)))
    } else if depth >= MAX_DEPTH {
        Ok(None)
    } else {
        match value_at(t, c, a, depth + 1) {
            Err(q) => Err(q),
            Ok(None) => Ok(None),
            Ok(Some((k, m))) => if k is Array || k is Object {
                Ok(None)
            } else {
                match lossy(t, k) {
                    Err(q) => Err(q),
                    Ok(key) => match value_at(t, c, m, depth + 1) {
                        Err(q) => Err(q),
                        Ok(None) => Ok(None),
                        Ok(Some((v, n))) => if n <= a || n > c.len() {
                            Ok(None)
                        } else {
                            map_from(t, c, n, depth, put(acc, key, v))
                        },
                    },
                }
            },
        }
    }
}

/// A value in EDN.
pub open spec fn edn_text(t: AnswersV, v: JsonV) -> Result<Seq<char>, QueryV>
    decreases v, 0nat,
{
    match v {
        JsonV::Str(s) => Ok("\""@ + s + "\""@),
        JsonV::Int(n) => Ok(int_text(n as int)),
        JsonV::UInt(n) => Ok(nat_text(n as nat)),
        JsonV::Float(d) => ask_text(t, query("display"@, seq![d])),
        JsonV::Bool(b) => Ok(
            if b {
                "true"@
            } else {
                "false"@
            },
        ),
        JsonV::Null => Ok("nil"@),
        JsonV::Array(a) => match edn_items(t, a, 0, "["@) {
            Ok(s) => Ok(s + "]"@),
            Err(q) => Err(q),
        },
        JsonV::Object(o) => match edn_entries(t, o, 0, "{"@) {
            Ok(s) => Ok(s + "}"@),
            Err(q) => Err(q),
        },
    }
}

pub open spec fn edn_items(t: AnswersV, a: Seq<JsonV>, i: int, acc: Seq<char>) -> Result<
    Seq<char>,
    QueryV,
>
    decreases a, a.len() - i,
{
    if i < 0 || i >= a.len() {
        Ok(acc)
    } else {
        match edn_text(t, a[i]) {
            Ok(s) => edn_items(
                t,
                a,
                i + 1,
                if i > 0 {
                    acc + " "@ + s
                } else {
                    acc + s
                },
            ),
            Err(q) => Err(q),
        }
    }
}

pub open spec fn edn_entries(
    t: AnswersV,
    o: Seq<(Seq<char>, JsonV)>,
    i: int,
    acc: Seq<char>,
) -> Result<Seq<char>, QueryV>
    decreases o, o.len() - i,
{
    if i < 0 || i >= o.len() {
        Ok(acc)
    } else {
        match edn_text(t, o[i].1) {
            Ok(s) => edn_entries(
                t,
                o,
                i + 1,
                (if i > 0 {
                    acc + ", "@
                } else {
                    acc
                }) + ":"@ + o[i].0 + " "@ + s,
            ),
            Err(q) => Err(q),
        }
    }
}

/// The members from `i` on put behind those in `acc`, one by one.
pub open spec fn put_all(acc: Seq<(Seq<char>, JsonV)>, p: Seq<(Seq<char>, JsonV)>, i: int) -> Seq<
    (Seq<char>, JsonV),
>
    decreases p.len() - i,
{
    if i < 0 || i >= p.len() {
        acc
    } else {
        put_all(put(acc, p[i].0, p[i].1), p, i + 1)
    }
}

/// The members of an event: its time, and its fields behind it.
pub open spec fn edn_members(e: EventV) -> Seq<(Seq<char>, JsonV)> {
    put_all(
        seq![
            (
                "@timestamp"@,
                JsonV::Str(rfc3339_full_text(e.timestamp.secs, e.timestamp.nanos)),
            ),
        ],
        e.fields,
        0,
    )
}

/// The event of a value: an object's members as fields, anything else as
/// message; or all of it under a field.
pub open spec fn edn_event(t: AnswersV, target: Option<Seq<char>>, v: JsonV, now: Moment) -> Result<
    EventV,
    QueryV,
> {
    match target {
        Some(f) => Ok(with_field(blank(now), f, v)),
        None => match v {
            JsonV::Object(p) => Ok(with_members(blank(now), p, 0)),
            _ => match lossy(t, v) {
                Ok(s) => Ok(with_message(blank(now), s)),
                Err(q) => Err(q),
            },
        },
    }
}

fn scan_quote(c: &Vec<char>, from: usize) -> (r: usize)
    requires
        from <= c@.len(),
    ensures
        r == quote_end(c@, from as int),
        from <= r <= c@.len(),
{
    let mut i: usize = from;
    while i < c.len()
        invariant
            from <= i <= c@.len(),
            quote_end(c@, from as int) == quote_end(c@, i as int),
        decreases c@.len() - i,
    {
        if c[i] == '\\' && c.len() - i > 1 {
            i += 2;
        } else if c[i] == '"' {
            return i + 1;
        } else {
            i += 1;
        }
    }
    i
}

fn scan_line(c: &Vec<char>, from: usize) -> (r: usize)
    requires
        from <= c@.len(),
    ensures
        r == line_break(c@, from as int),
        from <= r <= c@.len(),
{
    let mut i: usize = from;
    while i < c.len() && c[i] != '\n'
        invariant
            from <= i <= c@.len(),
            line_break(c@, from as int) == line_break(c@, i as int),
        decreases c@.len() - i,
    {
        i += 1;
    }
    i
}

/// Refuses a text that opens too many lists and maps, before it is parsed.
pub fn check_edn_container_density(text: &str) -> (r: Result<(), CodecError>)
    ensures
        match (r, density_fault(text@)) {
            (Ok(_), None) => true,
            (Err(e), Some(m)) => e@ == CodecErrV::Codec(m),
            _ => false,
        },
{
    let c = chars_of(text);
    let mut total: u64 = 0;
    let mut run: u64 = 0;
    let mut most: u64 = 0;
    let mut i: usize = 0;
    while i < c.len()
        invariant
            i <= c.len(),
            c@ == text@,
            run <= i,
            total <= i,
            most <= i,
            opens(c@, 0, 0, 0, 0) == opens(c@, i as int, total as nat, run as nat, most as nat),
        decreases c@.len() - i,
    {
        if c[i] == '"' {
            run = 0;
            i = scan_quote(&c, i + 1);
        } else if c[i] == ';' {
            run = 0;
            i = scan_line(&c, i + 1);
        } else if c[i] == '{' || c[i] == '[' {
            total += 1;
            run += 1;
            if run > most {
                most = run;
            }
            i += 1;
        } else {
            run = 0;
            i += 1;
        }
    }
    if total >= MAX_EDN_CONTAINER_OPENS_TOTAL {
        return Err(
            CodecError::Codec(
                join3(
                    "EDN payload has ",
                    &u64_text(total),
                    " container-open bytes (`{`/`[`); maximum 32 (exclusive)",
                ),
            ),
        );
    }
    if most > MAX_EDN_CONSECUTIVE_OPENS {
        return Err(
            CodecError::Codec(
                join3(
                    "EDN payload has a run of ",
                    &u64_text(most),
                    " consecutive container-open bytes (`{`/`[`); maximum 4",
                ),
            ),
        );
    }
    Ok(())
}

fn scan_white(c: &Vec<char>, from: usize) -> (r: usize)
    requires
        from <= c@.len(),
    ensures
        r == white_end(c@, from as int),
        from <= r <= c@.len(),
{
    let mut i: usize = from;
    while i < c.len() && char_is_white(c[i])
        invariant
            from <= i <= c@.len(),
            white_end(c@, from as int) == white_end(c@, i as int),
        decreases c@.len() - i,
    {
        i += 1;
    }
    i
}

fn find_start(c: &Vec<char>, from: usize) -> (r: Option<usize>)
    requires
        from <= c@.len(),
    ensures
        match r {
            Some(a) => value_start(c@, from as int) == Some(a as int) && from <= a <= c@.len(),
            None => value_start(c@, from as int) is None,
        },
{
    let mut i: usize = from;
    loop
        invariant
            from <= i <= c@.len(),
            value_start(c@, from as int) == value_start(c@, i as int),
        decreases c@.len() - i,
    {
        let a = scan_white(c, i);
        if a < c.len() && c[a] == ';' {
            let n = scan_line(c, a);
            if n >= c.len() {
                return None;
            }
            i = n + 1;
        } else {
            return Some(a);
        }
    }
}

fn scan_commas(c: &Vec<char>, from: usize) -> (r: usize)
    requires
        from <= c@.len(),
    ensures
        r == past_commas(c@, from as int),
        from <= r <= c@.len(),
{
    let mut i: usize = from;
    loop
        invariant
            from <= i <= c@.len(),
            past_commas(c@, from as int) == past_commas(c@, i as int),
        decreases c@.len() - i,
    {
        let a = scan_white(c, i);
        if a < c.len() && c[a] == ',' {
            i = a + 1;
        } else {
            return a;
        }
    }
}

fn scan_word(c: &Vec<char>, from: usize) -> (r: usize)
    requires
        from <= c@.len(),
    ensures
        r == word_end(c@, from as int),
        from <= r <= c@.len(),
{
    let mut i: usize = from;
    while i < c.len() && !(char_is_white(c[i]) || c[i] == ',' || c[i] == '}' || c[i] == ']' || c[i]
        == ')')
        invariant
            from <= i <= c@.len(),
            word_end(c@, from as int) == word_end(c@, i as int),
        decreases c@.len() - i,
    {
        i += 1;
    }
    i
}

fn scan_tag(c: &Vec<char>, from: usize) -> (r: usize)
    requires
        from <= c@.len(),
    ensures
        r == tag_end(c@, from as int),
        from <= r <= c@.len(),
{
    let mut i: usize = from;
    while i < c.len() && !char_is_white(c[i])
        invariant
            from <= i <= c@.len(),
            tag_end(c@, from as int) == tag_end(c@, i as int),
        decreases c@.len() - i,
    {
        i += 1;
    }
    i
}

fn word_at(c: &Vec<char>, i: usize, w: &str) -> (r: bool)
    requires
        i <= c@.len(),
    ensures
        r == starts(c@, i as int, w@),
{
    let p = chars_of(w);
    if p.len() > c.len() - i {
        return false;
    }
    let s = string_of(c.as_slice(), i, i + p.len());
    same(&s, w)
}

fn char_named(s: &str) -> (r: char)
    ensures
        r == named_char(s@),
{
    if same(s, "newline") {
        return '\n';
    }
    if same(s, "return") {
        return '\r';
    }
    if same(s, "space") {
        return ' ';
    }
    if same(s, "tab") {
        return '\t';
    }
    let c = chars_of(s);
    if c.len() == 1 && c[0] <= '\u{7f}' {
        return c[0];
    }
    '?'
}

/// Whether `r` is the value and position, or the open computation, `s`.
pub open spec fn finds(
    r: Result<Option<(Json, usize)>, DoubleQuery>,
    s: Found,
    from: int,
    len: int,
) -> bool {
    match (r, s) {
        (Ok(Some((x, n))), Ok(Some((y, m)))) => x.view() == y && n == m && from <= n <= len,
        (Ok(None), Ok(None)) => true,
        (Err(x), Err(y)) => x@ == y,
        _ => false,
    }
}

impl EdnCodec {
    /// Whether the codec is the one that settings ask for.
    pub open spec fn configured(&self, settings: JsonV) -> bool {
        opt_view(self.target) == text_setting(settings, "target"@)
    }

    pub fn from_config(settings: &Json) -> (r: Result<Self, CodecError>)
        ensures
            r matches Ok(c) && c.configured(settings.view()),
    {
        Ok(Self { target: get_text(settings, "target") })
    }

    fn parse_string(c: &Vec<char>, from: usize) -> (r: (String, usize))
        requires
            from <= c@.len(),
        ensures
            (r.0@, r.1 as int) == string_from(c@, from as int, Seq::empty()),
            from <= r.1 <= c@.len(),
    {
        let mut s = String::new();
        let mut i: usize = from;
        while i < c.len()
            invariant
                from <= i <= c@.len(),
                string_from(c@, from as int, Seq::empty()) == string_from(c@, i as int, s@),
            decreases c@.len() - i,
        {
            if c[i] == '\\' {
                if c.len() - i < 2 {
                    return (s, c.len());
                }
                let e = c[i + 1];
                if e == 'n' {
                    s.push('\n');
                } else if e == 't' {
                    s.push('\t');
                } else if e == 'r' {
                    s.push('\r');
                } else if e == '"' || e == '\\' {
                    s.push(e);
                } else {
                    s.push('\\');
                    s.push(e);
                }
                i += 2;
            } else if c[i] == '"' {
                return (s, i + 1);
            } else {
                s.push(c[i]);
                i += 1;
            }
        }
        (s, c.len())
    }

    fn parse_number(c: &Vec<char>, i: usize, answers: &Answers) -> (r: Result<
        Option<(Json, usize)>,
        DoubleQuery,
    >)
        requires
            i <= c@.len(),
        ensures
            finds(r, number(answers@, c@, i as int), i as int, c@.len() as int),
    {
        let e = scan_word(c, i);
        let w = string_of(c.as_slice(), i, e);
        if let Some(n) = parse_i64(&w) {
            return Ok(Some((Json::Int(n), e)));
        }
        match answers.parsed(&w) {
            Ok(Some(b)) => Ok(Some((Json::Float(Double::Bits(b)), e))),
            Ok(None) => Ok(Some((Json::Str(w), e))),
            Err(q) => Err(q),
        }
    }

    fn apply_tag(tag: &str, v: Json, answers: &Answers) -> (r: Result<Json, DoubleQuery>)
        ensures
            match (r, tagged(answers@, tag@, v.view())) {
                (Ok(x), Ok(y)) => x.view() == y,
                (Err(x), Err(y)) => x@ == y,
                _ => false,
            },
    {
        if same(tag, "inst") || same(tag, "uuid") || matches!(v, Json::Array(_)) || matches!(
            v,
            Json::Object(_),
        ) {
            return Ok(v);
        }
        match to_string_lossy(&v, answers) {
            Ok(s) => {
                let mut out = join3("#", tag, " ");
                out.append(&s);
                Ok(Json::Str(out))
            },
            Err(q) => Err(q),
        }
    }

    /// The value at `i`, at a depth of nesting, and the position behind it.
    #[verifier::spinoff_prover]
    fn parse_value_inner(c: &Vec<char>, i: usize, depth: u32, answers: &Answers) -> (r: Result<
        Option<(Json, usize)>,
        DoubleQuery,
    >)
        requires
            i <= c@.len(),
        ensures
            finds(r, value_at(answers@, c@, i as int, depth as nat), i as int, c@.len() as int),
        decreases MAX_DEPTH - depth, 1nat,
    {
        proof {
            reveal(value_at);
            reveal(list_from);
            reveal(map_from);
            reveal_strlit("true");
            reveal_strlit("false");
            reveal_strlit("nil");
        }
        if depth >= MAX_DEPTH {
            return Ok(None);
        }
        let a = match find_start(c, i) {
            Some(a) => a,
            None => return Ok(None),
        };
        if a >= c.len() {
            return Ok(None);
        }
        if c[a] == '"' {
            let (s, n) = Self::parse_string(c, a + 1);
            return Ok(Some((Json::Str(s), n)));
        }
        if c[a] == '{' {
            return Self::parse_map(c, a + 1, depth, answers);
        }
        if c[a] == '[' {
            return Self::parse_list(c, a + 1, depth, ']', answers);
        }
        if c[a] == '#' && c.len() - a > 1 {
            if c[a + 1] == '{' {
                return Self::parse_list(c, a + 2, depth, '}', answers);
            }
            let e = scan_tag(c, a + 1);
            return match Self::parse_value_inner(c, e, depth + 1, answers) {
                Ok(Some((v, n))) => match Self::apply_tag(
                    &string_of(c.as_slice(), a + 1, e),
                    v,
                    answers,
                ) {
                    Ok(w) => Ok(Some((w, n))),
                    Err(q) => Err(q),
                },
                r => r,
            };
        }
        if c[a] == ':' {
            let e = scan_word(c, a + 1);
            return Ok(Some((Json::Str(string_of(c.as_slice(), a + 1, e)), e)));
        }
        if word_at(c, a, "true") {
            return Ok(Some((Json::Bool(true), a + 4)));
        }
        if word_at(c, a, "false") {
            return Ok(Some((Json::Bool(false), a + 5)));
        }
        if word_at(c, a, "nil") {
            return Ok(Some((Json::Null, a + 3)));
        }
        if c[a] == '\\' {
            let e = scan_word(c, a + 1);
            let mut s = String::new();
            s.push(char_named(&string_of(c.as_slice(), a + 1, e)));
            assert(s@ =~= seq![named_char(c@.subrange(a + 1, e as int))]);
            return Ok(Some((Json::Str(s), e)));
        }
        if c[a] == '-' || ('0' <= c[a] && c[a] <= '9') {
            return Self::parse_number(c, a, answers);
        }
        let e = scan_word(c, a);
        if e == a {
            return Ok(None);
        }
        Ok(Some((Json::Str(string_of(c.as_slice(), a, e)), e)))
    }

    #[verifier::spinoff_prover]
    fn parse_list(c: &Vec<char>, from: usize, depth: u32, close: char, answers: &Answers) -> (r:
        Result<Option<(Json, usize)>, DoubleQuery>)
        requires
            from <= c@.len(),
            depth < MAX_DEPTH,
        ensures
            finds(
                r,
                list_from(answers@, c@, from as int, depth as nat, close, Seq::empty()),
                from as int,
                c@.len() as int,
            ),
        decreases MAX_DEPTH - depth, 0nat,
    {
        let mut out: Vec<Json> = Vec::new();
        let mut i: usize = from;
        assert(jsons_view(out@) =~= Seq::<JsonV>::empty());
        loop
            invariant
                from <= i <= c@.len(),
                depth < MAX_DEPTH,
                list_from(answers@, c@, from as int, depth as nat, close, Seq::empty())
                    == list_from(
                    answers@,
                    c@,
                    i as int,
                    depth as nat,
                    close,
                    jsons_view(out@),
                ),
            decreases c@.len() - i,
        {
            proof {
                reveal(list_from);
                reveal(value_at);
            }
            let a = scan_commas(c, i);
            if a >= c.len() {
                return Ok(Some((Json::Array(out), a)));
            }
            if c[a] == close {
                return Ok(Some((Json::Array(out), a + 1)));
            }
            match Self::parse_value_inner(c, a, depth + 1, answers) {
                Err(q) => return Err(q),
                Ok(None) => return Ok(None),
                Ok(Some((v, n))) => {
                    if n <= a {
                        return Ok(None);
                    }
                    let ghost before = jsons_view(out@);
                    let ghost w = v.view();
                    out.push(v);
                    assert(jsons_view(out@) =~= before.push(w));
                    i = n;
                },
            }
        }
    }

    #[verifier::spinoff_prover]
    fn parse_map(c: &Vec<char>, from: usize, depth: u32, answers: &Answers) -> (r: Result<
        Option<(Json, usize)>,
        DoubleQuery,
    >)
        requires
            from <= c@.len(),
            depth < MAX_DEPTH,
        ensures
            finds(
                r,
                map_from(answers@, c@, from as int, depth as nat, Seq::empty()),
                from as int,
                c@.len() as int,
            ),
        decreases MAX_DEPTH - depth, 0nat,
    {
        let mut out: Vec<(String, Json)> = Vec::new();
        let mut i: usize = from;
        assert(entries_view(out@) =~= Seq::<(Seq<char>, JsonV)>::empty());
        loop
            invariant
                from <= i <= c@.len(),
                depth < MAX_DEPTH,
                map_from(answers@, c@, from as int, depth as nat, Seq::empty()) == map_from(
                    answers@,
                    c@,
                    i as int,
                    depth as nat,
                    entries_view(out@),
                ),
            decreases c@.len() - i,
        {
            proof {
                reveal(map_from);
                reveal(value_at);
            }
            let a = scan_commas(c, i);
            if a >= c.len() {
                return Ok(Some((Json::Object(out), a)));
            }
            if c[a] == '}' {
                return Ok(Some((Json::Object(out), a + 1)));
            }
            let (k, m) = match Self::parse_value_inner(c, a, depth + 1, answers) {
                Err(q) => return Err(q),
                Ok(None) => return Ok(None),
                Ok(Some(x)) => x,
            };
            if matches!(k, Json::Array(_)) || matches!(k, Json::Object(_)) {
                return Ok(None);
            }
            let key = match to_string_lossy(&k, answers) {
                Ok(s) => s,
                Err(q) => return Err(q),
            };
            match Self::parse_value_inner(c, m, depth + 1, answers) {
                Err(q) => return Err(q),
                Ok(None) => return Ok(None),
                Ok(Some((v, n))) => {
                    if n <= a {
                        return Ok(None);
                    }
                    put_json(&mut out, &key, v);
                    i = n;
                },
            }
        }
    }

    /// Writes a value in EDN.
    pub fn format_edn(v: &Json, answers: &Answers) -> (r: Result<String, DoubleQuery>)
        ensures
            gives_text(r, edn_text(answers@, v.view())),
        decreases *v,
    {
        match v {
            Json::Str(s) => Ok(join3("\"", s, "\"")),
            Json::Int(n) => Ok(i64_text(*n)),
            Json::UInt(n) => Ok(u64_text(*n)),
            Json::Float(d) => answers.text(ask1("display", d.copy())),
            Json::Bool(b) => Ok(
                if *b {
                    "true".to_owned()
                } else {
                    "false".to_owned()
                },
            ),
            Json::Null => Ok("nil".to_owned()),
            Json::Array(a) => {
                let mut out = "[".to_owned();
                let mut i: usize = 0;
                while i < a.len()
                    invariant
                        i <= a@.len(),
                        edn_items(answers@, jsons_view(a@), 0, "["@) == edn_items(
                            answers@,
                            jsons_view(a@),
                            i as int,
                            out@,
                        ),
                        *v == Json::Array(*a),
                    decreases a@.len() - i,
                {
                    assert(decreases_to!(*v => v->Array_0));
                    assert(decreases_to!(a@ => a@[i as int]));
                    assert(jsons_view(a@)[i as int] == a@[i as int].view());
                    let s = match Self::format_edn(&a[i], answers) {
                        Ok(s) => s,
                        Err(q) => return Err(q),
                    };
                    if i > 0 {
                        out.append(" ");
                    }
                    out.append(&s);
                    i += 1;
                }
                out.append("]");
                Ok(out)
            },
            Json::Object(o) => {
                let mut out = "{".to_owned();
                let mut i: usize = 0;
                while i < o.len()
                    invariant
                        i <= o@.len(),
                        edn_entries(answers@, entries_view(o@), 0, "{"@) == edn_entries(
                            answers@,
                            entries_view(o@),
                            i as int,
                            out@,
                        ),
                        *v == Json::Object(*o),
                    decreases o@.len() - i,
                {
                    assert(decreases_to!(*v => v->Object_0));
                    assert(decreases_to!(o@ => o@[i as int]));
                    assert(decreases_to!(o@[i as int] => o@[i as int].1));
                    assert(entries_view(o@)[i as int] == (o@[i as int].0@, o@[i as int].1.view()));
                    let s = match Self::format_edn(&o[i].1, answers) {
                        Ok(s) => s,
                        Err(q) => return Err(q),
                    };
                    if i > 0 {
                        out.append(", ");
                    }
                    out.append(":");
                    out.append(&o[i].0);
                    out.append(" ");
                    out.append(&s);
                    i += 1;
                }
                out.append("}");
                Ok(out)
            },
        }
    }
}

impl Default for EdnCodec {
    fn default() -> (r: Self)
        ensures
            r.target is None,
    {
        Self { target: None }
    }
}

impl Codec for EdnCodec {
    open spec fn name_v(&self) -> Seq<char> {
        "edn"@
    }

    open spec fn decoded(&self, data: Seq<u8>, now: Moment, t: AnswersV) -> DecodedV {
        let c = trim_text(utf8_lossy(data));
        if c.len() == 0 {
            Err(CodecErrV::Codec("empty EDN data"@))
        } else {
            match density_fault(c) {
                Some(m) => Err(CodecErrV::Codec(m)),
                None => match value_at(t, c, 0, 0) {
                    Err(q) => Err(CodecErrV::Ask(q)),
                    Ok(None) => Err(CodecErrV::Codec("failed to parse EDN"@)),
                    Ok(Some((v, _))) => match edn_event(t, opt_view(self.target), v, now) {
                        Ok(e) => Ok(seq![e]),
                        Err(q) => Err(CodecErrV::Ask(q)),
                    },
                },
            }
        }
    }

    open spec fn encoded(&self, e: EventV, t: AnswersV) -> EncodedV {
        match edn_text(t, JsonV::Object(edn_members(e))) {
            Ok(s) => Ok(encode_utf8(s + "\n"@)),
            Err(q) => Err(CodecErrV::Ask(q)),
        }
    }

    open spec fn learned(&self) -> TemplatesV {
        Map::empty()
    }

    open spec fn learned_after(&self, data: Seq<u8>) -> TemplatesV {
        Map::empty()
    }

    open spec fn stateful(&self) -> bool {
        false
    }

    fn name(&self) -> (r: &'static str) {
        "edn"
    }

    fn decode(&mut self, data: &[u8], now: Moment, answers: &Answers) -> (r: Result<
        Vec<Event>,
        CodecError,
    >)
        ensures
            *final(self) == *old(self),
    {
        let text = trim(&lossy_text(data));
        let c = chars_of(&text);
        if c.len() == 0 {
            return Err(CodecError::Codec("empty EDN data".to_owned()));
        }
        match check_edn_container_density(&text) {
            Ok(_) => {},
            Err(e) => return Err(e),
        }
        let v = match Self::parse_value_inner(&c, 0, 0, answers) {
            Err(q) => return Err(CodecError::Ask(q)),
            Ok(None) => return Err(CodecError::Codec("failed to parse EDN".to_owned())),
            Ok(Some((v, _))) => v,
        };
        let mut event = Event::empty(now);
        if let Some(f) = &self.target {
            event.set(f, v);
            return Ok(one_event(event));
        }
        if let Json::Object(_) = &v {
            return Ok(one_event(Event::from_json(&v, now)));
        }
        match to_string_lossy(&v, answers) {
            Ok(s) => {
                event.set_message(&s);
                Ok(one_event(event))
            },
            Err(q) => Err(CodecError::Ask(q)),
        }
    }

    fn encode(&self, event: &Event, answers: &Answers) -> (r: Result<Vec<u8>, CodecError>)
        ensures
            match (r, edn_text(answers@, JsonV::Object(edn_members(event@)))) {
                (Ok(b), Ok(s)) => tame(JsonV::Object(event@.fields)) && depth(
                    JsonV::Object(edn_members(event@)),
                ) < MAX_DEPTH && density_fault(s) is None ==> forall|now: Moment|
                    #![trigger self.decoded(b@, now, answers@)]
                    edn_event(
                        answers@,
                        opt_view(self.target),
                        JsonV::Object(edn_members(event@)),
                        now,
                    ) matches Ok(e) && self.decoded(b@, now, answers@) == Ok::<
                        Seq<EventV>,
                        CodecErrV,
                    >(seq![e]),
                _ => true,
            },
    {
        let mut p: Vec<(String, Json)> = Vec::new();
        p.push(("@timestamp".to_owned(), Json::Str(format_rfc3339_full(event.timestamp))));
        let ghost first = seq![
            (
                "@timestamp"@,
                JsonV::Str(rfc3339_full_text(event.timestamp.secs, event.timestamp.nanos)),
            ),
        ];
        assert(entries_view(p@) =~= first);
        let mut i: usize = 0;
        while i < event.fields.len()
            invariant
                i <= event.fields@.len(),
                put_all(first, entries_view(event.fields@), 0) == put_all(
                    entries_view(p@),
                    entries_view(event.fields@),
                    i as int,
                ),
            decreases event.fields@.len() - i,
        {
            assert(entries_view(event.fields@)[i as int] == (
                event.fields@[i as int].0@,
                event.fields@[i as int].1.view(),
            ));
            put_json(&mut p, &event.fields[i].0, event.fields[i].1.copy());
            i += 1;
        }
        match Self::format_edn(&Json::Object(p), answers) {
            Ok(s) => {
                proof {
                    let v = JsonV::Object(edn_members(event@));
                    if tame(JsonV::Object(event@.fields)) && depth(v) < MAX_DEPTH && density_fault(
                        s@,
                    ) is None {
                        assert forall|now: Moment|
                            #![trigger self.decoded(encode_utf8(s@ + "\n"@), now, answers@)]
                            edn_event(answers@, opt_view(self.target), v, now) matches Ok(e)
                                && self.decoded(encode_utf8(s@ + "\n"@), now, answers@) == Ok::<
                                Seq<EventV>,
                                CodecErrV,
                            >(seq![e]) by {
                            event_survives_edn(*self, answers@, event@, now);
                        }
                    }
                }
                Ok(text_bytes(&join2(&s, "\n")))
            },
            Err(q) => Err(CodecError::Ask(q)),
        }
    }

    fn is_stateful(&self) -> (r: bool) {
        false
    }
}

/// A text without a character that opens a list or a map passes the density
/// check; so does one that is a string alone, whatever the string holds.
pub proof fn quiet_text_is_not_dense(c: Seq<char>)
    ensures
        (forall|k: int| 0 <= k < c.len() ==> c[k] != '{' && c[k] != '[') ==> density_fault(c)
            is None,
        c.len() > 0 && c[0] == '"' && quote_end(c, 1) == c.len() ==> density_fault(c) is None,
{
    if forall|k: int| 0 <= k < c.len() ==> c[k] != '{' && c[k] != '[' {
        lemma_no_opens(c, 0, 0);
    }
    reveal_with_fuel(opens, 2);
}

proof fn lemma_no_opens(c: Seq<char>, i: int, run: nat)
    requires
        forall|k: int| 0 <= k < c.len() ==> c[k] != '{' && c[k] != '[',
    ensures
        opens(c, i, 0, run, 0) == (0nat, 0nat),
    decreases c.len() - i,
{
    if 0 <= i < c.len() {
        lemma_quote_end(c, i + 1);
        lemma_line_break(c, i + 1);
        if c[i] == '"' {
            lemma_no_opens(c, quote_end(c, i + 1), 0);
        } else if c[i] == ';' {
            lemma_no_opens(c, line_break(c, i + 1), 0);
        } else {
            lemma_no_opens(c, i + 1, 0);
        }
    }
}

/// No value is found at the greatest depth or below it.
pub proof fn depth_is_bounded(t: AnswersV, c: Seq<char>, i: int, depth: nat)
    requires
        depth >= MAX_DEPTH,
    ensures
        value_at(t, c, i, depth) == Ok::<Option<(JsonV, int)>, QueryV>(None),
{
    reveal(value_at);
}

} // verus!
