//! CEF (Common Event Format) codec, the event format of ArcSight and other SIEM
//! systems.
//!
//! A message reads `CEF:Version|Device Vendor|Device Product|Device Version|Signature
//! ID|Name|Severity|Extension`, such as `CEF:0|Security|IDS|1.0|100|Attack
//! detected|9|src=10.0.0.1 dst=192.168.1.1 msg=SQL injection`.
use crate::codec::json::{get_text, opt_view, text_setting};
use crate::codec::{
    are_events, lossy_text, one_event, text_bytes, utf8_lossy, Codec, CodecErrV, CodecError,
    DecodedV, EncodedV, TemplatesV,
};
use crate::double::{Answers, AnswersV, DoubleQuery, QueryV};
use crate::event::{
    blank, field_of, is_event, lossy, to_string_lossy, with_field, with_message, Event, EventV,
};
use crate::json::{entries_view, text_value, Json, JsonV};
use crate::moment::Moment;
use crate::script::value::gives_text;
use crate::text::{
    chars_of, find_chars, find_from, join2, nat_text, replace_all, replace_text, same, split,
    split_text, string_of, texts_view, trim, trim_text, u64_text,
};
use vstd::prelude::*;
use vstd::utf8::encode_utf8;

verus! {

broadcast use vstd::string::group_string_axioms;

/// The full field name of a CEF key, by ArcSight's convention.
pub open spec fn full_name(key: Seq<char>) -> Seq<char> {
    if key == "act"@ {
        "deviceAction"@
    } else if key == "app"@ {
        "applicationProtocol"@
    } else if key == "c6a1"@ {
        "deviceCustomIPv6Address1"@
    } else if key == "c6a1Label"@ {
        "deviceCustomIPv6Address1Label"@
    } else if key == "cfp1"@ {
        "deviceCustomFloatingPoint1"@
    } else if key == "cfp1Label"@ {
        "deviceCustomFloatingPoint1Label"@
    } else if key == "cn1"@ {
        "deviceCustomNumber1"@
    } else if key == "cn1Label"@ {
        "deviceCustomNumber1Label"@
    } else if key == "cn2"@ {
        "deviceCustomNumber2"@
    } else if key == "cn2Label"@ {
        "deviceCustomNumber2Label"@
    } else if key == "cn3"@ {
        "deviceCustomNumber3"@
    } else if key == "cn3Label"@ {
        "deviceCustomNumber3Label"@
    } else if key == "cnt"@ {
        "baseEventCount"@
    } else if key == "cs1"@ {
        "deviceCustomString1"@
    } else if key == "cs1Label"@ {
        "deviceCustomString1Label"@
    } else if key == "cs2"@ {
        "deviceCustomString2"@
    } else if key == "cs2Label"@ {
        "deviceCustomString2Label"@
    } else if key == "cs3"@ {
        "deviceCustomString3"@
    } else if key == "cs3Label"@ {
        "deviceCustomString3Label"@
    } else if key == "cs4"@ {
        "deviceCustomString4"@
    } else if key == "cs4Label"@ {
        "deviceCustomString4Label"@
    } else if key == "cs5"@ {
        "deviceCustomString5"@
    } else if key == "cs5Label"@ {
        "deviceCustomString5Label"@
    } else if key == "cs6"@ {
        "deviceCustomString6"@
    } else if key == "cs6Label"@ {
        "deviceCustomString6Label"@
    } else if key == "dhost"@ {
        "destinationHostName"@
    } else if key == "dmac"@ {
        "destinationMacAddress"@
    } else if key == "dntdom"@ {
        "destinationNtDomain"@
    } else if key == "dpid"@ {
        "destinationProcessId"@
    } else if key == "dpriv"@ {
        "destinationUserPrivileges"@
    } else if key == "dproc"@ {
        "destinationProcessName"@
    } else if key == "dpt"@ {
        "destinationPort"@
    } else if key == "dst"@ {
        "destinationAddress"@
    } else if key == "duid"@ {
        "destinationUserId"@
    } else if key == "duser"@ {
        "destinationUserName"@
    } else if key == "dvc"@ {
        "deviceAddress"@
    } else if key == "dvchost"@ {
        "deviceHostName"@
    } else if key == "dvcpid"@ {
        "deviceProcessId"@
    } else if key == "end"@ {
        "endTime"@
    } else if key == "fname"@ {
        "fileName"@
    } else if key == "fsize"@ {
        "fileSize"@
    } else if key == "in"@ {
        "bytesIn"@
    } else if key == "msg"@ {
        "message"@
    } else if key == "out"@ {
        "bytesOut"@
    } else if key == "outcome"@ {
        "eventOutcome"@
    } else if key == "proto"@ {
        "transportProtocol"@
    } else if key == "request"@ {
        "requestUrl"@
    } else if key == "rt"@ {
        "deviceReceiptTime"@
    } else if key == "shost"@ {
        "sourceHostName"@
    } else if key == "smac"@ {
        "sourceMacAddress"@
    } else if key == "sntdom"@ {
        "sourceNtDomain"@
    } else if key == "spid"@ {
        "sourceProcessId"@
    } else if key == "spriv"@ {
        "sourceUserPrivileges"@
    } else if key == "sproc"@ {
        "sourceProcessName"@
    } else if key == "spt"@ {
        "sourcePort"@
    } else if key == "src"@ {
        "sourceAddress"@
    } else if key == "start"@ {
        "startTime"@
    } else if key == "suid"@ {
        "sourceUserId"@
    } else if key == "suser"@ {
        "sourceUserName"@
    } else if key == "type"@ {
        "categoryDeviceType"@
    } else {
        key
    }
}

/// The full field name of a CEF key, by ArcSight's convention.
pub fn cef_key_full_name(key: &str) -> (r: &str)
    ensures
        r@ == full_name(key@),
{
    if same(key, "act") {
        return "deviceAction";
    }
    if same(key, "app") {
        return "applicationProtocol";
    }
    if same(key, "c6a1") {
        return "deviceCustomIPv6Address1";
    }
    if same(key, "c6a1Label") {
        return "deviceCustomIPv6Address1Label";
    }
    if same(key, "cfp1") {
        return "deviceCustomFloatingPoint1";
    }
    if same(key, "cfp1Label") {
        return "deviceCustomFloatingPoint1Label";
    }
    if same(key, "cn1") {
        return "deviceCustomNumber1";
    }
    if same(key, "cn1Label") {
        return "deviceCustomNumber1Label";
    }
    if same(key, "cn2") {
        return "deviceCustomNumber2";
    }
    if same(key, "cn2Label") {
        return "deviceCustomNumber2Label";
    }
    if same(key, "cn3") {
        return "deviceCustomNumber3";
    }
    if same(key, "cn3Label") {
        return "deviceCustomNumber3Label";
    }
    if same(key, "cnt") {
        return "baseEventCount";
    }
    if same(key, "cs1") {
        return "deviceCustomString1";
    }
    if same(key, "cs1Label") {
        return "deviceCustomString1Label";
    }
    if same(key, "cs2") {
        return "deviceCustomString2";
    }
    if same(key, "cs2Label") {
        return "deviceCustomString2Label";
    }
    if same(key, "cs3") {
        return "deviceCustomString3";
    }
    if same(key, "cs3Label") {
        return "deviceCustomString3Label";
    }
    if same(key, "cs4") {
        return "deviceCustomString4";
    }
    if same(key, "cs4Label") {
        return "deviceCustomString4Label";
    }
    if same(key, "cs5") {
        return "deviceCustomString5";
    }
    if same(key, "cs5Label") {
        return "deviceCustomString5Label";
    }
    if same(key, "cs6") {
        return "deviceCustomString6";
    }
    if same(key, "cs6Label") {
        return "deviceCustomString6Label";
    }
    if same(key, "dhost") {
        return "destinationHostName";
    }
    if same(key, "dmac") {
        return "destinationMacAddress";
    }
    if same(key, "dntdom") {
        return "destinationNtDomain";
    }
    if same(key, "dpid") {
        return "destinationProcessId";
    }
    if same(key, "dpriv") {
        return "destinationUserPrivileges";
    }
    if same(key, "dproc") {
        return "destinationProcessName";
    }
    if same(key, "dpt") {
        return "destinationPort";
    }
    if same(key, "dst") {
        return "destinationAddress";
    }
    if same(key, "duid") {
        return "destinationUserId";
    }
    if same(key, "duser") {
        return "destinationUserName";
    }
    if same(key, "dvc") {
        return "deviceAddress";
    }
    if same(key, "dvchost") {
        return "deviceHostName";
    }
    if same(key, "dvcpid") {
        return "deviceProcessId";
    }
    if same(key, "end") {
        return "endTime";
    }
    if same(key, "fname") {
        return "fileName";
    }
    if same(key, "fsize") {
        return "fileSize";
    }
    if same(key, "in") {
        return "bytesIn";
    }
    if same(key, "msg") {
        return "message";
    }
    if same(key, "out") {
        return "bytesOut";
    }
    if same(key, "outcome") {
        return "eventOutcome";
    }
    if same(key, "proto") {
        return "transportProtocol";
    }
    if same(key, "request") {
        return "requestUrl";
    }
    if same(key, "rt") {
        return "deviceReceiptTime";
    }
    if same(key, "shost") {
        return "sourceHostName";
    }
    if same(key, "smac") {
        return "sourceMacAddress";
    }
    if same(key, "sntdom") {
        return "sourceNtDomain";
    }
    if same(key, "spid") {
        return "sourceProcessId";
    }
    if same(key, "spriv") {
        return "sourceUserPrivileges";
    }
    if same(key, "sproc") {
        return "sourceProcessName";
    }
    if same(key, "spt") {
        return "sourcePort";
    }
    if same(key, "src") {
        return "sourceAddress";
    }
    if same(key, "start") {
        return "startTime";
    }
    if same(key, "suid") {
        return "sourceUserId";
    }
    if same(key, "suser") {
        return "sourceUserName";
    }
    if same(key, "type") {
        return "categoryDeviceType";
    }
    key
}

/// CEF (Common Event Format) codec.
#[derive(Debug, PartialEq)]
pub struct CefCodec {
    /// Default severity for encoding (0-10).
    pub default_severity: Option<String>,
}

/// The position of the last `c` in the first `j` characters.
pub open spec fn last_of(s: Seq<char>, c: char, j: int) -> Option<int>
    decreases j,
{
    if j <= 0 {
        None
    } else if s[j - 1] == c {
        Some(j - 1)
    } else {
        last_of(s, c, j - 1)
    }
}

fn rfind_char(s: &Vec<char>, c: char) -> (r: Option<usize>)
    ensures
        match r {
            Some(k) => last_of(s@, c, s@.len() as int) == Some(k as int) && k < s.len(),
            None => last_of(s@, c, s@.len() as int) is None,
        },
{
    let mut j: usize = s.len();
    while j > 0
        invariant
            j <= s@.len(),
            last_of(s@, c, s@.len() as int) == last_of(s@, c, j as int),
        decreases j,
    {
        if s[j - 1] == c {
            return Some(j - 1);
        }
        j -= 1;
    }
    None
}

/// A part of a value behind the parts before it, which an equals sign ends.
pub open spec fn with_part(value: Seq<char>, part: Seq<char>) -> Seq<char> {
    if value.len() > 0 {
        value.push('=') + part
    } else {
        part
    }
}

/// Where in a piece the key begins that the equals sign behind the piece ends:
/// at its last word, if a space stands before that. The piece behind the last
/// equals sign holds no key.
pub open spec fn next_key(tokens: Seq<Seq<char>>, i: int) -> Option<int> {
    let token = tokens[i];
    match last_of(token, ' ', token.len() as int) {
        Some(p) => if i + 1 < tokens.len() && p + 1 < token.len() {
            Some(p + 1)
        } else {
            None
        },
        None => None,
    }
}

/// The pairs of an extension whose pieces between equals signs are `tokens`,
/// read from the token `i` on, where `key` and `value` stand before it and
/// `pairs` are complete. A piece goes to the value, up to the next key.
pub open spec fn pairs_from(
    tokens: Seq<Seq<char>>,
    i: int,
    key: Seq<char>,
    value: Seq<char>,
    pairs: Seq<(Seq<char>, Seq<char>)>,
) -> Seq<(Seq<char>, Seq<char>)>
    decreases tokens.len() - i,
{
    if i < 0 || i >= tokens.len() {
        if key.len() > 0 {
            pairs.push((key, trim_text(value)))
        } else {
            pairs
        }
    } else {
        let token = tokens[i];
        match next_key(tokens, i) {
            Some(p) => {
                let whole = with_part(value, token.subrange(0, p - 1));
                pairs_from(
                    tokens,
                    i + 1,
                    token.subrange(p, token.len() as int),
                    Seq::empty(),
                    if key.len() > 0 {
                        pairs.push((key, trim_text(whole)))
                    } else {
                        pairs
                    },
                )
            },
            None => pairs_from(tokens, i + 1, key, with_part(value, token), pairs),
        }
    }
}

/// The keys and values of an extension.
pub open spec fn extension_pairs(s: Seq<char>) -> Seq<(Seq<char>, Seq<char>)> {
    let tokens = split_text(s, "="@);
    pairs_from(tokens, 1, trim_text(tokens[0]), Seq::empty(), Seq::empty())
}

/// A header field without its escapes.
pub open spec fn unescaped(s: Seq<char>) -> Seq<char> {
    replace_text(replace_text(s, "\\|"@, "|"@), "\\\\"@, "\\"@)
}

/// The header fields, which unescaped bars end, and the extension behind the
/// seventh, read from `i` on behind the fields `done` and the start `part` of
/// the next.
pub open spec fn header_from(
    c: Seq<char>,
    i: int,
    part: Seq<char>,
    done: Seq<Seq<char>>,
) -> (Seq<Seq<char>>, Seq<char>)
    decreases c.len() - i,
{
    if i < 0 || i >= c.len() {
        (done, part)
    } else if c[i] == '\\' && i + 1 < c.len() {
        header_from(c, i + 2, part.push(c[i]).push(c[i + 1]), done)
    } else if c[i] == '|' && done.len() < 7 {
        header_from(c, i + 1, Seq::empty(), done.push(part))
    } else {
        header_from(c, i + 1, part.push(c[i]), done)
    }
}

/// The event with the pairs from `i` on as fields, under their full names.
pub open spec fn with_pairs(e: EventV, pairs: Seq<(Seq<char>, Seq<char>)>, i: int) -> EventV
    decreases pairs.len() - i,
{
    if i < 0 || i >= pairs.len() {
        e
    } else {
        with_pairs(with_field(e, full_name(pairs[i].0), JsonV::Str(pairs[i].1)), pairs, i + 1)
    }
}

/// The event of header fields.
pub open spec fn header_event(h: Seq<Seq<char>>, now: Moment) -> EventV {
    let e0 = with_field(blank(now), "cef_version"@, JsonV::Str(unescaped(h[0])));
    let e1 = with_field(e0, "device_vendor"@, JsonV::Str(unescaped(h[1])));
    let e2 = with_field(e1, "device_product"@, JsonV::Str(unescaped(h[2])));
    let e3 = with_field(e2, "device_version"@, JsonV::Str(unescaped(h[3])));
    let e4 = with_field(e3, "signature_id"@, JsonV::Str(unescaped(h[4])));
    let e5 = with_field(e4, "name"@, JsonV::Str(unescaped(h[5])));
    with_field(e5, "severity"@, JsonV::Str(unescaped(h[6])))
}

/// The event of a CEF message, in which `CEF:` stands at `start`.
pub open spec fn cef_event(text: Seq<char>, start: int, now: Moment) -> DecodedV {
    let (h, ext) = header_from(
        text.subrange(start + 4, text.len() as int),
        0,
        Seq::empty(),
        Seq::empty(),
    );
    if h.len() < 7 {
        Err(
            CodecErrV::Codec(
                "invalid CEF format: expected 7 pipe-delimited header fields, got "@ + nat_text(
                    h.len(),
                ),
            ),
        )
    } else {
        let e1 = header_event(h, now);
        let e2 = if start > 0 {
            with_field(e1, "syslog_header"@, JsonV::Str(trim_text(text.subrange(0, start))))
        } else {
            e1
        };
        let e3 = if ext.len() > 0 {
            with_pairs(e2, extension_pairs(ext), 0)
        } else {
            e2
        };
        Ok(seq![with_message(e3, text)])
    }
}

/// A field's text, or another text where the field is none.
pub open spec fn field_text(e: EventV, field: Seq<char>, default: Seq<char>) -> Seq<char> {
    match field_of(e, field) {
        Some(JsonV::Str(s)) => s,
        _ => default,
    }
}

/// A field that has its own place in a message, or none.
pub open spec fn reserved(k: Seq<char>) -> bool {
    k == "cef_version"@ || k == "device_vendor"@ || k == "device_product"@ || k
        == "device_version"@ || k == "signature_id"@ || k == "name"@ || k == "severity"@ || k
        == "message"@ || k == "syslog_header"@
}

/// The other fields from `i` on as an extension, behind `acc`, of which `some`
/// says whether it holds a field.
pub open spec fn extension_from(
    t: AnswersV,
    p: Seq<(Seq<char>, JsonV)>,
    i: int,
    some: bool,
    acc: Seq<char>,
) -> Result<Seq<char>, QueryV>
    decreases p.len() - i,
{
    if i < 0 || i >= p.len() {
        Ok(acc)
    } else if reserved(p[i].0) {
        extension_from(t, p, i + 1, some, acc)
    } else {
        match lossy(t, p[i].1) {
            Ok(s) => extension_from(
                t,
                p,
                i + 1,
                true,
                (if some {
                    acc + " "@
                } else {
                    acc
                }) + p[i].0 + "="@ + s,
            ),
            Err(q) => Err(q),
        }
    }
}

fn is_reserved(k: &str) -> (r: bool)
    ensures
        r == reserved(k@),
{
    same(k, "cef_version") || same(k, "device_vendor") || same(k, "device_product") || same(
        k,
        "device_version",
    ) || same(k, "signature_id") || same(k, "name") || same(k, "severity") || same(k, "message")
        || same(k, "syslog_header")
}

pub(crate) fn text_field<'a>(event: &'a Event, field: &str, default: &'a str) -> (r: &'a str)
    ensures
        r@ == field_text(event@, field@, default@),
{
    match event.get(field) {
        Some(Json::Str(s)) => s.as_str(),
        _ => default,
    }
}

/// Pairs of texts.
pub open spec fn pairs_view(v: Seq<(String, String)>) -> Seq<(Seq<char>, Seq<char>)> {
    v.map_values(|p: (String, String)| (p.0@, p.1@))
}

impl CefCodec {
    /// Whether the codec is the one that settings ask for.
    pub open spec fn configured(&self, settings: JsonV) -> bool {
        opt_view(self.default_severity) == text_setting(
                settings,
                "default_severity"@,
            )
    }

    pub fn from_config(settings: &Json) -> (r: Result<Self, CodecError>)
        ensures
            r matches Ok(c) && c.configured(settings.view()),
    {
        Ok(Self { default_severity: get_text(settings, "default_severity") })
    }

    /// Parses an extension, such as `key1=value1 key2=value2`, into keys and
    /// values. Values can contain spaces: a new key starts only at a word that
    /// an equals sign follows.
    pub fn parse_extensions(ext_str: &str) -> (r: Vec<(String, String)>)
        ensures
            pairs_view(r@) == extension_pairs(ext_str@),
    {
        let tokens = split(ext_str, "=");
        let ghost tv = texts_view(tokens@);
        let mut pairs: Vec<(String, String)> = Vec::new();
        let mut key = trim(tokens[0].as_str());
        let mut value = String::new();
        let mut i: usize = 1;
        assert(pairs_view(pairs@) =~= Seq::empty());
        assert(value@ =~= Seq::<char>::empty());
        while i < tokens.len()
            invariant
                1 <= i <= tokens@.len(),
                tv == texts_view(tokens@),
                extension_pairs(ext_str@) == pairs_from(
                    tv,
                    i as int,
                    key@,
                    value@,
                    pairs_view(pairs@),
                ),
            decreases tokens@.len() - i,
        {
            let token = tokens[i].as_str();
            assert(tv[i as int] == token@);
            let c = chars_of(token);
            let ghost before = pairs_view(pairs@);
            let start = match rfind_char(&c, ' ') {
                Some(p) => if i + 1 < tokens.len() && p + 1 < c.len() {
                    Some(p + 1)
                } else {
                    None
                },
                None => None,
            };
            if let Some(p) = start {
                if !value.as_str().is_empty() {
                    value.push('=');
                }
                value.append(&string_of(c.as_slice(), 0, p - 1));
                let v = trim(&value);
                if !key.as_str().is_empty() {
                    pairs.push((key, v));
                    assert(pairs_view(pairs@) =~= before.push((key@, v@)));
                }
                key = string_of(c.as_slice(), p, c.len());
                value = String::new();
                assert(value@ =~= Seq::<char>::empty());
            } else {
                if !value.as_str().is_empty() {
                    value.push('=');
                }
                value.append(token);
            }
            i += 1;
        }
        if !key.as_str().is_empty() {
            let ghost before = pairs_view(pairs@);
            let v = trim(&value);
            pairs.push((key, v));
            assert(pairs_view(pairs@) =~= before.push((key@, v@)));
        }
        pairs
    }

    /// Drops the escapes of a header field.
    pub fn unescape_field(s: &str) -> (r: String)
        ensures
            r@ == unescaped(s@),
    {
        replace_all(&replace_all(s, "\\|", "|"), "\\\\", "\\")
    }

    /// The header fields and the extension.
    fn split_header(c: &Vec<char>) -> (r: (Vec<String>, String))
        ensures
            (texts_view(r.0@), r.1@) == header_from(c@, 0, Seq::empty(), Seq::empty()),
    {
        let mut done: Vec<String> = Vec::new();
        let mut part = String::new();
        let mut i: usize = 0;
        assert(texts_view(done@) =~= Seq::empty());
        assert(part@ =~= Seq::<char>::empty());
        while i < c.len()
            invariant
                i <= c@.len(),
                header_from(c@, 0, Seq::empty(), Seq::empty()) == header_from(
                    c@,
                    i as int,
                    part@,
                    texts_view(done@),
                ),
            decreases c@.len() - i,
        {
            if c[i] == '\\' && c.len() - i > 1 {
                part.push(c[i]);
                part.push(c[i + 1]);
                i += 2;
            } else if c[i] == '|' && done.len() < 7 {
                let ghost before = texts_view(done@);
                done.push(part);
                assert(texts_view(done@) =~= before.push(part@));
                part = String::new();
                assert(part@ =~= Seq::<char>::empty());
                i += 1;
            } else {
                part.push(c[i]);
                i += 1;
            }
        }
        (done, part)
    }

    fn make_event(text: &str, c: &Vec<char>, start: usize, now: Moment) -> (r: Result<
        Vec<Event>,
        CodecError,
    >)
        requires
            c@ == text@,
            start + 4 <= c.len(),
        ensures
            crate::codec::gives_events(r, cef_event(text@, start as int, now)),
            r matches Ok(events) ==> are_events(events@),
    {
        let rest = string_of(c.as_slice(), start + 4, c.len());
        let (h, ext) = Self::split_header(&chars_of(&rest));
        let ghost hv = texts_view(h@);
        if h.len() < 7 {
            return Err(
                CodecError::Codec(
                    join2(
                        "invalid CEF format: expected 7 pipe-delimited header fields, got ",
                        &u64_text(h.len() as u64),
                    ),
                ),
            );
        }
        assert(forall|j: int| 0 <= j < h@.len() ==> hv[j] == (#[trigger] h@[j])@);
        let mut e = Event::empty(now);
        e.set("cef_version", Json::Str(Self::unescape_field(&h[0])));
        e.set("device_vendor", Json::Str(Self::unescape_field(&h[1])));
        e.set("device_product", Json::Str(Self::unescape_field(&h[2])));
        e.set("device_version", Json::Str(Self::unescape_field(&h[3])));
        e.set("signature_id", Json::Str(Self::unescape_field(&h[4])));
        e.set("name", Json::Str(Self::unescape_field(&h[5])));
        e.set("severity", Json::Str(Self::unescape_field(&h[6])));
        if start > 0 {
            e.set("syslog_header", Json::Str(trim(&string_of(c.as_slice(), 0, start))));
        }
        if !ext.as_str().is_empty() {
            let pairs = Self::parse_extensions(&ext);
            let ghost first = e@;
            let mut i: usize = 0;
            while i < pairs.len()
                invariant
                    i <= pairs@.len(),
                    is_event(e@),
                    with_pairs(first, pairs_view(pairs@), 0) == with_pairs(
                        e@,
                        pairs_view(pairs@),
                        i as int,
                    ),
                decreases pairs@.len() - i,
            {
                assert(pairs_view(pairs@)[i as int] == (pairs@[i as int].0@, pairs@[i as int].1@));
                e.set(cef_key_full_name(&pairs[i].0), text_value(&pairs[i].1));
                i += 1;
            }
        }
        e.set_message(text);
        Ok(one_event(e))
    }

    /// The fields without a place of their own.
    fn extension_of(event: &Event, answers: &Answers) -> (r: Result<String, DoubleQuery>)
        ensures
            gives_text(r, extension_from(answers@, event@.fields, 0, false, Seq::empty())),
    {
        let mut out = String::new();
        let mut some = false;
        let mut i: usize = 0;
        assert(out@ =~= Seq::<char>::empty());
        while i < event.fields.len()
            invariant
                i <= event.fields@.len(),
                extension_from(answers@, event@.fields, 0, false, Seq::empty()) == extension_from(
                    answers@,
                    event@.fields,
                    i as int,
                    some,
                    out@,
                ),
            decreases event.fields@.len() - i,
        {
            assert(entries_view(event.fields@)[i as int] == (
                event.fields@[i as int].0@,
                event.fields@[i as int].1.view(),
            ));
            if !is_reserved(&event.fields[i].0) {
                let s = match to_string_lossy(&event.fields[i].1, answers) {
                    Ok(s) => s,
                    Err(q) => return Err(q),
                };
                if some {
                    out.append(" ");
                }
                out.append(&event.fields[i].0);
                out.append("=");
                out.append(&s);
                some = true;
            }
            i += 1;
        }
        Ok(out)
    }
}

impl Default for CefCodec {
    fn default() -> (r: Self)
        ensures
            r.default_severity is None,
    {
        Self { default_severity: None }
    }
}

impl Codec for CefCodec {
    open spec fn name_v(&self) -> Seq<char> {
        "cef"@
    }

    open spec fn decoded(&self, data: Seq<u8>, now: Moment, t: AnswersV) -> DecodedV {
        let text = trim_text(utf8_lossy(data));
        match find_from(text, "CEF:"@, 0) {
            None => Err(CodecErrV::Codec("not a CEF message: missing CEF: prefix"@)),
            Some(start) => cef_event(text, start, now),
        }
    }

    open spec fn encoded(&self, e: EventV, t: AnswersV) -> EncodedV {
        match extension_from(t, e.fields, 0, false, Seq::empty()) {
            Ok(ext) => Ok(
                encode_utf8(
                    "CEF:"@ + field_text(e, "cef_version"@, "0"@) + "|"@ + field_text(
                        e,
                        "device_vendor"@,
                        "FerroStash"@,
                    ) + "|"@ + field_text(e, "device_product"@, "FerroStash"@) + "|"@ + field_text(
                        e,
                        "device_version"@,
                        "1.0"@,
                    ) + "|"@ + field_text(e, "signature_id"@, "0"@) + "|"@ + field_text(
                        e,
                        "name"@,
                        ""@,
                    ) + "|"@ + field_text(
                        e,
                        "severity"@,
                        match self.default_severity {
                            Some(s) => s@,
                            None => "5"@,
                        },
                    ) + "|"@ + ext + "\n"@,
                ),
            ),
            Err(q) => Err(CodecErrV::Ask(q)),
        }
    }

    open spec fn learned(&self) -> TemplatesV {
        Map::empty()
    }

    open spec fn learned_after(&self, data: Seq<u8>) -> TemplatesV {
        Map::empty()
    }

    open spec fn stateful(&self) -> bool {
        false
    }

    fn name(&self) -> (r: &'static str) {
        "cef"
    }

    fn decode(&mut self, data: &[u8], now: Moment, answers: &Answers) -> (r: Result<
        Vec<Event>,
        CodecError,
    >)
        ensures
            *final(self) == *old(self),
    {
        proof {
            reveal_strlit("CEF:");
        }
        let text = trim(&lossy_text(data));
        let c = chars_of(&text);
        match find_chars(&c, &chars_of("CEF:"), 0) {
            None => Err(CodecError::Codec("not a CEF message: missing CEF: prefix".to_owned())),
            Some(start) => Self::make_event(&text, &c, start, now),
        }
    }

    fn encode(&self, event: &Event, answers: &Answers) -> (r: Result<Vec<u8>, CodecError>) {
        let ext = match Self::extension_of(event, answers) {
            Ok(s) => s,
            Err(q) => return Err(CodecError::Ask(q)),
        };
        let severity = match &self.default_severity {
            Some(s) => s.as_str(),
            None => "5",
        };
        let mut line = "CEF:".to_owned();
        line.append(text_field(event, "cef_version", "0"));
        line.append("|");
        line.append(text_field(event, "device_vendor", "FerroStash"));
        line.append("|");
        line.append(text_field(event, "device_product", "FerroStash"));
        line.append("|");
        line.append(text_field(event, "device_version", "1.0"));
        line.append("|");
        line.append(text_field(event, "signature_id", "0"));
        line.append("|");
        line.append(text_field(event, "name", ""));
        line.append("|");
        line.append(text_field(event, "severity", severity));
        line.append("|");
        line.append(&ext);
        line.append("\n");
        Ok(text_bytes(&line))
    }

    fn is_stateful(&self) -> (r: bool) {
        false
    }
}

} // verus!
