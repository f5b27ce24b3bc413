//! Nmap codec: events from the XML of nmap scans.
//!
//! It reads the scan, its hosts (address, host name, status), and their ports
//! (port, protocol, state, service) without a parser for all of XML.
use crate::codec::json::{json_bytes, opt_view};
use crate::codec::{
    are_events, events_view, lossy_text, one_event, text_bytes, utf8_lossy, Codec, CodecErrV,
    CodecError, DecodedV, EncodedV, TemplatesV,
};
use crate::dict::{lookup, put};
use crate::double::{ask_parse, Answers, AnswersV, Double, DoubleQuery, DoubleV, QueryV};
use crate::event::{blank, is_event, timed, with_members, with_message, Event, EventV};
use crate::interchange::write_json_pretty;
use crate::json::{entries_view, find_json, jsons_view, put_json, Json, JsonV};
use crate::moment::Moment;
use crate::text::{
    chars_of, find_chars, find_from, i64_of_text, join2, lemma_find_from, parse_i64, string_of,
    trim, trim_text,
};
use crate::text::{char_is_white, is_white, occurs_at};
use vstd::prelude::*;

verus! {

broadcast use vstd::string::group_string_axioms;

/// Nmap XML codec.
#[derive(Debug, Clone, Copy, PartialEq, Eq)]
pub struct NmapCodec;

/// The value of an attribute in the text of a tag.
pub open spec fn attr(tag: Seq<char>, name: Seq<char>) -> Option<Seq<char>> {
    let search = name + "=\""@;
    match find_from(tag, search, 0) {
        None => None,
        Some(start) => match find_from(tag, "\""@, start + search.len()) {
            None => None,
            Some(end) => Some(tag.subrange(start + search.len(), end)),
        },
    }
}

/// The position behind the first `p` at or behind `from`, or `default`.
pub open spec fn behind(s: Seq<char>, p: Seq<char>, from: int, default: int) -> int {
    match find_from(s, p, from) {
        Some(i) => i + p.len(),
        None => default,
    }
}

/// Whether a character may stand behind the name of an element in its tag.
pub open spec fn ends_name(c: char) -> bool {
    is_white(c) || c == '>' || c == '/'
}

/// The first position at or behind `from` of a tag that begins with `open`, its
/// angle bracket and its whole name.
pub open spec fn element_from(xml: Seq<char>, open: Seq<char>, from: int) -> Option<int>
    decreases xml.len() - from,
{
    proof {
        lemma_find_from(xml, open, from);
    }
    match find_from(xml, open, from) {
        None => None,
        Some(i) => if i + open.len() >= xml.len() {
            None
        } else if ends_name(xml[i + open.len()]) {
            Some(i)
        } else {
            element_from(xml, open, i + 1)
        },
    }
}

pub proof fn lemma_element_from(xml: Seq<char>, open: Seq<char>, from: int)
    ensures
        match element_from(xml, open, from) {
            Some(i) => 0 <= from <= i && i + open.len() < xml.len() && occurs_at(xml, open, i),
            None => true,
        },
    decreases xml.len() - from,
{
    lemma_find_from(xml, open, from);
    if let Some(i) = find_from(xml, open, from) {
        if i + open.len() < xml.len() && !ends_name(xml[i + open.len()]) {
            lemma_element_from(xml, open, i + 1);
        }
    }
}

/// The first tag that begins with `open`.
pub open spec fn tag(xml: Seq<char>, open: Seq<char>) -> Option<Seq<char>> {
    match element_from(xml, open, 0) {
        None => None,
        Some(i) => Some(xml.subrange(i, behind(xml, ">"@, i, xml.len() as int))),
    }
}

pub type Members = Seq<(Seq<char>, JsonV)>;

/// The members with an attribute of a tag as text, if both are there.
pub open spec fn with_attr(
    p: Members,
    tag: Option<Seq<char>>,
    name: Seq<char>,
    k: Seq<char>,
) -> Members {
    match tag {
        None => p,
        Some(x) => match attr(x, name) {
            None => p,
            Some(s) => put(p, k, JsonV::Str(s)),
        },
    }
}

/// The members with an attribute of a tag as integer, if both are there and it
/// is one.
pub open spec fn with_int_attr(
    p: Members,
    tag: Option<Seq<char>>,
    name: Seq<char>,
    k: Seq<char>,
) -> Members {
    match tag {
        None => p,
        Some(x) => match attr(x, name) {
            None => p,
            Some(s) => match i64_of_text(s) {
                None => p,
                Some(n) => put(p, k, JsonV::Int(n)),
            },
        },
    }
}

/// What a port's tag and section say of it.
pub open spec fn port_members(port_tag: Seq<char>, section: Seq<char>) -> Members {
    let p0 = with_int_attr(Seq::empty(), Some(port_tag), "portid"@, "port"@);
    let p1 = with_attr(p0, Some(port_tag), "protocol"@, "protocol"@);
    let p2 = with_attr(p1, tag(section, "<state"@), "state"@, "state"@);
    let service = tag(section, "<service"@);
    let p3 = with_attr(p2, service, "name"@, "service"@);
    let p4 = with_attr(p3, service, "product"@, "product"@);
    with_attr(p4, service, "version"@, "version"@)
}

/// The ports of a host from `from` on, behind `acc`.
pub open spec fn ports_from(host: Seq<char>, from: int, acc: Seq<JsonV>) -> Seq<JsonV>
    decreases host.len() - from,
{
    proof {
        lemma_ports(host, from);
    }
    match find_from(host, "<port "@, from) {
        None => acc,
        Some(start) => {
            let tag_end = behind(host, ">"@, start, host.len() as int);
            let end = behind(host, "</port>"@, start, tag_end);
            let p = port_members(host.subrange(start, tag_end), host.subrange(start, end));
            ports_from(
                host,
                end,
                if p.len() > 0 {
                    acc.push(JsonV::Object(p))
                } else {
                    acc
                },
            )
        },
    }
}

pub proof fn lemma_ports(host: Seq<char>, from: int)
    ensures
        match find_from(host, "<port "@, from) {
            None => true,
            Some(start) => {
                let tag_end = behind(host, ">"@, start, host.len() as int);
                &&& 0 <= from <= start < tag_end <= host.len()
                &&& start < behind(host, "</port>"@, start, tag_end) <= host.len()
            },
        },
{
    reveal_strlit("<port ");
    reveal_strlit(">");
    reveal_strlit("</port>");
    lemma_find_from(host, "<port "@, from);
    if let Some(start) = find_from(host, "<port "@, from) {
        lemma_find_from(host, ">"@, start);
        lemma_find_from(host, "</port>"@, start);
    }
}

/// What a host's section says of it.
pub open spec fn host_members(host: Seq<char>) -> Members {
    let address = tag(host, "<address"@);
    let p0 = with_attr(Seq::empty(), address, "addr"@, "ip"@);
    let p1 = with_attr(p0, address, "addrtype"@, "addrtype"@);
    let p2 = with_attr(p1, tag(host, "<hostname"@), "name"@, "hostname"@);
    let p3 = with_attr(p2, tag(host, "<status"@), "state"@, "status"@);
    let ports = ports_from(host, 0, Seq::empty());
    if ports.len() > 0 {
        put(p3, "ports"@, JsonV::Array(ports))
    } else {
        p3
    }
}

/// The hosts from `from` on, behind `acc`.
pub open spec fn hosts_from(xml: Seq<char>, from: int, acc: Seq<Members>) -> Seq<Members>
    decreases xml.len() - from,
{
    proof {
        lemma_hosts(xml, from);
    }
    match element_from(xml, "<host"@, from) {
        None => acc,
        Some(start) => {
            let end = behind(xml, "</host>"@, start, xml.len() as int);
            hosts_from(xml, end, acc.push(host_members(xml.subrange(start, end))))
        },
    }
}

pub proof fn lemma_hosts(xml: Seq<char>, from: int)
    ensures
        match element_from(xml, "<host"@, from) {
            None => true,
            Some(start) => 0 <= from <= start < behind(xml, "</host>"@, start, xml.len() as int)
                <= xml.len(),
        },
{
    reveal_strlit("<host");
    reveal_strlit("</host>");
    lemma_element_from(xml, "<host"@, from);
    if let Some(start) = element_from(xml, "<host"@, from) {
        lemma_find_from(xml, "</host>"@, start);
    }
}

/// What the document says of the scan.
pub open spec fn scan_members(t: AnswersV, xml: Seq<char>) -> Result<Members, QueryV> {
    let run = tag(xml, "<nmaprun"@);
    let p0 = with_attr(Seq::empty(), run, "scanner"@, "scanner"@);
    let p1 = with_attr(p0, run, "args"@, "scan_args"@);
    let p2 = with_int_attr(p1, run, "start"@, "scan_start"@);
    let p3 = with_attr(p2, run, "startstr"@, "scan_start_str"@);
    let finished = tag(xml, "<finished"@);
    let p4 = match finished {
        None => Ok(p3),
        Some(x) => match attr(x, "elapsed"@) {
            None => Ok(p3),
            Some(s) => match ask_parse(t, s) {
                Ok(Some(b)) => Ok(put(p3, "scan_elapsed"@, JsonV::Float(DoubleV::Bits(b)))),
                Ok(None) => Ok(p3),
                Err(q) => Err(q),
            },
        },
    };
    match p4 {
        Ok(p) => Ok(with_attr(p, finished, "summary"@, "message"@)),
        Err(q) => Err(q),
    }
}

/// The event of a host in a scan.
pub open spec fn host_event(scan: Members, host: Members, now: Moment) -> EventV {
    let e = with_members(with_members(blank(now), scan, 0), host, 0);
    let e = match lookup(scan, "message"@) {
        Some(JsonV::Str(s)) => with_message(e, s),
        _ => e,
    };
    match lookup(scan, "scan_start"@) {
        Some(JsonV::Int(ts)) => timed(e, ts, 0),
        _ => e,
    }
}

/// The events of a document: one for each host, or one for the scan.
pub open spec fn scan_events(scan: Members, hosts: Seq<Members>, now: Moment) -> Seq<EventV> {
    if hosts.len() == 0 {
        seq![with_members(blank(now), scan, 0)]
    } else {
        Seq::new(hosts.len(), |i: int| host_event(scan, hosts[i], now))
    }
}

/// The lists of members.
pub open spec fn hosts_view(v: Seq<Vec<(String, Json)>>) -> Seq<Members> {
    v.map_values(|p: Vec<(String, Json)>| entries_view(p@))
}

fn find_behind(s: &Vec<char>, p: &str, from: usize, default: usize) -> (r: usize)
    requires
        p@.len() > 0,
        from < s@.len(),
        from < default <= s@.len(),
    ensures
        r == behind(s@, p@, from as int, default as int),
        from < r <= s@.len(),
{
    let pc = chars_of(p);
    match find_chars(s, &pc, from) {
        Some(i) => i + pc.len(),
        None => default,
    }
}

fn find_element(xml: &Vec<char>, open: &str, from: usize) -> (r: Option<usize>)
    requires
        from <= xml@.len(),
        open@.len() > 0,
    ensures
        match r {
            Some(i) => element_from(xml@, open@, from as int) == Some(i as int) && from <= i < xml@.len(),
            None => element_from(xml@, open@, from as int) is None,
        },
{
    let name = chars_of(open);
    let mut at: usize = from;
    loop
        invariant
            from <= at <= xml@.len(),
            name@ == open@,
            name@.len() > 0,
            element_from(xml@, open@, from as int) == element_from(xml@, open@, at as int),
        decreases xml@.len() - at,
    {
        let i = match find_chars(xml, &name, at) {
            Some(i) => i,
            None => return None,
        };
        if name.len() >= xml.len() - i {
            return None;
        }
        let c = xml[i + name.len()];
        if char_is_white(c) || c == '>' || c == '/' {
            return Some(i);
        }
        at = i + 1;
    }
}

/// The characters of the first tag that begins with `open`.
fn find_tag(xml: &Vec<char>, open: &str) -> (r: Option<String>)
    requires
        open@.len() > 0,
    ensures
        match r {
            Some(s) => tag(xml@, open@) == Some(s@),
            None => tag(xml@, open@) is None,
        },
{
    proof {
        reveal_strlit(">");
    }
    match find_element(xml, open, 0) {
        None => None,
        Some(i) => {
            let end = find_behind(xml, ">", i, xml.len());
            Some(string_of(xml.as_slice(), i, end))
        },
    }
}

fn put_attr(p: &mut Vec<(String, Json)>, tag: &Option<String>, name: &str, k: &str)
    ensures
        entries_view(final(p)@) == with_attr(entries_view(old(p)@), opt_view(*tag), name@, k@),
{
    if let Some(x) = tag {
        if let Some(s) = NmapCodec::extract_attr(x, name) {
            put_json(p, k, Json::Str(s));
        }
    }
}

fn put_int_attr(p: &mut Vec<(String, Json)>, tag: &Option<String>, name: &str, k: &str)
    ensures
        entries_view(final(p)@) == with_int_attr(entries_view(old(p)@), opt_view(*tag), name@, k@),
{
    if let Some(x) = tag {
        if let Some(s) = NmapCodec::extract_attr(x, name) {
            if let Some(n) = parse_i64(&s) {
                put_json(p, k, Json::Int(n));
            }
        }
    }
}

fn no_members() -> (r: Vec<(String, Json)>)
    ensures
        entries_view(r@) == Seq::<(Seq<char>, JsonV)>::empty(),
{
    let r: Vec<(String, Json)> = Vec::new();
    assert(entries_view(r@) =~= Seq::<(Seq<char>, JsonV)>::empty());
    r
}

fn set_members(e: &mut Event, p: &Vec<(String, Json)>)
    ensures
        final(e)@ == with_members(old(e)@, entries_view(p@), 0),
        is_event(old(e)@) ==> is_event(final(e)@),
{
    let ghost first = e@;
    let mut i: usize = 0;
    while i < p.len()
        invariant
            i <= p@.len(),
            is_event(first) ==> is_event(e@),
            with_members(first, entries_view(p@), 0) == with_members(
                e@,
                entries_view(p@),
                i as int,
            ),
        decreases p@.len() - i,
    {
        assert(entries_view(p@)[i as int] == (p@[i as int].0@, p@[i as int].1.view()));
        e.set(&p[i].0, p[i].1.copy());
        i += 1;
    }
}

impl NmapCodec {
    pub fn from_config(_settings: &Json) -> (r: Result<Self, CodecError>)
        ensures
            r is Ok,
    {
        Ok(Self)
    }

    /// The value of an attribute in the text of a tag.
    pub fn extract_attr(tag: &str, attr_name: &str) -> (r: Option<String>)
        ensures
            match r {
                Some(s) => attr(tag@, attr_name@) == Some(s@),
                None => attr(tag@, attr_name@) is None,
            },
    {
        proof {
            reveal_strlit("=\"");
            reveal_strlit("\"");
        }
        let c = chars_of(tag);
        let search = chars_of(&join2(attr_name, "=\""));
        let start = match find_chars(&c, &search, 0) {
            Some(i) => i + search.len(),
            None => return None,
        };
        match find_chars(&c, &chars_of("\""), start) {
            Some(end) => Some(string_of(c.as_slice(), start, end)),
            None => None,
        }
    }

    fn parse_ports(host: &Vec<char>) -> (r: Vec<Json>)
        ensures
            jsons_view(r@) == ports_from(host@, 0, Seq::empty()),
    {
        proof {
            reveal_strlit("<port ");
            reveal_strlit(">");
            reveal_strlit("</port>");
            reveal_strlit("<state");
            reveal_strlit("<service");
        }
        let open = chars_of("<port ");
        let mut out: Vec<Json> = Vec::new();
        let mut from: usize = 0;
        assert(jsons_view(out@) =~= Seq::<JsonV>::empty());
        loop
            invariant
                from <= host@.len(),
                open@ == "<port "@,
                "<port "@.len() == 6,
                ">"@.len() == 1,
                "</port>"@.len() == 7,
                "<state"@.len() == 6,
                "<service"@.len() == 8,
                ports_from(host@, 0, Seq::empty()) == ports_from(
                    host@,
                    from as int,
                    jsons_view(out@),
                ),
            decreases host@.len() - from,
        {
            let start = match find_chars(host, &open, from) {
                Some(i) => i,
                None => return out,
            };
            let tag_end = find_behind(host, ">", start, host.len());
            let end = find_behind(host, "</port>", start, tag_end);
            let port_tag = Some(string_of(host.as_slice(), start, tag_end));
            let section = chars_of(&string_of(host.as_slice(), start, end));
            let mut p = no_members();
            put_int_attr(&mut p, &port_tag, "portid", "port");
            put_attr(&mut p, &port_tag, "protocol", "protocol");
            put_attr(&mut p, &find_tag(&section, "<state"), "state", "state");
            let service = find_tag(&section, "<service");
            put_attr(&mut p, &service, "name", "service");
            put_attr(&mut p, &service, "product", "product");
            put_attr(&mut p, &service, "version", "version");
            assert(entries_view(p@).len() == p@.len());
            if p.len() > 0 {
                let ghost before = jsons_view(out@);
                let ghost w = JsonV::Object(entries_view(p@));
                out.push(Json::Object(p));
                assert(jsons_view(out@) =~= before.push(w));
            }
            from = end;
        }
    }

    fn parse_host(host: &Vec<char>) -> (r: Vec<(String, Json)>)
        ensures
            entries_view(r@) == host_members(host@),
    {
        proof {
            reveal_strlit("<address");
            reveal_strlit("<hostname");
            reveal_strlit("<status");
        }
        let mut p = no_members();
        let address = find_tag(host, "<address");
        put_attr(&mut p, &address, "addr", "ip");
        put_attr(&mut p, &address, "addrtype", "addrtype");
        put_attr(&mut p, &find_tag(host, "<hostname"), "name", "hostname");
        put_attr(&mut p, &find_tag(host, "<status"), "state", "status");
        let ports = Self::parse_ports(host);
        assert(jsons_view(ports@).len() == ports@.len());
        if ports.len() > 0 {
            put_json(&mut p, "ports", Json::Array(ports));
        }
        p
    }

    /// What the document says of each host.
    fn parse_hosts(xml: &Vec<char>) -> (r: Vec<Vec<(String, Json)>>)
        ensures
            hosts_view(r@) == hosts_from(xml@, 0, Seq::empty()),
    {
        proof {
            reveal_strlit("<host");
            reveal_strlit("</host>");
        }
        let mut hosts: Vec<Vec<(String, Json)>> = Vec::new();
        let mut from: usize = 0;
        assert(hosts_view(hosts@) =~= Seq::<Members>::empty());
        loop
            invariant
                from <= xml@.len(),
                "<host"@.len() == 5,
                "</host>"@.len() == 7,
                hosts_from(xml@, 0, Seq::empty()) == hosts_from(
                    xml@,
                    from as int,
                    hosts_view(hosts@),
                ),
            decreases xml@.len() - from,
        {
            let start = match find_element(xml, "<host", from) {
                Some(i) => i,
                None => return hosts,
            };
            let end = find_behind(xml, "</host>", start, xml.len());
            let host = Self::parse_host(&chars_of(&string_of(xml.as_slice(), start, end)));
            let ghost before = hosts_view(hosts@);
            let ghost w = entries_view(host@);
            hosts.push(host);
            assert(hosts_view(hosts@) =~= before.push(w));
            from = end;
        }
    }

    fn parse_scan(xml: &Vec<char>, answers: &Answers) -> (r: Result<
        Vec<(String, Json)>,
        DoubleQuery,
    >)
        ensures
            match (r, scan_members(answers@, xml@)) {
                (Ok(x), Ok(y)) => entries_view(x@) == y,
                (Err(x), Err(y)) => x@ == y,
                _ => false,
            },
    {
        proof {
            reveal_strlit("<nmaprun");
            reveal_strlit("<finished");
        }
        let mut p = no_members();
        let run = find_tag(xml, "<nmaprun");
        put_attr(&mut p, &run, "scanner", "scanner");
        put_attr(&mut p, &run, "args", "scan_args");
        put_int_attr(&mut p, &run, "start", "scan_start");
        put_attr(&mut p, &run, "startstr", "scan_start_str");
        let finished = find_tag(xml, "<finished");
        if let Some(x) = &finished {
            if let Some(s) = Self::extract_attr(x, "elapsed") {
                match answers.parsed(&s) {
                    Ok(Some(b)) => put_json(&mut p, "scan_elapsed", Json::Float(Double::Bits(b))),
                    Ok(None) => {},
                    Err(q) => return Err(q),
                }
            }
        }
        put_attr(&mut p, &finished, "summary", "message");
        Ok(p)
    }

    fn make_event(scan: &Vec<(String, Json)>, host: &Vec<(String, Json)>, now: Moment) -> (r: Event)
        ensures
            r@ == host_event(entries_view(scan@), entries_view(host@), now),
            is_event(r@),
    {
        let mut e = Event::empty(now);
        set_members(&mut e, scan);
        set_members(&mut e, host);
        if let Some(Json::Str(s)) = find_json(scan, "message") {
            e.set_message(s);
        }
        if let Some(Json::Int(ts)) = find_json(scan, "scan_start") {
            e.set_time(*ts, 0);
        }
        e
    }
}

impl Default for NmapCodec {
    fn default() -> Self {
        Self
    }
}

impl Codec for NmapCodec {
    open spec fn name_v(&self) -> Seq<char> {
        "nmap"@
    }

    open spec fn decoded(&self, data: Seq<u8>, now: Moment, t: AnswersV) -> DecodedV {
        let xml = trim_text(utf8_lossy(data));
        if find_from(xml, "<nmaprun"@, 0) is None && find_from(xml, "<host"@, 0) is None {
            Err(CodecErrV::Codec("not an nmap XML document"@))
        } else {
            match scan_members(t, xml) {
                Err(q) => Err(CodecErrV::Ask(q)),
                Ok(scan) => Ok(scan_events(scan, hosts_from(xml, 0, Seq::empty()), now)),
            }
        }
    }

    open spec fn encoded(&self, e: EventV, t: AnswersV) -> EncodedV {
        json_bytes(e, t, true)
    }

    open spec fn learned(&self) -> TemplatesV {
        Map::empty()
    }

    open spec fn learned_after(&self, data: Seq<u8>) -> TemplatesV {
        Map::empty()
    }

    open spec fn stateful(&self) -> bool {
        false
    }

    fn name(&self) -> (r: &'static str) {
        "nmap"
    }

    fn decode(&mut self, data: &[u8], now: Moment, answers: &Answers) -> (r: Result<
        Vec<Event>,
        CodecError,
    >)
        ensures
            *final(self) == *old(self),
    {
        let xml = chars_of(&trim(&lossy_text(data)));
        if find_chars(&xml, &chars_of("<nmaprun"), 0).is_none() && find_chars(
            &xml,
            &chars_of("<host"),
            0,
        ).is_none() {
            return Err(CodecError::Codec("not an nmap XML document".to_owned()));
        }
        let scan = match Self::parse_scan(&xml, answers) {
            Ok(p) => p,
            Err(q) => return Err(CodecError::Ask(q)),
        };
        let hosts = Self::parse_hosts(&xml);
        let ghost scan_v = entries_view(scan@);
        let ghost hosts_v = hosts_view(hosts@);
        if hosts.len() == 0 {
            let mut e = Event::empty(now);
            set_members(&mut e, &scan);
            return Ok(one_event(e));
        }
        let mut events: Vec<Event> = Vec::new();
        let mut i: usize = 0;
        while i < hosts.len()
            invariant
                i <= hosts@.len(),
                are_events(events@),
                scan_v == entries_view(scan@),
                hosts_v == hosts_view(hosts@),
                events_view(events@) =~= Seq::new(
                    i as nat,
                    |j: int| host_event(scan_v, hosts_v[j], now),
                ),
            decreases hosts@.len() - i,
        {
            assert(hosts_v[i as int] == entries_view(hosts@[i as int]@));
            let e = Self::make_event(&scan, &hosts[i], now);
            let ghost before = events_view(events@);
            events.push(e);
            assert(events_view(events@) =~= before.push(e@));
            i += 1;
        }
        Ok(events)
    }

    fn encode(&self, event: &Event, answers: &Answers) -> (r: Result<Vec<u8>, CodecError>) {
        match write_json_pretty(&event.to_json(), answers) {
            Ok(s) => Ok(text_bytes(&s)),
            Err(q) => Err(CodecError::Ask(q)),
        }
    }

    fn is_stateful(&self) -> (r: bool) {
        false
    }
}

} // verus!
