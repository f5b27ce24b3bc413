//! Laws of the nmap codec: a scan that is written out tells its hosts and
//! their ports.
use crate::codec::nmap::{
    attr, behind, element_from, ends_name, host_members, hosts_from, port_members, ports_from,
    scan_events, scan_members, tag, Members,
};
use crate::codec::record_laws::{lemma_differs, lemma_first_at, lemma_nowhere};
use crate::dict::{lookup, put, put_then_lookup};
use crate::double::{ask_parse, AnswersV, DoubleV, QueryV};
use crate::event::{blank, message_of, with_members};
use crate::json::JsonV;
use crate::moment::{moment_exists, Moment};
use crate::text::{
    find_from, i64_of_text, int_text, int_text_reads_back, is_digit, lemma_nat_text, occurs_at,
};
use vstd::prelude::*;

verus! {

broadcast use vstd::string::group_string_axioms;

/// A text that can stand as it is for the value of an attribute.
pub open spec fn is_quiet(s: Seq<char>) -> bool {
    forall|i: int|
        0 <= i < s.len() ==> (#[trigger] s[i]) != '"' && s[i] != '=' && s[i] != '<' && s[i] != '>'
}

/// An attribute of a tag.
pub open spec fn attribute(name: Seq<char>, value: Seq<char>) -> Seq<char> {
    seq![' '] + name + seq!['=', '"'] + value + seq!['"']
}

/// Whether no equals sign of `s` stands behind the end of `name`: the character
/// `q` places before it is another.
spec fn guards(s: Seq<char>, name: Seq<char>, q: int) -> bool {
    forall|p: int|
        0 <= p < s.len() && #[trigger] s[p] == '=' ==> p >= q && s[p - q] != name[name.len() - q]
}

proof fn lemma_guards(s: Seq<char>, k: Seq<char>, value: Seq<char>, name: Seq<char>, q: int)
    requires
        guards(s, name, q),
        is_quiet(k),
        is_quiet(value),
        0 < q <= k.len(),
        q <= name.len(),
        k[k.len() - q] != name[name.len() - q],
    ensures
        guards(s + attribute(k, value), name, q),
{
    let x = s + attribute(k, value);
    let n = s.len() as int;
    assert forall|p: int| 0 <= p < x.len() && #[trigger] x[p] == '=' implies p >= q && x[p - q]
        != name[name.len() - q] by {
        if p < n {
            assert(s[p] == '=');
        } else if p == n {
        } else if p < n + 1 + k.len() {
            assert(x[p] == k[p - n - 1]);
        } else if p == n + 1 + k.len() {
            assert(x[p - q] == k[k.len() - q]);
        } else if p == n + 2 + k.len() {
        } else if p < n + 3 + k.len() + value.len() {
            assert(x[p] == value[p - n - 3 - k.len()]);
        }
    }
}

/// An attribute is read as it was written, behind others that do not end alike.
proof fn lemma_attribute(
    s: Seq<char>,
    name: Seq<char>,
    value: Seq<char>,
    rest: Seq<char>,
    q: int,
)
    requires
        guards(s, name, q),
        is_quiet(name),
        is_quiet(value),
        0 < q <= name.len(),
    ensures
        attr(s + attribute(name, value) + rest, name) == Some(value),
{
    reveal_strlit("=\"");
    reveal_strlit("\"");
    let search = name + "=\""@;
    let t = s + attribute(name, value) + rest;
    let n = s.len() as int + 1;
    let eq = n + name.len();
    assert(t[eq] == '=' && t[eq + 1] == '"');
    assert(occurs_at(t, search, n)) by {
        assert(t.subrange(n, n + search.len()) =~= search);
    }
    assert forall|j: int| 0 <= j < n implies !occurs_at(t, search, j) by {
        let k = j + name.len();
        assert(search[name.len() as int] == '=');
        if k < s.len() {
            if s[k] == '=' {
                assert(t[k - q] == s[k - q]);
                assert(search[name.len() - q] == name[name.len() - q]);
                lemma_differs(t, search, j, name.len() - q);
            } else {
                assert(t[k] == s[k]);
                lemma_differs(t, search, j, name.len() as int);
            }
        } else if k == s.len() {
            assert(t[k] == ' ');
            lemma_differs(t, search, j, name.len() as int);
        } else {
            assert(t[k] == name[k - n]);
            lemma_differs(t, search, j, name.len() as int);
        }
    }
    lemma_first_at(t, search, 0, n);
    let from = n + search.len();
    let end = from + value.len();
    assert(t[end] == '"');
    assert(occurs_at(t, "\""@, end)) by {
        assert(t.subrange(end, end + 1) =~= "\""@);
    }
    assert forall|j: int| from <= j < end implies !occurs_at(t, "\""@, j) by {
        assert(t[j] == value[j - from]);
        lemma_differs(t, "\""@, j, 0);
    }
    lemma_first_at(t, "\""@, from, end);
    assert(t.subrange(from, end) =~= value);
}

/// A piece of a document: a tag, from its angle bracket to its end.
spec fn is_piece(x: Seq<char>) -> bool {
    &&& x.len() >= 2 && x[0] == '<' && x.last() == '>'
    &&& forall|i: int| 0 < i < x.len() ==> (#[trigger] x[i]) != '<'
    &&& forall|i: int| 0 <= i < x.len() - 1 ==> (#[trigger] x[i]) != '>'
}

/// Whether no tag in `s` begins as `open`: the character `q` places behind its
/// angle bracket is another.
spec fn clear(s: Seq<char>, open: Seq<char>, q: int) -> bool {
    forall|p: int|
        0 <= p < s.len() && #[trigger] s[p] == '<' ==> p + q < s.len() && s[p + q] != open[q]
}

proof fn lemma_clear(s: Seq<char>, x: Seq<char>, open: Seq<char>, q: int)
    requires
        clear(s, open, q),
        is_piece(x),
        0 < q < x.len(),
        x[q] != open[q],
    ensures
        clear(s + x, open, q),
{
    let y = s + x;
    assert forall|p: int| 0 <= p < y.len() && #[trigger] y[p] == '<' implies p + q < y.len()
        && y[p + q] != open[q] by {
        if p < s.len() {
            assert(s[p] == '<');
            assert(y[p + q] == s[p + q]);
        } else {
            assert(y[p] == x[p - s.len()]);
            assert(p == s.len());
            assert(y[p + q] == x[q]);
        }
    }
}

proof fn lemma_clear_both(s: Seq<char>, x: Seq<char>, open: Seq<char>, q: int)
    requires
        clear(s, open, q),
        clear(x, open, q),
        0 < q,
    ensures
        clear(s + x, open, q),
{
    let y = s + x;
    assert forall|p: int| 0 <= p < y.len() && #[trigger] y[p] == '<' implies p + q < y.len()
        && y[p + q] != open[q] by {
        if p < s.len() {
            assert(s[p] == '<');
            assert(y[p + q] == s[p + q]);
        } else {
            assert(y[p] == x[p - s.len()]);
            assert(y[p + q] == x[p - s.len() + q]);
        }
    }
}

/// The first place of `open` behind what is clear of it.
proof fn lemma_found(a: Seq<char>, s: Seq<char>, open: Seq<char>, q: int, b: Seq<char>)
    requires
        clear(s, open, q),
        0 < q < open.len(),
        open[0] == '<',
        open.is_prefix_of(b),
    ensures
        find_from(a + s + b, open, a.len() as int) == Some((a.len() + s.len()) as int),
{
    let t = a + s + b;
    let n = (a.len() + s.len()) as int;
    assert(occurs_at(t, open, n)) by {
        assert(t.subrange(n, n + open.len()) =~= open);
    }
    assert forall|j: int| a.len() <= j < n implies !occurs_at(t, open, j) by {
        let p = j - a.len();
        assert(t[j] == s[p]);
        if s[p] == '<' {
            assert(t[j + q] == s[p + q]);
            lemma_differs(t, open, j, q);
        } else {
            lemma_differs(t, open, j, 0);
        }
    }
    lemma_first_at(t, open, a.len() as int, n);
}

proof fn lemma_not_found(a: Seq<char>, s: Seq<char>, open: Seq<char>, q: int)
    requires
        clear(s, open, q),
        0 < q < open.len(),
        open[0] == '<',
    ensures
        find_from(a + s, open, a.len() as int) is None,
{
    let t = a + s;
    assert forall|j: int| a.len() <= j implies !occurs_at(t, open, j) by {
        let p = j - a.len();
        if p < s.len() {
            assert(t[j] == s[p]);
            if s[p] == '<' {
                assert(t[j + q] == s[p + q]);
                lemma_differs(t, open, j, q);
            } else {
                lemma_differs(t, open, j, 0);
            }
        } else if occurs_at(t, open, j) {
            assert(j + open.len() <= t.len());
        }
    }
    lemma_nowhere(t, open, a.len() as int);
}

/// The end of a tag that begins at a place.
proof fn lemma_end(a: Seq<char>, x: Seq<char>, b: Seq<char>, default: int)
    requires
        is_piece(x),
    ensures
        behind(a + x + b, ">"@, a.len() as int, default) == a.len() + x.len(),
        (a + x + b).subrange(a.len() as int, (a.len() + x.len()) as int) == x,
{
    reveal_strlit(">");
    let t = a + x + b;
    let n = a.len() as int;
    let m = n + x.len() - 1;
    assert(t[m] == '>');
    assert(occurs_at(t, ">"@, m)) by {
        assert(t.subrange(m, m + 1) =~= ">"@);
    }
    assert forall|j: int| n <= j < m implies !occurs_at(t, ">"@, j) by {
        assert(t[j] == x[j - n]);
        lemma_differs(t, ">"@, j, 0);
    }
    lemma_first_at(t, ">"@, n, m);
    assert(t.subrange(n, n + x.len()) =~= x);
}

/// The first tag of a name, behind tags of others.
proof fn lemma_tag(s: Seq<char>, x: Seq<char>, b: Seq<char>, open: Seq<char>, q: int)
    requires
        clear(s, open, q),
        0 < q < open.len(),
        open[0] == '<',
        is_piece(x),
        open.is_prefix_of(x),
        open.len() < x.len(),
        ends_name(x[open.len() as int]),
    ensures
        tag(s + x + b, open) == Some(x),
{
    let t = s + x + b;
    let none = Seq::<char>::empty();
    assert(none + s + (x + b) =~= t);
    assert(open.is_prefix_of(x + b));
    lemma_found(none, s, open, q, x + b);
    let n = s.len() as int;
    assert(t[n + open.len()] == x[open.len() as int]);
    assert(element_from(t, open, 0) == Some(n));
    lemma_end(s, x, b, t.len() as int);
}

/// A port of a host.
pub struct Port {
    pub number: u16,
    pub protocol: Seq<char>,
    pub state: Seq<char>,
    pub service: Seq<char>,
    pub product: Seq<char>,
    pub version: Seq<char>,
}

impl Port {
    pub open spec fn is_quiet(self) -> bool {
        &&& is_quiet(self.protocol) && is_quiet(self.state) && is_quiet(self.service)
        &&& is_quiet(self.product) && is_quiet(self.version)
    }

    pub open spec fn port_tag(self) -> Seq<char> {
        "<port"@ + attribute("protocol"@, self.protocol) + attribute(
            "portid"@,
            int_text(self.number as int),
        ) + ">"@
    }

    pub open spec fn state_tag(self) -> Seq<char> {
        "<state"@ + attribute("state"@, self.state) + "/>"@
    }

    pub open spec fn service_tag(self) -> Seq<char> {
        "<service"@ + attribute("name"@, self.service) + attribute("product"@, self.product)
            + attribute("version"@, self.version) + "/>"@
    }

    /// How a port is written.
    pub open spec fn text(self) -> Seq<char> {
        self.port_tag() + self.state_tag() + self.service_tag() + "</port>"@
    }

    /// Whether the members of an object tell the port.
    pub open spec fn told_by(self, p: Members) -> bool {
        &&& lookup(p, "port"@) == Some(JsonV::Int(self.number as i64))
        &&& lookup(p, "protocol"@) == Some(JsonV::Str(self.protocol))
        &&& lookup(p, "state"@) == Some(JsonV::Str(self.state))
        &&& lookup(p, "service"@) == Some(JsonV::Str(self.service))
        &&& lookup(p, "product"@) == Some(JsonV::Str(self.product))
        &&& lookup(p, "version"@) == Some(JsonV::Str(self.version))
    }
}

proof fn lemma_number(n: int)
    requires
        0 <= n <= 65535,
    ensures
        is_quiet(int_text(n)),
        i64_of_text(int_text(n)) == Some(n as i64),
{
    int_text_reads_back(n);
    lemma_nat_text(n as nat);
    let s = int_text(n);
    assert forall|i: int| 0 <= i < s.len() implies (#[trigger] s[i]) != '"' && s[i] != '=' && s[i]
        != '<' && s[i] != '>' by {
        assert(is_digit(s[i]));
    }
}

proof fn lemma_port_pieces(p: Port)
    requires
        p.is_quiet(),
    ensures
        is_piece(p.port_tag()),
        is_piece(p.state_tag()),
        is_piece(p.service_tag()),
        is_piece("</port>"@),
        "<port "@.is_prefix_of(p.port_tag()),
        "<state"@.is_prefix_of(p.state_tag()),
        "<service"@.is_prefix_of(p.service_tag()),
        p.state_tag()[6] == ' ',
        p.service_tag()[8] == ' ',
{
    reveal_strlit("<port");
    reveal_strlit("<port ");
    reveal_strlit("<state");
    reveal_strlit("<service");
    reveal_strlit("</port>");
    reveal_strlit(">");
    reveal_strlit("/>");
    lemma_number(p.number as int);
    lemma_words();
    lemma_piece2("<port"@, "protocol"@, p.protocol, "portid"@, int_text(p.number as int), ">"@);
    lemma_piece1("<state"@, "state"@, p.state, "/>"@);
    lemma_piece3(
        "<service"@,
        "name"@,
        p.service,
        "product"@,
        p.product,
        "version"@,
        p.version,
        "/>"@,
    );
    assert("<port "@.is_prefix_of(p.port_tag()));
}

/// What a tag ends with.
spec fn is_end(e: Seq<char>) -> bool {
    &&& e.len() > 0 && e.last() == '>'
    &&& forall|i: int| 0 <= i < e.len() - 1 ==> (#[trigger] e[i]) == '/'
}

/// What a tag begins with.
spec fn is_open(o: Seq<char>) -> bool {
    &&& o.len() > 0 && o[0] == '<'
    &&& forall|i: int| 0 < i < o.len() ==> (#[trigger] o[i]) != '<'
    &&& forall|i: int| 0 < i < o.len() ==> (#[trigger] o[i]) != '>'
}

proof fn lemma_open(o: Seq<char>, k: Seq<char>, v: Seq<char>)
    requires
        is_open(o),
        is_quiet(k),
        is_quiet(v),
    ensures
        is_open(o + attribute(k, v)),
        o.is_prefix_of(o + attribute(k, v)),
        (o + attribute(k, v))[o.len() as int] == ' ',
{
    let x = o + attribute(k, v);
    let n = o.len() as int;
    assert forall|i: int| 0 < i < x.len() implies (#[trigger] x[i]) != '<' && x[i] != '>' by {
        if i < n {
            assert(x[i] == o[i]);
        } else if n < i < n + 1 + k.len() {
            assert(x[i] == k[i - n - 1]);
        } else if n + 3 + k.len() <= i < n + 3 + k.len() + v.len() {
            assert(x[i] == v[i - n - 3 - k.len()]);
        }
    }
}

proof fn lemma_close(o: Seq<char>, e: Seq<char>)
    requires
        is_open(o),
        is_end(e),
    ensures
        is_piece(o + e),
{
    let x = o + e;
    assert(x.last() == e.last());
    assert forall|i: int| 0 < i < x.len() implies (#[trigger] x[i]) != '<' by {
        if i < o.len() {
            assert(x[i] == o[i]);
        } else {
            assert(x[i] == e[i - o.len()]);
        }
    }
    assert forall|i: int| 0 <= i < x.len() - 1 implies (#[trigger] x[i]) != '>' by {
        if i < o.len() {
            assert(x[i] == o[i]);
        } else {
            assert(x[i] == e[i - o.len()]);
        }
    }
}

proof fn lemma_piece1(o: Seq<char>, k: Seq<char>, v: Seq<char>, e: Seq<char>)
    requires
        is_open(o),
        is_quiet(k) && is_quiet(v),
        is_end(e),
    ensures
        is_piece(o + attribute(k, v) + e),
        o.is_prefix_of(o + attribute(k, v) + e),
        (o + attribute(k, v) + e)[o.len() as int] == ' ',
{
    lemma_open(o, k, v);
    lemma_close(o + attribute(k, v), e);
}

proof fn lemma_piece2(
    o: Seq<char>,
    k: Seq<char>,
    v: Seq<char>,
    k2: Seq<char>,
    v2: Seq<char>,
    e: Seq<char>,
)
    requires
        is_open(o),
        is_quiet(k) && is_quiet(v) && is_quiet(k2) && is_quiet(v2),
        is_end(e),
    ensures
        is_piece(o + attribute(k, v) + attribute(k2, v2) + e),
        o.is_prefix_of(o + attribute(k, v) + attribute(k2, v2) + e),
        (o + attribute(k, v) + attribute(k2, v2) + e)[o.len() as int] == ' ',
{
    lemma_open(o, k, v);
    lemma_piece1(o + attribute(k, v), k2, v2, e);
}

proof fn lemma_piece3(
    o: Seq<char>,
    k: Seq<char>,
    v: Seq<char>,
    k2: Seq<char>,
    v2: Seq<char>,
    k3: Seq<char>,
    v3: Seq<char>,
    e: Seq<char>,
)
    requires
        is_open(o),
        is_quiet(k) && is_quiet(v) && is_quiet(k2) && is_quiet(v2) && is_quiet(k3) && is_quiet(v3),
        is_end(e),
    ensures
        is_piece(o + attribute(k, v) + attribute(k2, v2) + attribute(k3, v3) + e),
        o.is_prefix_of(o + attribute(k, v) + attribute(k2, v2) + attribute(k3, v3) + e),
        (o + attribute(k, v) + attribute(k2, v2) + attribute(k3, v3) + e)[o.len() as int] == ' ',
{
    lemma_open(o, k, v);
    lemma_piece2(o + attribute(k, v), k2, v2, k3, v3, e);
}

proof fn lemma_words()
    ensures
        is_quiet("protocol"@) && "protocol"@.len() == 8 && "protocol"@[7] == 'l',
        is_quiet("portid"@) && "portid"@.len() == 6 && "portid"@[5] == 'd',
        is_quiet("state"@) && "state"@.len() == 5 && "state"@[4] == 'e',
        is_quiet("name"@) && "name"@.len() == 4 && "name"@[3] == 'e',
        is_quiet("product"@) && "product"@.len() == 7 && "product"@[6] == 't',
        is_quiet("version"@) && "version"@.len() == 7 && "version"@[6] == 'n',
        is_quiet("addr"@) && "addr"@.len() == 4 && "addr"@[3] == 'r',
        is_quiet("addrtype"@) && "addrtype"@.len() == 8 && "addrtype"@[7] == 'e',
{
    reveal_strlit("protocol");
    reveal_strlit("portid");
    reveal_strlit("state");
    reveal_strlit("name");
    reveal_strlit("product");
    reveal_strlit("version");
    reveal_strlit("addr");
    reveal_strlit("addrtype");
}

proof fn lemma_opens()
    ensures
        forall|name: Seq<char>, q: int| #[trigger] guards("<port"@, name, q),
        forall|name: Seq<char>, q: int| #[trigger] guards("<state"@, name, q),
        forall|name: Seq<char>, q: int| #[trigger] guards("<service"@, name, q),
        forall|name: Seq<char>, q: int| #[trigger] guards("<address"@, name, q),
        forall|name: Seq<char>, q: int| #[trigger] guards("<hostname"@, name, q),
        forall|name: Seq<char>, q: int| #[trigger] guards("<status"@, name, q),
{
    reveal_strlit("<port");
    reveal_strlit("<state");
    reveal_strlit("<service");
    reveal_strlit("<address");
    reveal_strlit("<hostname");
    reveal_strlit("<status");
}

proof fn lemma_port_attributes(p: Port)
    requires
        p.is_quiet(),
    ensures
        attr(p.port_tag(), "protocol"@) == Some(p.protocol),
        attr(p.port_tag(), "portid"@) == Some(int_text(p.number as int)),
        attr(p.state_tag(), "state"@) == Some(p.state),
        attr(p.service_tag(), "name"@) == Some(p.service),
        attr(p.service_tag(), "product"@) == Some(p.product),
        attr(p.service_tag(), "version"@) == Some(p.version),
{
    lemma_number(p.number as int);
    lemma_words();
    lemma_opens();
    let n = int_text(p.number as int);
    let o = "<port"@;
    let a = attribute("protocol"@, p.protocol);
    let b = attribute("portid"@, n);
    lemma_attribute(o, "protocol"@, p.protocol, b + ">"@, 1);
    assert(o + a + (b + ">"@) =~= p.port_tag());
    lemma_guards(o, "protocol"@, p.protocol, "portid"@, 1);
    lemma_attribute(o + a, "portid"@, n, ">"@, 1);
    lemma_attribute("<state"@, "state"@, p.state, "/>"@, 1);
    let o = "<service"@;
    let a = attribute("name"@, p.service);
    let b = attribute("product"@, p.product);
    let c = attribute("version"@, p.version);
    lemma_attribute(o, "name"@, p.service, b + c + "/>"@, 1);
    assert(o + a + (b + c + "/>"@) =~= p.service_tag());
    lemma_guards(o, "name"@, p.service, "product"@, 1);
    lemma_attribute(o + a, "product"@, p.product, c + "/>"@, 1);
    assert(o + a + b + (c + "/>"@) =~= p.service_tag());
    lemma_guards(o, "name"@, p.service, "version"@, 1);
    lemma_guards(o + a, "product"@, p.product, "version"@, 1);
    lemma_attribute(o + a + b, "version"@, p.version, "/>"@, 1);
}

proof fn lemma_puts()
    ensures
        forall|p: Members, k: Seq<char>, v: JsonV, o: Seq<char>| #[trigger]
            lookup(put(p, k, v), o) == (if k == o {
                Some(v)
            } else {
                lookup(p, o)
            }),
{
    assert forall|p: Members, k: Seq<char>, v: JsonV, o: Seq<char>| #[trigger]
        lookup(put(p, k, v), o) == (if k == o {
            Some(v)
        } else {
            lookup(p, o)
        }) by {
        put_then_lookup(p, k, v, o);
    }
}

proof fn lemma_port_members(p: Port)
    requires
        p.is_quiet(),
    ensures
        p.told_by(port_members(p.port_tag(), p.text())),
        port_members(p.port_tag(), p.text()).len() > 0,
{
    lemma_port_pieces(p);
    lemma_port_attributes(p);
    lemma_number(p.number as int);
    reveal_strlit("<port ");
    reveal_strlit("<state");
    reveal_strlit("<service");
    reveal_strlit("</port>");
    let a = p.port_tag();
    let b = p.state_tag();
    let c = p.service_tag();
    let d = "</port>"@;
    let none = Seq::<char>::empty();
    assert(a[2] == "<port "@[2] && b[2] == "<state"@[2]);
    lemma_clear(none, a, "<state"@, 2);
    assert(none + a =~= a);
    lemma_tag(a, b, c + d, "<state"@, 2);
    assert(a + b + (c + d) =~= p.text());
    lemma_clear(none, a, "<service"@, 2);
    lemma_clear(a, b, "<service"@, 2);
    lemma_tag(a + b, c, d, "<service"@, 2);
    assert(a + b + c + d =~= p.text());
    lemma_puts();
    reveal_strlit("port");
    reveal_strlit("protocol");
    reveal_strlit("state");
    reveal_strlit("service");
    reveal_strlit("product");
    reveal_strlit("version");
    assert("service"@[0] == 's' && "product"@[0] == 'p' && "version"@[0] == 'v');
    let m = port_members(a, p.text());
    assert(p.told_by(m));
    if m.len() == 0 {
        assert(lookup(m, "port"@) is None);
    }
}

/// Ports one behind another.
pub open spec fn ports_text(ps: Seq<Port>) -> Seq<char>
    decreases ps.len(),
{
    if ps.len() == 0 {
        Seq::empty()
    } else {
        ps[0].text() + ports_text(ps.drop_first())
    }
}

/// Whether objects tell ports, one for each and in their order.
pub open spec fn tell_ports(objects: Seq<JsonV>, ps: Seq<Port>) -> bool {
    &&& objects.len() == ps.len()
    &&& forall|i: int|
        0 <= i < ps.len() ==> ((#[trigger] objects[i]) matches JsonV::Object(m) && ps[i].told_by(m))
}

proof fn lemma_port_read(host: Seq<char>, from: int, p: Port, rest: Seq<char>, acc: Seq<JsonV>)
    requires
        p.is_quiet(),
        0 <= from <= host.len(),
        host.skip(from) == p.text() + rest,
    ensures
        find_from(host, "<port "@, from) == Some(from),
        exists|m: Members|
            {
                &&& #[trigger] p.told_by(m)
                &&& ports_from(host, from, acc) == ports_from(
                    host,
                    from + p.text().len(),
                    acc.push(JsonV::Object(m)),
                )
            },
{
    lemma_port_pieces(p);
    lemma_port_members(p);
    reveal_strlit("<port ");
    reveal_strlit("<state");
    reveal_strlit("<service");
    reveal_strlit("</port>");
    let none = Seq::<char>::empty();
    let a = host.take(from);
    let x = p.port_tag();
    let y = p.state_tag();
    let z = p.service_tag();
    let d = "</port>"@;
    assert(a + host.skip(from) =~= host);
    assert(clear(none, "<port "@, 5));
    assert(a + none + (p.text() + rest) =~= host);
    assert("<port "@.is_prefix_of(p.text() + rest)) by {
        assert(x.is_prefix_of(p.text() + rest));
    }
    lemma_found(a, none, "<port "@, 5, p.text() + rest);
    assert(a + x + (y + z + d + rest) =~= host);
    lemma_end(a, x, y + z + d + rest, host.len() as int);
    assert(x[1] == "<port "@[1] && y[1] == "<state"@[1] && z[1] == "<service"@[1]);
    lemma_clear(none, x, d, 1);
    assert(none + x =~= x);
    lemma_clear(x, y, d, 1);
    lemma_clear(x + y, z, d, 1);
    assert(a + (x + y + z) + (d + rest) =~= host);
    assert(d.is_prefix_of(d + rest));
    lemma_found(a, x + y + z, d, 1, d + rest);
    let tag_end = from + x.len();
    let end = from + p.text().len();
    assert(behind(host, ">"@, from, host.len() as int) == tag_end);
    assert(behind(host, d, from, tag_end) == end);
    assert(host.subrange(from, end) =~= p.text());
    let m = port_members(x, p.text());
    assert(p.told_by(m));
}

proof fn lemma_ports_read(
    host: Seq<char>,
    from: int,
    ps: Seq<Port>,
    post: Seq<char>,
    acc: Seq<JsonV>,
    told: Seq<Port>,
)
    requires
        forall|i: int| 0 <= i < ps.len() ==> (#[trigger] ps[i]).is_quiet(),
        0 <= from <= host.len(),
        host.skip(from) == ports_text(ps) + post,
        clear(post, "<port "@, 5),
        tell_ports(acc, told),
    ensures
        tell_ports(ports_from(host, from, acc), told + ps),
    decreases ps.len(),
{
    if ps.len() == 0 {
        reveal_strlit("<port ");
        assert(host.take(from) + post =~= host);
        lemma_not_found(host.take(from), post, "<port "@, 5);
        assert(told + ps =~= told);
    } else {
        let p = ps[0];
        let rest = ps.drop_first();
        assert(p.is_quiet());
        assert(host.skip(from) =~= p.text() + (ports_text(rest) + post));
        lemma_port_read(host, from, p, ports_text(rest) + post, acc);
        let m = choose|m: Members|
            {
                &&& #[trigger] p.told_by(m)
                &&& ports_from(host, from, acc) == ports_from(
                    host,
                    from + p.text().len(),
                    acc.push(JsonV::Object(m)),
                )
            };
        let end = from + p.text().len();
        assert(host.skip(from).len() == host.len() - from);
        assert(host.skip(end) =~= host.skip(from).skip(p.text().len() as int));
        assert(host.skip(end) =~= ports_text(rest) + post);
        assert forall|i: int| 0 <= i < rest.len() implies (#[trigger] rest[i]).is_quiet() by {
            assert(rest[i] == ps[i + 1]);
        }
        let acc1 = acc.push(JsonV::Object(m));
        let told1 = told.push(p);
        assert forall|i: int| 0 <= i < told1.len() implies ((#[trigger] acc1[i]) matches JsonV::Object(
            o,
        ) && told1[i].told_by(o)) by {
            if i < told.len() {
                assert(acc1[i] == acc[i]);
            }
        }
        lemma_ports_read(host, end, rest, post, acc1, told1);
        assert(told1 + rest =~= told + ps);
    }
}

proof fn lemma_ports_clear(ps: Seq<Port>, open: Seq<char>, q: int)
    requires
        forall|i: int| 0 <= i < ps.len() ==> (#[trigger] ps[i]).is_quiet(),
        0 < q < 6,
        open[q] != "<port "@[q] && open[q] != "<state"@[q] && open[q] != "<service"@[q],
        open[q] != "</port>"@[q],
    ensures
        clear(ports_text(ps), open, q),
    decreases ps.len(),
{
    if ps.len() > 0 {
        let p = ps[0];
        let rest = ps.drop_first();
        assert(p.is_quiet());
        assert forall|i: int| 0 <= i < rest.len() implies (#[trigger] rest[i]).is_quiet() by {
            assert(rest[i] == ps[i + 1]);
        }
        lemma_ports_clear(rest, open, q);
        lemma_port_pieces(p);
        reveal_strlit("<port ");
        reveal_strlit("<state");
        reveal_strlit("<service");
        reveal_strlit("</port>");
        let none = Seq::<char>::empty();
        let x = p.port_tag();
        let y = p.state_tag();
        let z = p.service_tag();
        let d = "</port>"@;
        assert(x[q] == "<port "@[q] && y[q] == "<state"@[q] && z[q] == "<service"@[q]);
        lemma_clear(none, x, open, q);
        assert(none + x =~= x);
        lemma_clear(x, y, open, q);
        lemma_clear(x + y, z, open, q);
        lemma_clear(x + y + z, d, open, q);
        lemma_clear_both(p.text(), ports_text(rest), open, q);
    }
}

/// A host of a scan.
pub struct Host {
    pub status: Seq<char>,
    pub address: Seq<char>,
    pub kind: Seq<char>,
    pub name: Seq<char>,
    pub ports: Seq<Port>,
}

impl Host {
    pub open spec fn is_quiet(self) -> bool {
        &&& is_quiet(self.status) && is_quiet(self.address) && is_quiet(self.kind) && is_quiet(
            self.name,
        )
        &&& forall|i: int| 0 <= i < self.ports.len() ==> (#[trigger] self.ports[i]).is_quiet()
    }

    pub open spec fn status_tag(self) -> Seq<char> {
        "<status"@ + attribute("state"@, self.status) + "/>"@
    }

    pub open spec fn address_tag(self) -> Seq<char> {
        "<address"@ + attribute("addr"@, self.address) + attribute("addrtype"@, self.kind) + "/>"@
    }

    pub open spec fn name_tag(self) -> Seq<char> {
        "<hostname"@ + attribute("name"@, self.name) + "/>"@
    }

    /// How a host is written, up to its ports.
    pub open spec fn head(self) -> Seq<char> {
        "<host>"@ + self.status_tag() + self.address_tag() + self.name_tag() + "<ports>"@
    }

    /// How a host is written.
    #[verifier::opaque]
    pub open spec fn text(self) -> Seq<char> {
        self.head() + ports_text(self.ports) + "</ports>"@ + "</host>"@
    }

    /// Whether members tell the host.
    #[verifier::opaque]
    pub open spec fn told_by(self, p: Members) -> bool {
        &&& lookup(p, "ip"@) == Some(JsonV::Str(self.address))
        &&& lookup(p, "addrtype"@) == Some(JsonV::Str(self.kind))
        &&& lookup(p, "hostname"@) == Some(JsonV::Str(self.name))
        &&& lookup(p, "status"@) == Some(JsonV::Str(self.status))
        &&& if self.ports.len() == 0 {
            lookup(p, "ports"@) is None
        } else {
            lookup(p, "ports"@) matches Some(JsonV::Array(a)) && tell_ports(a, self.ports)
        }
    }
}

proof fn lemma_host_pieces(h: Host)
    requires
        h.is_quiet(),
    ensures
        is_piece("<host>"@) && is_piece("<ports>"@) && is_piece("</ports>"@) && is_piece(
            "</host>"@,
        ),
        is_piece(h.status_tag()) && is_piece(h.address_tag()) && is_piece(h.name_tag()),
        "<status"@.is_prefix_of(h.status_tag()) && h.status_tag()[7] == ' ',
        "<address"@.is_prefix_of(h.address_tag()) && h.address_tag()[8] == ' ',
        "<hostname"@.is_prefix_of(h.name_tag()) && h.name_tag()[9] == ' ',
{
    reveal_strlit("<host>");
    reveal_strlit("<ports>");
    reveal_strlit("</ports>");
    reveal_strlit("</host>");
    reveal_strlit("<status");
    reveal_strlit("<address");
    reveal_strlit("<hostname");
    reveal_strlit("/>");
    lemma_words();
    lemma_piece1("<status"@, "state"@, h.status, "/>"@);
    lemma_piece2("<address"@, "addr"@, h.address, "addrtype"@, h.kind, "/>"@);
    lemma_piece1("<hostname"@, "name"@, h.name, "/>"@);
}

proof fn lemma_host_attributes(h: Host)
    requires
        h.is_quiet(),
    ensures
        attr(h.status_tag(), "state"@) == Some(h.status),
        attr(h.address_tag(), "addr"@) == Some(h.address),
        attr(h.address_tag(), "addrtype"@) == Some(h.kind),
        attr(h.name_tag(), "name"@) == Some(h.name),
{
    lemma_words();
    lemma_opens();
    lemma_attribute("<status"@, "state"@, h.status, "/>"@, 1);
    lemma_attribute("<hostname"@, "name"@, h.name, "/>"@, 1);
    let o = "<address"@;
    let a = attribute("addr"@, h.address);
    let b = attribute("addrtype"@, h.kind);
    lemma_attribute(o, "addr"@, h.address, b + "/>"@, 1);
    assert(o + a + (b + "/>"@) =~= h.address_tag());
    lemma_guards(o, "addr"@, h.address, "addrtype"@, 1);
    lemma_attribute(o + a, "addrtype"@, h.kind, "/>"@, 1);
}

proof fn lemma_host_tags(h: Host)
    requires
        h.is_quiet(),
    ensures
        tag(h.text(), "<status"@) == Some(h.status_tag()),
        tag(h.text(), "<address"@) == Some(h.address_tag()),
        tag(h.text(), "<hostname"@) == Some(h.name_tag()),
{
    reveal(Host::text);
    lemma_host_pieces(h);
    reveal_strlit("<host>");
    reveal_strlit("<status");
    reveal_strlit("<address");
    reveal_strlit("<hostname");
    let none = Seq::<char>::empty();
    let o = "<host>"@;
    let a = h.status_tag();
    let b = h.address_tag();
    let c = h.name_tag();
    let rest = "<ports>"@ + ports_text(h.ports) + "</ports>"@ + "</host>"@;
    assert(none + o =~= o);
    lemma_clear(none, o, "<status"@, 1);
    lemma_tag(o, a, b + c + rest, "<status"@, 1);
    assert(o + a + (b + c + rest) =~= h.text());
    assert(a[1] == "<status"@[1]);
    lemma_clear(none, o, "<address"@, 1);
    lemma_clear(o, a, "<address"@, 1);
    lemma_tag(o + a, b, c + rest, "<address"@, 1);
    assert(o + a + b + (c + rest) =~= h.text());
    assert(a[5] == "<status"@[5] && b[5] == "<address"@[5]);
    lemma_clear(none, o, "<hostname"@, 5);
    lemma_clear(o, a, "<hostname"@, 5);
    lemma_clear(o + a, b, "<hostname"@, 5);
    lemma_tag(o + a + b, c, rest, "<hostname"@, 5);
    assert(o + a + b + c + rest =~= h.text());
}

proof fn lemma_head_clear(h: Host)
    requires
        h.is_quiet(),
    ensures
        clear(h.head(), "<port "@, 5),
        clear("</ports>"@ + "</host>"@, "<port "@, 5),
{
    lemma_host_pieces(h);
    reveal_strlit("<host>");
    reveal_strlit("<status");
    reveal_strlit("<address");
    reveal_strlit("<hostname");
    reveal_strlit("<ports>");
    reveal_strlit("</ports>");
    reveal_strlit("</host>");
    reveal_strlit("<port ");
    let open = "<port "@;
    let none = Seq::<char>::empty();
    let o = "<host>"@;
    let a = h.status_tag();
    let b = h.address_tag();
    let c = h.name_tag();
    let e = "<ports>"@;
    assert(none + o =~= o);
    assert(a[5] == "<status"@[5] && b[5] == "<address"@[5] && c[5] == "<hostname"@[5]);
    lemma_clear(none, o, open, 5);
    lemma_clear(o, a, open, 5);
    lemma_clear(o + a, b, open, 5);
    lemma_clear(o + a + b, c, open, 5);
    lemma_clear(o + a + b + c, e, open, 5);
    lemma_clear(none, "</ports>"@, open, 5);
    assert(none + "</ports>"@ =~= "</ports>"@);
    lemma_clear("</ports>"@, "</host>"@, open, 5);
}

#[verifier::spinoff_prover]
proof fn lemma_host_ports(h: Host)
    requires
        h.is_quiet(),
    ensures
        tell_ports(ports_from(h.text(), 0, Seq::empty()), h.ports),
{
    lemma_head_clear(h);
    reveal_strlit("<port ");
    let open = "<port "@;
    let none = Seq::<char>::empty();
    let head = h.head();
    let post = "</ports>"@ + "</host>"@;
    let t = h.text();
    assert(t =~= head + ports_text(h.ports) + post) by {
        reveal(Host::text);
    }
    let n = head.len() as int;
    assert(t.skip(n) =~= ports_text(h.ports) + post);
    let objects = Seq::<JsonV>::empty();
    let told = Seq::<Port>::empty();
    lemma_ports_read(t, n, h.ports, post, objects, told);
    assert(told + h.ports =~= h.ports);
    if h.ports.len() == 0 {
        lemma_clear_both(head, post, open, 5);
        assert(t =~= none + (head + post));
        lemma_not_found(none, head + post, open, 5);
        assert(t =~= head + post);
        lemma_not_found(head, post, open, 5);
    } else {
        let p = h.ports[0];
        let rest = ports_text(h.ports.drop_first()) + post;
        assert(t.skip(n) =~= p.text() + rest);
        lemma_port_read(t, n, p, rest, objects);
        lemma_port_pieces(p);
        assert(t =~= none + head + (p.text() + rest));
        assert(open.is_prefix_of(p.text() + rest)) by {
            assert(p.port_tag().is_prefix_of(p.text() + rest));
        }
        lemma_found(none, head, open, 5, p.text() + rest);
        assert(find_from(t, open, 0) == Some(n));
        assert(ports_from(t, 0, objects) == ports_from(t, n, objects));
    }
}

/// A host that is written out tells its address, its name, its status and its
/// ports, each with its service.
pub proof fn hosts_tell_their_ports(h: Host)
    requires
        h.is_quiet(),
    ensures
        h.told_by(host_members(h.text())),
{
    reveal(Host::told_by);
    lemma_host_attributes(h);
    lemma_host_tags(h);
    lemma_host_ports(h);
    lemma_puts();
    reveal_strlit("ip");
    reveal_strlit("addrtype");
    reveal_strlit("hostname");
    reveal_strlit("status");
    reveal_strlit("ports");
    assert("addrtype"@[0] == 'a' && "hostname"@[0] == 'h');
    assert("ip"@.len() == 2 && "ports"@.len() == 5 && "status"@.len() == 6);
    assert("addrtype"@.len() == 8 && "hostname"@.len() == 8);
    let none: Members = Seq::empty();
    assert(lookup(none, "ports"@) is None);
}

/// Hosts one behind another.
pub open spec fn hosts_text(hs: Seq<Host>) -> Seq<char>
    decreases hs.len(),
{
    if hs.len() == 0 {
        Seq::empty()
    } else {
        hs[0].text() + hosts_text(hs.drop_first())
    }
}

/// Whether members tell hosts, one list for each host and in their order.
pub open spec fn tell_hosts(found: Seq<Members>, hs: Seq<Host>) -> bool {
    &&& found.len() == hs.len()
    &&& forall|i: int| 0 <= i < hs.len() ==> hs[i].told_by(#[trigger] found[i])
}

proof fn lemma_host_begins(h: Host)
    ensures
        "<host>"@.is_prefix_of(h.text()),
{
    reveal(Host::text);
    let o = "<host>"@;
    let rest = h.status_tag() + h.address_tag() + h.name_tag() + "<ports>"@ + ports_text(h.ports)
        + "</ports>"@ + "</host>"@;
    assert(h.text() =~= o + rest);
}

/// How a host is written, up to its end.
spec fn host_body(h: Host) -> Seq<char> {
    h.head() + ports_text(h.ports) + "</ports>"@
}

/// Whether a tag begins with none of the tags of a host.
spec fn is_foreign(open: Seq<char>, q: int) -> bool {
    &&& 0 < q < 6
    &&& open[q] != "<host>"@[q] && open[q] != "<status"@[q] && open[q] != "<address"@[q]
    &&& open[q] != "<hostname"@[q] && open[q] != "<ports>"@[q] && open[q] != "</ports>"@[q]
    &&& open[q] != "<port "@[q] && open[q] != "<state"@[q] && open[q] != "<service"@[q]
    &&& open[q] != "</port>"@[q]
}

proof fn lemma_host_clear(h: Host, open: Seq<char>, q: int)
    requires
        h.is_quiet(),
        is_foreign(open, q),
    ensures
        clear(host_body(h), open, q),
{
    lemma_host_pieces(h);
    lemma_ports_clear(h.ports, open, q);
    reveal_strlit("<host>");
    reveal_strlit("<status");
    reveal_strlit("<address");
    reveal_strlit("<hostname");
    reveal_strlit("<ports>");
    reveal_strlit("</ports>");
    let none = Seq::<char>::empty();
    let o = "<host>"@;
    let a = h.status_tag();
    let b = h.address_tag();
    let c = h.name_tag();
    let e = "<ports>"@;
    assert(none + o =~= o);
    assert(a[q] == "<status"@[q] && b[q] == "<address"@[q] && c[q] == "<hostname"@[q]);
    lemma_clear(none, o, open, q);
    lemma_clear(o, a, open, q);
    lemma_clear(o + a, b, open, q);
    lemma_clear(o + a + b, c, open, q);
    lemma_clear(o + a + b + c, e, open, q);
    lemma_clear_both(h.head(), ports_text(h.ports), open, q);
    lemma_clear(h.head() + ports_text(h.ports), "</ports>"@, open, q);
}

proof fn lemma_foreign()
    ensures
        is_foreign("</host>"@, 2),
        is_foreign("<finished"@, 1),
        "</host>"@[1] != "<finished"@[1],
{
    reveal_strlit("<host>");
    reveal_strlit("<status");
    reveal_strlit("<address");
    reveal_strlit("<hostname");
    reveal_strlit("<ports>");
    reveal_strlit("</ports>");
    reveal_strlit("<port ");
    reveal_strlit("<state");
    reveal_strlit("<service");
    reveal_strlit("</port>");
    reveal_strlit("</host>");
    reveal_strlit("<finished");
}

proof fn lemma_hosts_clear(hs: Seq<Host>)
    requires
        forall|i: int| 0 <= i < hs.len() ==> (#[trigger] hs[i]).is_quiet(),
    ensures
        clear(hosts_text(hs), "<finished"@, 1),
    decreases hs.len(),
{
    if hs.len() > 0 {
        let h = hs[0];
        let rest = hs.drop_first();
        assert(h.is_quiet());
        assert forall|i: int| 0 <= i < rest.len() implies (#[trigger] rest[i]).is_quiet() by {
            assert(rest[i] == hs[i + 1]);
        }
        lemma_hosts_clear(rest);
        lemma_foreign();
        lemma_host_pieces(h);
        lemma_host_clear(h, "<finished"@, 1);
        lemma_clear(host_body(h), "</host>"@, "<finished"@, 1);
        assert(h.text() == host_body(h) + "</host>"@) by {
            reveal(Host::text);
        }
        lemma_clear_both(h.text(), hosts_text(rest), "<finished"@, 1);
    }
}

#[verifier::spinoff_prover]
proof fn lemma_host_read(xml: Seq<char>, from: int, h: Host, rest: Seq<char>, acc: Seq<Members>)
    requires
        h.is_quiet(),
        0 <= from <= xml.len(),
        xml.skip(from) == h.text() + rest,
    ensures
        element_from(xml, "<host"@, from) == Some(from),
        hosts_from(xml, from, acc) == hosts_from(
            xml,
            from + h.text().len(),
            acc.push(host_members(h.text())),
        ),
{
    lemma_foreign();
    lemma_host_clear(h, "</host>"@, 2);
    lemma_host_begins(h);
    reveal_strlit("<host");
    reveal_strlit("<host>");
    reveal_strlit("</host>");
    let none = Seq::<char>::empty();
    let open = "</host>"@;
    let before = xml.take(from);
    let text = h.text();
    let body = host_body(h);
    assert(text == body + open) by {
        reveal(Host::text);
    }
    assert(before + xml.skip(from) =~= xml);
    assert(before + none + (text + rest) =~= xml);
    assert(clear(none, "<host"@, 1));
    assert("<host"@.is_prefix_of(text + rest)) by {
        assert("<host>"@.is_prefix_of(text + rest));
    }
    lemma_found(before, none, "<host"@, 1, text + rest);
    assert(xml[from + 5] == xml.skip(from)[5]);
    assert(xml.skip(from)[5] == "<host>"@[5]);
    assert(before + body + (open + rest) =~= xml);
    assert(open.is_prefix_of(open + rest));
    lemma_found(before, body, open, 2, open + rest);
    let end = from + text.len();
    assert(behind(xml, open, from, xml.len() as int) == end);
    assert(xml.subrange(from, end) =~= text);
}

proof fn lemma_hosts_read(
    xml: Seq<char>,
    from: int,
    hs: Seq<Host>,
    post: Seq<char>,
    acc: Seq<Members>,
    told: Seq<Host>,
)
    requires
        forall|i: int| 0 <= i < hs.len() ==> (#[trigger] hs[i]).is_quiet(),
        0 <= from <= xml.len(),
        xml.skip(from) == hosts_text(hs) + post,
        clear(post, "<host"@, 1),
        tell_hosts(acc, told),
    ensures
        tell_hosts(hosts_from(xml, from, acc), told + hs),
    decreases hs.len(),
{
    if hs.len() == 0 {
        reveal_strlit("<host");
        assert(xml.take(from) + post =~= xml);
        lemma_not_found(xml.take(from), post, "<host"@, 1);
        assert(told + hs =~= told);
    } else {
        let h = hs[0];
        let rest = hs.drop_first();
        assert(h.is_quiet());
        assert(xml.skip(from) =~= h.text() + (hosts_text(rest) + post));
        lemma_host_read(xml, from, h, hosts_text(rest) + post, acc);
        hosts_tell_their_ports(h);
        let end = from + h.text().len();
        assert(xml.skip(from).len() == xml.len() - from);
        assert(xml.skip(end) =~= xml.skip(from).skip(h.text().len() as int));
        assert(xml.skip(end) =~= hosts_text(rest) + post);
        assert forall|i: int| 0 <= i < rest.len() implies (#[trigger] rest[i]).is_quiet() by {
            assert(rest[i] == hs[i + 1]);
        }
        let acc1 = acc.push(host_members(h.text()));
        let told1 = told.push(h);
        assert forall|i: int| 0 <= i < told1.len() implies told1[i].told_by(#[trigger] acc1[i]) by {
            if i < told.len() {
                assert(acc1[i] == acc[i]);
            }
        }
        lemma_hosts_read(xml, end, rest, post, acc1, told1);
        assert(told1 + rest =~= told + hs);
    }
}

/// A scan.
pub struct Scan {
    pub scanner: Seq<char>,
    pub args: Seq<char>,
    pub start: u16,
    pub start_text: Seq<char>,
    pub elapsed: Seq<char>,
    pub summary: Seq<char>,
}

impl Scan {
    pub open spec fn is_quiet(self) -> bool {
        &&& is_quiet(self.scanner) && is_quiet(self.args) && is_quiet(self.start_text)
        &&& is_quiet(self.elapsed) && is_quiet(self.summary)
    }

    pub open spec fn run_tag(self) -> Seq<char> {
        "<nmaprun"@ + attribute("scanner"@, self.scanner) + attribute("args"@, self.args)
            + attribute("start"@, int_text(self.start as int)) + attribute(
            "startstr"@,
            self.start_text,
        ) + ">"@
    }

    pub open spec fn finished_tag(self) -> Seq<char> {
        "<finished"@ + attribute("elapsed"@, self.elapsed) + attribute("summary"@, self.summary)
            + "/>"@
    }

    /// How a scan of hosts is written.
    pub open spec fn text(self, hs: Seq<Host>) -> Seq<char> {
        self.run_tag() + hosts_text(hs) + self.finished_tag() + "</nmaprun>"@
    }
}

/// A scan that is written out gives one list of members for each of its hosts,
/// in their order.
pub proof fn scans_give_their_hosts(scan: Scan, hs: Seq<Host>)
    requires
        scan.is_quiet(),
        forall|i: int| 0 <= i < hs.len() ==> (#[trigger] hs[i]).is_quiet(),
    ensures
        tell_hosts(hosts_from(scan.text(hs), 0, Seq::empty()), hs),
{
    lemma_scan_pieces(scan);
    reveal_strlit("<nmaprun");
    reveal_strlit("<finished");
    reveal_strlit("</nmaprun>");
    reveal_strlit("<host");
    let none = Seq::<char>::empty();
    let open = "<host"@;
    let a = scan.run_tag();
    let b = scan.finished_tag();
    let c = "</nmaprun>"@;
    assert(a[1] == "<nmaprun"@[1] && b[1] == "<finished"@[1]);
    lemma_clear(none, a, open, 1);
    assert(none + a =~= a);
    lemma_clear(none, b, open, 1);
    assert(none + b =~= b);
    lemma_clear(b, c, open, 1);
    let post = b + c;
    let t = scan.text(hs);
    let n = a.len() as int;
    assert(t.skip(n) =~= hosts_text(hs) + post);
    let found = Seq::<Members>::empty();
    let told = Seq::<Host>::empty();
    lemma_hosts_read(t, n, hs, post, found, told);
    assert(told + hs =~= hs);
    if hs.len() == 0 {
        lemma_clear_both(a, post, open, 1);
        assert(t =~= none + (a + post));
        lemma_not_found(none, a + post, open, 1);
        assert(t =~= a + post);
        lemma_not_found(a, post, open, 1);
    } else {
        let h = hs[0];
        let rest = hosts_text(hs.drop_first()) + post;
        assert(t.skip(n) =~= h.text() + rest);
        lemma_host_read(t, n, h, rest, found);
        assert(t =~= none + a + (h.text() + rest));
        reveal_strlit("<host>");
        lemma_host_begins(h);
        assert(open.is_prefix_of(h.text() + rest)) by {
            assert("<host>"@.is_prefix_of(h.text() + rest));
        }
        lemma_found(none, a, open, 1, h.text() + rest);
        assert(t[n + 5] == t.skip(n)[5]);
        assert(t.skip(n)[5] == "<host>"@[5]);
        assert(element_from(t, open, 0) == Some(n));
        assert(hosts_from(t, 0, found) == hosts_from(t, n, found));
    }
}

proof fn lemma_scan_words()
    ensures
        is_quiet("scanner"@) && "scanner"@.len() == 7 && "scanner"@[5] == 'e',
        "scanner"@[6] == 'r',
        is_quiet("args"@) && "args"@.len() == 4 && "args"@[2] == 'g' && "args"@[3] == 's',
        is_quiet("start"@) && "start"@.len() == 5 && "start"@[3] == 'r' && "start"@[4] == 't',
        is_quiet("startstr"@) && "startstr"@.len() == 8 && "startstr"@[6] == 't',
        is_quiet("elapsed"@) && "elapsed"@.len() == 7 && "elapsed"@[6] == 'd',
        is_quiet("summary"@) && "summary"@.len() == 7 && "summary"@[6] == 'y',
        forall|name: Seq<char>, q: int| #[trigger] guards("<nmaprun"@, name, q),
        forall|name: Seq<char>, q: int| #[trigger] guards("<finished"@, name, q),
{
    reveal_strlit("scanner");
    reveal_strlit("args");
    reveal_strlit("start");
    reveal_strlit("startstr");
    reveal_strlit("elapsed");
    reveal_strlit("summary");
    reveal_strlit("<nmaprun");
    reveal_strlit("<finished");
}

proof fn lemma_scan_pieces(scan: Scan)
    requires
        scan.is_quiet(),
    ensures
        is_piece(scan.run_tag()) && "<nmaprun"@.is_prefix_of(scan.run_tag()),
        scan.run_tag()[8] == ' ',
        is_piece(scan.finished_tag()) && "<finished"@.is_prefix_of(scan.finished_tag()),
        scan.finished_tag()[9] == ' ',
        is_piece("</nmaprun>"@),
{
    reveal_strlit("<nmaprun");
    reveal_strlit("<finished");
    reveal_strlit("</nmaprun>");
    reveal_strlit(">");
    reveal_strlit("/>");
    lemma_scan_words();
    lemma_number(scan.start as int);
    let o = "<nmaprun"@;
    lemma_open(o, "scanner"@, scan.scanner);
    lemma_piece3(
        o + attribute("scanner"@, scan.scanner),
        "args"@,
        scan.args,
        "start"@,
        int_text(scan.start as int),
        "startstr"@,
        scan.start_text,
        ">"@,
    );
    lemma_piece2("<finished"@, "elapsed"@, scan.elapsed, "summary"@, scan.summary, "/>"@);
}

proof fn lemma_scan_attributes(scan: Scan)
    requires
        scan.is_quiet(),
    ensures
        attr(scan.run_tag(), "scanner"@) == Some(scan.scanner),
        attr(scan.run_tag(), "args"@) == Some(scan.args),
        attr(scan.run_tag(), "start"@) == Some(int_text(scan.start as int)),
        attr(scan.run_tag(), "startstr"@) == Some(scan.start_text),
        attr(scan.finished_tag(), "elapsed"@) == Some(scan.elapsed),
        attr(scan.finished_tag(), "summary"@) == Some(scan.summary),
{
    lemma_scan_words();
    lemma_number(scan.start as int);
    let n = int_text(scan.start as int);
    let o = "<nmaprun"@;
    let a = attribute("scanner"@, scan.scanner);
    let b = attribute("args"@, scan.args);
    let c = attribute("start"@, n);
    let d = attribute("startstr"@, scan.start_text);
    let e = ">"@;
    lemma_attribute(o, "scanner"@, scan.scanner, b + c + d + e, 1);
    assert(o + a + (b + c + d + e) =~= scan.run_tag());
    lemma_guards(o, "scanner"@, scan.scanner, "args"@, 1);
    lemma_attribute(o + a, "args"@, scan.args, c + d + e, 1);
    assert(o + a + b + (c + d + e) =~= scan.run_tag());
    lemma_guards(o, "scanner"@, scan.scanner, "start"@, 1);
    lemma_guards(o + a, "args"@, scan.args, "start"@, 1);
    lemma_attribute(o + a + b, "start"@, n, d + e, 1);
    assert(o + a + b + c + (d + e) =~= scan.run_tag());
    lemma_guards(o, "scanner"@, scan.scanner, "startstr"@, 2);
    lemma_guards(o + a, "args"@, scan.args, "startstr"@, 2);
    lemma_guards(o + a + b, "start"@, n, "startstr"@, 2);
    lemma_attribute(o + a + b + c, "startstr"@, scan.start_text, e, 2);
    let o = "<finished"@;
    let a = attribute("elapsed"@, scan.elapsed);
    let b = attribute("summary"@, scan.summary);
    lemma_attribute(o, "elapsed"@, scan.elapsed, b + "/>"@, 1);
    assert(o + a + (b + "/>"@) =~= scan.finished_tag());
    lemma_guards(o, "elapsed"@, scan.elapsed, "summary"@, 1);
    lemma_attribute(o + a, "summary"@, scan.summary, "/>"@, 1);
}

/// A scan that is written out tells its scanner, its arguments, when it began,
/// how long it took and what it found.
pub proof fn scans_tell_themselves(t: AnswersV, scan: Scan, hs: Seq<Host>, bits: u64)
    requires
        scan.is_quiet(),
        forall|i: int| 0 <= i < hs.len() ==> (#[trigger] hs[i]).is_quiet(),
        ask_parse(t, scan.elapsed) == Ok::<Option<u64>, QueryV>(Some(bits)),
    ensures
        scan_members(t, scan.text(hs)) matches Ok(p) && {
            &&& lookup(p, "scanner"@) == Some(JsonV::Str(scan.scanner))
            &&& lookup(p, "scan_args"@) == Some(JsonV::Str(scan.args))
            &&& lookup(p, "scan_start"@) == Some(JsonV::Int(scan.start as i64))
            &&& lookup(p, "scan_start_str"@) == Some(JsonV::Str(scan.start_text))
            &&& lookup(p, "scan_elapsed"@) == Some(JsonV::Float(DoubleV::Bits(bits)))
            &&& lookup(p, "message"@) == Some(JsonV::Str(scan.summary))
        },
{
    lemma_scan_pieces(scan);
    lemma_scan_attributes(scan);
    lemma_number(scan.start as int);
    lemma_hosts_clear(hs);
    lemma_puts();
    reveal_strlit("<nmaprun");
    reveal_strlit("<finished");
    let none = Seq::<char>::empty();
    let x = scan.text(hs);
    let a = scan.run_tag();
    let b = scan.finished_tag();
    let c = "</nmaprun>"@;
    assert(clear(none, "<nmaprun"@, 1));
    assert(none + a + (hosts_text(hs) + b + c) =~= x);
    lemma_tag(none, a, hosts_text(hs) + b + c, "<nmaprun"@, 1);
    assert(a[1] == "<nmaprun"@[1]);
    lemma_clear(none, a, "<finished"@, 1);
    assert(none + a =~= a);
    lemma_clear_both(a, hosts_text(hs), "<finished"@, 1);
    lemma_tag(a + hosts_text(hs), b, c, "<finished"@, 1);
    reveal_strlit("scanner");
    reveal_strlit("scan_args");
    reveal_strlit("scan_start");
    reveal_strlit("scan_start_str");
    reveal_strlit("scan_elapsed");
    reveal_strlit("message");
    assert("scanner"@[0] == 's' && "message"@[0] == 'm');
    assert("scan_args"@.len() == 9 && "scan_start"@.len() == 10 && "scan_start_str"@.len() == 14);
    assert("scan_elapsed"@.len() == 12 && "scanner"@.len() == 7 && "message"@.len() == 7);
}

/// A scan gives an event for each host, at the moment at which it began and
/// with what it found as message; without hosts it gives one event.
pub proof fn events_follow_their_hosts(
    scan: Members,
    hosts: Seq<Members>,
    now: Moment,
    start: i64,
    summary: Seq<char>,
    i: int,
)
    requires
        lookup(scan, "scan_start"@) == Some(JsonV::Int(start)),
        lookup(scan, "message"@) == Some(JsonV::Str(summary)),
        moment_exists(start, 0),
    ensures
        scan_events(scan, hosts, now).len() == (if hosts.len() == 0 {
            1
        } else {
            hosts.len()
        }),
        0 <= i < hosts.len() ==> {
            let e = scan_events(scan, hosts, now)[i];
            &&& e.timestamp == (Moment { secs: start, nanos: 0 })
            &&& message_of(e) == Some(summary)
        },
{
    if 0 <= i < hosts.len() {
        let e = with_members(with_members(blank(now), scan, 0), hosts[i], 0);
        put_then_lookup(e.fields, "message"@, JsonV::Str(summary), "message"@);
    }
}

} // verus!
