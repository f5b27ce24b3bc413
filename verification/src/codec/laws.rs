//! What the codecs promise together.
use crate::codec::bytes_codec::{bytes_event, bytes_json, is_byte, message_bytes, BytesCodec};
use crate::codec::fluent::{fluent_events, FluentCodec};
use crate::codec::plain::{end_without, line_events, text_lines, without_end, PlainCodec};
use crate::codec::{utf8_lossy, Codec, CodecErrV};
use crate::dict::{distinct_keys, key_from, lemma_key_from, put, put_then_lookup};
use crate::double::AnswersV;
use crate::event::{
    blank, event_of_json, field_of, json_of_event, message_event, message_of, metadata_key,
    tags_json, timed, with_field, with_members, EventV,
};
use crate::interchange::{serde_entries, serde_view, written, written_entries, written_items};
use crate::json::JsonV;
use crate::moment::{rfc3339_text, Moment};
use crate::text::{find_from, lemma_find_from, occurs_at, split_from, split_text};
use vstd::prelude::*;
use vstd::utf8::{
    decode_utf8_encode_utf8, encode_utf8, encode_utf8_decode_utf8, encode_utf8_valid_utf8,
    valid_utf8,
};

verus! {

/// A value without doubles, in which no object has a key twice, and whose
/// integers are signed where they can be.
pub open spec fn plain(j: JsonV) -> bool
    decreases j,
{
    match j {
        JsonV::Float(_) => false,
        JsonV::UInt(n) => n > i64::MAX,
        JsonV::Array(a) => forall|i: int| 0 <= i < a.len() ==> plain(#[trigger] a[i]),
        JsonV::Object(o) => distinct_keys(o) && forall|i: int|
            0 <= i < o.len() ==> plain((#[trigger] o[i]).1),
        _ => true,
    }
}

/// A value without doubles is written as it is.
pub proof fn plain_is_written(t: AnswersV, j: JsonV)
    requires
        plain(j),
    ensures
        written(t, j) == Ok::<JsonV, crate::double::QueryV>(j),
        serde_view(j) == j,
    decreases j, 0nat,
{
    match j {
        JsonV::Array(a) => {
            assert(a.subrange(0, 0) =~= Seq::empty());
            lemma_items(t, a, 0);
            assert forall|i: int| 0 <= i < a.len() implies serde_view(#[trigger] a[i]) == a[i] by {
                plain_is_written(t, a[i]);
            }
            assert(serde_view(j)->Array_0 =~= a);
        },
        JsonV::Object(o) => {
            assert(o.subrange(0, 0) =~= Seq::empty());
            lemma_entries(t, o, 0);
            lemma_serde_entries(t, o, o.len() as int);
            assert(o.subrange(0, o.len() as int) =~= o);
        },
        _ => {},
    }
}

proof fn lemma_items(t: AnswersV, a: Seq<JsonV>, i: int)
    requires
        0 <= i <= a.len(),
        forall|k: int| 0 <= k < a.len() ==> plain(#[trigger] a[k]),
    ensures
        written_items(t, a, i, a.subrange(0, i)) == Ok::<Seq<JsonV>, crate::double::QueryV>(a),
    decreases a, a.len() - i,
{
    if i < a.len() {
        plain_is_written(t, a[i]);
        assert(a.subrange(0, i).push(a[i]) =~= a.subrange(0, i + 1));
        lemma_items(t, a, i + 1);
    } else {
        assert(a.subrange(0, i) =~= a);
    }
}

proof fn lemma_entries(t: AnswersV, o: Seq<(Seq<char>, JsonV)>, i: int)
    requires
        0 <= i <= o.len(),
        forall|k: int| 0 <= k < o.len() ==> plain((#[trigger] o[k]).1),
    ensures
        written_entries(t, o, i, o.subrange(0, i)) == Ok::<
            Seq<(Seq<char>, JsonV)>,
            crate::double::QueryV,
        >(o),
    decreases o, o.len() - i,
{
    if i < o.len() {
        plain_is_written(t, o[i].1);
        assert(o.subrange(0, i).push((o[i].0, o[i].1)) =~= o.subrange(0, i + 1));
        lemma_entries(t, o, i + 1);
    } else {
        assert(o.subrange(0, i) =~= o);
    }
}

pub proof fn lemma_put_next<V>(o: Seq<(Seq<char>, V)>, n: int)
    requires
        0 <= n < o.len(),
        distinct_keys(o),
    ensures
        put(o.subrange(0, n), o[n].0, o[n].1) == o.subrange(0, n + 1),
{
    let p = o.subrange(0, n);
    lemma_key_from(p, o[n].0, 0);
    let i = key_from(p, o[n].0, 0);
    if i < p.len() {
        assert(p[i] == o[i]);
    }
    assert(p.push((o[n].0, o[n].1)) =~= o.subrange(0, n + 1));
}

proof fn lemma_serde_entries(t: AnswersV, o: Seq<(Seq<char>, JsonV)>, n: int)
    requires
        0 <= n <= o.len(),
        distinct_keys(o),
        forall|k: int| 0 <= k < o.len() ==> plain((#[trigger] o[k]).1),
    ensures
        serde_entries(o, n) == o.subrange(0, n),
    decreases o, n,
{
    if n > 0 {
        lemma_serde_entries(t, o, n - 1);
        plain_is_written(t, o[n - 1].1);
        lemma_put_next(o, n - 1);
    } else {
        assert(o.subrange(0, 0) =~= Seq::empty());
    }
}

/// No key names metadata.
pub open spec fn no_metadata_keys(p: Seq<(Seq<char>, JsonV)>) -> bool {
    forall|i: int| 0 <= i < p.len() ==> metadata_key((#[trigger] p[i]).0) is None
}

/// Members whose keys differ, none of which names metadata, become the fields
/// of an event as they are.
pub proof fn members_become_fields(p: Seq<(Seq<char>, JsonV)>, now: Moment)
    requires
        distinct_keys(p),
        no_metadata_keys(p),
    ensures
        event_of_json(JsonV::Object(p), now) == (EventV { fields: p, ..blank(now) }),
{
    assert(p.subrange(0, 0) =~= Seq::empty());
    lemma_members(p, 0, now);
}

proof fn lemma_members(p: Seq<(Seq<char>, JsonV)>, i: int, now: Moment)
    requires
        0 <= i <= p.len(),
        distinct_keys(p),
        no_metadata_keys(p),
    ensures
        with_members(EventV { fields: p.subrange(0, i), ..blank(now) }, p, i) == (EventV {
            fields: p,
            ..blank(now)
        }),
    decreases p.len() - i,
{
    if i < p.len() {
        lemma_put_next(p, i);
        lemma_members(p, i + 1, now);
    } else {
        assert(p.subrange(0, i) =~= p);
    }
}

/// An event that is written and read as it is: its values hold no doubles, no
/// field occurs twice, and none is named like metadata.
pub open spec fn plain_event(e: EventV) -> bool {
    plain(JsonV::Object(e.fields)) && no_metadata_keys(e.fields)
}

proof fn lemma_put_plain(p: Seq<(Seq<char>, JsonV)>, k: Seq<char>, v: JsonV)
    requires
        plain(JsonV::Object(p)),
        no_metadata_keys(p),
        plain(v),
        metadata_key(k) is None,
    ensures
        plain(JsonV::Object(put(p, k, v))),
        no_metadata_keys(put(p, k, v)),
{
    put_then_lookup(p, k, v, k);
    lemma_key_from(p, k, 0);
    let q = put(p, k, v);
    let n = key_from(p, k, 0);
    assert forall|i: int| 0 <= i < q.len() implies plain((#[trigger] q[i]).1) && metadata_key(
        q[i].0,
    ) is None by {
        if i == n {
            assert(q[i] == (k, v));
        } else {
            assert(q[i] == p[i]);
        }
    }
}

/// An event without doubles, taken as JSON and read back as an event, has its
/// fields again, and its time and tags among them.
pub proof fn event_survives_json(t: AnswersV, e: EventV, now: Moment)
    requires
        plain_event(e),
    ensures
        written(t, json_of_event(e)) == Ok::<JsonV, crate::double::QueryV>(json_of_event(e)),
        serde_view(json_of_event(e)) == json_of_event(e),
        event_of_json(json_of_event(e), now) == (EventV {
            fields: json_of_event(e)->Object_0,
            ..blank(now)
        }),
{
    lemma_json_of_event_plain(e);
    plain_is_written(t, json_of_event(e));
    members_become_fields(json_of_event(e)->Object_0, now);
}

/// A Fluent message of an event without doubles gives back one event, with the
/// fields of its JSON object, its tag, and the whole seconds of its time.
pub proof fn event_survives_fluent(c: FluentCodec, t: AnswersV, e: EventV, now: Moment)
    requires
        plain_event(e),
    ensures
        written(t, c.message(e)) == Ok::<JsonV, crate::double::QueryV>(c.message(e)),
        serde_view(c.message(e)) == c.message(e),
        fluent_events(t, c.message(e), now) == Ok::<Seq<EventV>, CodecErrV>(
            seq![
                timed(
                    with_field(
                        event_of_json(json_of_event(e), now),
                        "fluent_tag"@,
                        c.message(e)->Array_0[0],
                    ),
                    e.timestamp.secs,
                    0,
                ),
            ],
        ),
{
    event_survives_json(t, e, now);
    lemma_json_of_event_plain(e);
    let m = c.message(e);
    let a = m->Array_0;
    assert(a.len() == 3);
    assert forall|i: int| 0 <= i < a.len() implies plain(#[trigger] a[i]) by {
        assert(i == 0 || i == 1 || i == 2);
    }
    plain_is_written(t, m);
}

proof fn lemma_json_of_event_plain(e: EventV)
    requires
        plain_event(e),
    ensures
        plain(json_of_event(e)),
        no_metadata_keys(json_of_event(e)->Object_0),
{
    reveal_strlit("@timestamp");
    reveal_strlit("tags");
    reveal_strlit("[@metadata][");
    assert("@timestamp"@[0] != "[@metadata]["@[0] && "tags"@[0] != "[@metadata]["@[0]);
    let time = JsonV::Str(rfc3339_text(e.timestamp.secs, e.timestamp.nanos));
    lemma_put_plain(e.fields, "@timestamp"@, time);
    let p = put(e.fields, "@timestamp"@, time);
    if e.tags.len() > 0 {
        let a = tags_json(e.tags)->Array_0;
        assert forall|i: int| 0 <= i < a.len() implies plain(#[trigger] a[i]) by {
            assert(a[i] == JsonV::Str(e.tags[i]));
        }
        lemma_put_plain(p, "tags"@, tags_json(e.tags));
    }
}

/// The bytes of a text are read as that text.
pub proof fn text_survives(s: Seq<char>)
    ensures
        utf8_lossy(encode_utf8(s)) == s,
{
    encode_utf8_valid_utf8(s);
    encode_utf8_decode_utf8(s);
}

proof fn lemma_no_feed(s: Seq<char>, from: int)
    requires
        0 <= from <= s.len(),
        !s.contains('\n'),
    ensures
        find_from(s, "\n"@, from) is None,
{
    reveal_strlit("\n");
    lemma_find_from(s, "\n"@, from);
    if let Some(k) = find_from(s, "\n"@, from) {
        assert(s.subrange(k, k + 1)[0] == "\n"@[0]);
        assert(s.contains(s[k]));
    }
}

/// A text of one line is its only line, with a line feed behind it or not.
proof fn lemma_one_line(m: Seq<char>)
    requires
        !m.contains('\n'),
    ensures
        text_lines(m + "\n"@) == seq![m],
        text_lines(m) == seq![m],
{
    reveal_strlit("\n");
    let line = m + "\n"@;
    assert(line.len() == m.len() + 1 && line.last() == '\n');
    if m.len() > 0 {
        assert(m.contains(m.last()));
        assert(line[m.len() - 1] == m.last());
    }
    assert(end_without(line, '\n', line.len() as int) == m.len()) by {
        reveal_with_fuel(end_without, 3);
    }
    assert(without_end(line, '\n') =~= m);
    assert(without_end(m, '\n') =~= m);
    lemma_no_feed(m, 0);
    assert(m.subrange(0, m.len() as int) =~= m);
    assert(split_text(m, "\n"@) =~= seq![m]);
}

/// A message of one line that does not end in a carriage return is read back
/// from the line that the plain codec writes.
pub proof fn line_survives_plain(c: PlainCodec, t: AnswersV, e: EventV, now: Moment)
    requires
        c.format is None,
        message_of(e) matches Some(m) && !m.contains('\n') && (m.len() > 0 ==> m.last() != '\r'),
    ensures
        c.encoded(e, t) matches Ok(b) && c.decoded(b, now, t) == Ok::<Seq<EventV>, CodecErrV>(
            seq![message_event(message_of(e)->0, now)],
        ),
{
    let m = message_of(e)->0;
    let line = m + "\n"@;
    text_survives(line);
    lemma_one_line(m);
    assert(without_end(m, '\r') =~= m);
    assert(line_events(line, now) =~= seq![message_event(m, now)]);
}

proof fn lemma_end_behind(s: Seq<char>, b: Seq<char>, off: int, j: int)
    requires
        0 <= off,
        0 <= j <= b.len(),
        s.len() == off + b.len(),
        s.skip(off) == b,
        end_without(b, '\n', j) > 0,
    ensures
        end_without(s, '\n', off + j) == off + end_without(b, '\n', j),
    decreases j,
{
    if j > 0 {
        assert(s[off + j - 1] == s.skip(off)[j - 1]);
        if b[j - 1] == '\n' {
            lemma_end_behind(s, b, off, j - 1);
        }
    }
}

pub proof fn lemma_find_behind(x: Seq<char>, y: Seq<char>, p: Seq<char>, off: int, i: int)
    requires
        0 <= off,
        0 <= i,
        x.len() == off + y.len(),
        x.skip(off) == y,
    ensures
        find_from(x, p, off + i) == (match find_from(y, p, i) {
            Some(k) => Some(off + k),
            None => None,
        }),
    decreases y.len() - i,
{
    if i + p.len() <= y.len() {
        assert(x.subrange(off + i, off + i + p.len()) =~= y.subrange(i, i + p.len()));
        if !occurs_at(y, p, i) && i < y.len() {
            lemma_find_behind(x, y, p, off, i + 1);
        }
    }
}

pub proof fn lemma_split_behind(
    x: Seq<char>,
    y: Seq<char>,
    p: Seq<char>,
    off: int,
    i: int,
    first: Seq<Seq<char>>,
    acc: Seq<Seq<char>>,
)
    requires
        0 <= off,
        0 <= i <= y.len(),
        x.len() == off + y.len(),
        x.skip(off) == y,
        p.len() > 0,
    ensures
        split_from(x, p, off + i, off + i, first + acc) == first + split_from(y, p, i, i, acc),
    decreases y.len() - i,
{
    lemma_find_behind(x, y, p, off, i);
    lemma_find_from(y, p, i);
    match find_from(y, p, i) {
        None => {
            assert(x.subrange(off + i, x.len() as int) =~= y.subrange(i, y.len() as int));
            let piece = y.subrange(i, y.len() as int);
            assert((first + acc).push(piece) =~= first + acc.push(piece));
        },
        Some(k) => {
            assert(x.subrange(off + i, off + k) =~= y.subrange(i, k));
            let piece = y.subrange(i, k);
            assert((first + acc).push(piece) =~= first + acc.push(piece));
            lemma_split_behind(x, y, p, off, k + p.len(), first, acc.push(piece));
        },
    }
}

proof fn lemma_end_bounds(s: Seq<char>, c: char, j: int)
    requires
        0 <= j <= s.len(),
    ensures
        0 <= end_without(s, c, j) <= j,
    decreases j,
{
    if j > 0 && s[j - 1] == c {
        lemma_end_bounds(s, c, j - 1);
    }
}

#[verifier::spinoff_prover]
proof fn lemma_first_feed(s: Seq<char>, from: int, n: int)
    requires
        0 <= from <= n < s.len(),
        s[n] == '\n',
        forall|j: int| from <= j < n ==> s[j] != '\n',
    ensures
        find_from(s, "\n"@, from) == Some(n),
    decreases n - from,
{
    reveal_strlit("\n");
    if from < n {
        assert(s.subrange(from, from + 1)[0] == s[from]);
        lemma_first_feed(s, from + 1, n);
    } else {
        assert(s.subrange(n, n + 1) =~= "\n"@);
    }
}

#[verifier::spinoff_prover]
proof fn lemma_lines_behind(a: Seq<char>, b: Seq<char>)
    requires
        !a.contains('\n'),
        end_without(b, '\n', b.len() as int) > 0,
    ensures
        text_lines(a + "\n"@ + b) == Seq::empty().push(a) + text_lines(b),
{
    reveal_strlit("\n");
    let s = a + "\n"@ + b;
    let n = a.len() as int;
    let e = end_without(b, '\n', b.len() as int);
    lemma_end_bounds(b, '\n', b.len() as int);
    assert(s.skip(n + 1) =~= b);
    lemma_end_behind(s, b, n + 1, b.len() as int);
    let short = without_end(b, '\n');
    let x = without_end(s, '\n');
    assert(x == s.subrange(0, n + 1 + e));
    assert(x.len() == n + 1 + e && short.len() == e);
    assert(x.skip(n + 1) =~= short);
    assert forall|j: int| 0 <= j < n implies x[j] != '\n' by {
        assert(x[j] == a[j]);
        assert(a.contains(a[j]));
    }
    assert(x[n] == '\n');
    lemma_first_feed(x, 0, n);
    assert(x.subrange(0, n) =~= a);
    let none = Seq::<Seq<char>>::empty();
    assert(none.push(a) + none =~= none.push(a));
    lemma_split_behind(x, short, "\n"@, n + 1, 0, none.push(a), none);
}

/// A line with a text behind it is read as the event of that line, and then
/// those of the text, if the text does not consist of line feeds alone.
pub proof fn lines_are_read_one_by_one(a: Seq<char>, b: Seq<char>, now: Moment)
    requires
        !a.contains('\n'),
        end_without(b, '\n', b.len() as int) > 0,
    ensures
        line_events(a + "\n"@ + b, now) == seq![message_event(without_end(a, '\r'), now)]
            + line_events(b, now),
{
    lemma_lines_behind(a, b);
    assert(line_events(a + "\n"@ + b, now) =~= seq![message_event(without_end(a, '\r'), now)]
        + line_events(b, now));
}

/// What an event of raw data holds.
proof fn lemma_bytes_event(data: Seq<u8>, now: Moment)
    ensures
        message_of(bytes_event(data, now)) == Some(utf8_lossy(data)),
        field_of(bytes_event(data, now), "[@metadata][bytes]"@) == (if valid_utf8(data) {
            None
        } else {
            Some(bytes_json(data))
        }),
{
    reveal_strlit("message");
    reveal_strlit("content_length");
    reveal_strlit("[@metadata][");
    reveal_strlit("[@metadata][bytes]");
    reveal_strlit("]");
    let open = "[@metadata]["@;
    let field = "[@metadata][bytes]"@;
    assert("content_length"@[0] != open[0]);
    assert(metadata_key("content_length"@) is None);
    assert(field.subrange(0, open.len() as int) =~= open);
    assert(open.is_prefix_of(field));
    assert(field.subrange(field.len() - 1, field.len() as int) =~= "]"@);
    assert("]"@.is_suffix_of(field));
    let k = field.subrange(open.len() as int, field.len() - 1);
    assert(metadata_key(field) == Some(k));
    let m = JsonV::Str(utf8_lossy(data));
    let n = JsonV::Int(data.len() as i64);
    let e1 = message_event(utf8_lossy(data), now);
    let none = Seq::<(Seq<char>, JsonV)>::empty();
    put_then_lookup(none, "message"@, m, "message"@);
    put_then_lookup(e1.fields, "content_length"@, n, "message"@);
    put_then_lookup(none, k, bytes_json(data), k);
}

/// A message is read back from the bytes that the byte codec writes, with their
/// number.
pub proof fn message_survives_bytes(c: BytesCodec, t: AnswersV, e: EventV, now: Moment)
    requires
        message_of(e) is Some,
    ensures
        c.encoded(e, t) matches Ok(b) && c.decoded(b, now, t) == Ok::<Seq<EventV>, CodecErrV>(
            seq![bytes_event(b, now)],
        ) && message_of(bytes_event(b, now)) == message_of(e),
{
    text_survives(message_of(e)->0);
    lemma_bytes_event(message_bytes(e), now);
}

/// Any data, text or not, is encoded again as it was decoded, byte by byte.
pub proof fn data_survives_bytes(c: BytesCodec, t: AnswersV, data: Seq<u8>, now: Moment)
    ensures
        c.decoded(data, now, t) == Ok::<Seq<EventV>, CodecErrV>(seq![bytes_event(data, now)]),
        c.encoded(bytes_event(data, now), t) == Ok::<Seq<u8>, CodecErrV>(data),
{
    lemma_bytes_event(data, now);
    if valid_utf8(data) {
        decode_utf8_encode_utf8(data);
    } else {
        let a = bytes_json(data)->Array_0;
        assert forall|i: int| 0 <= i < a.len() implies is_byte(#[trigger] a[i]) by {
            assert(a[i] == JsonV::Int(data[i] as i64));
        }
        assert(a.map_values(|x: JsonV| x->Int_0 as u8) =~= data);
    }
}

} // verus!
