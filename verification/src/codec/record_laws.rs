//! What holds of codecs that carry records of others, and of texts that events
//! fill in.
use crate::codec::cloudtrail::log_events;
use crate::codec::fluent::{entries_from, fluent_events};
use crate::codec::hex::{hex_digit, hex_number, hex_text};
use crate::codec::nmap::attr;
use crate::codec::rubydebug::{longest_key, pair_line, Pairs};
use crate::dict::{lookup, put_then_lookup};
use crate::double::{AnswersV, QueryV};
use crate::event::{
    event_of_json, field_of, filled, is_plain_name, json_of_event, lemma_fields_stay, metadata_key,
    tags_json, timed_by, with_field, with_tag, EventV,
};
use crate::json::{json_get, JsonV};
use crate::moment::{moment_exists, rfc3339_text, utc_moment, Moment};
use crate::text::{find_from, lemma_find_from, occurs_at};
use vstd::prelude::*;
use vstd::utf8::{encode_utf8, is_ascii_chars, is_ascii_chars_encode_utf8};

verus! {

/// The value of a hexadecimal digit.
pub open spec fn hex_value(c: char) -> int {
    if '0' <= c <= '9' {
        c as int - '0' as int
    } else if 'a' <= c <= 'f' {
        c as int - 'a' as int + 10
    } else {
        -1
    }
}

/// The number that hexadecimal digits are.
pub open spec fn hex_read(s: Seq<char>) -> int
    decreases s.len(),
{
    if s.len() == 0 {
        0
    } else {
        16 * hex_read(s.drop_last()) + hex_value(s.last())
    }
}

proof fn lemma_hex_digit(d: int)
    requires
        0 <= d < 16,
    ensures
        hex_value(hex_digit(d)) == d,
{
}

/// Each byte is the number that its two hexadecimal digits are.
pub proof fn hex_texts_read_back(data: Seq<u8>, i: int)
    requires
        0 <= i < data.len(),
    ensures
        hex_text(data).len() == 2 * data.len(),
        16 * hex_value(hex_text(data)[2 * i]) + hex_value(hex_text(data)[2 * i + 1]) == data[i],
    decreases data.len(),
{
    let front = data.drop_last();
    let last = data.last() as int;
    crate::codec::hex::hex_text_len(data);
    crate::codec::hex::hex_text_len(front);
    lemma_hex_digit(last / 16);
    lemma_hex_digit(last % 16);
    if i < front.len() {
        hex_texts_read_back(front, i);
        assert(hex_text(data)[2 * i] == hex_text(front)[2 * i]);
        assert(hex_text(data)[2 * i + 1] == hex_text(front)[2 * i + 1]);
    }
}

/// A number is what its hexadecimal digits say, and has no leading zero.
pub proof fn hex_numbers_read_back(n: nat)
    ensures
        hex_read(hex_number(n)) == n,
        hex_number(n).len() > 0,
        n > 0 ==> hex_number(n)[0] != '0',
    decreases n,
{
    if n >= 16 {
        hex_numbers_read_back(n / 16);
        lemma_hex_digit((n % 16) as int);
        assert(hex_number(n).drop_last() =~= hex_number(n / 16));
    } else {
        lemma_hex_digit(n as int);
        let s = hex_number(n);
        assert(s.drop_last() =~= Seq::empty());
        reveal_with_fuel(hex_read, 3);
    }
}

/// A CloudTrail log gives one event for each of its records, in their order,
/// each with the number of them all, a mark, and the record's own time.
pub proof fn logs_give_their_records(a: Seq<JsonV>, now: Moment, i: int, s: Seq<char>)
    requires
        0 <= i < a.len() <= i64::MAX,
        json_get(a[i], "eventTime"@) == Some(JsonV::Str(s)),
    ensures
        ({
            let log = JsonV::Object(Seq::empty().push(("Records"@, JsonV::Array(a))));
            let events = log_events(None, log, now);
            let e = events[i];
            &&& events.len() == a.len()
            &&& field_of(e, "cloudtrail_record_count"@) == Some(JsonV::Int(a.len() as i64))
            &&& e.tags.contains("cloudtrail"@)
            &&& utc_moment(s) matches Some((secs, nanos)) ==> e.timestamp.secs == secs
                && e.timestamp.nanos == nanos
            &&& forall|g: Seq<char>|
                is_plain_name(g) && g != "cloudtrail_record_count"@ ==> #[trigger] field_of(e, g)
                    == field_of(event_of_json(a[i], now), g)
        }),
{
    reveal_strlit("cloudtrail_record_count");
    let p = Seq::empty().push(("Records"@, JsonV::Array(a)));
    assert(p.len() == 1 && p[0] == ("Records"@, JsonV::Array(a)));
    assert(lookup(p, "Records"@) == Some(JsonV::Array(a)));
    lemma_fields_stay();
    let x = with_field(
        event_of_json(a[i], now),
        "cloudtrail_record_count"@,
        JsonV::Int(a.len() as i64),
    );
    let y = timed_by(x, s);
    assert forall|g: Seq<char>| #[trigger] field_of(y, g) == field_of(x, g) by {}
    let z = with_tag(y, "cloudtrail"@);
    assert(z.tags.contains("cloudtrail"@)) by {
        if !y.tags.contains("cloudtrail"@) {
            assert(z.tags[y.tags.len() as int] == "cloudtrail"@);
        }
    }
}

/// The Fluent message that forwards records, each with its time in seconds.
pub open spec fn forwarded(tag: Seq<char>, records: Seq<(i64, JsonV)>) -> JsonV {
    JsonV::Array(
        Seq::empty().push(JsonV::Str(tag)).push(
            JsonV::Array(
                records.map_values(
                    |r: (i64, JsonV)|
                        JsonV::Array(Seq::empty().push(JsonV::Int(r.0)).push(r.1)),
                ),
            ),
        ),
    )
}

/// Whether an event is that of a forwarded record.
pub open spec fn is_forwarded(e: EventV, tag: Seq<char>, secs: i64, record: JsonV, now: Moment) -> bool {
    &&& field_of(e, "fluent_tag"@) == Some(JsonV::Str(tag))
    &&& moment_exists(secs, 0) ==> e.timestamp.secs == secs && e.timestamp.nanos == 0
    &&& forall|g: Seq<char>|
        is_plain_name(g) && g != "fluent_tag"@ ==> #[trigger] field_of(e, g) == field_of(
            event_of_json(record, now),
            g,
        )
}

proof fn lemma_forwarded(
    t: AnswersV,
    tag: Seq<char>,
    records: Seq<(i64, JsonV)>,
    i: int,
    now: Moment,
    acc: Seq<EventV>,
)
    requires
        0 <= i <= records.len(),
        acc.len() == i,
        forall|k: int|
            0 <= k < i ==> is_forwarded(#[trigger] acc[k], tag, records[k].0, records[k].1, now),
    ensures
        ({
            let a = records.map_values(
                |r: (i64, JsonV)| JsonV::Array(Seq::empty().push(JsonV::Int(r.0)).push(r.1)),
            );
            entries_from(t, tag, a, i, now, acc) matches Ok(all) && all.len() == records.len()
                && forall|k: int|
                0 <= k < all.len() ==> is_forwarded(
                    #[trigger] all[k],
                    tag,
                    records[k].0,
                    records[k].1,
                    now,
                )
        }),
    decreases records.len() - i,
{
    let a = records.map_values(
        |r: (i64, JsonV)| JsonV::Array(Seq::empty().push(JsonV::Int(r.0)).push(r.1)),
    );
    if i < records.len() {
        reveal_strlit("fluent_tag");
        lemma_fields_stay();
        let (secs, record) = records[i];
        let pair = Seq::empty().push(JsonV::Int(secs)).push(record);
        assert(a[i] == JsonV::Array(pair));
        assert(pair.len() == 2 && pair[0] == JsonV::Int(secs) && pair[1] == record);
        let e = crate::event::timed(
            with_field(event_of_json(record, now), "fluent_tag"@, JsonV::Str(tag)),
            secs,
            0,
        );
        assert(is_forwarded(e, tag, secs, record, now));
        lemma_forwarded(t, tag, records, i + 1, now, acc.push(e));
    }
}

/// A Fluent message that forwards records gives one event for each, in their
/// order, with the tag, the time and the fields of its record.
pub proof fn forwarded_records_come_out(
    t: AnswersV,
    tag: Seq<char>,
    records: Seq<(i64, JsonV)>,
    now: Moment,
)
    requires
        records.len() > 0,
    ensures
        fluent_events(t, forwarded(tag, records), now) matches Ok(events) && events.len()
            == records.len() && forall|k: int|
            0 <= k < events.len() ==> is_forwarded(
                #[trigger] events[k],
                tag,
                records[k].0,
                records[k].1,
                now,
            ),
{
    lemma_forwarded(t, tag, records, 0, now, Seq::empty());
    let m = forwarded(tag, records)->Array_0;
    assert(m.len() == 2 && m[0] == JsonV::Str(tag));
}

/// What a reference to metadata names.
proof fn lemma_metadata(k: Seq<char>)
    ensures
        metadata_key("[@metadata]["@ + k + "]"@) == Some(k),
{
    reveal_strlit("[@metadata][");
    reveal_strlit("]");
    let open = "[@metadata]["@;
    let f = open + k + "]"@;
    assert(f.subrange(0, open.len() as int) =~= open);
    assert(f.subrange(f.len() - 1, f.len() as int) =~= "]"@);
    assert(open.is_prefix_of(f));
    assert("]"@.is_suffix_of(f));
    assert(f.subrange(open.len() as int, f.len() - 1) =~= k);
}

/// A value that is set as metadata is read as metadata, and is no field.
pub proof fn metadata_stands_apart(e: EventV, k: Seq<char>, v: JsonV, g: Seq<char>)
    requires
        is_plain_name(g),
    ensures
        ({
            let after = with_field(e, "[@metadata]["@ + k + "]"@, v);
            &&& field_of(after, "[@metadata]["@ + k + "]"@) == Some(v)
            &&& field_of(after, g) == field_of(e, g)
            &&& after.fields == e.fields
        }),
{
    lemma_metadata(k);
    reveal_strlit("[@metadata][");
    if "[@metadata]["@.is_prefix_of(g) {
        assert(g[0] == "[@metadata]["@[0]);
    }
    put_then_lookup(e.metadata, k, v, k);
}

/// The JSON object of an event holds its fields, its time and its tags.
pub proof fn events_become_objects(e: EventV, f: Seq<char>)
    requires
        f != "@timestamp"@,
        f != "tags"@,
    ensures
        json_get(json_of_event(e), f) == lookup(e.fields, f),
        json_get(json_of_event(e), "@timestamp"@) == Some(
            JsonV::Str(rfc3339_text(e.timestamp.secs, e.timestamp.nanos)),
        ),
        e.tags.len() > 0 ==> (json_get(json_of_event(e), "tags"@) matches Some(JsonV::Array(a))
            && a.len() == e.tags.len() && forall|i: int|
            0 <= i < a.len() ==> #[trigger] a[i] == JsonV::Str(e.tags[i])),
{
    reveal_strlit("@timestamp");
    reveal_strlit("tags");
    assert("@timestamp"@.len() != "tags"@.len());
    let time = JsonV::Str(rfc3339_text(e.timestamp.secs, e.timestamp.nanos));
    let p = crate::dict::put(e.fields, "@timestamp"@, time);
    put_then_lookup(e.fields, "@timestamp"@, time, f);
    put_then_lookup(p, "tags"@, tags_json(e.tags), f);
    put_then_lookup(p, "tags"@, tags_json(e.tags), "@timestamp"@);
}

/// The first of all places at which a text stands.
pub proof fn lemma_first_at(s: Seq<char>, p: Seq<char>, from: int, n: int)
    requires
        0 <= from <= n,
        occurs_at(s, p, n),
        forall|j: int| from <= j < n ==> !occurs_at(s, p, j),
        p.len() > 0,
    ensures
        find_from(s, p, from) == Some(n),
    decreases n - from,
{
    if from < n {
        lemma_first_at(s, p, from + 1, n);
    }
}

pub proof fn lemma_nowhere(s: Seq<char>, p: Seq<char>, from: int)
    requires
        0 <= from,
        p.len() > 0,
        forall|j: int| from <= j ==> !occurs_at(s, p, j),
    ensures
        find_from(s, p, from) is None,
    decreases s.len() - from,
{
    if from + p.len() <= s.len() {
        lemma_nowhere(s, p, from + 1);
    }
}

/// One character that differs is enough.
pub proof fn lemma_differs(s: Seq<char>, p: Seq<char>, j: int, k: int)
    requires
        0 <= k < p.len(),
        0 <= j,
        j + k < s.len() ==> s[j + k] != p[k],
    ensures
        !occurs_at(s, p, j),
{
    if occurs_at(s, p, j) {
        assert(s.subrange(j, j + p.len())[k] == s[j + k]);
    }
}

proof fn lemma_no_place(f: Seq<char>, from: int)
    requires
        0 <= from <= f.len(),
        !f.contains('%'),
    ensures
        find_from(f, "%{"@, from) is None,
{
    reveal_strlit("%{");
    lemma_find_from(f, "%{"@, from);
    if let Some(k) = find_from(f, "%{"@, from) {
        assert(f.subrange(k, k + 2)[0] == "%{"@[0]);
        assert(f.contains(f[k]));
    }
}

/// A format without places is its own text.
pub proof fn formats_without_places_stay(t: AnswersV, e: EventV, f: Seq<char>)
    requires
        !f.contains('%'),
    ensures
        filled(t, e, f, 0, Seq::empty()) == Ok::<Seq<char>, QueryV>(f),
{
    lemma_no_place(f, 0);
    assert(Seq::<char>::empty() + f.subrange(0, f.len() as int) =~= f);
}

/// A place in a format is filled with the text of its field; the rest stays.
#[verifier::spinoff_prover]
pub proof fn places_are_filled(
    t: AnswersV,
    e: EventV,
    a: Seq<char>,
    field: Seq<char>,
    b: Seq<char>,
    s: Seq<char>,
)
    requires
        !a.contains('%'),
        !b.contains('%'),
        !field.contains('}'),
        field_of(e, field) == Some(JsonV::Str(s)),
    ensures
        filled(t, e, a + "%{"@ + field + "}"@ + b, 0, Seq::empty()) == Ok::<Seq<char>, QueryV>(
            a + s + b,
        ),
{
    reveal_strlit("%{");
    reveal_strlit("}");
    let f = a + "%{"@ + field + "}"@ + b;
    let n = a.len() as int;
    let m = n + 2 + field.len();
    assert(f[n] == '%' && f[n + 1] == '{' && f[m] == '}');
    assert(occurs_at(f, "%{"@, n)) by {
        assert(f.subrange(n, n + 2) =~= "%{"@);
    }
    assert forall|j: int| 0 <= j < n implies !occurs_at(f, "%{"@, j) by {
        assert(a.contains(a[j]));
        assert(f[j] == a[j]);
        lemma_differs(f, "%{"@, j, 0);
    }
    lemma_first_at(f, "%{"@, 0, n);
    assert(occurs_at(f, "}"@, m)) by {
        assert(f.subrange(m, m + 1) =~= "}"@);
    }
    assert forall|j: int| n + 2 <= j < m implies !occurs_at(f, "}"@, j) by {
        assert(field.contains(field[j - n - 2]));
        assert(f[j] == field[j - n - 2]);
        lemma_differs(f, "}"@, j, 0);
    }
    lemma_first_at(f, "}"@, n + 2, m);
    assert(f.subrange(n + 2, m) =~= field);
    assert(f.subrange(0, n) =~= a);
    let done = Seq::<char>::empty() + f.subrange(0, n) + s;
    assert forall|j: int| m + 1 <= j implies !occurs_at(f, "%{"@, j) by {
        if j < f.len() {
            assert(b.contains(b[j - m - 1]));
            assert(f[j] == b[j - m - 1]);
        }
        lemma_differs(f, "%{"@, j, 0);
    }
    lemma_nowhere(f, "%{"@, m + 1);
    assert(f.subrange(m + 1, f.len() as int) =~= b);
    assert(done + b =~= a + s + b);
    assert(filled(t, e, f, m + 1, done) == Ok::<Seq<char>, QueryV>(done + b));
}

/// An attribute of a tag is read as it was written.
#[verifier::spinoff_prover]
pub proof fn attributes_are_read_back(
    before: Seq<char>,
    name: Seq<char>,
    value: Seq<char>,
    behind: Seq<char>,
)
    requires
        name.len() > 0,
        !before.contains('='),
        !name.contains('='),
        !value.contains('"'),
    ensures
        attr(before + name + "=\""@ + value + "\""@ + behind, name) == Some(value),
{
    reveal_strlit("=\"");
    reveal_strlit("\"");
    let search = name + "=\""@;
    let tag = before + name + "=\""@ + value + "\""@ + behind;
    let n = before.len() as int;
    let eq = n + name.len();
    assert(tag[eq] == '=' && tag[eq + 1] == '"');
    assert(occurs_at(tag, search, n)) by {
        assert(tag.subrange(n, n + search.len()) =~= search);
    }
    assert forall|j: int| 0 <= j < n implies !occurs_at(tag, search, j) by {
        let k = j + name.len();
        assert(search[name.len() as int] == '=');
        if k < n {
            assert(before.contains(before[k]));
            assert(tag[k] == before[k]);
        } else {
            assert(name.contains(name[k - n]));
            assert(tag[k] == name[k - n]);
        }
        lemma_differs(tag, search, j, name.len() as int);
    }
    lemma_first_at(tag, search, 0, n);
    let from = n + search.len();
    let end = from + value.len();
    assert(tag[end] == '"');
    assert(occurs_at(tag, "\""@, end)) by {
        assert(tag.subrange(end, end + 1) =~= "\""@);
    }
    assert forall|j: int| from <= j < end implies !occurs_at(tag, "\""@, j) by {
        assert(value.contains(value[j - from]));
        assert(tag[j] == value[j - from]);
        lemma_differs(tag, "\""@, j, 0);
    }
    lemma_first_at(tag, "\""@, from, end);
    assert(tag.subrange(from, end) =~= value);
}

/// In the lines that show an event, every arrow stands in one column, behind the
/// longest key and its quotes.
pub proof fn arrows_stand_in_one_column(
    key: Seq<char>,
    value: Seq<char>,
    width: nat,
    last: bool,
)
    requires
        key.len() <= width,
    ensures
        ({
            let line = pair_line(key, value, width, last);
            &&& line.subrange(6 + width as int, 10 + width as int) == " => "@
            &&& line.subrange(5 + width - key.len(), 5 + width as int) == key
            &&& line.subrange(10 + width as int, (10 + width + value.len()) as int) == value
        }),
{
    reveal_strlit("    ");
    reveal_strlit("\"");
    reveal_strlit("\" => ");
    reveal_strlit(" => ");
    reveal_strlit("\n");
    reveal_strlit(",\n");
    let line = pair_line(key, value, width, last);
    assert(line.subrange(6 + width as int, 10 + width as int) =~= " => "@);
    assert(line.subrange(5 + width - key.len(), 5 + width as int) =~= key);
    assert(line.subrange(10 + width as int, (10 + width + value.len()) as int) =~= value);
}

/// The column is wide enough for every key, and no wider than the longest.
pub proof fn columns_fit_their_keys(p: Pairs, i: int, most: nat)
    requires
        0 <= i <= p.len(),
        forall|k: int| 0 <= k < p.len() ==> is_ascii_chars((#[trigger] p[k]).0),
    ensures
        ({
            let w = longest_key(p, i, most);
            &&& w >= most
            &&& forall|k: int| i <= k < p.len() ==> (#[trigger] p[k]).0.len() <= w
            &&& w == most || exists|k: int| i <= k < p.len() && (#[trigger] p[k]).0.len() == w
        }),
    decreases p.len() - i,
{
    if i < p.len() {
        assert(is_ascii_chars(p[i].0));
        is_ascii_chars_encode_utf8(p[i].0);
        let n = encode_utf8(p[i].0).len();
        let next = if n > most {
            n
        } else {
            most
        };
        columns_fit_their_keys(p, i + 1, next);
        let w = longest_key(p, i, most);
        if w == n {
            assert(p[i].0.len() == w);
        }
    }
}

} // verus!
