//! What the codecs of lines and columns read, stated over lines that are
//! written out.
use crate::codec::cloudfront::{
    is_integer_field, is_seconds_field, typed, with_columns, CloudfrontCodec,
};
use crate::codec::csv_codec::{column_name, row_event, row_events, with_row, Row};
use crate::codec::graphite::GraphiteCodec;
use crate::codec::laws::{lemma_split_behind, text_survives};
use crate::codec::Codec;
use crate::double::{ask_parse, AnswersV, DoubleV, QueryV};
use crate::event::{
    blank, field_of, is_plain_name, lemma_fields_stay, message_event, with_field, EventV,
};
use crate::json::JsonV;
use crate::moment::{moment_exists, Moment};
use crate::script::method_laws::joined;
use crate::text::{
    find_from, int_text, int_text_reads_back, is_white, nat_text, split_from, split_text,
    texts_view, trim_text, white_end, white_start,
};
use vstd::prelude::*;
use vstd::utf8::encode_utf8;

verus! {

#[verifier::spinoff_prover]
pub proof fn lemma_first_sep(s: Seq<char>, p: Seq<char>, from: int, n: int)
    requires
        p.len() == 1,
        0 <= from <= n < s.len(),
        s[n] == p[0],
        forall|j: int| from <= j < n ==> s[j] != p[0],
    ensures
        find_from(s, p, from) == Some(n),
    decreases n - from,
{
    if from < n {
        assert(s.subrange(from, from + 1)[0] == s[from]);
        lemma_first_sep(s, p, from + 1, n);
    } else {
        assert(s.subrange(n, n + 1) =~= p);
    }
}

#[verifier::spinoff_prover]
pub proof fn lemma_no_sep(s: Seq<char>, p: Seq<char>, from: int)
    requires
        p.len() == 1,
        0 <= from <= s.len(),
        forall|j: int| from <= j < s.len() ==> s[j] != p[0],
    ensures
        find_from(s, p, from) is None,
    decreases s.len() - from,
{
    if from < s.len() {
        assert(s.subrange(from, from + 1)[0] == s[from]);
        lemma_no_sep(s, p, from + 1);
    }
}

/// A first piece and the rest, split at the separator between them.
#[verifier::spinoff_prover]
proof fn lemma_split_first(a: Seq<char>, b: Seq<char>, p: Seq<char>)
    requires
        p.len() == 1,
        !a.contains(p[0]),
    ensures
        split_text(a + p + b, p) == Seq::empty().push(a) + split_text(b, p),
{
    let s = a + p + b;
    let n = a.len() as int;
    assert forall|j: int| 0 <= j < n implies s[j] != p[0] by {
        assert(a.contains(a[j]));
        assert(s[j] == a[j]);
    }
    assert(s[n] == p[0]);
    lemma_first_sep(s, p, 0, n);
    assert(s.subrange(0, n) =~= a);
    assert(s.skip(n + 1) =~= b);
    let none = Seq::<Seq<char>>::empty();
    assert(none.push(a) + none =~= none.push(a));
    lemma_split_behind(s, b, p, n + 1, 0, none.push(a), none);
    assert(split_from(s, p, 0, 0, none) == split_from(s, p, n + 1, n + 1, none.push(a)));
}

proof fn lemma_split_single(a: Seq<char>, p: Seq<char>)
    requires
        p.len() == 1,
        !a.contains(p[0]),
    ensures
        split_text(a, p) == Seq::empty().push(a),
{
    assert forall|j: int| 0 <= j < a.len() implies a[j] != p[0] by {
        assert(a.contains(a[j]));
    }
    lemma_no_sep(a, p, 0);
    assert(a.subrange(0, a.len() as int) =~= a);
}

proof fn lemma_joined_first(pieces: Seq<Seq<char>>, p: Seq<char>)
    requires
        pieces.len() > 1,
    ensures
        joined(pieces, p) == pieces[0] + p + joined(pieces.skip(1), p),
    decreases pieces.len(),
{
    let rest = pieces.skip(1);
    if pieces.len() == 2 {
        reveal_with_fuel(joined, 3);
        assert(pieces.drop_last().len() == 1 && pieces.drop_last()[0] == pieces[0]);
        assert(rest.len() == 1 && rest[0] == pieces.last());
    } else {
        lemma_joined_first(pieces.drop_last(), p);
        assert(pieces.drop_last().skip(1) =~= rest.drop_last());
        assert(rest.last() == pieces.last());
        assert(joined(pieces, p) =~= pieces[0] + p + joined(rest, p));
    }
}

/// Pieces that hold no separator are what the text that they make together is
/// split into.
pub proof fn lemma_split_joined(pieces: Seq<Seq<char>>, p: Seq<char>)
    requires
        p.len() == 1,
        pieces.len() > 0,
        forall|i: int| 0 <= i < pieces.len() ==> !(#[trigger] pieces[i]).contains(p[0]),
    ensures
        split_text(joined(pieces, p), p) == pieces,
    decreases pieces.len(),
{
    assert(!pieces[0].contains(p[0]));
    if pieces.len() == 1 {
        lemma_split_single(pieces[0], p);
        assert(Seq::empty().push(pieces[0]) =~= pieces);
    } else {
        let rest = pieces.skip(1);
        assert forall|i: int| 0 <= i < rest.len() implies !(#[trigger] rest[i]).contains(p[0]) by {
            assert(rest[i] == pieces[i + 1]);
        }
        lemma_split_joined(rest, p);
        lemma_joined_first(pieces, p);
        lemma_split_first(pieces[0], joined(rest, p), p);
        assert(Seq::empty().push(pieces[0]) + rest =~= pieces);
    }
}

proof fn lemma_trimmed(text: Seq<char>)
    requires
        text.len() > 0,
        !is_white(text[0]),
        !is_white(text.last()),
    ensures
        trim_text(text + "\n"@) == text,
        trim_text(text) == text,
{
    reveal_strlit("\n");
    let line = text + "\n"@;
    assert(line[0] == text[0] && line[text.len() - 1] == text.last());
    assert(white_end(line, 0) == 0);
    reveal_with_fuel(white_start, 3);
    assert(white_start(line, 0, line.len() as int) == text.len());
    assert(line.subrange(0, text.len() as int) =~= text);
    assert(white_start(text, 0, text.len() as int) == text.len());
    assert(text.subrange(0, text.len() as int) =~= text);
}

/// Whether a text is a word: not empty, and without white space.
pub open spec fn is_dark(s: Seq<char>) -> bool {
    s.len() > 0 && forall|i: int| 0 <= i < s.len() ==> !is_white(#[trigger] s[i])
}

proof fn lemma_metric_names()
    ensures
        is_plain_name("metric"@),
        "metric"@.len() == 6,
        is_plain_name("value"@),
        "value"@.len() == 5,
        is_plain_name("message"@),
        "message"@.len() == 7,
        is_plain_name("timestamp_epoch"@),
        "timestamp_epoch"@.len() == 15,
        is_plain_name("metric_path"@),
        "metric_path"@.len() == 11,
{
    reveal_strlit("metric");
    reveal_strlit("value");
    reveal_strlit("message");
    reveal_strlit("timestamp_epoch");
    reveal_strlit("metric_path");
}

/// A line of Graphite, `metric value seconds`: the metric, the value and the
/// time come out under their names, the metric's path in its pieces.
#[verifier::spinoff_prover]
pub proof fn graphite_lines_tell_their_metric(
    c: GraphiteCodec,
    t: AnswersV,
    pieces: Seq<Seq<char>>,
    value: Seq<char>,
    bits: u64,
    secs: i64,
    now: Moment,
)
    requires
        pieces.len() > 1,
        forall|i: int| 0 <= i < pieces.len() ==> !(#[trigger] pieces[i]).contains('.'),
        is_dark(joined(pieces, "."@)),
        joined(pieces, "."@)[0] != '#',
        is_dark(value),
        ask_parse(t, value) == Ok::<Option<u64>, QueryV>(Some(bits)),
    ensures
        ({
            let metric = joined(pieces, "."@);
            let line = metric + " "@ + value + " "@ + int_text(secs as int);
            c.decoded(encode_utf8(line + "\n"@), now, t) matches Ok(events) && events.len() == 1 && {
                let e = events[0];
                &&& field_of(e, "metric"@) == Some(JsonV::Str(metric))
                &&& field_of(e, "value"@) == Some(JsonV::Float(DoubleV::Bits(bits)))
                &&& field_of(e, "timestamp_epoch"@) == Some(JsonV::Int(secs))
                &&& field_of(e, "message"@) == Some(JsonV::Str(line))
                &&& field_of(e, "metric_path"@) matches Some(JsonV::Array(a)) && a.len()
                    == pieces.len() && forall|i: int|
                    0 <= i < a.len() ==> #[trigger] a[i] == JsonV::Str(pieces[i])
                &&& moment_exists(secs, 0) ==> e.timestamp.secs == secs && e.timestamp.nanos == 0
            }
        }),
{
    reveal_strlit(" ");
    reveal_strlit(".");
    reveal_strlit("#");
    let metric = joined(pieces, "."@);
    let digits = int_text(secs as int);
    let line = metric + " "@ + value + " "@ + digits;
    int_text_reads_back(secs as int);
    text_survives(line + "\n"@);
    assert(!is_white(digits.last())) by {
        if digits.len() > 1 {
            assert(digits.skip(1)[digits.len() - 2] == digits.last());
        }
    }
    assert(line[0] == metric[0] && line.last() == digits.last());
    lemma_trimmed(line);
    assert(!"#"@.is_prefix_of(line)) by {
        if "#"@.is_prefix_of(line) {
            assert(line.subrange(0, 1)[0] == "#"@[0]);
        }
    }
    let a = metric.len() as int;
    let b = a + 1 + value.len();
    assert forall|j: int| 0 <= j < a implies line[j] != ' ' by {
        assert(line[j] == metric[j]);
    }
    lemma_first_sep(line, " "@, 0, a);
    assert forall|j: int| a + 1 <= j < b implies line[j] != ' ' by {
        assert(line[j] == value[j - a - 1]);
    }
    assert(line[b] == ' ');
    lemma_first_sep(line, " "@, a + 1, b);
    assert(line.subrange(0, a) =~= metric);
    assert(line.subrange(a + 1, b) =~= value);
    assert(line.subrange(b + 1, line.len() as int) =~= digits);
    lemma_split_joined(pieces, "."@);
    lemma_metric_names();
    lemma_fields_stay();
}

/// A name for a column of data: no reference to metadata, and not `message`,
/// which holds the whole line.
pub open spec fn is_column(s: Seq<char>) -> bool {
    is_plain_name(s) && s != "message"@
}

proof fn lemma_row(e: EventV, columns: Row, row: Row, i: int, k: int)
    requires
        0 <= k < row.len() <= columns.len(),
        0 <= i <= row.len(),
        forall|j: int| 0 <= j < columns.len() ==> is_column(#[trigger] columns[j]),
        forall|j: int, l: int| 0 <= j < l < columns.len() ==> columns[j] != columns[l],
        k < i ==> field_of(e, columns[k]) == Some(JsonV::Str(row[k])),
    ensures
        field_of(with_row(e, columns, row, i), columns[k]) == Some(JsonV::Str(row[k])),
    decreases row.len() - i,
{
    if i < row.len() {
        lemma_fields_stay();
        let next = with_field(e, column_name(columns, i), JsonV::Str(row[i]));
        assert(is_column(columns[i]) && is_column(columns[k]));
        lemma_row(next, columns, row, i + 1, k);
    }
}

/// Each record of a table becomes an event of its own, with each value under
/// the name of its column, whatever the record before it said.
pub proof fn records_fill_their_columns(
    columns: Row,
    rows: Seq<Row>,
    raw: Seq<char>,
    now: Moment,
    r: int,
    k: int,
)
    requires
        0 <= r < rows.len(),
        0 <= k < rows[r].len() <= columns.len(),
        forall|j: int| 0 <= j < columns.len() ==> is_column(#[trigger] columns[j]),
        forall|j: int, l: int| 0 <= j < l < columns.len() ==> columns[j] != columns[l],
    ensures
        row_events(columns, None, false, rows, raw, now) matches Ok(events) && events.len()
            == rows.len() && field_of(events[r], columns[k]) == Some(JsonV::Str(rows[r][k])),
        rows.len() > 1 && r > 0 ==> (row_events(columns, None, true, rows, raw, now) matches Ok(
            events,
        ) && events.len() == rows.len() - 1 && field_of(events[r - 1], columns[k]) == Some(
            JsonV::Str(rows[r][k]),
        )),
{
    lemma_row(blank(now), columns, rows[r], 0, k);
    lemma_fields_stay();
    assert(is_column(columns[k]));
}

/// Columns without a name are numbered from one.
pub proof fn columns_are_numbered(row: Row, raw: Seq<char>, now: Moment)
    requires
        row.len() == 2,
    ensures
        ({
            let e = row_event(Seq::empty(), None, row, raw, now);
            &&& field_of(e, "column1"@) == Some(JsonV::Str(row[0]))
            &&& field_of(e, "column2"@) == Some(JsonV::Str(row[1]))
        }),
{
    reveal_strlit("column");
    reveal_strlit("column1");
    reveal_strlit("column2");
    reveal_strlit("message");
    let none = Seq::<Seq<char>>::empty();
    reveal_with_fuel(nat_text, 2);
    assert(column_name(none, 0) =~= "column1"@);
    assert(column_name(none, 1) =~= "column2"@);
    assert("column1"@[6] != "column2"@[6]);
    assert("column1"@[0] != "message"@[0] && "column2"@[0] != "message"@[0]);
    reveal_with_fuel(with_row, 3);
    lemma_fields_stay();
}

proof fn lemma_columns(
    t: AnswersV,
    e: EventV,
    names: Seq<Seq<char>>,
    values: Seq<Seq<char>>,
    i: int,
    k: int,
)
    requires
        0 <= k < values.len() <= names.len(),
        0 <= i <= values.len(),
        forall|j: int| 0 <= j < names.len() ==> is_column(#[trigger] names[j]),
        forall|j: int, l: int| 0 <= j < l < names.len() ==> names[j] != names[l],
        forall|j: int| 0 <= j < values.len() ==> typed(t, names[j], #[trigger] values[j]) is Ok,
        k < i ==> field_of(e, names[k]) == Some(typed(t, names[k], values[k])->Ok_0),
    ensures
        with_columns(t, e, names, values, i) matches Ok(after) && field_of(after, names[k]) == Some(
            typed(t, names[k], values[k])->Ok_0,
        ),
    decreases values.len() - i,
{
    if i < values.len() {
        lemma_fields_stay();
        assert(typed(t, names[i], values[i]) is Ok);
        assert(is_column(names[i]) && is_column(names[k]));
        let next = with_field(e, names[i], typed(t, names[i], values[i])->Ok_0);
        lemma_columns(t, next, names, values, i + 1, k);
    }
}

/// A CloudFront line of values with tabs between them: each value stands under
/// the name of its column; a dash stands for nothing, and a status is a number.
pub proof fn cloudfront_lines_fill_their_columns(
    t: AnswersV,
    c: CloudfrontCodec,
    values: Seq<Seq<char>>,
    now: Moment,
    k: int,
)
    requires
        0 <= k < values.len() <= c.fields@.len(),
        forall|j: int| 0 <= j < c.fields@.len() ==> is_column(#[trigger] texts_view(c.fields@)[j]),
        forall|j: int, l: int|
            0 <= j < l < c.fields@.len() ==> texts_view(c.fields@)[j] != texts_view(c.fields@)[l],
        forall|j: int| 0 <= j < values.len() ==> !(#[trigger] values[j]).contains('\t'),
        forall|j: int|
            0 <= j < values.len() ==> typed(t, texts_view(c.fields@)[j], #[trigger] values[j]) is Ok,
        joined(values, "\t"@).len() > 0,
        !is_white(joined(values, "\t"@)[0]),
        !is_white(joined(values, "\t"@).last()),
        joined(values, "\t"@)[0] != '#',
    ensures
        ({
            let line = joined(values, "\t"@);
            let name = texts_view(c.fields@)[k];
            c.decoded(encode_utf8(line + "\n"@), now, t) matches Ok(events) && events.len() == 1
                && field_of(events[0], name) == Some(typed(t, name, values[k])->Ok_0)
        }),
{
    reveal_strlit("\t");
    reveal_strlit("#");
    let names = texts_view(c.fields@);
    let line = joined(values, "\t"@);
    text_survives(line + "\n"@);
    lemma_trimmed(line);
    assert(!"#"@.is_prefix_of(line)) by {
        if "#"@.is_prefix_of(line) {
            assert(line.subrange(0, 1)[0] == "#"@[0]);
        }
    }
    lemma_split_joined(values, "\t"@);
    lemma_fields_stay();
    lemma_columns(t, message_event(line, now), names, values, 0, k);
}

/// What a value of a CloudFront line stands for, by its column.
pub proof fn cloudfront_values_have_types(t: AnswersV, name: Seq<char>, n: i64, s: Seq<char>)
    ensures
        typed(t, name, "-"@) == Ok::<JsonV, QueryV>(JsonV::Null),
        n >= 0 ==> typed(t, "sc-status"@, int_text(n as int)) == Ok::<JsonV, QueryV>(JsonV::Int(n)),
        n >= 0 ==> typed(t, "sc-bytes"@, int_text(n as int)) == Ok::<JsonV, QueryV>(JsonV::Int(n)),
        n >= 0 ==> typed(t, "c-port"@, int_text(n as int)) == Ok::<JsonV, QueryV>(JsonV::Int(n)),
        s != "-"@ ==> typed(t, "cs-method"@, s) == Ok::<JsonV, QueryV>(JsonV::Str(s)),
{
    reveal_strlit("-");
    reveal_strlit("cs-method");
    reveal_strlit("sc-bytes");
    reveal_strlit("cs-bytes");
    reveal_strlit("sc-status");
    reveal_strlit("c-port");
    reveal_strlit("sc-content-len");
    reveal_strlit("sc-range-start");
    reveal_strlit("sc-range-end");
    reveal_strlit("time-taken");
    reveal_strlit("time-to-first-byte");
    assert("cs-method"@[0] != "sc-status"@[0]);
    assert("cs-method"@.len() == 9 && "time-taken"@.len() == 10 && "sc-bytes"@.len() == 8);
    assert(!is_integer_field("cs-method"@));
    assert(!is_seconds_field("cs-method"@));
    int_text_reads_back(n as int);
    if n >= 0 {
        assert(int_text(n as int)[0] != '-') by {
            crate::text::lemma_nat_text(n as nat);
            assert(crate::text::is_digit(nat_text(n as nat)[0]));
        }
    }
}

} // verus!
