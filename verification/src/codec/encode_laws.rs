//! Laws of what is written: rows, lines and metrics hold the fields of their
//! event, each in its place.
use crate::codec::cloudfront::line_from;
use crate::codec::csv_codec::{column_texts, event_row, field_texts, Row};
use crate::codec::format_laws::{graphite_lines_tell_their_metric, is_dark};
use crate::codec::graphite::GraphiteCodec;
use crate::codec::Codec;
use crate::double::{ask_parse, ask_text, query, AnswersV, DoubleV, QueryV};
use crate::event::{field_of, EventV};
use crate::json::JsonV;
use crate::moment::{moment_exists, Moment};
use crate::script::method_laws::joined;
use crate::text::int_text;
use vstd::prelude::*;

verus! {

broadcast use vstd::string::group_string_axioms;

/// Whether a field is a text or not set.
pub open spec fn is_text_field(e: EventV, f: Seq<char>) -> bool {
    match field_of(e, f) {
        None => true,
        Some(JsonV::Str(_)) => true,
        _ => false,
    }
}

/// The text of a field, or another where it is not set.
pub open spec fn field_text(e: EventV, f: Seq<char>, other: Seq<char>) -> Seq<char> {
    match field_of(e, f) {
        Some(JsonV::Str(s)) => s,
        _ => other,
    }
}

/// The texts of fields, in their order.
pub open spec fn field_row(e: EventV, columns: Row, other: Seq<char>) -> Row {
    columns.map_values(|f: Seq<char>| field_text(e, f, other))
}

proof fn lemma_columns(t: AnswersV, e: EventV, columns: Row, i: int, acc: Row)
    requires
        0 <= i <= columns.len(),
        forall|k: int| 0 <= k < columns.len() ==> is_text_field(e, #[trigger] columns[k]),
        acc == field_row(e, columns, Seq::empty()).take(i),
    ensures
        column_texts(t, e, columns, i, acc) == Ok::<Row, QueryV>(
            field_row(e, columns, Seq::empty()),
        ),
    decreases columns.len() - i,
{
    let row = field_row(e, columns, Seq::empty());
    if i < columns.len() {
        assert(is_text_field(e, columns[i]));
        let next = acc.push(row[i]);
        assert(next =~= row.take(i + 1));
        lemma_columns(t, e, columns, i + 1, next);
    } else {
        assert(row.take(i) =~= row);
    }
}

/// A record has one value for each column: the text of the field that the
/// column names, and nothing where it is not set.
pub proof fn records_hold_their_columns(t: AnswersV, e: EventV, columns: Row)
    requires
        columns.len() > 0,
        forall|k: int| 0 <= k < columns.len() ==> is_text_field(e, #[trigger] columns[k]),
    ensures
        event_row(t, e, columns) == Ok::<Row, QueryV>(field_row(e, columns, Seq::empty())),
{
    assert(field_row(e, columns, Seq::empty()).take(0) =~= Seq::<Seq<char>>::empty());
    lemma_columns(t, e, columns, 0, Seq::empty());
}

/// Without columns, a record has the fields of the event in their order.
pub proof fn records_hold_all_fields(t: AnswersV, e: EventV, values: Row)
    requires
        values.len() == e.fields.len(),
        forall|k: int| 0 <= k < values.len() ==> (#[trigger] e.fields[k]).1 == JsonV::Str(values[k]),
    ensures
        event_row(t, e, Seq::empty()) == Ok::<Row, QueryV>(values),
{
    assert(values.take(0) =~= Seq::<Seq<char>>::empty());
    lemma_fields(t, e, values, 0, Seq::empty());
}

proof fn lemma_fields(t: AnswersV, e: EventV, values: Row, i: int, acc: Row)
    requires
        values.len() == e.fields.len(),
        0 <= i <= values.len(),
        forall|k: int| 0 <= k < values.len() ==> (#[trigger] e.fields[k]).1 == JsonV::Str(values[k]),
        acc == values.take(i),
    ensures
        field_texts(t, e.fields, i, acc) == Ok::<Row, QueryV>(values),
    decreases values.len() - i,
{
    if i < values.len() {
        assert(e.fields[i].1 == JsonV::Str(values[i]));
        let next = acc.push(values[i]);
        assert(next =~= values.take(i + 1));
        lemma_fields(t, e, values, i + 1, next);
    } else {
        assert(values.take(i) =~= values);
    }
}

proof fn lemma_line(t: AnswersV, e: EventV, fields: Row, i: int, acc: Seq<char>)
    requires
        0 <= i <= fields.len(),
        forall|k: int| 0 <= k < fields.len() ==> is_text_field(e, #[trigger] fields[k]),
        acc == joined(field_row(e, fields, "-"@).take(i), "\t"@),
    ensures
        line_from(t, e, fields, i, acc) == Ok::<Seq<char>, QueryV>(
            joined(field_row(e, fields, "-"@), "\t"@),
        ),
    decreases fields.len() - i,
{
    let row = field_row(e, fields, "-"@);
    if i < fields.len() {
        assert(is_text_field(e, fields[i]));
        let more = row.take(i + 1);
        assert(more.drop_last() =~= row.take(i));
        assert(more.last() == row[i]);
        let lead = if i > 0 {
            acc + "\t"@
        } else {
            acc
        };
        assert(lead + row[i] =~= joined(more, "\t"@));
        lemma_line(t, e, fields, i + 1, lead + row[i]);
    } else {
        assert(row.take(i) =~= row);
    }
}

/// A line has the texts of its columns with a tab between each two, and a dash
/// for a field that is not set.
pub proof fn lines_hold_their_columns(t: AnswersV, e: EventV, fields: Row)
    requires
        forall|k: int| 0 <= k < fields.len() ==> is_text_field(e, #[trigger] fields[k]),
    ensures
        line_from(t, e, fields, 0, Seq::empty()) == Ok::<Seq<char>, QueryV>(
            joined(field_row(e, fields, "-"@), "\t"@),
        ),
{
    assert(field_row(e, fields, "-"@).take(0) =~= Seq::<Seq<char>>::empty());
    lemma_line(t, e, fields, 0, Seq::empty());
}

/// What a metric is called when it is written.
pub open spec fn full_name(c: GraphiteCodec, metric: Seq<char>) -> Seq<char> {
    match c.metrics_prefix {
        Some(p) => p@ + seq!['.'] + metric,
        None => metric,
    }
}

/// A metric that is written as a line of Graphite is read back: its name behind
/// the prefix, its value, and the second of its event.
pub proof fn metrics_survive_graphite(
    c: GraphiteCodec,
    t: AnswersV,
    e: EventV,
    metric: Seq<char>,
    d: DoubleV,
    pieces: Seq<Seq<char>>,
    value: Seq<char>,
    bits: u64,
    now: Moment,
)
    requires
        c.include_timestamp,
        field_of(e, "metric"@) == Some(JsonV::Str(metric)),
        field_of(e, "value"@) == Some(JsonV::Float(d)),
        ask_text(t, query("display"@, seq![d])) == Ok::<Seq<char>, QueryV>(value),
        ask_parse(t, value) == Ok::<Option<u64>, QueryV>(Some(bits)),
        full_name(c, metric) == joined(pieces, "."@),
        pieces.len() > 1,
        forall|i: int| 0 <= i < pieces.len() ==> !(#[trigger] pieces[i]).contains('.'),
        is_dark(joined(pieces, "."@)),
        joined(pieces, "."@)[0] != '#',
        is_dark(value),
        moment_exists(e.timestamp.secs, 0),
    ensures
        c.encoded(e, t) matches Ok(bytes) && c.decoded(bytes, now, t) matches Ok(events)
            && events.len() == 1 && field_of(events[0], "metric"@) == Some(
            JsonV::Str(full_name(c, metric)),
        ) && field_of(events[0], "value"@) == Some(JsonV::Float(DoubleV::Bits(bits)))
            && events[0].timestamp.secs == e.timestamp.secs,
{
    reveal_strlit(".");
    assert("."@ =~= seq!['.']);
    let secs = e.timestamp.secs;
    graphite_lines_tell_their_metric(c, t, pieces, value, bits, secs, now);
    let name = full_name(c, metric);
    let line = name + " "@ + value + " "@ + int_text(secs as int);
    assert(name + " "@ + value + (" "@ + int_text(secs as int)) + "\n"@ =~= line + "\n"@);
}

} // verus!
