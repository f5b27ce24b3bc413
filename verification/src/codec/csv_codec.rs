//! CSV codec: each record is an event.
use crate::codec::json::{
    flag_setting, get_flag, get_text, get_texts, opt_view, text_setting, texts_setting,
};
use crate::codec::{
    are_events, events_view, lossy_text, text_bytes, utf8_lossy, Codec, CodecErrV, CodecError,
    DecodedV, EncodedV, TemplatesV,
};
use crate::dict::put;
use crate::double::{Answers, AnswersV, DoubleQuery, QueryV};
use crate::event::{
    blank, field_of, is_event, lossy, to_string_lossy, with_field, with_message, Event, EventV,
};
use crate::json::{entries_view, put_json, text_value, Json, JsonV};
use crate::moment::Moment;
use crate::text::{join2, nat_text, texts_view, trim_end, trim_end_text, u64_text};
use vstd::prelude::*;
use vstd::utf8::encode_utf8;

verus! {

broadcast use vstd::string::group_string_axioms;

/// CSV codec configuration.
#[derive(Debug, PartialEq)]
pub struct CsvCodec {
    /// Column names; further columns are named by their number, such as
    /// `column1`.
    pub columns: Vec<String>,
    /// Separator character (default: `,`).
    pub separator: u8,
    /// Quote character (default: `"`).
    pub quote: u8,
    /// Whether the first line is a header. It is no event; where no column
    /// names are given, it names the columns.
    pub has_header: bool,
    /// Target field (none: merge into root).
    pub target: Option<String>,
}

pub type Row = Seq<Seq<char>>;

/// The records that the csv crate reads from bytes, by separator and quote
/// character, or the text of its first error.
pub uninterp spec fn csv_read(data: Seq<u8>, separator: u8, quote: u8) -> Result<
    Seq<Row>,
    Seq<char>,
>;

/// The bytes that the csv crate writes for a record, by separator and quote
/// character.
pub uninterp spec fn csv_bytes(row: Row, separator: u8, quote: u8) -> Seq<u8>;

pub open spec fn rows_view(v: Seq<Vec<String>>) -> Seq<Row> {
    v.map_values(|r: Vec<String>| texts_view(r@))
}

/// Whether `r` are the records or the error `s`.
pub open spec fn gives_rows(
    r: Result<Vec<Vec<String>>, String>,
    s: Result<Seq<Row>, Seq<char>>,
) -> bool {
    match (r, s) {
        (Ok(x), Ok(y)) => rows_view(x@) == y,
        (Err(x), Err(y)) => x@ == y,
        _ => false,
    }
}

/// A record of at least one field that does not begin with a byte order mark.
pub open spec fn reads_back(row: Row) -> bool {
    row.len() > 0 && (row[0].len() > 0 ==> row[0][0] != '\u{feff}')
}

/// Whether a single record was read, and which.
pub open spec fn is_row(r: Result<Seq<Row>, Seq<char>>, row: Row) -> bool {
    r == Ok::<Seq<Row>, Seq<char>>(seq![row])
}

/// `csv::Reader::records`, without a header: the records up to the first error,
/// which is taken by its text, are a function of the bytes, the separator and
/// the quote character, which [`csv_read`] names.
#[verifier::external_body]
pub(crate) fn read_rows(data: &[u8], separator: u8, quote: u8) -> (r: Result<
    Vec<Vec<String>>,
    String,
>)
    ensures
        gives_rows(r, csv_read(data@, separator, quote)),
{
    let mut reader = csv::ReaderBuilder::new()
        .has_headers(false)
        .delimiter(separator)
        .quote(quote)
        .from_reader(data);
    let rows: Result<Vec<Vec<String>>, csv::Error> = reader
        .records()
        .map(|x| x.map(|record| record.iter().map(|s| s.to_owned()).collect()))
        .collect();
    rows.map_err(|e| e.to_string())
}

/// `csv::Writer::write_record` into memory, which cannot fail for one record:
/// [`csv_bytes`] names the bytes. With the usual comma and double quote, the
/// record is read back from them, if it has a field and does not begin with a
/// byte order mark, which the reader would skip.
#[verifier::external_body]
pub(crate) fn write_row(values: &Vec<String>, separator: u8, quote: u8) -> (r: Vec<u8>)
    ensures
        r@ == csv_bytes(texts_view(values@), separator, quote),
        separator == 0x2c && quote == 0x22 && reads_back(texts_view(values@)) ==> is_row(
            csv_read(r@, separator, quote),
            texts_view(values@),
        ),
{
    let mut writer = csv::WriterBuilder::new()
        .delimiter(separator)
        .quote(quote)
        .from_writer(Vec::new());
    let done = writer.write_record(values);
    done.map_or(Vec::new(), |_| writer.into_inner().unwrap_or_default())
}

/// A setting of one byte: the first of a text.
pub open spec fn byte_setting(settings: JsonV, k: Seq<char>, default: u8) -> u8 {
    match text_setting(settings, k) {
        Some(s) => {
            let b = encode_utf8(s);
            if b.len() > 0 {
                b[0]
            } else {
                default
            }
        },
        None => default,
    }
}

fn get_byte(settings: &Json, k: &str, default: u8) -> (r: u8)
    ensures
        r == byte_setting(settings.view(), k@, default),
{
    match get_text(settings, k) {
        Some(s) => {
            let b = text_bytes(&s);
            if b.len() > 0 {
                b[0]
            } else {
                default
            }
        },
        None => default,
    }
}

/// The name of the column at `i`; columns without one are numbered from one.
pub open spec fn column_name(columns: Row, i: int) -> Seq<char> {
    if i < columns.len() {
        columns[i]
    } else {
        "column"@ + nat_text((i + 1) as nat)
    }
}

/// The event with the values of a record from `i` on.
pub open spec fn with_row(e: EventV, columns: Row, row: Row, i: int) -> EventV
    decreases row.len() - i,
{
    if i < 0 || i >= row.len() {
        e
    } else {
        with_row(with_field(e, column_name(columns, i), JsonV::Str(row[i])), columns, row, i + 1)
    }
}

/// The values of a record from `i` on put under their columns, behind `acc`.
pub open spec fn row_members(
    columns: Row,
    row: Row,
    i: int,
    acc: Seq<(Seq<char>, JsonV)>,
) -> Seq<(Seq<char>, JsonV)>
    decreases row.len() - i,
{
    if i < 0 || i >= row.len() {
        acc
    } else {
        row_members(columns, row, i + 1, put(acc, column_name(columns, i), JsonV::Str(row[i])))
    }
}

/// The event of a record in data that reads `raw`: the values as fields, or as
/// an object under the target.
pub open spec fn row_event(
    columns: Row,
    target: Option<Seq<char>>,
    row: Row,
    raw: Seq<char>,
    now: Moment,
) -> EventV {
    let e = match target {
        None => with_row(blank(now), columns, row, 0),
        Some(f) => with_field(
            blank(now),
            f,
            JsonV::Object(row_members(columns, row, 0, Seq::empty())),
        ),
    };
    with_message(e, trim_end_text(raw))
}

/// The events of records, the first of which is a header or not.
pub open spec fn row_events(
    columns: Row,
    target: Option<Seq<char>>,
    header: bool,
    rows: Seq<Row>,
    raw: Seq<char>,
    now: Moment,
) -> DecodedV {
    let names = if header && columns.len() == 0 && rows.len() > 0 {
        rows[0]
    } else {
        columns
    };
    let first: int = if header {
        1
    } else {
        0
    };
    if rows.len() <= first {
        Err(CodecErrV::Codec("empty CSV data"@))
    } else {
        Ok(
            Seq::new(
                (rows.len() - first) as nat,
                |i: int| row_event(names, target, rows[first + i], raw, now),
            ),
        )
    }
}

/// The fields from `i` on as texts, behind `acc`.
pub open spec fn field_texts(
    t: AnswersV,
    p: Seq<(Seq<char>, JsonV)>,
    i: int,
    acc: Row,
) -> Result<Row, QueryV>
    decreases p.len() - i,
{
    if i < 0 || i >= p.len() {
        Ok(acc)
    } else {
        match lossy(t, p[i].1) {
            Ok(s) => field_texts(t, p, i + 1, acc.push(s)),
            Err(q) => Err(q),
        }
    }
}

/// The columns from `i` on as texts, behind `acc`; a field that is none is
/// empty.
pub open spec fn column_texts(
    t: AnswersV,
    e: EventV,
    columns: Row,
    i: int,
    acc: Row,
) -> Result<Row, QueryV>
    decreases columns.len() - i,
{
    if i < 0 || i >= columns.len() {
        Ok(acc)
    } else {
        match field_of(e, columns[i]) {
            None => column_texts(t, e, columns, i + 1, acc.push(Seq::empty())),
            Some(v) => match lossy(t, v) {
                Ok(s) => column_texts(t, e, columns, i + 1, acc.push(s)),
                Err(q) => Err(q),
            },
        }
    }
}

/// The record of an event: its columns, or all its fields where none are named.
pub open spec fn event_row(t: AnswersV, e: EventV, columns: Row) -> Result<Row, QueryV> {
    if columns.len() == 0 {
        field_texts(t, e.fields, 0, Seq::empty())
    } else {
        column_texts(t, e, columns, 0, Seq::empty())
    }
}

/// Whether `r` is the record or the open computation `s`.
pub open spec fn gives_row(r: Result<Vec<String>, DoubleQuery>, s: Result<Row, QueryV>) -> bool {
    match (r, s) {
        (Ok(x), Ok(y)) => texts_view(x@) == y,
        (Err(x), Err(y)) => x@ == y,
        _ => false,
    }
}

impl CsvCodec {
    /// Whether the codec is the one that settings ask for.
    pub open spec fn configured(&self, settings: JsonV) -> bool {
        texts_view(self.columns@) == (match texts_setting(
                settings,
                "columns"@,
            ) {
                Some(v) => v,
                None => Seq::empty(),
            }) && self.separator == byte_setting(settings, "separator"@, 0x2c) && self.quote
                == byte_setting(settings, "quote"@, 0x22) && self.has_header == flag_setting(
                settings,
                "has_header"@,
                false,
            ) && opt_view(self.target) == text_setting(settings, "target"@)
    }

    pub fn from_config(settings: &Json) -> (r: Result<Self, CodecError>)
        ensures
            r matches Ok(c) && c.configured(settings.view()),
    {
        let columns: Vec<String> = match get_texts(settings, "columns") {
            Some(v) => v,
            None => {
                let v: Vec<String> = Vec::new();
                assert(texts_view(v@) =~= Seq::<Seq<char>>::empty());
                v
            },
        };
        Ok(
            Self {
                columns,
                separator: get_byte(settings, "separator", 0x2c),
                quote: get_byte(settings, "quote", 0x22),
                has_header: get_flag(settings, "has_header", false),
                target: get_text(settings, "target"),
            },
        )
    }

    fn make_event(
        columns: &Vec<String>,
        target: &Option<String>,
        row: &Vec<String>,
        raw: &str,
        now: Moment,
    ) -> (r: Event)
        ensures
            r@ == row_event(
                texts_view(columns@),
                opt_view(*target),
                texts_view(row@),
                raw@,
                now,
            ),
            is_event(r@),
    {
        let ghost cv = texts_view(columns@);
        let ghost tv = texts_view(row@);
        let mut e = Event::empty(now);
        let mut p: Vec<(String, Json)> = Vec::new();
        let whole = target.is_some();
        let mut i: usize = 0;
        assert(entries_view(p@) =~= Seq::<(Seq<char>, JsonV)>::empty());
        while i < row.len()
            invariant
                i <= row.len(),
                is_event(e@),
                tv == texts_view(row@),
                cv == texts_view(columns@),
                whole ==> e@ == blank(now) && row_members(cv, tv, 0, Seq::empty()) == row_members(
                    cv,
                    tv,
                    i as int,
                    entries_view(p@),
                ),
                !whole ==> with_row(blank(now), cv, tv, 0) == with_row(e@, cv, tv, i as int),
            decreases row@.len() - i,
        {
            assert(tv[i as int] == row@[i as int]@);
            let name = if i < columns.len() {
                assert(cv[i as int] == columns@[i as int]@);
                columns[i].clone()
            } else {
                join2("column", &u64_text(i as u64 + 1))
            };
            if whole {
                put_json(&mut p, &name, text_value(&row[i]));
            } else {
                e.set(&name, text_value(&row[i]));
            }
            i += 1;
        }
        if let Some(f) = target {
            e.set(f, Json::Object(p));
        }
        e.set_message(&trim_end(raw));
        e
    }

    /// The events of records in data that reads `raw`.
    pub fn decode_rows(&self, rows: &Vec<Vec<String>>, raw: &str, now: Moment) -> (r: Result<
        Vec<Event>,
        CodecError,
    >)
        ensures
            crate::codec::gives_events(
                r,
                row_events(
                    texts_view(self.columns@),
                    opt_view(self.target),
                    self.has_header,
                    rows_view(rows@),
                    raw@,
                    now,
                ),
            ),
            r matches Ok(events) ==> are_events(events@),
    {
        let ghost rv = rows_view(rows@);
        let ghost target = opt_view(self.target);
        let first: usize = if self.has_header {
            1
        } else {
            0
        };
        if rows.len() <= first {
            return Err(CodecError::Codec("empty CSV data".to_owned()));
        }
        assert(rv[0] == texts_view(rows@[0]@));
        let names = if self.has_header && self.columns.len() == 0 {
            &rows[0]
        } else {
            &self.columns
        };
        let ghost nv = texts_view(names@);
        let mut events: Vec<Event> = Vec::new();
        let mut k: usize = first;
        while k < rows.len()
            invariant
                first <= k <= rows@.len(),
                are_events(events@),
                rv == rows_view(rows@),
                nv == texts_view(names@),
                target == opt_view(self.target),
                events_view(events@) =~= Seq::new(
                    (k - first) as nat,
                    |j: int| row_event(nv, target, rv[first + j], raw@, now),
                ),
            decreases rows@.len() - k,
        {
            assert(rv[k as int] == texts_view(rows@[k as int]@));
            let e = Self::make_event(names, &self.target, &rows[k], raw, now);
            let ghost before = events_view(events@);
            events.push(e);
            assert(events_view(events@) =~= before.push(e@));
            k += 1;
        }
        Ok(events)
    }

    fn values_of(&self, event: &Event, answers: &Answers) -> (r: Result<Vec<String>, DoubleQuery>)
        ensures
            gives_row(r, event_row(answers@, event@, texts_view(self.columns@))),
    {
        let ghost cv = texts_view(self.columns@);
        let ghost pv = entries_view(event.fields@);
        let mut out: Vec<String> = Vec::new();
        let mut i: usize = 0;
        assert(texts_view(out@) =~= Seq::<Seq<char>>::empty());
        if self.columns.len() == 0 {
            while i < event.fields.len()
                invariant
                    i <= event.fields@.len(),
                    pv == entries_view(event.fields@),
                    cv == texts_view(self.columns@),
                    cv.len() == 0,
                    field_texts(answers@, pv, 0, Seq::empty()) == field_texts(
                        answers@,
                        pv,
                        i as int,
                        texts_view(out@),
                    ),
                decreases event.fields@.len() - i,
            {
                assert(pv[i as int] == (
                    event.fields@[i as int].0@,
                    event.fields@[i as int].1.view(),
                ));
                let s = match to_string_lossy(&event.fields[i].1, answers) {
                    Ok(s) => s,
                    Err(q) => return Err(q),
                };
                let ghost before = texts_view(out@);
                out.push(s);
                assert(texts_view(out@) =~= before.push(s@));
                i += 1;
            }
            return Ok(out);
        }
        while i < self.columns.len()
            invariant
                i <= self.columns@.len(),
                cv == texts_view(self.columns@),
                cv.len() > 0,
                column_texts(answers@, event@, cv, 0, Seq::empty()) == column_texts(
                    answers@,
                    event@,
                    cv,
                    i as int,
                    texts_view(out@),
                ),
            decreases self.columns@.len() - i,
        {
            assert(cv[i as int] == self.columns@[i as int]@);
            let s = match event.get(&self.columns[i]) {
                None => {
                    let s = String::new();
                    assert(s@ =~= Seq::<char>::empty());
                    s
                },
                Some(v) => match to_string_lossy(v, answers) {
                    Ok(s) => s,
                    Err(q) => return Err(q),
                },
            };
            let ghost before = texts_view(out@);
            out.push(s);
            assert(texts_view(out@) =~= before.push(s@));
            i += 1;
        }
        Ok(out)
    }
}

impl Default for CsvCodec {
    fn default() -> (r: Self)
        ensures
            r.columns@.len() == 0,
            r.separator == 0x2c,
            r.quote == 0x22,
            !r.has_header,
            r.target is None,
    {
        Self {
            columns: Vec::new(),
            separator: 0x2c,
            quote: 0x22,
            has_header: false,
            target: None,
        }
    }
}

impl Codec for CsvCodec {
    open spec fn name_v(&self) -> Seq<char> {
        "csv"@
    }

    open spec fn decoded(&self, data: Seq<u8>, now: Moment, t: AnswersV) -> DecodedV {
        match csv_read(data, self.separator, self.quote) {
            Err(e) => Err(CodecErrV::Codec("CSV parse error: "@ + e)),
            Ok(rows) => row_events(
                texts_view(self.columns@),
                opt_view(self.target),
                self.has_header,
                rows,
                utf8_lossy(data),
                now,
            ),
        }
    }

    open spec fn encoded(&self, e: EventV, t: AnswersV) -> EncodedV {
        match event_row(t, e, texts_view(self.columns@)) {
            Ok(row) => Ok(csv_bytes(row, self.separator, self.quote)),
            Err(q) => Err(CodecErrV::Ask(q)),
        }
    }

    open spec fn learned(&self) -> TemplatesV {
        Map::empty()
    }

    open spec fn learned_after(&self, data: Seq<u8>) -> TemplatesV {
        Map::empty()
    }

    open spec fn stateful(&self) -> bool {
        false
    }

    fn name(&self) -> (r: &'static str) {
        "csv"
    }

    fn decode(&mut self, data: &[u8], now: Moment, answers: &Answers) -> (r: Result<
        Vec<Event>,
        CodecError,
    >)
        ensures
            *final(self) == *old(self),
    {
        match read_rows(data, self.separator, self.quote) {
            Err(e) => Err(CodecError::Codec(join2("CSV parse error: ", &e))),
            Ok(rows) => self.decode_rows(&rows, &lossy_text(data), now),
        }
    }

    fn encode(&self, event: &Event, answers: &Answers) -> (r: Result<Vec<u8>, CodecError>)
        ensures
            match (r, event_row(answers@, event@, texts_view(self.columns@))) {
                (Ok(b), Ok(row)) => self.separator == 0x2c && self.quote == 0x22
                    && !self.has_header && reads_back(row) ==> forall|
                    now: Moment,
                    t: AnswersV,
                | #[trigger]
                    self.decoded(b@, now, t) == Ok::<Seq<EventV>, CodecErrV>(
                        seq![
                            row_event(
                                texts_view(self.columns@),
                                opt_view(self.target),
                                row,
                                utf8_lossy(b@),
                                now,
                            ),
                        ],
                    ),
                _ => true,
            },
    {
        match self.values_of(event, answers) {
            Ok(values) => {
                let b = write_row(&values, self.separator, self.quote);
                proof {
                    let row = texts_view(values@);
                    let columns = texts_view(self.columns@);
                    let target = opt_view(self.target);
                    let raw = utf8_lossy(b@);
                    if self.separator == 0x2c && self.quote == 0x22 && !self.has_header
                        && reads_back(row) {
                        assert forall|now: Moment, t: AnswersV| #[trigger]
                            self.decoded(b@, now, t) == Ok::<Seq<EventV>, CodecErrV>(
                                seq![row_event(columns, target, row, raw, now)],
                            ) by {
                            assert(Seq::new(
                                1,
                                |i: int| row_event(columns, target, seq![row][0 + i], raw, now),
                            ) =~= seq![row_event(columns, target, row, raw, now)]);
                        }
                    }
                }
                Ok(b)
            },
            Err(q) => Err(CodecError::Ask(q)),
        }
    }

    fn is_stateful(&self) -> (r: bool) {
        false
    }
}

} // verus!
