//! Events: what flows from inputs through filters to outputs.
use crate::dict::{distinct_keys, lookup, put, put_then_lookup, without, without_then_lookup};
use crate::double::{ask1, ask_text, query, Answers, AnswersV, DoubleQuery, QueryV};
use crate::interchange::{text_of, write_json};
use crate::json::{
    copy_json_map, entries_view, find_json, jsons_view, put_json, remove_json, text_value, Json,
    JsonV,
};
use crate::moment::{format_rfc3339, moment_exists, parse_utc, rfc3339_text, utc_moment, Moment};
use crate::script::value::gives_text;
use crate::text::{
    chars_of, ends_with, find_chars, find_from, same, starts_with, string_of, texts_view,
};
use vstd::prelude::*;

verus! {

broadcast use vstd::string::group_string_axioms;

/// The value of a field.
pub type EventValue = Json;

/// An event: fields, metadata that is not sent on, tags, and a time. The
/// operations below keep every field and tag unique, and fields in the order in
/// which they first came: see [`is_event`].
#[derive(Debug, PartialEq)]
pub struct Event {
    pub fields: Vec<(String, Json)>,
    pub metadata: Vec<(String, Json)>,
    pub tags: Vec<String>,
    pub timestamp: Moment,
    pub cancelled: bool,
}

/// What an [`Event`] holds.
#[verifier::ext_equal]
pub struct EventV {
    pub fields: Seq<(Seq<char>, JsonV)>,
    pub metadata: Seq<(Seq<char>, JsonV)>,
    pub tags: Seq<Seq<char>>,
    pub timestamp: Moment,
    pub cancelled: bool,
}

impl View for Event {
    type V = EventV;

    open spec fn view(&self) -> EventV {
        EventV {
            fields: entries_view(self.fields@),
            metadata: entries_view(self.metadata@),
            tags: texts_view(self.tags@),
            timestamp: self.timestamp,
            cancelled: self.cancelled,
        }
    }
}

/// No field, no metadata and no tag occurs twice.
pub open spec fn is_event(e: EventV) -> bool {
    distinct_keys(e.fields) && distinct_keys(e.metadata) && e.tags.no_duplicates()
}

/// An event without fields.
pub open spec fn blank(now: Moment) -> EventV {
    EventV {
        fields: Seq::empty(),
        metadata: Seq::empty(),
        tags: Seq::empty(),
        timestamp: now,
        cancelled: false,
    }
}

/// The metadata key that a field reference names, if it names one.
pub open spec fn metadata_key(field: Seq<char>) -> Option<Seq<char>> {
    let open = "[@metadata]["@;
    if open.is_prefix_of(field) && "]"@.is_suffix_of(field) && field.len() > open.len() {
        Some(field.subrange(open.len() as int, field.len() - 1))
    } else {
        None
    }
}

/// An event with a field set. `[@metadata][key]` names metadata; any other
/// reference is the name of a field.
pub open spec fn with_field(e: EventV, field: Seq<char>, v: JsonV) -> EventV {
    match metadata_key(field) {
        Some(k) => EventV { metadata: put(e.metadata, k, v), ..e },
        None => EventV { fields: put(e.fields, field, v), ..e },
    }
}

/// The value of a field.
pub open spec fn field_of(e: EventV, field: Seq<char>) -> Option<JsonV> {
    match metadata_key(field) {
        Some(k) => lookup(e.metadata, k),
        None => lookup(e.fields, field),
    }
}

/// An event without a field.
pub open spec fn without_field(e: EventV, field: Seq<char>) -> EventV {
    match metadata_key(field) {
        Some(k) => EventV { metadata: without(e.metadata, k), ..e },
        None => EventV { fields: without(e.fields, field), ..e },
    }
}

/// An event with a tag, which it holds once.
pub open spec fn with_tag(e: EventV, tag: Seq<char>) -> EventV {
    if e.tags.contains(tag) {
        e
    } else {
        EventV { tags: e.tags.push(tag), ..e }
    }
}

/// The message, where it is a text.
pub open spec fn message_of(e: EventV) -> Option<Seq<char>> {
    match lookup(e.fields, "message"@) {
        Some(JsonV::Str(s)) => Some(s),
        _ => None,
    }
}

/// An event with a message.
pub open spec fn with_message(e: EventV, s: Seq<char>) -> EventV {
    EventV { fields: put(e.fields, "message"@, JsonV::Str(s)), ..e }
}

/// An event at a moment, if that exists.
pub open spec fn timed(e: EventV, secs: i64, nanos: u32) -> EventV {
    if moment_exists(secs, nanos) {
        EventV { timestamp: Moment { secs, nanos }, ..e }
    } else {
        e
    }
}

/// An event at the moment that a text gives, if it gives one.
pub open spec fn timed_by(e: EventV, s: Seq<char>) -> EventV {
    match utc_moment(s) {
        Some((secs, nanos)) => EventV { timestamp: Moment { secs, nanos }, ..e },
        None => e,
    }
}

/// An event that holds a message only.
pub open spec fn message_event(s: Seq<char>, now: Moment) -> EventV {
    with_message(blank(now), s)
}

/// The members from `i` on set as fields, one by one.
pub open spec fn with_members(e: EventV, p: Seq<(Seq<char>, JsonV)>, i: int) -> EventV
    decreases p.len() - i,
{
    if i < 0 || i >= p.len() {
        e
    } else {
        with_members(with_field(e, p[i].0, p[i].1), p, i + 1)
    }
}

/// The event that a JSON value is: its members as fields, or the value as the
/// field `message` where it is no object.
pub open spec fn event_of_json(j: JsonV, now: Moment) -> EventV {
    match j {
        JsonV::Object(p) => with_members(blank(now), p, 0),
        _ => with_field(blank(now), "message"@, j),
    }
}

/// Tags as a list of texts.
pub open spec fn tags_json(tags: Seq<Seq<char>>) -> JsonV {
    JsonV::Array(tags.map_values(|s: Seq<char>| JsonV::Str(s)))
}

/// The JSON object of an event: its fields, its time under `@timestamp`, and
/// its tags, if any, under `tags`.
pub open spec fn json_of_event(e: EventV) -> JsonV {
    let timed = put(
        e.fields,
        "@timestamp"@,
        JsonV::Str(rfc3339_text(e.timestamp.secs, e.timestamp.nanos)),
    );
    JsonV::Object(
        if e.tags.len() > 0 {
            put(timed, "tags"@, tags_json(e.tags))
        } else {
            timed
        },
    )
}

/// A value as text: a text is itself, a double is as Rust prints it, anything
/// else is its JSON text.
pub open spec fn lossy(t: AnswersV, v: JsonV) -> Result<Seq<char>, QueryV> {
    match v {
        JsonV::Str(s) => Ok(s),
        JsonV::Float(d) => ask_text(t, query("display"@, seq![d])),
        _ => text_of(t, v),
    }
}

/// A value as text.
pub fn to_string_lossy(v: &Json, answers: &Answers) -> (r: Result<String, DoubleQuery>)
    ensures
        gives_text(r, lossy(answers@, v.view())),
{
    match v {
        Json::Str(s) => Ok(s.clone()),
        Json::Float(d) => answers.text(ask1("display", d.copy())),
        _ => write_json(v, answers),
    }
}

fn metadata_part(field: &str) -> (r: Option<String>)
    ensures
        match r {
            Some(k) => metadata_key(field@) == Some(k@),
            None => metadata_key(field@) is None,
        },
{
    proof {
        reveal_strlit("[@metadata][");
    }
    let c = chars_of(field);
    if starts_with(field, "[@metadata][") && ends_with(field, "]") && c.len() > 12 {
        Some(string_of(c.as_slice(), 12, c.len() - 1))
    } else {
        None
    }
}

impl Event {
    /// An event without fields.
    pub fn empty(now: Moment) -> (r: Event)
        ensures
            r@ == blank(now),
            is_event(r@),
    {
        let r = Event {
            fields: Vec::new(),
            metadata: Vec::new(),
            tags: Vec::new(),
            timestamp: now,
            cancelled: false,
        };
        assert(entries_view(r.fields@) =~= Seq::<(Seq<char>, JsonV)>::empty());
        assert(entries_view(r.metadata@) =~= Seq::<(Seq<char>, JsonV)>::empty());
        assert(texts_view(r.tags@) =~= Seq::<Seq<char>>::empty());
        r
    }

    /// An event that holds a message.
    pub fn new(message: &str, now: Moment) -> (r: Event)
        ensures
            r@ == message_event(message@, now),
            is_event(r@),
    {
        let mut r = Event::empty(now);
        r.set_message(message);
        r
    }

    /// The event that a JSON value is.
    pub fn from_json(j: &Json, now: Moment) -> (r: Event)
        ensures
            r@ == event_of_json(j.view(), now),
            is_event(r@),
    {
        let mut r = Event::empty(now);
        match j {
            Json::Object(p) => {
                let mut i: usize = 0;
                while i < p.len()
                    invariant
                        i <= p@.len(),
                        is_event(r@),
                        with_members(blank(now), entries_view(p@), 0) == with_members(
                            r@,
                            entries_view(p@),
                            i as int,
                        ),
                    decreases p@.len() - i,
                {
                    assert(entries_view(p@)[i as int] == (p@[i as int].0@, p@[i as int].1.view()));
                    r.set(&p[i].0, p[i].1.copy());
                    i += 1;
                }
            },
            _ => r.set("message", j.copy()),
        }
        r
    }

    /// Sets a field.
    pub fn set(&mut self, field: &str, v: Json)
        ensures
            final(self)@ == with_field(old(self)@, field@, v.view()),
            is_event(old(self)@) ==> is_event(final(self)@),
    {
        proof {
            put_then_lookup(self@.fields, field@, v.view(), field@);
            if let Some(k) = metadata_key(field@) {
                put_then_lookup(self@.metadata, k, v.view(), k);
            }
        }
        match metadata_part(field) {
            Some(k) => put_json(&mut self.metadata, &k, v),
            None => put_json(&mut self.fields, field, v),
        }
    }

    /// The value of a field.
    pub fn get(&self, field: &str) -> (r: Option<&Json>)
        ensures
            match r {
                Some(v) => field_of(self@, field@) == Some(v.view()),
                None => field_of(self@, field@) is None,
            },
    {
        match metadata_part(field) {
            Some(k) => find_json(&self.metadata, &k),
            None => find_json(&self.fields, field),
        }
    }

    /// Removes a field.
    pub fn remove(&mut self, field: &str)
        ensures
            final(self)@ == without_field(old(self)@, field@),
            is_event(old(self)@) ==> is_event(final(self)@),
    {
        proof {
            if is_event(self@) {
                without_then_lookup(self@.fields, field@, field@);
                if let Some(k) = metadata_key(field@) {
                    without_then_lookup(self@.metadata, k, k);
                }
            }
        }
        match metadata_part(field) {
            Some(k) => remove_json(&mut self.metadata, &k),
            None => remove_json(&mut self.fields, field),
        }
    }

    /// Whether a field is set.
    pub fn has_field(&self, field: &str) -> (r: bool)
        ensures
            r == (field_of(self@, field@) is Some),
    {
        self.get(field).is_some()
    }

    /// The message, where it is a text.
    pub fn message(&self) -> (r: Option<&str>)
        ensures
            match r {
                Some(s) => message_of(self@) == Some(s@),
                None => message_of(self@) is None,
            },
    {
        match find_json(&self.fields, "message") {
            Some(Json::Str(s)) => Some(s.as_str()),
            _ => None,
        }
    }

    /// Sets the message.
    pub fn set_message(&mut self, s: &str)
        ensures
            final(self)@ == with_message(old(self)@, s@),
            is_event(old(self)@) ==> is_event(final(self)@),
    {
        proof {
            put_then_lookup(self@.fields, "message"@, JsonV::Str(s@), "message"@);
        }
        put_json(&mut self.fields, "message", text_value(s));
    }

    /// Gives the event the time of a moment, if that exists.
    pub fn set_time(&mut self, secs: i64, nanos: u32)
        ensures
            final(self)@ == timed(old(self)@, secs, nanos),
            is_event(old(self)@) ==> is_event(final(self)@),
    {
        if let Some(m) = Moment::at(secs, nanos) {
            self.timestamp = m;
        }
    }

    /// Gives the event the time that a text gives, if it gives one.
    pub fn set_time_by(&mut self, s: &str)
        ensures
            final(self)@ == timed_by(old(self)@, s@),
            is_event(old(self)@) ==> is_event(final(self)@),
    {
        if let Some(m) = parse_utc(s) {
            self.timestamp = m;
        }
    }

    /// Whether the event has a tag.
    pub fn has_tag(&self, tag: &str) -> (r: bool)
        ensures
            r == self@.tags.contains(tag@),
    {
        let mut i: usize = 0;
        while i < self.tags.len()
            invariant
                i <= self.tags@.len(),
                forall|k: int| 0 <= k < i ==> (#[trigger] self.tags@[k])@ != tag@,
            decreases self.tags@.len() - i,
        {
            if same(&self.tags[i], tag) {
                assert(self@.tags[i as int] == tag@);
                return true;
            }
            i += 1;
        }
        assert forall|k: int| 0 <= k < self@.tags.len() implies self@.tags[k] != tag@ by {
            assert(self@.tags[k] == self.tags@[k]@);
        }
        false
    }

    /// Adds a tag, unless the event has it.
    pub fn add_tag(&mut self, tag: &str)
        ensures
            final(self)@ == with_tag(old(self)@, tag@),
            is_event(old(self)@) ==> is_event(final(self)@),
    {
        if !self.has_tag(tag) {
            let ghost before = texts_view(self.tags@);
            self.tags.push(tag.to_owned());
            assert(texts_view(self.tags@) =~= before.push(tag@));
        }
    }

    /// Marks the event as one to drop.
    pub fn cancel(&mut self)
        ensures
            final(self)@ == (EventV { cancelled: true, ..old(self)@ }),
            is_event(old(self)@) ==> is_event(final(self)@),
    {
        self.cancelled = true;
    }

    pub fn is_cancelled(&self) -> (r: bool)
        ensures
            r == self@.cancelled,
    {
        self.cancelled
    }

    /// An event that holds the same.
    pub fn copy(&self) -> (r: Event)
        ensures
            r@ == self@,
    {
        let mut tags: Vec<String> = Vec::new();
        let mut i: usize = 0;
        while i < self.tags.len()
            invariant
                i <= self.tags@.len(),
                tags@.len() == i,
                forall|k: int| 0 <= k < i ==> (#[trigger] tags@[k])@ == self.tags@[k]@,
            decreases self.tags@.len() - i,
        {
            tags.push(self.tags[i].clone());
            i += 1;
        }
        assert(texts_view(tags@) =~= texts_view(self.tags@));
        Event {
            fields: copy_json_map(&self.fields),
            metadata: copy_json_map(&self.metadata),
            tags,
            timestamp: self.timestamp,
            cancelled: self.cancelled,
        }
    }

    /// The JSON object of the event.
    pub fn to_json(&self) -> (r: Json)
        ensures
            r.view() == json_of_event(self@),
    {
        let mut p = copy_json_map(&self.fields);
        put_json(&mut p, "@timestamp", Json::Str(format_rfc3339(self.timestamp)));
        if self.tags.len() > 0 {
            let mut tags: Vec<Json> = Vec::new();
            let mut i: usize = 0;
            while i < self.tags.len()
                invariant
                    i <= self.tags@.len(),
                    tags@.len() == i,
                    forall|k: int|
                        0 <= k < i ==> (#[trigger] tags@[k]).view() == JsonV::Str(self.tags@[k]@),
                decreases self.tags@.len() - i,
            {
                tags.push(Json::Str(self.tags[i].clone()));
                i += 1;
            }
            assert(jsons_view(tags@) =~= texts_view(self.tags@).map_values(
                |s: Seq<char>| JsonV::Str(s),
            ));
            put_json(&mut p, "tags", Json::Array(tags));
        }
        Json::Object(p)
    }

    /// The JSON text of the event.
    pub fn to_json_string(&self, answers: &Answers) -> (r: Result<String, DoubleQuery>)
        ensures
            gives_text(r, text_of(answers@, json_of_event(self@))),
    {
        write_json(&self.to_json(), answers)
    }

    /// A text in which each `%{field}` is replaced by the field's value as text;
    /// a field that is not set leaves its place as it is.
    pub fn sprintf(&self, format: &str, answers: &Answers) -> (r: Result<String, DoubleQuery>)
        ensures
            gives_text(r, filled(answers@, self@, format@, 0, Seq::empty())),
    {
        proof {
            reveal_strlit("%{");
            reveal_strlit("}");
        }
        let c = chars_of(format);
        let mut mark: Vec<char> = Vec::new();
        mark.push('%');
        mark.push('{');
        let mut close: Vec<char> = Vec::new();
        close.push('}');
        assert(mark@ =~= "%{"@);
        assert(close@ =~= "}"@);
        let mut out = String::new();
        let mut from: usize = 0;
        loop
            invariant
                from <= c.len(),
                c@ == format@,
                mark@ == "%{"@,
                close@ == "}"@,
                mark@.len() == 2,
                close@.len() == 1,
                filled(answers@, self@, format@, 0, Seq::empty()) == filled(
                    answers@,
                    self@,
                    format@,
                    from as int,
                    out@,
                ),
            decreases c@.len() - from,
        {
            let i = match find_chars(&c, &mark, from) {
                Some(i) => i,
                None => {
                    out.append(&string_of(c.as_slice(), from, c.len()));
                    return Ok(out);
                },
            };
            let j = match find_chars(&c, &close, i + 2) {
                Some(j) => j,
                None => {
                    out.append(&string_of(c.as_slice(), from, c.len()));
                    return Ok(out);
                },
            };
            let name = string_of(c.as_slice(), i + 2, j);
            match self.get(&name) {
                Some(v) => match to_string_lossy(v, answers) {
                    Ok(s) => {
                        out.append(&string_of(c.as_slice(), from, i));
                        out.append(&s);
                    },
                    Err(q) => return Err(q),
                },
                None => {
                    out.append(&string_of(c.as_slice(), from, j + 1));
                },
            }
            from = j + 1;
        }
    }
}

/// The text from `from` on with its places filled, behind `acc`.
pub open spec fn filled(t: AnswersV, e: EventV, f: Seq<char>, from: int, acc: Seq<char>) -> Result<
    Seq<char>,
    QueryV,
>
    decreases f.len() - from,
{
    proof {
        reveal_strlit("%{");
        crate::text::lemma_find_from(f, "%{"@, from);
        if let Some(i) = find_from(f, "%{"@, from) {
            crate::text::lemma_find_from(f, "}"@, i + 2);
        }
        reveal_strlit("}");
    }
    match find_from(f, "%{"@, from) {
        None => Ok(acc + f.subrange(from, f.len() as int)),
        Some(i) => match find_from(f, "}"@, i + 2) {
            None => Ok(acc + f.subrange(from, f.len() as int)),
            Some(j) => match field_of(e, f.subrange(i + 2, j)) {
                Some(v) => match lossy(t, v) {
                    Ok(s) => filled(t, e, f, j + 1, acc + f.subrange(from, i) + s),
                    Err(q) => Err(q),
                },
                None => filled(t, e, f, j + 1, acc + f.subrange(from, j + 1)),
            },
        },
    }
}

/// Whether two references name one field.
pub open spec fn same_field(a: Seq<char>, b: Seq<char>) -> bool {
    metadata_key(a) == metadata_key(b) && (metadata_key(a) is Some || a == b)
}

/// A field that is set reads as it was set, and other fields stay.
pub proof fn set_field_then_get(e: EventV, field: Seq<char>, v: JsonV, other: Seq<char>)
    ensures
        field_of(with_field(e, field, v), field) == Some(v),
        !same_field(other, field) ==> field_of(with_field(e, field, v), other) == field_of(e, other),
{
    match metadata_key(field) {
        Some(k) => {
            let o = match metadata_key(other) {
                Some(o) => o,
                None => k,
            };
            put_then_lookup(e.metadata, k, v, o);
        },
        None => {
            put_then_lookup(e.fields, field, v, other);
        },
    }
}

/// A name that is no reference to metadata.
pub open spec fn is_plain_name(f: Seq<char>) -> bool {
    f.len() > 0 && f[0] != '['
}

/// What a field reads as behind any steps that build an event up: the last
/// value that was set, whatever else was set before and behind.
pub proof fn lemma_fields_stay()
    ensures
        forall|e: EventV, f: Seq<char>, v: JsonV, g: Seq<char>|
            is_plain_name(f) && is_plain_name(g) ==> #[trigger] field_of(with_field(e, f, v), g)
                == (if f == g {
                Some(v)
            } else {
                field_of(e, g)
            }),
        forall|e: EventV, secs: i64, nanos: u32, g: Seq<char>| #[trigger]
            field_of(timed(e, secs, nanos), g) == field_of(e, g),
        forall|e: EventV, m: Seq<char>, g: Seq<char>|
            is_plain_name(g) ==> #[trigger] field_of(with_message(e, m), g) == (if g
                == "message"@ {
                Some(JsonV::Str(m))
            } else {
                field_of(e, g)
            }),
        forall|e: EventV, tag: Seq<char>, g: Seq<char>| #[trigger]
            field_of(with_tag(e, tag), g) == field_of(e, g),
{
    reveal_strlit("[@metadata][");
    reveal_strlit("message");
    assert forall|f: Seq<char>| is_plain_name(f) implies #[trigger] metadata_key(f) is None by {
        if "[@metadata]["@.is_prefix_of(f) {
            assert(f[0] == "[@metadata]["@[0]);
        }
    }
    assert forall|e: EventV, f: Seq<char>, v: JsonV, g: Seq<char>|
        is_plain_name(f) && is_plain_name(g) implies #[trigger] field_of(with_field(e, f, v), g) == (
    if f == g {
        Some(v)
    } else {
        field_of(e, g)
    }) by {
        assert(metadata_key(f) is None && metadata_key(g) is None);
        put_then_lookup(e.fields, f, v, g);
    }
    assert forall|e: EventV, m: Seq<char>, g: Seq<char>| is_plain_name(g) implies #[trigger] field_of(
        with_message(e, m),
        g,
    ) == (if g == "message"@ {
        Some(JsonV::Str(m))
    } else {
        field_of(e, g)
    }) by {
        assert(metadata_key(g) is None);
        put_then_lookup(e.fields, "message"@, JsonV::Str(m), g);
    }
}

} // verus!
