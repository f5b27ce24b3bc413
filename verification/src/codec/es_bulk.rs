//! Elasticsearch Bulk codec: the lines of the Bulk API.
//!
//! A line with an action is followed, unless it deletes, by a line with the
//! document:
//! ```text
//! {"index":{"_index":"logs","_id":"1"}}
//! {"message":"hello","@timestamp":"2026-04-12T00:00:00Z"}
//! {"delete":{"_index":"logs","_id":"2"}}
//! ```
use crate::codec::json::{get_text, opt_view, text_setting};
use crate::codec::laws::{event_survives_json, plain, plain_event, plain_is_written, text_survives};
use crate::codec::{
    are_events, events_view, lossy_text, text_bytes, utf8_lossy, Codec, CodecErrV, CodecError,
    DecodedV, EncodedV, TemplatesV,
};
use crate::dict::lookup;
use crate::double::{Answers, AnswersV, QueryV};
use crate::event::{blank, event_of_json, is_event, json_of_event, with_field, Event, EventV};
use crate::interchange::{
    depth, depth_entries, is_line, is_private_key, is_value, json_read, no_private_keys,
    parse_json, readable, serde_view, text_of, write_json, written,
};
use crate::json::{entries_view, find_json, json_get, text_value, Json, JsonV};
use crate::moment::Moment;
use crate::text::{
    find_from, is_white, join2, join3, lemma_find_from, lines, lines_from, occurs_at, same,
    texts_view, trim, trim_text, white_end, white_start, without_return,
};
use vstd::prelude::*;
use vstd::utf8::encode_utf8;

verus! {

broadcast use vstd::string::group_string_axioms;

/// Elasticsearch Bulk codec.
#[derive(Debug, PartialEq)]
pub struct EsBulkCodec {
    /// Default index name to use when encoding.
    pub index: Option<String>,
    /// Default action (index, create, update, delete).
    pub action: String,
}

/// The event with a text of the action's object as metadata, if it has it.
pub open spec fn with_meta(e: EventV, meta: JsonV, k: Seq<char>, field: Seq<char>) -> EventV {
    match json_get(meta, k) {
        Some(JsonV::Str(s)) => with_field(e, field, JsonV::Str(s)),
        _ => e,
    }
}

/// The event with its action as metadata.
pub open spec fn with_action(e: EventV, kind: Seq<char>, meta: JsonV) -> EventV {
    let e = with_field(e, "[@metadata][action]"@, JsonV::Str(kind));
    let e = with_meta(e, meta, "_index"@, "[@metadata][_index]"@);
    let e = with_meta(e, meta, "_id"@, "[@metadata][_id]"@);
    with_meta(e, meta, "routing"@, "[@metadata][routing]"@)
}

/// The events of the actions in the lines from `i` on, behind `acc`; an empty
/// line ends them.
pub open spec fn actions_from(
    lines: Seq<Seq<char>>,
    i: int,
    now: Moment,
    acc: Seq<EventV>,
) -> DecodedV
    decreases lines.len() + 1 - i,
{
    if i < 0 || i >= lines.len() || trim_text(lines[i]).len() == 0 {
        if acc.len() == 0 {
            Err(CodecErrV::Codec("no bulk actions found"@))
        } else {
            Ok(acc)
        }
    } else {
        match json_read(encode_utf8(lines[i])) {
            Err(e) => Err(CodecErrV::Codec("invalid bulk action JSON: "@ + e)),
            Ok(JsonV::Object(p)) => if p.len() == 0 {
                Err(CodecErrV::Codec("invalid bulk action format"@))
            } else {
                let (kind, meta) = p[0];
                if kind == "delete"@ {
                    actions_from(
                        lines,
                        i + 1,
                        now,
                        acc.push(with_action(blank(now), kind, meta)),
                    )
                } else if i + 1 >= lines.len() || trim_text(lines[i + 1]).len() == 0 {
                    actions_from(
                        lines,
                        i + 2,
                        now,
                        acc.push(with_action(blank(now), kind, meta)),
                    )
                } else {
                    match json_read(encode_utf8(lines[i + 1])) {
                        Err(e) => Err(CodecErrV::Codec("invalid bulk source JSON: "@ + e)),
                        Ok(source) => actions_from(
                            lines,
                            i + 2,
                            now,
                            acc.push(with_action(event_of_json(source, now), kind, meta)),
                        ),
                    }
                }
            },
            Ok(_) => Err(CodecErrV::Codec("invalid bulk action format"@)),
        }
    }
}

/// A text in the metadata.
pub open spec fn meta_text(e: EventV, k: Seq<char>) -> Option<Seq<char>> {
    match lookup(e.metadata, k) {
        Some(JsonV::Str(s)) => Some(s),
        _ => None,
    }
}

/// The action of an event as a JSON object.
pub open spec fn action_json(
    action: Seq<char>,
    index: Option<Seq<char>>,
    id: Option<Seq<char>>,
) -> JsonV {
    JsonV::Object(seq![(action, action_members(index, id))])
}

/// The lines of an event: its action and, unless it deletes, its fields.
pub open spec fn bulk_lines(
    t: AnswersV,
    e: EventV,
    action: Seq<char>,
    index: Option<Seq<char>>,
) -> EncodedV {
    match text_of(t, action_json(action, index, meta_text(e, "_id"@))) {
        Err(q) => Err(CodecErrV::Ask(q)),
        Ok(a) => if action == "delete"@ {
            Ok(encode_utf8(a + "\n"@))
        } else {
            match text_of(t, json_of_event(e)) {
                Ok(s) => Ok(encode_utf8(a + "\n"@ + s + "\n"@)),
                Err(q) => Err(CodecErrV::Ask(q)),
            }
        },
    }
}

/// The members of an event's action.
pub open spec fn action_members(index: Option<Seq<char>>, id: Option<Seq<char>>) -> JsonV {
    let none = Seq::<(Seq<char>, JsonV)>::empty();
    let p = match index {
        Some(s) => none.push(("_index"@, JsonV::Str(s))),
        None => none,
    };
    JsonV::Object(
        match id {
            Some(s) => p.push(("_id"@, JsonV::Str(s))),
            None => p,
        },
    )
}

/// An action is written as it is.
proof fn lemma_action_plain(
    t: AnswersV,
    action: Seq<char>,
    index: Option<Seq<char>>,
    id: Option<Seq<char>>,
)
    ensures
        written(t, action_json(action, index, id)) == Ok::<JsonV, QueryV>(
            action_json(action, index, id),
        ),
        serde_view(action_json(action, index, id)) == action_json(action, index, id),
        !is_private_key(action) ==> readable(action_json(action, index, id)),
{
    reveal_strlit("_index");
    reveal_strlit("_id");
    let m = action_members(index, id);
    let p = m->Object_0;
    assert(p.len() <= 2);
    assert forall|i: int| 0 <= i < p.len() implies plain((#[trigger] p[i]).1) by {
        assert(p[i].1 is Str);
    }
    assert forall|i: int, j: int| 0 <= i < j < p.len() implies (#[trigger] p[i]).0 != (
    #[trigger] p[j]).0 by {
        assert(p[0].0 == "_index"@ && p[1].0 == "_id"@);
    }
    assert(plain(m));
    let o = seq![(action, m)];
    assert(o[0] == (action, m) && o.len() == 1);
    assert(plain(JsonV::Object(o)));
    plain_is_written(t, JsonV::Object(o));
    reveal_with_fuel(depth_entries, 4);
    reveal_with_fuel(depth, 4);
    assert(depth_entries(p, 0) == 0);
    assert(depth(m) == 1);
    assert(depth_entries(o, 0) == 1);
    reveal_strlit("$serde_json::private::");
    assert(no_private_keys(m)) by {
        if p.len() > 0 && is_private_key(p[0].0) {
            assert("$serde_json::private::"@[0] == p[0].0[0]);
            assert(p[0].0[0] == '_');
        }
        assert forall|i: int| 0 <= i < p.len() implies no_private_keys((#[trigger] p[i]).1) by {
            assert(p[i].1 is Str);
        }
    }
    if !is_private_key(action) {
        assert(no_private_keys(JsonV::Object(o)));
    }
}

proof fn lemma_break(text: Seq<char>, from: int, k: int)
    requires
        0 <= from <= k < text.len(),
        text[k] == '\n',
        forall|j: int| from <= j < k ==> text[j] != '\n',
    ensures
        find_from(text, "\n"@, from) == Some(k),
{
    reveal_strlit("\n");
    lemma_find_from(text, "\n"@, from);
    assert(text.subrange(k, k + 1) =~= "\n"@);
    assert(occurs_at(text, "\n"@, k));
    let r = find_from(text, "\n"@, from);
    if r is Some && r->0 < k {
        assert(text.subrange(r->0, r->0 + 1)[0] == "\n"@[0]);
    }
}

proof fn lemma_no_break(text: Seq<char>, from: int)
    requires
        0 <= from <= text.len(),
        forall|j: int| from <= j < text.len() ==> text[j] != '\n',
    ensures
        find_from(text, "\n"@, from) is None,
{
    reveal_strlit("\n");
    lemma_find_from(text, "\n"@, from);
    let r = find_from(text, "\n"@, from);
    if r is Some {
        assert(text.subrange(r->0, r->0 + 1)[0] == "\n"@[0]);
    }
}

/// A line of text with a line feed behind it is, without white space at its
/// ends, that line.
proof fn lemma_trim_line(a: Seq<char>)
    requires
        a.len() > 0,
        !is_white(a[0]),
        !is_white(a.last()),
    ensures
        trim_text(a + "\n"@) == a,
        trim_text(a) == a,
{
    reveal_strlit("\n");
    let x = a + "\n"@;
    assert(x[0] == a[0]);
    assert(x[x.len() - 2] == a.last());
    assert(white_end(x, 0) == 0);
    reveal_with_fuel(white_start, 3);
    assert(white_start(x, 0, x.len() as int) == a.len());
    assert(x.subrange(0, a.len() as int) =~= a);
    assert(white_start(a, 0, a.len() as int) == a.len());
    assert(a.subrange(0, a.len() as int) =~= a);
}

proof fn lemma_one_line(a: Seq<char>)
    requires
        is_line(a),
    ensures
        lines_from(a, 0, Seq::empty()) == seq![a],
{
    assert forall|j: int| 0 <= j < a.len() implies a[j] != '\n' by {
        if a[j] == '\n' {
            assert(a.contains('\n'));
        }
    }
    lemma_no_break(a, 0);
    assert(a.subrange(0, a.len() as int) =~= a);
    assert(lines_from(a, 0, Seq::empty()) =~= seq![a]);
}

proof fn lemma_two_lines(a: Seq<char>, b: Seq<char>)
    requires
        is_line(a),
        is_line(b),
    ensures
        lines_from(a + "\n"@ + b, 0, Seq::empty()) == seq![a, b],
{
    reveal_strlit("\n");
    let x = a + "\n"@ + b;
    let n = a.len() as int;
    assert forall|j: int| 0 <= j < n implies x[j] != '\n' by {
        if a[j] == '\n' {
            assert(a.contains('\n'));
        }
    }
    assert forall|j: int| n + 1 <= j < x.len() implies x[j] != '\n' by {
        if b[j - n - 1] == '\n' {
            assert(b.contains('\n'));
        }
    }
    lemma_break(x, 0, n);
    lemma_no_break(x, n + 1);
    assert(x.subrange(0, n) =~= a);
    assert(without_return(a) == a);
    assert(x.subrange(n + 1, x.len() as int) =~= b);
    reveal_with_fuel(lines_from, 3);
    let s = Seq::<Seq<char>>::empty().push(a);
    assert(lines_from(x, 0, Seq::empty()) == lines_from(x, n + 1, s));
    assert(s.push(b) =~= seq![a, b]);
}

/// What is read from the lines of an action and a document.
proof fn lemma_read_document(
    a: Seq<char>,
    b: Seq<char>,
    kind: Seq<char>,
    meta: JsonV,
    source: JsonV,
    now: Moment,
)
    requires
        is_line(a),
        is_line(b),
        is_value(json_read(encode_utf8(a)), JsonV::Object(seq![(kind, meta)])),
        is_value(json_read(encode_utf8(b)), source),
        kind != "delete"@,
    ensures
        actions_from(
            lines_from(trim_text(a + "\n"@ + b + "\n"@), 0, Seq::empty()),
            0,
            now,
            Seq::empty(),
        ) == Ok::<Seq<EventV>, CodecErrV>(
            seq![with_action(event_of_json(source, now), kind, meta)],
        ),
        trim_text(a + "\n"@ + b + "\n"@).len() > 0,
{
    reveal_strlit("\n");
    let x = a + "\n"@ + b;
    assert(x[0] == a[0] && x.last() == b.last());
    lemma_trim_line(x);
    lemma_two_lines(a, b);
    lemma_trim_line(a);
    lemma_trim_line(b);
    let ls = seq![a, b];
    assert(ls[0] == a && ls[1] == b && ls.len() == 2);
    let e = with_action(event_of_json(source, now), kind, meta);
    reveal_with_fuel(actions_from, 3);
    assert(actions_from(ls, 0, now, Seq::empty()) == actions_from(
        ls,
        2,
        now,
        Seq::<EventV>::empty().push(e),
    ));
    assert(Seq::<EventV>::empty().push(e) =~= seq![e]);
}

/// What is read from the line of a deletion.
proof fn lemma_read_deletion(a: Seq<char>, meta: JsonV, now: Moment)
    requires
        is_line(a),
        is_value(json_read(encode_utf8(a)), JsonV::Object(seq![("delete"@, meta)])),
    ensures
        actions_from(lines_from(trim_text(a + "\n"@), 0, Seq::empty()), 0, now, Seq::empty())
            == Ok::<Seq<EventV>, CodecErrV>(
            seq![with_action(blank(now), "delete"@, meta)],
        ),
        trim_text(a + "\n"@).len() > 0,
{
    lemma_trim_line(a);
    lemma_one_line(a);
    let ls = seq![a];
    let e = with_action(blank(now), "delete"@, meta);
    reveal_with_fuel(actions_from, 3);
    assert(actions_from(ls, 0, now, Seq::empty()) == actions_from(
        ls,
        1,
        now,
        Seq::<EventV>::empty().push(e),
    ));
    assert(Seq::<EventV>::empty().push(e) =~= seq![e]);
}

fn set_meta(e: &mut Event, meta: &Json, k: &str, field: &str)
    ensures
        final(e)@ == with_meta(old(e)@, meta.view(), k@, field@),
        is_event(old(e)@) ==> is_event(final(e)@),
{
    if let Some(Json::Str(s)) = meta.get(k) {
        e.set(field, text_value(s));
    }
}

fn set_action(e: &mut Event, kind: &str, meta: &Json)
    ensures
        final(e)@ == with_action(old(e)@, kind@, meta.view()),
        is_event(old(e)@) ==> is_event(final(e)@),
{
    e.set("[@metadata][action]", text_value(kind));
    set_meta(e, meta, "_index", "[@metadata][_index]");
    set_meta(e, meta, "_id", "[@metadata][_id]");
    set_meta(e, meta, "routing", "[@metadata][routing]");
}

fn get_meta(e: &Event, k: &str) -> (r: Option<String>)
    ensures
        opt_view(r) == meta_text(e@, k@),
{
    match find_json(&e.metadata, k) {
        Some(Json::Str(s)) => Some(s.clone()),
        _ => None,
    }
}

fn make_action(action: &str, index: &Option<String>, id: &Option<String>) -> (r: Json)
    ensures
        r.view() == action_json(action@, opt_view(*index), opt_view(*id)),
{
    let mut p: Vec<(String, Json)> = Vec::new();
    assert(entries_view(p@) =~= Seq::<(Seq<char>, JsonV)>::empty());
    if let Some(s) = index {
        let ghost before = entries_view(p@);
        p.push(("_index".to_owned(), text_value(s)));
        assert(entries_view(p@) =~= before.push(("_index"@, JsonV::Str(s@))));
    }
    if let Some(s) = id {
        let ghost before = entries_view(p@);
        p.push(("_id".to_owned(), text_value(s)));
        assert(entries_view(p@) =~= before.push(("_id"@, JsonV::Str(s@))));
    }
    let ghost pv = entries_view(p@);
    let mut o: Vec<(String, Json)> = Vec::new();
    o.push((action.to_owned(), Json::Object(p)));
    assert(entries_view(o@) =~= seq![(action@, JsonV::Object(pv))]);
    Json::Object(o)
}

impl EsBulkCodec {
    /// The action of an event: the one in its metadata, or the default.
    pub open spec fn action_of(&self, e: EventV) -> Seq<char> {
        match meta_text(e, "action"@) {
            Some(s) => s,
            None => self.action@,
        }
    }

    /// The index of an event: the one in its metadata, or the default.
    pub open spec fn index_of(&self, e: EventV) -> Option<Seq<char>> {
        match meta_text(e, "_index"@) {
            Some(s) => Some(s),
            None => opt_view(self.index),
        }
    }

    /// Whether the codec is the one that settings ask for.
    pub open spec fn configured(&self, settings: JsonV) -> bool {
        opt_view(self.index) == text_setting(settings, "index"@)
                && self.action@ == (match text_setting(settings, "action"@) {
                Some(s) => s,
                None => "index"@,
            })
    }

    pub fn from_config(settings: &Json) -> (r: Result<Self, CodecError>)
        ensures
            r matches Ok(c) && c.configured(settings.view()),
    {
        let action = match get_text(settings, "action") {
            Some(s) => s,
            None => "index".to_owned(),
        };
        Ok(Self { index: get_text(settings, "index"), action })
    }

    fn decode_lines(ls: &Vec<String>, now: Moment) -> (r: Result<Vec<Event>, CodecError>)
        ensures
            crate::codec::gives_events(r, actions_from(texts_view(ls@), 0, now, Seq::empty())),
            r matches Ok(events) ==> are_events(events@),
    {
        let ghost lv = texts_view(ls@);
        let mut events: Vec<Event> = Vec::new();
        let mut i: usize = 0;
        assert(events_view(events@) =~= Seq::<EventV>::empty());
        while i < ls.len() && !trim(&ls[i]).as_str().is_empty()
            invariant
                i <= ls@.len(),
                are_events(events@),
                lv == texts_view(ls@),
                actions_from(lv, 0, now, Seq::empty()) == actions_from(
                    lv,
                    i as int,
                    now,
                    events_view(events@),
                ),
            decreases ls@.len() - i,
        {
            assert(lv[i as int] == ls@[i as int]@);
            let ghost before = events_view(events@);
            let p = match parse_json(&text_bytes(&ls[i])) {
                Err(e) => return Err(CodecError::Codec(join2("invalid bulk action JSON: ", &e))),
                Ok(Json::Object(p)) => p,
                Ok(_) => return Err(CodecError::Codec("invalid bulk action format".to_owned())),
            };
            assert(entries_view(p@).len() == p@.len());
            if p.len() == 0 {
                return Err(CodecError::Codec("invalid bulk action format".to_owned()));
            }
            assert(entries_view(p@)[0] == (p@[0].0@, p@[0].1.view()));
            if same(&p[0].0, "delete") {
                let mut e = Event::empty(now);
                set_action(&mut e, &p[0].0, &p[0].1);
                events.push(e);
                assert(events_view(events@) =~= before.push(e@));
                i += 1;
            } else {
                if ls.len() - i < 2 {
                    let mut e = Event::empty(now);
                    set_action(&mut e, &p[0].0, &p[0].1);
                    events.push(e);
                    assert(events_view(events@) =~= before.push(e@));
                    assert(actions_from(lv, i + 2, now, events_view(events@)) is Ok);
                    return Ok(events);
                }
                assert(lv[i + 1] == ls@[i + 1]@);
                let mut e = if trim(&ls[i + 1]).as_str().is_empty() {
                    Event::empty(now)
                } else {
                    match parse_json(&text_bytes(&ls[i + 1])) {
                        Err(e) => return Err(
                            CodecError::Codec(join2("invalid bulk source JSON: ", &e)),
                        ),
                        Ok(source) => Event::from_json(&source, now),
                    }
                };
                set_action(&mut e, &p[0].0, &p[0].1);
                events.push(e);
                assert(events_view(events@) =~= before.push(e@));
                i += 2;
            }
        }
        assert(i < ls@.len() ==> lv[i as int] == ls@[i as int]@);
        assert(events_view(events@).len() == events@.len());
        if events.len() == 0 {
            return Err(CodecError::Codec("no bulk actions found".to_owned()));
        }
        Ok(events)
    }
}

impl Default for EsBulkCodec {
    fn default() -> (r: Self)
        ensures
            r.index is None,
            r.action@ == Seq::<char>::empty(),
    {
        let r = Self { index: None, action: String::new() };
        assert(r.action@ =~= Seq::<char>::empty());
        r
    }
}

impl Codec for EsBulkCodec {
    open spec fn name_v(&self) -> Seq<char> {
        "es_bulk"@
    }

    open spec fn decoded(&self, data: Seq<u8>, now: Moment, t: AnswersV) -> DecodedV {
        let text = trim_text(utf8_lossy(data));
        if text.len() == 0 {
            Err(CodecErrV::Codec("empty bulk data"@))
        } else {
            actions_from(lines_from(text, 0, Seq::empty()), 0, now, Seq::empty())
        }
    }

    open spec fn encoded(&self, e: EventV, t: AnswersV) -> EncodedV {
        bulk_lines(t, e, self.action_of(e), self.index_of(e))
    }

    open spec fn learned(&self) -> TemplatesV {
        Map::empty()
    }

    open spec fn learned_after(&self, data: Seq<u8>) -> TemplatesV {
        Map::empty()
    }

    open spec fn stateful(&self) -> bool {
        false
    }

    fn name(&self) -> (r: &'static str) {
        "es_bulk"
    }

    fn decode(&mut self, data: &[u8], now: Moment, answers: &Answers) -> (r: Result<
        Vec<Event>,
        CodecError,
    >)
        ensures
            *final(self) == *old(self),
    {
        let text = trim(&lossy_text(data));
        if text.as_str().is_empty() {
            return Err(CodecError::Codec("empty bulk data".to_owned()));
        }
        Self::decode_lines(&lines(&text), now)
    }

    fn encode(&self, event: &Event, answers: &Answers) -> (r: Result<Vec<u8>, CodecError>)
        ensures
            match r {
                Ok(b) => plain_event(event@) && readable(json_of_event(event@))
                    && !is_private_key(self.action_of(event@))
                    ==> forall|now: Moment, t: AnswersV| #[trigger]
                    self.decoded(b@, now, t) == Ok::<Seq<EventV>, CodecErrV>(
                        seq![
                            with_action(
                                if self.action_of(event@) == "delete"@ {
                                    blank(now)
                                } else {
                                    event_of_json(json_of_event(event@), now)
                                },
                                self.action_of(event@),
                                action_members(
                                    self.index_of(event@),
                                    meta_text(event@, "_id"@),
                                ),
                            ),
                        ],
                    ),
                Err(_) => true,
            },
    {
        let action = match get_meta(event, "action") {
            Some(s) => s,
            None => self.action.clone(),
        };
        let index = match get_meta(event, "_index") {
            Some(s) => Some(s),
            None => match &self.index {
                Some(s) => Some(s.clone()),
                None => None,
            },
        };
        let first = match write_json(
            &make_action(&action, &index, &get_meta(event, "_id")),
            answers,
        ) {
            Ok(s) => s,
            Err(q) => return Err(CodecError::Ask(q)),
        };
        let ghost id = meta_text(event@, "_id"@);
        let ghost meta = action_members(opt_view(index), id);
        proof {
            lemma_action_plain(answers@, action@, opt_view(index), id);
        }
        if same(&action, "delete") {
            proof {
                text_survives(first@ + "\n"@);
                reveal_strlit("delete");
                reveal_strlit("$serde_json::private::");
                assert("delete"@[0] != "$serde_json::private::"@[0]);
                assert forall|now: Moment, t: AnswersV| #[trigger]
                    self.decoded(encode_utf8(first@ + "\n"@), now, t) == Ok::<
                        Seq<EventV>,
                        CodecErrV,
                    >(seq![with_action(blank(now), action@, meta)]) by {
                    lemma_read_deletion(first@, meta, now);
                }
            }
            return Ok(text_bytes(&join2(&first, "\n")));
        }
        let source = match write_json(&event.to_json(), answers) {
            Ok(s) => s,
            Err(q) => return Err(CodecError::Ask(q)),
        };
        let text = join2(&join3(&first, "\n", &source), "\n");
        proof {
            let j = json_of_event(event@);
            if plain_event(event@) && readable(j) && !is_private_key(action@) {
                text_survives(text@);
                assert forall|now: Moment, t: AnswersV| #[trigger]
                    self.decoded(encode_utf8(text@), now, t) == Ok::<Seq<EventV>, CodecErrV>(
                        seq![with_action(event_of_json(j, now), action@, meta)],
                    ) by {
                    event_survives_json(answers@, event@, now);
                    lemma_read_document(first@, source@, action@, meta, j, now);
                }
            }
        }
        Ok(text_bytes(&text))
    }

    fn is_stateful(&self) -> (r: bool) {
        false
    }
}

} // verus!
