//! Laws of the Bulk codec: what becomes of an action and its object.
use crate::codec::es_bulk::{action_json, action_members, with_action, with_meta};
use crate::dict::{key_from, lookup, put_then_lookup};
use crate::event::{with_field, EventV};
use crate::event_laws::{reference, references_name_metadata};
use crate::json::{json_get, JsonV};
use vstd::prelude::*;

verus! {

broadcast use vstd::string::group_string_axioms;

/// The object of an action.
pub open spec fn action_object(
    index: Seq<char>,
    id: Seq<char>,
    routing: Seq<char>,
) -> JsonV {
    JsonV::Object(
        seq![
            ("routing"@, JsonV::Str(routing)),
            ("_id"@, JsonV::Str(id)),
            ("_index"@, JsonV::Str(index)),
        ],
    )
}

proof fn lemma_references()
    ensures
        reference("action"@) == "[@metadata][action]"@,
        reference("_index"@) == "[@metadata][_index]"@,
        reference("_id"@) == "[@metadata][_id]"@,
        reference("routing"@) == "[@metadata][routing]"@,
        "action"@ != "_index"@ && "action"@ != "_id"@ && "action"@ != "routing"@,
        "_index"@ != "_id"@ && "_index"@ != "routing"@ && "_id"@ != "routing"@,
{
    reveal_strlit("action");
    reveal_strlit("_index");
    reveal_strlit("_id");
    reveal_strlit("routing");
    reveal_strlit("[@metadata][");
    reveal_strlit("]");
    reveal_strlit("[@metadata][action]");
    reveal_strlit("[@metadata][_index]");
    reveal_strlit("[@metadata][_id]");
    reveal_strlit("[@metadata][routing]");
    assert(reference("action"@) =~= "[@metadata][action]"@);
    assert(reference("_index"@) =~= "[@metadata][_index]"@);
    assert(reference("_id"@) =~= "[@metadata][_id]"@);
    assert(reference("routing"@) =~= "[@metadata][routing]"@);
    assert("action"@[0] == 'a' && "_index"@[0] == '_' && "_id"@[0] == '_' && "routing"@[0] == 'r');
    assert("_id"@.len() == 3 && "_index"@.len() == 6);
}

/// The metadata of an event tells the action, and the index, the identifier
/// and the routing of its object; the event's fields are those of its document.
pub proof fn actions_become_metadata(
    e: EventV,
    kind: Seq<char>,
    index: Seq<char>,
    id: Seq<char>,
    routing: Seq<char>,
)
    ensures
        ({
            let r = with_action(e, kind, action_object(index, id, routing));
            &&& lookup(r.metadata, "action"@) == Some(JsonV::Str(kind))
            &&& lookup(r.metadata, "_index"@) == Some(JsonV::Str(index))
            &&& lookup(r.metadata, "_id"@) == Some(JsonV::Str(id))
            &&& lookup(r.metadata, "routing"@) == Some(JsonV::Str(routing))
            &&& r.fields == e.fields && r.tags == e.tags && r.timestamp == e.timestamp
        }),
{
    lemma_references();
    let meta = action_object(index, id, routing);
    let p = meta->Object_0;
    reveal_with_fuel(key_from, 4);
    assert(p[0].0 == "routing"@ && p[1].0 == "_id"@ && p[2].0 == "_index"@);
    assert(json_get(meta, "_index"@) == Some(JsonV::Str(index)));
    assert(json_get(meta, "_id"@) == Some(JsonV::Str(id)));
    assert(json_get(meta, "routing"@) == Some(JsonV::Str(routing)));
    let e1 = with_field(e, reference("action"@), JsonV::Str(kind));
    references_name_metadata(e, "action"@, JsonV::Str(kind));
    let e2 = with_meta(e1, meta, "_index"@, reference("_index"@));
    references_name_metadata(e1, "_index"@, JsonV::Str(index));
    let e3 = with_meta(e2, meta, "_id"@, reference("_id"@));
    references_name_metadata(e2, "_id"@, JsonV::Str(id));
    references_name_metadata(e3, "routing"@, JsonV::Str(routing));
    put_then_lookup(e1.metadata, "_index"@, JsonV::Str(index), "action"@);
    put_then_lookup(e2.metadata, "_id"@, JsonV::Str(id), "action"@);
    put_then_lookup(e2.metadata, "_id"@, JsonV::Str(id), "_index"@);
    put_then_lookup(e3.metadata, "routing"@, JsonV::Str(routing), "action"@);
    put_then_lookup(e3.metadata, "routing"@, JsonV::Str(routing), "_index"@);
    put_then_lookup(e3.metadata, "routing"@, JsonV::Str(routing), "_id"@);
}

/// An action that is written names its index and its document, and what is read
/// from it tells them again.
pub proof fn written_actions_tell_their_target(
    e: EventV,
    action: Seq<char>,
    index: Seq<char>,
    id: Seq<char>,
)
    ensures
        json_get(action_json(action, Some(index), Some(id)), action) matches Some(m) && {
            let r = with_action(e, action, m);
            &&& json_get(m, "_index"@) == Some(JsonV::Str(index))
            &&& json_get(m, "_id"@) == Some(JsonV::Str(id))
            &&& lookup(r.metadata, "action"@) == Some(JsonV::Str(action))
            &&& lookup(r.metadata, "_index"@) == Some(JsonV::Str(index))
            &&& lookup(r.metadata, "_id"@) == Some(JsonV::Str(id))
        },
        json_get(action_json(action, None, None), action) == Some(JsonV::Object(Seq::empty())),
{
    lemma_references();
    let meta = action_members(Some(index), Some(id));
    let p = meta->Object_0;
    let o = action_json(action, Some(index), Some(id))->Object_0;
    reveal_with_fuel(key_from, 4);
    assert(p[0].0 == "_index"@ && p[1].0 == "_id"@);
    assert(o[0].0 == action);
    assert(json_get(meta, "_index"@) == Some(JsonV::Str(index)));
    assert(json_get(meta, "_id"@) == Some(JsonV::Str(id)));
    assert(json_get(meta, "routing"@) is None);
    let e1 = with_field(e, reference("action"@), JsonV::Str(action));
    references_name_metadata(e, "action"@, JsonV::Str(action));
    let e2 = with_meta(e1, meta, "_index"@, reference("_index"@));
    references_name_metadata(e1, "_index"@, JsonV::Str(index));
    references_name_metadata(e2, "_id"@, JsonV::Str(id));
    put_then_lookup(e1.metadata, "_index"@, JsonV::Str(index), "action"@);
    put_then_lookup(e2.metadata, "_id"@, JsonV::Str(id), "action"@);
    put_then_lookup(e2.metadata, "_id"@, JsonV::Str(id), "_index"@);
    let none = action_json(action, None, None)->Object_0;
    assert(none[0].0 == action);
}

} // verus!
