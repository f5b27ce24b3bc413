//! Laws of events: what references name, and how fields and tags come and go.
use crate::dict::{put_then_lookup, without_then_lookup};
use crate::event::{
    field_of, is_event, message_of, metadata_key, same_field, set_field_then_get, with_field,
    with_message, with_tag, without_field, EventV,
};
use crate::json::JsonV;
use vstd::prelude::*;

verus! {

broadcast use vstd::string::group_string_axioms;

/// A reference to metadata.
pub open spec fn reference(k: Seq<char>) -> Seq<char> {
    "[@metadata]["@ + k + "]"@
}

/// What is set by a reference to metadata is metadata, and no field.
pub proof fn references_name_metadata(e: EventV, k: Seq<char>, v: JsonV)
    ensures
        metadata_key(reference(k)) == Some(k),
        field_of(with_field(e, reference(k), v), reference(k)) == Some(v),
        with_field(e, reference(k), v).fields == e.fields,
        without_field(e, reference(k)).fields == e.fields,
{
    reveal_strlit("[@metadata][");
    reveal_strlit("]");
    let r = reference(k);
    assert("[@metadata]["@.is_prefix_of(r));
    assert("]"@.is_suffix_of(r));
    assert(r.subrange(12, r.len() - 1) =~= k);
    set_field_then_get(e, r, v, r);
}

/// A field that is removed is gone, and others stay.
pub proof fn removed_fields_are_gone(e: EventV, field: Seq<char>, other: Seq<char>)
    requires
        is_event(e),
    ensures
        field_of(without_field(e, field), field) is None,
        !same_field(other, field) ==> field_of(without_field(e, field), other) == field_of(
            e,
            other,
        ),
        without_field(e, field).tags == e.tags,
        without_field(e, field).timestamp == e.timestamp,
{
    match metadata_key(field) {
        Some(k) => {
            let o = match metadata_key(other) {
                Some(o) => o,
                None => k,
            };
            without_then_lookup(e.metadata, k, o);
        },
        None => {
            without_then_lookup(e.fields, field, other);
        },
    }
}

/// An event has the tags that it was given, each once, and tags change no
/// field.
pub proof fn tags_are_held_once(e: EventV, tag: Seq<char>, other: Seq<char>)
    ensures
        with_tag(e, tag).tags.contains(tag),
        other != tag ==> (with_tag(e, tag).tags.contains(other) <==> e.tags.contains(other)),
        e.tags.no_duplicates() ==> with_tag(e, tag).tags.no_duplicates(),
        with_tag(with_tag(e, tag), tag) == with_tag(e, tag),
        with_tag(e, tag).fields == e.fields,
        with_tag(e, tag).metadata == e.metadata,
{
    let t = with_tag(e, tag).tags;
    if !e.tags.contains(tag) {
        assert(t[e.tags.len() as int] == tag);
        assert forall|i: int| 0 <= i < e.tags.len() implies t[i] == #[trigger] e.tags[i] by {}
        if e.tags.contains(other) {
            let i = choose|i: int| 0 <= i < e.tags.len() && e.tags[i] == other;
            assert(t[i] == other);
        }
    }
}

/// The message of an event is the one that it was given last, and reads as the
/// field `message`.
pub proof fn messages_are_fields(e: EventV, s: Seq<char>)
    ensures
        message_of(with_message(e, s)) == Some(s),
        field_of(with_message(e, s), "message"@) == Some(JsonV::Str(s)),
        message_of(with_field(e, "message"@, JsonV::Str(s))) == Some(s),
        message_of(with_field(e, "message"@, JsonV::Null)) is None,
{
    reveal_strlit("[@metadata][");
    reveal_strlit("message");
    if "[@metadata]["@.is_prefix_of("message"@) {
        assert("[@metadata]["@[0] == "message"@[0]);
    }
    put_then_lookup(e.fields, "message"@, JsonV::Str(s), "message"@);
    put_then_lookup(e.fields, "message"@, JsonV::Null, "message"@);
}

} // verus!
