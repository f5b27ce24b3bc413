//! Laws of the script codec: what its statements do to an event.
use crate::codec::format_laws::lemma_split_joined;
use crate::codec::plain::end_without;
use crate::codec::record_laws::{lemma_differs, lemma_first_at};
use crate::codec::script::{
    after_script, after_statement, after_statements, argument, start_without, trimmed_of, unquoted,
    value_of,
};
use crate::double::{ask_parse, AnswersV, QueryV};
use crate::event::{field_of, with_field, with_tag, without_field, EventV};
use crate::json::JsonV;
use crate::script::method_laws::joined;
use crate::text::{
    int_of_text, int_text, int_text_reads_back, is_digit, is_white, lemma_nat_text, occurs_at,
    split_text, trim_text, white_end, white_start,
};
use vstd::prelude::*;

verus! {

broadcast use vstd::string::group_string_axioms;

/// A text that can stand between quotes as it is.
pub open spec fn is_word(x: Seq<char>) -> bool {
    forall|i: int| 0 <= i < x.len() ==> (#[trigger] x[i]) != '"' && x[i] != '\'' && x[i] != ','
}

/// A text between quotes.
pub open spec fn quoted(x: Seq<char>) -> Seq<char> {
    seq!['"'] + x + seq!['"']
}

/// What a statement leaves of an event.
pub open spec fn leaves(r: Result<EventV, QueryV>, e: EventV) -> bool {
    r == Ok::<EventV, QueryV>(e)
}

proof fn lemma_trim(s: Seq<char>)
    requires
        s.len() > 0,
        !is_white(s[0]),
        !is_white(s.last()),
    ensures
        trim_text(s) == s,
        trim_text(seq![' '] + s) == s,
{
    assert(white_end(s, 0) == 0);
    assert(white_start(s, 0, s.len() as int) == s.len());
    assert(s.subrange(0, s.len() as int) =~= s);
    let x = seq![' '] + s;
    assert(x[0] == ' ' && x[1] == s[0] && x.last() == s.last());
    reveal_with_fuel(white_end, 3);
    assert(white_end(x, 0) == 1);
    assert(white_start(x, 1, x.len() as int) == x.len());
    assert(x.subrange(1, x.len() as int) =~= s);
}

proof fn lemma_quoted(x: Seq<char>)
    requires
        is_word(x),
    ensures
        trim_text(quoted(x)) == quoted(x),
        trim_text(seq![' '] + quoted(x)) == quoted(x),
        unquoted(quoted(x)) == x,
{
    let q = quoted(x);
    let n = x.len() as int;
    assert(q[0] == '"' && q.last() == '"' && q[n + 1] == '"');
    lemma_trim(q);
    reveal_with_fuel(start_without, 3);
    reveal_with_fuel(end_without, 4);
    if n > 0 {
        assert(q[1] == x[0] && q[n] == x[n - 1]);
        assert(start_without(q, '"', 0) == 1);
        assert(end_without(q, '"', n + 2) == n + 1);
        assert(q.subrange(1, n + 1) =~= x);
        assert(start_without(x, '\'', 0) == 0);
        assert(end_without(x, '\'', n) == n);
        assert(x.subrange(0, n) =~= x);
    } else {
        assert(start_without(q, '"', 0) == 2);
        assert(trimmed_of(q, '"') =~= x);
        assert(trimmed_of(x, '\'') =~= x);
    }
}

proof fn lemma_argument(open: Seq<char>, x: Seq<char>)
    ensures
        argument(open + x + seq![')'], open) == Some(x),
{
    let s = open + x + seq![')'];
    assert(open.is_prefix_of(s));
    assert(s.last() == ')');
    assert(s.subrange(open.len() as int, s.len() - 1) =~= x);
}

proof fn lemma_no_argument(s: Seq<char>, open: Seq<char>, k: int)
    requires
        0 <= k < open.len(),
        k < s.len(),
        s[k] != open[k],
    ensures
        argument(s, open) is None,
{
    if open.is_prefix_of(s) {
        assert(s[k] == open[k]);
    }
}

/// `event.tag("x")` gives the event the tag.
pub proof fn tag_statements_tag(t: AnswersV, e: EventV, x: Seq<char>)
    requires
        is_word(x),
    ensures
        leaves(
            after_statement(t, e, "event.tag("@ + quoted(x) + seq![')']),
            with_tag(e, x),
        ),
{
    let s = "event.tag("@ + quoted(x) + seq![')'];
    reveal_strlit("event.tag(");
    reveal_strlit("event.cancel()");
    assert(s[6] == "event.tag("@[6]);
    lemma_argument("event.tag("@, quoted(x));
    lemma_quoted(x);
}

/// `event.remove("x")` takes the field away.
pub proof fn remove_statements_remove(t: AnswersV, e: EventV, x: Seq<char>)
    requires
        is_word(x),
    ensures
        leaves(
            after_statement(t, e, "event.remove("@ + quoted(x) + seq![')']),
            without_field(e, x),
        ),
{
    let s = "event.remove("@ + quoted(x) + seq![')'];
    reveal_strlit("event.tag(");
    reveal_strlit("event.set(");
    reveal_strlit("event.remove(");
    reveal_strlit("event.cancel()");
    assert(s[6] == "event.remove("@[6]);
    lemma_no_argument(s, "event.tag("@, 6);
    lemma_no_argument(s, "event.set("@, 6);
    lemma_argument("event.remove("@, quoted(x));
    lemma_quoted(x);
}

/// `event.cancel()` marks the event as one to drop, and changes nothing else.
pub proof fn cancel_statements_cancel(t: AnswersV, e: EventV)
    ensures
        after_statement(t, e, "event.cancel()"@) matches Ok(r) && r.cancelled && r.fields
            == e.fields && r.metadata == e.metadata && r.tags == e.tags && r.timestamp
            == e.timestamp,
{
}

/// What is written to set a field to a value.
pub open spec fn set_text(field: Seq<char>, value: Seq<char>) -> Seq<char> {
    "event.set("@ + (quoted(field) + seq![',', ' '] + value) + seq![')']
}

proof fn lemma_set(t: AnswersV, e: EventV, field: Seq<char>, value: Seq<char>)
    requires
        is_word(field),
        value.len() > 0,
        !is_white(value[0]),
        !is_white(value.last()),
    ensures
        after_statement(t, e, set_text(field, value)) == (match value_of(t, value, e) {
            Ok(v) => Ok(with_field(e, field, v)),
            Err(q) => Err(q),
        }),
{
    let s = set_text(field, value);
    let x = quoted(field) + seq![',', ' '] + value;
    reveal_strlit("event.tag(");
    reveal_strlit("event.set(");
    reveal_strlit("event.cancel()");
    reveal_strlit(",");
    assert(s[6] == "event.set("@[6]);
    lemma_no_argument(s, "event.tag("@, 6);
    lemma_argument("event.set("@, x);
    lemma_quoted(field);
    let n = quoted(field).len() as int;
    assert(x[n] == ',');
    assert(occurs_at(x, ","@, n)) by {
        assert(x.subrange(n, n + 1) =~= ","@);
    }
    assert forall|j: int| 0 <= j < n implies !occurs_at(x, ","@, j) by {
        if 0 < j < n - 1 {
            assert(x[j] == field[j - 1]);
        } else {
            assert(x[j] == '"');
        }
        lemma_differs(x, ","@, j, 0);
    }
    lemma_first_at(x, ","@, 0, n);
    assert(x.subrange(0, n) =~= quoted(field));
    assert(x.subrange(n + 1, x.len() as int) =~= seq![' '] + value);
    lemma_trim(value);
}

/// `event.set("field", "text")` sets the field to the text.
pub proof fn set_statements_set_texts(t: AnswersV, e: EventV, field: Seq<char>, x: Seq<char>)
    requires
        is_word(field),
        is_word(x),
    ensures
        leaves(
            after_statement(t, e, set_text(field, quoted(x))),
            with_field(e, field, JsonV::Str(x)),
        ),
{
    reveal_strlit("\"");
    let q = quoted(x);
    assert(q[0] == '"' && q.last() == '"');
    lemma_set(t, e, field, q);
    lemma_quoted(x);
    assert("\""@.is_prefix_of(q));
}

/// `event.set("field", 5)` sets the field to the integer.
pub proof fn set_statements_set_integers(t: AnswersV, e: EventV, field: Seq<char>, n: i64)
    requires
        is_word(field),
    ensures
        leaves(
            after_statement(t, e, set_text(field, int_text(n as int))),
            with_field(e, field, JsonV::Int(n)),
        ),
{
    reveal_strlit("\"");
    reveal_strlit("'");
    let x = int_text(n as int);
    int_text_reads_back(n as int);
    if n < 0 {
        lemma_nat_text((-n) as nat);
    } else {
        lemma_nat_text(n as nat);
    }
    assert(is_digit(x.last()));
    lemma_set(t, e, field, x);
    if "\""@.is_prefix_of(x) {
        assert(x[0] == "\""@[0]);
    }
    if "'"@.is_prefix_of(x) {
        assert(x[0] == "'"@[0]);
    }
}

/// `event.set("field", true)` sets the field to the flag, where the word is no
/// number.
pub proof fn set_statements_set_flags(t: AnswersV, e: EventV, field: Seq<char>)
    requires
        is_word(field),
        ask_parse(t, "true"@) == Ok::<Option<u64>, QueryV>(None),
        ask_parse(t, "false"@) == Ok::<Option<u64>, QueryV>(None),
        ask_parse(t, "nil"@) == Ok::<Option<u64>, QueryV>(None),
    ensures
        leaves(
            after_statement(t, e, set_text(field, "true"@)),
            with_field(e, field, JsonV::Bool(true)),
        ),
        leaves(
            after_statement(t, e, set_text(field, "false"@)),
            with_field(e, field, JsonV::Bool(false)),
        ),
        leaves(
            after_statement(t, e, set_text(field, "nil"@)),
            with_field(e, field, JsonV::Null),
        ),
{
    reveal_strlit("\"");
    reveal_strlit("'");
    reveal_strlit("true");
    reveal_strlit("false");
    reveal_strlit("nil");
    lemma_set(t, e, field, "true"@);
    lemma_set(t, e, field, "false"@);
    lemma_set(t, e, field, "nil"@);
    assert("true"@[0] == 't' && "false"@[0] == 'f' && "nil"@[0] == 'n');
    assert("\""@[0] == '"' && "'"@[0] == '\'');
    assert(int_of_text("true"@) is None) by {
        assert(!is_digit("true"@[0]));
    }
    assert(int_of_text("false"@) is None) by {
        assert(!is_digit("false"@[0]));
    }
    assert(int_of_text("nil"@) is None) by {
        assert(!is_digit("nil"@[0]));
    }
}

/// `event.set("field", event.get("other"))` copies a field, where the call is
/// no number; one that is not set gives null.
pub proof fn set_statements_copy_fields(t: AnswersV, e: EventV, field: Seq<char>, other: Seq<char>)
    requires
        is_word(field),
        is_word(other),
        ask_parse(t, "event.get("@ + quoted(other) + seq![')']) == Ok::<Option<u64>, QueryV>(None),
    ensures
        leaves(
            after_statement(
                t,
                e,
                set_text(field, "event.get("@ + quoted(other) + seq![')']),
            ),
            with_field(
                e,
                field,
                match field_of(e, other) {
                    Some(v) => v,
                    None => JsonV::Null,
                },
            ),
        ),
{
    reveal_strlit("\"");
    reveal_strlit("'");
    reveal_strlit("event.get(");
    reveal_strlit("true");
    reveal_strlit("false");
    reveal_strlit("nil");
    reveal_strlit("null");
    let x = "event.get("@ + quoted(other) + seq![')'];
    assert(x[0] == 'e' && x.last() == ')');
    assert("\""@[0] == '"' && "'"@[0] == '\'');
    assert("true"@[0] == 't' && "false"@[0] == 'f' && "nil"@[0] == 'n' && "null"@[0] == 'n');
    lemma_set(t, e, field, x);
    assert(int_of_text(x) is None) by {
        assert(!is_digit(x[0]));
    }
    lemma_argument("event.get("@, quoted(other));
    lemma_quoted(other);
}

proof fn lemma_split(a: Seq<char>, b: Seq<char>)
    requires
        !a.contains(';'),
        !b.contains(';'),
    ensures
        split_text(a + ";"@ + b, ";"@) == seq![a, b],
        split_text(a, ";"@) == seq![a],
        split_text(b, ";"@) == seq![b],
{
    reveal_strlit(";");
    let p = ";"@;
    let c = seq![a, b];
    let x = seq![a];
    let y = seq![b];
    reveal_with_fuel(joined, 3);
    assert(p.len() == 1 && p[0] == ';');
    assert(joined(x, p) =~= a);
    assert(joined(y, p) =~= b);
    assert(joined(c, p) =~= a + p + b);
    assert forall|i: int| 0 <= i < c.len() implies !(#[trigger] c[i]).contains(p[0]) by {}
    lemma_split_joined(c, p);
    lemma_split_joined(x, p);
    lemma_split_joined(y, p);
}

/// Statements with a semicolon between them run one behind the other.
pub proof fn statements_run_in_order(t: AnswersV, e: EventV, a: Seq<char>, b: Seq<char>)
    requires
        !a.contains(';'),
        !b.contains(';'),
    ensures
        after_script(t, e, a + ";"@ + b) == (match after_script(t, e, a) {
            Ok(e2) => after_script(t, e2, b),
            Err(q) => Err(q),
        }),
{
    lemma_split(a, b);
    reveal_strlit(";");
    let s = seq![a, b];
    let x = seq![a];
    let y = seq![b];
    reveal_with_fuel(after_statements, 3);
    let none = Seq::<char>::empty();
    assert(a.len() == 0 ==> a =~= none);
    assert(b.len() == 0 ==> b =~= none);
    assert(trim_text(none) =~= none);
    assert(s[0] == a && s[1] == b && x[0] == a && y[0] == b);
}

} // verus!
