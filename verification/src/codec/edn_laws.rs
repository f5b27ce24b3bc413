//! What the EDN codec writes, it reads back.
use crate::codec::edn::{
    density_fault, edn_entries, edn_event, edn_items, edn_members, edn_text, ends_word, list_from,
    map_from, number, past_commas, put_all, starts, string_from, value_at, value_start, word_end,
    EdnCodec, Found, MAX_DEPTH,
};
use crate::codec::json::opt_view;
use crate::codec::laws::{lemma_put_next, text_survives};
use crate::codec::{Codec, CodecErrV};
use crate::dict::{distinct_keys, key_from, lemma_key_from, put, put_then_lookup};
use crate::double::{AnswersV, QueryV};
use crate::event::EventV;
use crate::interchange::{depth, depth_entries, depth_items};
use crate::json::JsonV;
use crate::moment::{is_time_text, rfc3339_full_text, Moment};
use crate::text::{
    i64_of_text, int_text, int_text_reads_back, is_white, trim_text, white_end, white_start,
};
use vstd::prelude::*;
use vstd::utf8::encode_utf8;

verus! {

/// A text without quotes and backslashes, which EDN strings hold as it is.
pub open spec fn unquoted(s: Seq<char>) -> bool {
    forall|i: int| 0 <= i < s.len() ==> (#[trigger] s[i]) != '"' && s[i] != '\\'
}

/// A text without a character that ends a word.
pub open spec fn is_word(s: Seq<char>) -> bool {
    forall|i: int| 0 <= i < s.len() ==> !ends_word(#[trigger] s[i])
}

/// A value that EDN spells without ambiguity: no doubles, no integers above
/// those of an `i64`, texts without quotes and backslashes, and objects whose
/// keys are words, each of them once.
pub open spec fn tame(v: JsonV) -> bool
    decreases v,
{
    match v {
        JsonV::Str(s) => unquoted(s),
        JsonV::UInt(_) => false,
        JsonV::Float(_) => false,
        JsonV::Array(a) => forall|i: int| 0 <= i < a.len() ==> tame(#[trigger] a[i]),
        JsonV::Object(o) => distinct_keys(o) && forall|i: int|
            0 <= i < o.len() ==> tame((#[trigger] o[i]).1) && is_word(o[i].0),
        _ => true,
    }
}

/// The spelling of a value that needs no answer.
spec fn spelled(t: AnswersV, v: JsonV) -> Seq<char> {
    edn_text(t, v)->Ok_0
}

/// The members of a list from `i` on.
spec fn items_tail(t: AnswersV, a: Seq<JsonV>, i: int) -> Seq<char>
    decreases a.len() - i,
{
    if i < 0 || i >= a.len() {
        Seq::empty()
    } else {
        (if i > 0 {
            " "@
        } else {
            Seq::empty()
        }) + spelled(t, a[i]) + items_tail(t, a, i + 1)
    }
}

/// The members of a map from `i` on.
spec fn entries_tail(t: AnswersV, o: Seq<(Seq<char>, JsonV)>, i: int) -> Seq<char>
    decreases o.len() - i,
{
    if i < 0 || i >= o.len() {
        Seq::empty()
    } else {
        (if i > 0 {
            ", "@
        } else {
            Seq::empty()
        }) + ":"@ + o[i].0 + " "@ + spelled(t, o[i].1) + entries_tail(t, o, i + 1)
    }
}

/// A character that begins a value and nothing else.
spec fn begins(c: char) -> bool {
    !ends_word(c) && c != ';'
}

/// Whether a text begins like a value, and does not end in white space.
spec fn framed(s: Seq<char>) -> bool {
    s.len() > 0 && begins(s[0]) && !is_white(s.last())
}

/// A value that is spelled without ambiguity needs no answer.
proof fn lemma_spelled(t: AnswersV, v: JsonV)
    requires
        tame(v),
    ensures
        edn_text(t, v) is Ok,
        framed(spelled(t, v)),
        match v {
            JsonV::Array(a) => spelled(t, v) == "["@ + items_tail(t, a, 0) + "]"@,
            JsonV::Object(o) => spelled(t, v) == "{"@ + entries_tail(t, o, 0) + "}"@,
            _ => true,
        },
    decreases v, 0nat,
{
    reveal_strlit("\"");
    reveal_strlit("true");
    reveal_strlit("false");
    reveal_strlit("nil");
    reveal_strlit("[");
    reveal_strlit("]");
    reveal_strlit("{");
    reveal_strlit("}");
    match v {
        JsonV::Int(n) => {
            int_text_reads_back(n as int);
            let s = int_text(n as int);
            if s.len() > 1 {
                assert(s.skip(1)[s.len() - 2] == s.last());
            }
        },
        JsonV::Array(a) => {
            lemma_items(t, a, 0, "["@);
        },
        JsonV::Object(o) => {
            lemma_entries(t, o, 0, "{"@);
        },
        _ => {},
    }
}

proof fn lemma_items(t: AnswersV, a: Seq<JsonV>, i: int, acc: Seq<char>)
    requires
        forall|k: int| 0 <= k < a.len() ==> tame(#[trigger] a[k]),
    ensures
        edn_items(t, a, i, acc) == Ok::<Seq<char>, QueryV>(acc + items_tail(t, a, i)),
    decreases a, a.len() - i,
{
    if 0 <= i < a.len() {
        lemma_spelled(t, a[i]);
        let s = spelled(t, a[i]);
        let next = if i > 0 {
            acc + " "@ + s
        } else {
            acc + s
        };
        lemma_items(t, a, i + 1, next);
        assert(next + items_tail(t, a, i + 1) =~= acc + items_tail(t, a, i));
    } else {
        assert(acc + items_tail(t, a, i) =~= acc);
    }
}

proof fn lemma_entries(t: AnswersV, o: Seq<(Seq<char>, JsonV)>, i: int, acc: Seq<char>)
    requires
        forall|k: int| 0 <= k < o.len() ==> tame((#[trigger] o[k]).1),
    ensures
        edn_entries(t, o, i, acc) == Ok::<Seq<char>, QueryV>(acc + entries_tail(t, o, i)),
    decreases o, o.len() - i,
{
    if 0 <= i < o.len() {
        lemma_spelled(t, o[i].1);
        let s = spelled(t, o[i].1);
        let next = (if i > 0 {
            acc + ", "@
        } else {
            acc
        }) + ":"@ + o[i].0 + " "@ + s;
        lemma_entries(t, o, i + 1, next);
        assert(next + entries_tail(t, o, i + 1) =~= acc + entries_tail(t, o, i));
    } else {
        assert(acc + entries_tail(t, o, i) =~= acc);
    }
}

/// Whether `s` stands at `i`, and a word would end behind it.
spec fn stands(c: Seq<char>, i: int, s: Seq<char>) -> bool {
    &&& 0 <= i
    &&& i + s.len() <= c.len()
    &&& forall|k: int| 0 <= k < s.len() ==> c[i + k] == #[trigger] s[k]
    &&& i + s.len() < c.len() ==> ends_word(c[i + s.len()])
}

proof fn lemma_word_end(c: Seq<char>, i: int, e: int)
    requires
        0 <= i <= e <= c.len(),
        forall|k: int| i <= k < e ==> !ends_word(#[trigger] c[k]),
        e < c.len() ==> ends_word(c[e]),
    ensures
        word_end(c, i) == e,
    decreases e - i,
{
    if i < e {
        lemma_word_end(c, i + 1, e);
    }
}

proof fn lemma_string(c: Seq<char>, i: int, e: int, acc: Seq<char>)
    requires
        0 <= i <= e < c.len(),
        forall|k: int| i <= k < e ==> (#[trigger] c[k]) != '"' && c[k] != '\\',
        c[e] == '"',
    ensures
        string_from(c, i, acc) == (acc + c.subrange(i, e), e + 1),
    decreases e - i,
{
    if i < e {
        lemma_string(c, i + 1, e, acc.push(c[i]));
        assert(acc.push(c[i]) + c.subrange(i + 1, e) =~= acc + c.subrange(i, e));
    } else {
        assert(acc + c.subrange(i, e) =~= acc);
    }
}

/// What a value is read as that goes up to `e`.
spec fn got(v: JsonV, e: int) -> Found {
    Ok(Some((v, e)))
}

proof fn lemma_not_word(c: Seq<char>, a: int, w: Seq<char>)
    requires
        0 <= a < c.len(),
        w.len() > 0,
        c[a] != w[0],
    ensures
        !starts(c, a, w),
{
    if a + w.len() <= c.len() {
        assert(c.subrange(a, a + w.len())[0] == c[a]);
    }
}

#[verifier::spinoff_prover]
proof fn lemma_value(t: AnswersV, v: JsonV, c: Seq<char>, i: int, d: nat)
    requires
        tame(v),
        d + depth(v) < MAX_DEPTH,
        stands(c, i, spelled(t, v)),
    ensures
        value_at(t, c, i, d) == got(v, i + spelled(t, v).len()),
    decreases v, 0nat,
{
    reveal(value_at);
    lemma_spelled(t, v);
    let s = spelled(t, v);
    let e = i + s.len();
    assert(c[i] == s[0]);
    assert(value_start(c, i) == Some(i));
    reveal_strlit("\"");
    reveal_strlit("true");
    reveal_strlit("false");
    reveal_strlit("nil");
    reveal_strlit("[");
    reveal_strlit("]");
    reveal_strlit("{");
    reveal_strlit("}");
    match v {
        JsonV::Str(x) => {
            assert(s[0] == '"');
            assert forall|k: int| i + 1 <= k < e - 1 implies (#[trigger] c[k]) != '"' && c[k] != '\\' by {
                assert(c[k] == s[k - i]);
                assert(s[k - i] == x[k - i - 1]);
            }
            assert(c[e - 1] == s[s.len() - 1]);
            lemma_string(c, i + 1, e - 1, Seq::empty());
            assert(Seq::<char>::empty() + c.subrange(i + 1, e - 1) =~= x) by {
                assert forall|k: int| 0 <= k < x.len() implies c[i + 1 + k] == x[k] by {
                    assert(c[i + (k + 1)] == s[k + 1]);
                }
            }
        },
        JsonV::Int(n) => {
            int_text_reads_back(n as int);
            assert(s == int_text(n as int));
            assert forall|k: int| i <= k < e implies !ends_word(#[trigger] c[k]) by {
                assert(c[k] == s[k - i]);
                if k > i {
                    assert(s.skip(1)[k - i - 1] == s[k - i]);
                }
            }
            lemma_word_end(c, i, e);
            assert(c.subrange(i, e) =~= s);
            lemma_not_word(c, i, "true"@);
            lemma_not_word(c, i, "false"@);
            lemma_not_word(c, i, "nil"@);
            assert(i64_of_text(s) == Some(n));
            assert(number(t, c, i) == got(v, e));
        },
        JsonV::Bool(b) => {
            assert(c.subrange(i, e) =~= s);
            if !b {
                lemma_not_word(c, i, "true"@);
            }
        },
        JsonV::Null => {
            assert(c.subrange(i, e) =~= s);
            lemma_not_word(c, i, "true"@);
            lemma_not_word(c, i, "false"@);
        },
        JsonV::Array(a) => {
            assert(s[0] == '[');
            assert(a.subrange(0, 0) =~= Seq::empty());
            assert forall|k: int| 0 <= k < items_tail(t, a, 0).len() implies c[i + 1 + k]
                == #[trigger] items_tail(t, a, 0)[k] by {
                assert(c[i + (k + 1)] == s[k + 1]);
            }
            assert(c[i + (s.len() - 1)] == s[s.len() - 1]);
            lemma_list(t, a, 0, c, i + 1, d);
        },
        JsonV::Object(o) => {
            assert(s[0] == '{');
            assert(o.subrange(0, 0) =~= Seq::empty());
            assert forall|k: int| 0 <= k < entries_tail(t, o, 0).len() implies c[i + 1 + k]
                == #[trigger] entries_tail(t, o, 0)[k] by {
                assert(c[i + (k + 1)] == s[k + 1]);
            }
            assert(c[i + (s.len() - 1)] == s[s.len() - 1]);
            lemma_map(t, o, 0, c, i + 1, d);
        },
        _ => {},
    }
}

proof fn lemma_depth_item(a: Seq<JsonV>, i: int, k: int)
    requires
        0 <= i <= k < a.len(),
    ensures
        depth(a[k]) <= depth_items(a, i),
    decreases k - i,
{
    if i < k {
        lemma_depth_item(a, i + 1, k);
    }
}

proof fn lemma_depth_entry(o: Seq<(Seq<char>, JsonV)>, i: int, k: int)
    requires
        0 <= i <= k < o.len(),
    ensures
        depth(o[k].1) <= depth_entries(o, i),
    decreases k - i,
{
    if i < k {
        lemma_depth_entry(o, i + 1, k);
    }
}

proof fn lemma_skip_one(c: Seq<char>, i: int)
    requires
        0 <= i,
        i + 1 < c.len(),
        is_white(c[i]),
        begins(c[i + 1]),
    ensures
        white_end(c, i) == i + 1,
        past_commas(c, i) == i + 1,
        value_start(c, i) == Some(i + 1),
        value_start(c, i + 1) == Some(i + 1),
{
    reveal_with_fuel(white_end, 3);
    assert(white_end(c, i + 1) == i + 1);
}

/// White space before a value makes no difference.
proof fn lemma_value_behind(t: AnswersV, c: Seq<char>, i: int, d: nat)
    requires
        0 <= i,
        i + 1 < c.len(),
        is_white(c[i]),
        begins(c[i + 1]),
    ensures
        value_at(t, c, i, d) == value_at(t, c, i + 1, d),
{
    reveal(value_at);
    lemma_skip_one(c, i);
}

#[verifier::spinoff_prover]
proof fn lemma_list(t: AnswersV, a: Seq<JsonV>, k: int, c: Seq<char>, i: int, d: nat)
    requires
        0 <= k <= a.len(),
        forall|j: int| 0 <= j < a.len() ==> tame(#[trigger] a[j]),
        d + 1 + depth_items(a, 0) < MAX_DEPTH,
        0 <= i,
        i + items_tail(t, a, k).len() < c.len(),
        forall|j: int|
            0 <= j < items_tail(t, a, k).len() ==> c[i + j] == #[trigger] items_tail(t, a, k)[j],
        c[i + items_tail(t, a, k).len()] == ']',
    ensures
        list_from(t, c, i, d, ']', a.subrange(0, k)) == got(
            JsonV::Array(a),
            i + items_tail(t, a, k).len() + 1,
        ),
    decreases a, a.len() - k,
{
    reveal(list_from);
    let tail = items_tail(t, a, k);
    if k == a.len() {
        assert(past_commas(c, i) == i);
        assert(a.subrange(0, k) =~= a);
    } else {
        reveal_strlit(" ");
        lemma_spelled(t, a[k]);
        let s = spelled(t, a[k]);
        let rest = items_tail(t, a, k + 1);
        let at = if k > 0 {
            i + 1
        } else {
            i
        };
        let gap = at - i;
        assert(tail.len() == gap + s.len() + rest.len());
        assert forall|j: int| 0 <= j < s.len() implies c[at + j] == #[trigger] s[j] by {
            assert(c[i + (gap + j)] == tail[gap + j]);
        }
        assert forall|j: int| 0 <= j < rest.len() implies c[at + s.len() + j] == #[trigger] rest[j] by {
            assert(c[i + (gap + s.len() + j)] == tail[gap + s.len() + j]);
        }
        assert(c[at] == s[0]);
        if k > 0 {
            assert(c[i + 0] == tail[0]);
            lemma_skip_one(c, i);
        }
        assert(past_commas(c, i) == at);
        let n = at + s.len();
        assert(ends_word(c[n])) by {
            if k + 1 < a.len() {
                assert(rest[0] == ' ');
                assert(c[at + s.len() + 0] == rest[0]);
            }
        }
        assert(stands(c, at, s));
        lemma_depth_item(a, 0, k);
        lemma_value(t, a[k], c, at, d + 1);
        lemma_list(t, a, k + 1, c, n, d);
        assert(a.subrange(0, k).push(a[k]) =~= a.subrange(0, k + 1));
    }
}

/// A keyword that a space follows.
proof fn lemma_keyword(t: AnswersV, c: Seq<char>, i: int, d: nat, k: Seq<char>)
    requires
        0 <= i,
        i + 1 + k.len() < c.len(),
        c[i] == ':',
        forall|j: int| 0 <= j < k.len() ==> c[i + 1 + j] == #[trigger] k[j],
        is_word(k),
        is_white(c[i + 1 + k.len()]),
        d < MAX_DEPTH,
    ensures
        value_at(t, c, i, d) == got(JsonV::Str(k), i + 1 + k.len()),
{
    reveal(value_at);
    assert(value_start(c, i) == Some(i));
    let e = i + 1 + k.len();
    assert forall|j: int| i + 1 <= j < e implies !ends_word(#[trigger] c[j]) by {
        assert(c[i + 1 + (j - i - 1)] == k[j - i - 1]);
    }
    lemma_word_end(c, i + 1, e);
    assert(c.subrange(i + 1, e) =~= k);
}

#[verifier::spinoff_prover]
proof fn lemma_map(t: AnswersV, o: Seq<(Seq<char>, JsonV)>, k: int, c: Seq<char>, i: int, d: nat)
    requires
        0 <= k <= o.len(),
        tame(JsonV::Object(o)),
        d + 1 + depth_entries(o, 0) < MAX_DEPTH,
        0 <= i,
        i + entries_tail(t, o, k).len() < c.len(),
        forall|j: int|
            0 <= j < entries_tail(t, o, k).len() ==> c[i + j] == #[trigger] entries_tail(t, o, k)[j],
        c[i + entries_tail(t, o, k).len()] == '}',
    ensures
        map_from(t, c, i, d, o.subrange(0, k)) == got(
            JsonV::Object(o),
            i + entries_tail(t, o, k).len() + 1,
        ),
    decreases o, o.len() - k,
{
    reveal(map_from);
    let tail = entries_tail(t, o, k);
    if k == o.len() {
        assert(past_commas(c, i) == i);
        assert(o.subrange(0, k) =~= o);
    } else {
        reveal_strlit(", ");
        reveal_strlit(" ");
        reveal_strlit(":");
        let key = o[k].0;
        lemma_spelled(t, o[k].1);
        let s = spelled(t, o[k].1);
        let rest = entries_tail(t, o, k + 1);
        let gap: int = if k > 0 {
            2
        } else {
            0
        };
        let at = i + gap;
        let m = at + 1 + key.len();
        let n = m + 1 + s.len();
        assert(tail.len() == gap + 1 + key.len() + 1 + s.len() + rest.len());
        assert(c[i + gap] == tail[gap] && tail[gap] == ':');
        assert forall|j: int| 0 <= j < key.len() implies c[at + 1 + j] == #[trigger] key[j] by {
            assert(c[i + (gap + 1 + j)] == tail[gap + 1 + j]);
        }
        assert(c[i + (gap + 1 + key.len())] == tail[gap + 1 + key.len() as int]);
        assert(c[m] == ' ');
        assert forall|j: int| 0 <= j < s.len() implies c[m + 1 + j] == #[trigger] s[j] by {
            assert(c[i + (gap + 2 + key.len() + j)] == tail[gap + 2 + key.len() + j]);
        }
        assert forall|j: int| 0 <= j < rest.len() implies c[n + j] == #[trigger] rest[j] by {
            assert(c[i + (gap + 2 + key.len() + s.len() + j)] == tail[gap + 2 + key.len() + s.len()
                + j]);
        }
        if k > 0 {
            assert(c[i + 0] == tail[0] && c[i + 1] == tail[1]);
            assert(c[i] == ',' && c[i + 1] == ' ');
            assert(white_end(c, i) == i);
            lemma_skip_one(c, i + 1);
        }
        assert(past_commas(c, i) == at);
        assert(c[m + 1 + 0] == s[0]);
        lemma_keyword(t, c, at, d + 1, key);
        lemma_value_behind(t, c, m, d + 1);
        assert(ends_word(c[n])) by {
            if k + 1 < o.len() {
                assert(rest[0] == ',');
                assert(c[n + 0] == rest[0]);
            }
        }
        assert(stands(c, m + 1, s));
        lemma_depth_entry(o, 0, k);
        lemma_value(t, o[k].1, c, m + 1, d + 1);
        lemma_put_next(o, k);
        lemma_map(t, o, k + 1, c, n, d);
    }
}

/// A value that EDN spells without ambiguity is read back from its spelling.
pub proof fn value_survives_edn(t: AnswersV, v: JsonV)
    requires
        tame(v),
        depth(v) < MAX_DEPTH,
    ensures
        match edn_text(t, v) {
            Ok(s) => value_at(t, s, 0, 0) == Ok::<Option<(JsonV, int)>, QueryV>(
                Some((v, s.len() as int)),
            ),
            Err(_) => false,
        },
{
    lemma_spelled(t, v);
    lemma_value(t, v, spelled(t, v), 0, 0);
}

/// The line that spells a value, as far as the density check lets it through,
/// is decoded to the event of that value.
pub proof fn line_survives_edn(c: EdnCodec, t: AnswersV, v: JsonV, now: Moment)
    requires
        tame(v),
        depth(v) < MAX_DEPTH,
        edn_text(t, v) matches Ok(s) && density_fault(s) is None,
    ensures
        c.decoded(encode_utf8(edn_text(t, v)->Ok_0 + "\n"@), now, t) == (match edn_event(
            t,
            opt_view(c.target),
            v,
            now,
        ) {
            Ok(e) => Ok::<Seq<EventV>, CodecErrV>(seq![e]),
            Err(q) => Err(CodecErrV::Ask(q)),
        }),
{
    lemma_spelled(t, v);
    value_survives_edn(t, v);
    let s = spelled(t, v);
    reveal_strlit("\n");
    let line = s + "\n"@;
    text_survives(line);
    assert(line[0] == s[0] && line[s.len() - 1] == s.last() && line.last() == '\n');
    assert(white_end(line, 0) == 0);
    reveal_with_fuel(white_start, 3);
    assert(white_start(line, 0, line.len() as int) == s.len());
    assert(trim_text(line) =~= s);
}

proof fn lemma_put_tame(p: Seq<(Seq<char>, JsonV)>, k: Seq<char>, v: JsonV)
    requires
        tame(JsonV::Object(p)),
        is_word(k),
        tame(v),
    ensures
        tame(JsonV::Object(put(p, k, v))),
{
    put_then_lookup(p, k, v, k);
    lemma_key_from(p, k, 0);
    let q = put(p, k, v);
    let n = key_from(p, k, 0);
    assert forall|i: int| 0 <= i < q.len() implies tame((#[trigger] q[i]).1) && is_word(q[i].0) by {
        if i == n {
            assert(q[i] == (k, v));
        } else {
            assert(q[i] == p[i]);
        }
    }
}

proof fn lemma_put_all_tame(acc: Seq<(Seq<char>, JsonV)>, p: Seq<(Seq<char>, JsonV)>, i: int)
    requires
        tame(JsonV::Object(acc)),
        tame(JsonV::Object(p)),
    ensures
        tame(JsonV::Object(put_all(acc, p, i))),
    decreases p.len() - i,
{
    if 0 <= i < p.len() {
        lemma_put_tame(acc, p[i].0, p[i].1);
        lemma_put_all_tame(put(acc, p[i].0, p[i].1), p, i + 1);
    }
}

/// An event whose fields EDN spells without ambiguity is encoded to a line
/// that, as far as the density check lets it through, is decoded to an event
/// with those fields, and with its time among them.
pub proof fn event_survives_edn(c: EdnCodec, t: AnswersV, e: EventV, now: Moment)
    requires
        tame(JsonV::Object(e.fields)),
        is_time_text(rfc3339_full_text(e.timestamp.secs, e.timestamp.nanos)),
        depth(JsonV::Object(edn_members(e))) < MAX_DEPTH,
        edn_text(t, JsonV::Object(edn_members(e))) matches Ok(s) ==> density_fault(s) is None,
    ensures
        match (
            c.encoded(e, t),
            edn_event(t, opt_view(c.target), JsonV::Object(edn_members(e)), now),
        ) {
            (Ok(b), Ok(f)) => c.decoded(b, now, t) == Ok::<Seq<EventV>, CodecErrV>(seq![f]),
            _ => false,
        },
{
    reveal_strlit("@timestamp");
    let time = rfc3339_full_text(e.timestamp.secs, e.timestamp.nanos);
    let first = seq![("@timestamp"@, JsonV::Str(time))];
    assert(tame(JsonV::Object(first))) by {
        assert(tame(JsonV::Str(time)));
        assert(is_word("@timestamp"@));
        assert(first.len() == 1 && first[0] == ("@timestamp"@, JsonV::Str(time)));
    }
    lemma_put_all_tame(first, e.fields, 0);
    let v = JsonV::Object(edn_members(e));
    lemma_spelled(t, v);
    line_survives_edn(c, t, v, now);
}

} // verus!
