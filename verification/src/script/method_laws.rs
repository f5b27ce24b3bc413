//! What the methods of texts, lists, maps and dates give.
use crate::dict::{distinct_keys, put, put_then_lookup, without_then_lookup};
use crate::double::AnswersV;
use crate::script::date::{
    day_of_week, days_before_counts_days, days_from_civil, epoch_ms_of, parts_denote_their_second,
    parts_of_epoch,
};
use crate::script::number::small_integers_are_doubles;
use crate::script::semantics::{
    date_getter, date_unit, index_of, is_date_getter, math, method, HaltV, Val,
};
use crate::script::value::ScriptV;
use crate::text::{
    find_from, is_white, lemma_find_from, occurs_at, replace_from, split_from, split_text,
    white_end, white_start,
};
use vstd::prelude::*;
use vstd::utf8::{encode_utf8, is_ascii_chars, is_ascii_chars_encode_utf8};

verus! {

/// The names of methods are different texts.
proof fn lemma_method_names()
    ensures
        "toUpperCase"@.len() == 11,
        "toLowerCase"@.len() == 11,
        "length"@.len() == 6,
        "contains"@.len() == 8,
        "substring"@.len() == 9,
        "trim"@.len() == 4,
        "startsWith"@.len() == 10,
        "endsWith"@.len() == 8,
        "replace"@.len() == 7,
        "split"@.len() == 5,
        "indexOf"@.len() == 7,
        "charAt"@.len() == 6,
        "find"@.len() == 4,
        "matches"@.len() == 7,
        "size"@.len() == 4,
        "add"@.len() == 3,
        "remove"@.len() == 6,
        "isEmpty"@.len() == 7,
        "get"@.len() == 3,
        "join"@.len() == 4,
        "containsKey"@.len() == 11,
        "put"@.len() == 3,
        "keySet"@.len() == 6,
        "values"@.len() == 6,
        "containsValue"@.len() == 13,
        "group"@.len() == 5,
        "value"@.len() == 5,
        "getYear"@.len() == 7,
        "getMonthValue"@.len() == 13,
        "getDayOfMonth"@.len() == 13,
        "getHour"@.len() == 7,
        "getMinute"@.len() == 9,
        "getSecond"@.len() == 9,
        "getNano"@.len() == 7,
        "getDayOfWeek"@.len() == 12,
        "getDayOfYear"@.len() == 12,
        "getMillis"@.len() == 9,
        "toEpochMilli"@.len() == 12,
        "toInstant"@.len() == 9,
        "plusDays"@.len() == 8,
        "minusDays"@.len() == 9,
        "plusHours"@.len() == 9,
        "minusHours"@.len() == 10,
        "plusMinutes"@.len() == 11,
        "minusMinutes"@.len() == 12,
        "plusSeconds"@.len() == 11,
        "minusSeconds"@.len() == 12,
        "matcher"@.len() == 7,
        "toLowerCase"@ != "toUpperCase"@,
        "endsWith"@ != "contains"@,
        "indexOf"@ != "replace"@,
        "charAt"@ != "length"@,
        "find"@ != "trim"@,
        "matches"@ != "replace"@,
        "matches"@ != "indexOf"@,
        "size"@ != "trim"@,
        "size"@ != "find"@,
        "remove"@ != "length"@,
        "remove"@ != "charAt"@,
        "isEmpty"@ != "replace"@,
        "isEmpty"@ != "indexOf"@,
        "isEmpty"@ != "matches"@,
        "get"@ != "add"@,
        "join"@ != "trim"@,
        "join"@ != "find"@,
        "join"@ != "size"@,
        "containsKey"@ != "toUpperCase"@,
        "containsKey"@ != "toLowerCase"@,
        "put"@ != "add"@,
        "put"@ != "get"@,
        "keySet"@ != "length"@,
        "keySet"@ != "charAt"@,
        "keySet"@ != "remove"@,
        "values"@ != "length"@,
        "values"@ != "charAt"@,
        "values"@ != "remove"@,
        "values"@ != "keySet"@,
        "group"@ != "split"@,
        "value"@ != "split"@,
        "value"@ != "group"@,
        "getYear"@ != "replace"@,
        "getYear"@ != "indexOf"@,
        "getYear"@ != "matches"@,
        "getYear"@ != "isEmpty"@,
        "getMonthValue"@ != "containsValue"@,
        "getDayOfMonth"@ != "containsValue"@,
        "getDayOfMonth"@ != "getMonthValue"@,
        "getHour"@ != "replace"@,
        "getHour"@ != "indexOf"@,
        "getHour"@ != "matches"@,
        "getHour"@ != "isEmpty"@,
        "getHour"@ != "getYear"@,
        "getMinute"@ != "substring"@,
        "getSecond"@ != "substring"@,
        "getSecond"@ != "getMinute"@,
        "getNano"@ != "replace"@,
        "getNano"@ != "indexOf"@,
        "getNano"@ != "matches"@,
        "getNano"@ != "isEmpty"@,
        "getNano"@ != "getYear"@,
        "getNano"@ != "getHour"@,
        "getDayOfYear"@ != "getDayOfWeek"@,
        "getMillis"@ != "substring"@,
        "getMillis"@ != "getMinute"@,
        "getMillis"@ != "getSecond"@,
        "toEpochMilli"@ != "getDayOfWeek"@,
        "toEpochMilli"@ != "getDayOfYear"@,
        "toInstant"@ != "substring"@,
        "toInstant"@ != "getMinute"@,
        "toInstant"@ != "getSecond"@,
        "toInstant"@ != "getMillis"@,
        "plusDays"@ != "contains"@,
        "plusDays"@ != "endsWith"@,
        "minusDays"@ != "substring"@,
        "minusDays"@ != "getMinute"@,
        "minusDays"@ != "getSecond"@,
        "minusDays"@ != "getMillis"@,
        "minusDays"@ != "toInstant"@,
        "plusHours"@ != "substring"@,
        "plusHours"@ != "getMinute"@,
        "plusHours"@ != "getSecond"@,
        "plusHours"@ != "getMillis"@,
        "plusHours"@ != "toInstant"@,
        "plusHours"@ != "minusDays"@,
        "minusHours"@ != "startsWith"@,
        "plusMinutes"@ != "toUpperCase"@,
        "plusMinutes"@ != "toLowerCase"@,
        "plusMinutes"@ != "containsKey"@,
        "minusMinutes"@ != "getDayOfWeek"@,
        "minusMinutes"@ != "getDayOfYear"@,
        "minusMinutes"@ != "toEpochMilli"@,
        "plusSeconds"@ != "toUpperCase"@,
        "plusSeconds"@ != "toLowerCase"@,
        "plusSeconds"@ != "containsKey"@,
        "plusSeconds"@ != "plusMinutes"@,
        "minusSeconds"@ != "getDayOfWeek"@,
        "minusSeconds"@ != "getDayOfYear"@,
        "minusSeconds"@ != "toEpochMilli"@,
        "minusSeconds"@ != "minusMinutes"@,
        "matcher"@ != "replace"@,
        "matcher"@ != "indexOf"@,
        "matcher"@ != "matches"@,
        "matcher"@ != "isEmpty"@,
        "matcher"@ != "getYear"@,
        "matcher"@ != "getHour"@,
        "matcher"@ != "getNano"@,
{
    reveal_strlit("toUpperCase");
    reveal_strlit("toLowerCase");
    reveal_strlit("length");
    reveal_strlit("contains");
    reveal_strlit("substring");
    reveal_strlit("trim");
    reveal_strlit("startsWith");
    reveal_strlit("endsWith");
    reveal_strlit("replace");
    reveal_strlit("split");
    reveal_strlit("indexOf");
    reveal_strlit("charAt");
    reveal_strlit("find");
    reveal_strlit("matches");
    reveal_strlit("size");
    reveal_strlit("add");
    reveal_strlit("remove");
    reveal_strlit("isEmpty");
    reveal_strlit("get");
    reveal_strlit("join");
    reveal_strlit("containsKey");
    reveal_strlit("put");
    reveal_strlit("keySet");
    reveal_strlit("values");
    reveal_strlit("containsValue");
    reveal_strlit("group");
    reveal_strlit("value");
    reveal_strlit("getYear");
    reveal_strlit("getMonthValue");
    reveal_strlit("getDayOfMonth");
    reveal_strlit("getHour");
    reveal_strlit("getMinute");
    reveal_strlit("getSecond");
    reveal_strlit("getNano");
    reveal_strlit("getDayOfWeek");
    reveal_strlit("getDayOfYear");
    reveal_strlit("getMillis");
    reveal_strlit("toEpochMilli");
    reveal_strlit("toInstant");
    reveal_strlit("plusDays");
    reveal_strlit("minusDays");
    reveal_strlit("plusHours");
    reveal_strlit("minusHours");
    reveal_strlit("plusMinutes");
    reveal_strlit("minusMinutes");
    reveal_strlit("plusSeconds");
    reveal_strlit("minusSeconds");
    reveal_strlit("matcher");
    assert("toLowerCase"@[2] != "toUpperCase"@[2]);
    assert("endsWith"@[0] != "contains"@[0]);
    assert("indexOf"@[0] != "replace"@[0]);
    assert("charAt"@[0] != "length"@[0]);
    assert("find"@[0] != "trim"@[0]);
    assert("matches"@[0] != "replace"@[0]);
    assert("matches"@[0] != "indexOf"@[0]);
    assert("size"@[0] != "trim"@[0]);
    assert("size"@[0] != "find"@[0]);
    assert("remove"@[0] != "length"@[0]);
    assert("remove"@[0] != "charAt"@[0]);
    assert("isEmpty"@[0] != "replace"@[0]);
    assert("isEmpty"@[1] != "indexOf"@[1]);
    assert("isEmpty"@[0] != "matches"@[0]);
    assert("get"@[0] != "add"@[0]);
    assert("join"@[0] != "trim"@[0]);
    assert("join"@[0] != "find"@[0]);
    assert("join"@[0] != "size"@[0]);
    assert("containsKey"@[0] != "toUpperCase"@[0]);
    assert("containsKey"@[0] != "toLowerCase"@[0]);
    assert("put"@[0] != "add"@[0]);
    assert("put"@[0] != "get"@[0]);
    assert("keySet"@[0] != "length"@[0]);
    assert("keySet"@[0] != "charAt"@[0]);
    assert("keySet"@[0] != "remove"@[0]);
    assert("values"@[0] != "length"@[0]);
    assert("values"@[0] != "charAt"@[0]);
    assert("values"@[0] != "remove"@[0]);
    assert("values"@[0] != "keySet"@[0]);
    assert("group"@[0] != "split"@[0]);
    assert("value"@[0] != "split"@[0]);
    assert("value"@[0] != "group"@[0]);
    assert("getYear"@[0] != "replace"@[0]);
    assert("getYear"@[0] != "indexOf"@[0]);
    assert("getYear"@[0] != "matches"@[0]);
    assert("getYear"@[0] != "isEmpty"@[0]);
    assert("getMonthValue"@[0] != "containsValue"@[0]);
    assert("getDayOfMonth"@[0] != "containsValue"@[0]);
    assert("getDayOfMonth"@[3] != "getMonthValue"@[3]);
    assert("getHour"@[0] != "replace"@[0]);
    assert("getHour"@[0] != "indexOf"@[0]);
    assert("getHour"@[0] != "matches"@[0]);
    assert("getHour"@[0] != "isEmpty"@[0]);
    assert("getHour"@[3] != "getYear"@[3]);
    assert("getMinute"@[0] != "substring"@[0]);
    assert("getSecond"@[0] != "substring"@[0]);
    assert("getSecond"@[3] != "getMinute"@[3]);
    assert("getNano"@[0] != "replace"@[0]);
    assert("getNano"@[0] != "indexOf"@[0]);
    assert("getNano"@[0] != "matches"@[0]);
    assert("getNano"@[0] != "isEmpty"@[0]);
    assert("getNano"@[3] != "getYear"@[3]);
    assert("getNano"@[3] != "getHour"@[3]);
    assert("getDayOfYear"@[8] != "getDayOfWeek"@[8]);
    assert("getMillis"@[0] != "substring"@[0]);
    assert("getMillis"@[5] != "getMinute"@[5]);
    assert("getMillis"@[3] != "getSecond"@[3]);
    assert("toEpochMilli"@[0] != "getDayOfWeek"@[0]);
    assert("toEpochMilli"@[0] != "getDayOfYear"@[0]);
    assert("toInstant"@[0] != "substring"@[0]);
    assert("toInstant"@[0] != "getMinute"@[0]);
    assert("toInstant"@[0] != "getSecond"@[0]);
    assert("toInstant"@[0] != "getMillis"@[0]);
    assert("plusDays"@[0] != "contains"@[0]);
    assert("plusDays"@[0] != "endsWith"@[0]);
    assert("minusDays"@[0] != "substring"@[0]);
    assert("minusDays"@[0] != "getMinute"@[0]);
    assert("minusDays"@[0] != "getSecond"@[0]);
    assert("minusDays"@[0] != "getMillis"@[0]);
    assert("minusDays"@[0] != "toInstant"@[0]);
    assert("plusHours"@[0] != "substring"@[0]);
    assert("plusHours"@[0] != "getMinute"@[0]);
    assert("plusHours"@[0] != "getSecond"@[0]);
    assert("plusHours"@[0] != "getMillis"@[0]);
    assert("plusHours"@[0] != "toInstant"@[0]);
    assert("plusHours"@[0] != "minusDays"@[0]);
    assert("minusHours"@[0] != "startsWith"@[0]);
    assert("plusMinutes"@[0] != "toUpperCase"@[0]);
    assert("plusMinutes"@[0] != "toLowerCase"@[0]);
    assert("plusMinutes"@[0] != "containsKey"@[0]);
    assert("minusMinutes"@[0] != "getDayOfWeek"@[0]);
    assert("minusMinutes"@[0] != "getDayOfYear"@[0]);
    assert("minusMinutes"@[0] != "toEpochMilli"@[0]);
    assert("plusSeconds"@[0] != "toUpperCase"@[0]);
    assert("plusSeconds"@[0] != "toLowerCase"@[0]);
    assert("plusSeconds"@[0] != "containsKey"@[0]);
    assert("plusSeconds"@[4] != "plusMinutes"@[4]);
    assert("minusSeconds"@[0] != "getDayOfWeek"@[0]);
    assert("minusSeconds"@[0] != "getDayOfYear"@[0]);
    assert("minusSeconds"@[0] != "toEpochMilli"@[0]);
    assert("minusSeconds"@[5] != "minusMinutes"@[5]);
    assert("matcher"@[0] != "replace"@[0]);
    assert("matcher"@[0] != "indexOf"@[0]);
    assert("matcher"@[6] != "matches"@[6]);
    assert("matcher"@[0] != "isEmpty"@[0]);
    assert("matcher"@[0] != "getYear"@[0]);
    assert("matcher"@[0] != "getHour"@[0]);
    assert("matcher"@[0] != "getNano"@[0]);
}

proof fn lemma_getter_names()
    ensures
        "value"@.len() == 5,
        "getYear"@.len() == 7,
        "getMonthValue"@.len() == 13,
        "getDayOfMonth"@.len() == 13,
        "getHour"@.len() == 7,
        "getMinute"@.len() == 9,
        "getSecond"@.len() == 9,
        "getNano"@.len() == 7,
        "getDayOfWeek"@.len() == 12,
        "getDayOfYear"@.len() == 12,
        "getMillis"@.len() == 9,
        "toEpochMilli"@.len() == 12,
        "toInstant"@.len() == 9,
        "getDayOfMonth"@ != "getMonthValue"@,
        "getHour"@ != "getYear"@,
        "getSecond"@ != "getMinute"@,
        "getNano"@ != "getYear"@,
        "getNano"@ != "getHour"@,
        "getDayOfYear"@ != "getDayOfWeek"@,
        "getMillis"@ != "getMinute"@,
        "getMillis"@ != "getSecond"@,
        "toEpochMilli"@ != "getDayOfWeek"@,
        "toEpochMilli"@ != "getDayOfYear"@,
        "toInstant"@ != "getMinute"@,
        "toInstant"@ != "getSecond"@,
        "toInstant"@ != "getMillis"@,
{
    lemma_method_names();
}

proof fn lemma_unit_names()
    ensures
        "value"@.len() == 5,
        "getYear"@.len() == 7,
        "getMonthValue"@.len() == 13,
        "getDayOfMonth"@.len() == 13,
        "getHour"@.len() == 7,
        "getMinute"@.len() == 9,
        "getSecond"@.len() == 9,
        "getNano"@.len() == 7,
        "getDayOfWeek"@.len() == 12,
        "getDayOfYear"@.len() == 12,
        "getMillis"@.len() == 9,
        "toEpochMilli"@.len() == 12,
        "toInstant"@.len() == 9,
        "plusDays"@.len() == 8,
        "minusDays"@.len() == 9,
        "plusHours"@.len() == 9,
        "minusHours"@.len() == 10,
        "plusMinutes"@.len() == 11,
        "minusMinutes"@.len() == 12,
        "plusSeconds"@.len() == 11,
        "minusSeconds"@.len() == 12,
        "getDayOfMonth"@ != "getMonthValue"@,
        "getHour"@ != "getYear"@,
        "getSecond"@ != "getMinute"@,
        "getNano"@ != "getYear"@,
        "getNano"@ != "getHour"@,
        "getDayOfYear"@ != "getDayOfWeek"@,
        "getMillis"@ != "getMinute"@,
        "getMillis"@ != "getSecond"@,
        "toEpochMilli"@ != "getDayOfWeek"@,
        "toEpochMilli"@ != "getDayOfYear"@,
        "toInstant"@ != "getMinute"@,
        "toInstant"@ != "getSecond"@,
        "toInstant"@ != "getMillis"@,
        "minusDays"@ != "getMinute"@,
        "minusDays"@ != "getSecond"@,
        "minusDays"@ != "getMillis"@,
        "minusDays"@ != "toInstant"@,
        "plusHours"@ != "getMinute"@,
        "plusHours"@ != "getSecond"@,
        "plusHours"@ != "getMillis"@,
        "plusHours"@ != "toInstant"@,
        "plusHours"@ != "minusDays"@,
        "minusMinutes"@ != "getDayOfWeek"@,
        "minusMinutes"@ != "getDayOfYear"@,
        "minusMinutes"@ != "toEpochMilli"@,
        "plusSeconds"@ != "plusMinutes"@,
        "minusSeconds"@ != "getDayOfWeek"@,
        "minusSeconds"@ != "getDayOfYear"@,
        "minusSeconds"@ != "toEpochMilli"@,
        "minusSeconds"@ != "minusMinutes"@,
{
    lemma_method_names();
}

/// No arguments.
pub open spec fn none() -> Seq<ScriptV> {
    Seq::empty()
}

/// One argument.
pub open spec fn one(v: ScriptV) -> Seq<ScriptV> {
    Seq::empty().push(v)
}

/// Two arguments.
pub open spec fn two(v: ScriptV, w: ScriptV) -> Seq<ScriptV> {
    Seq::empty().push(v).push(w)
}

/// Whether a method gave a value.
pub open spec fn is_val(r: Val, v: ScriptV) -> bool {
    r == Ok::<ScriptV, HaltV>(v)
}

/// Whether one text stands in another at a position.
pub open spec fn stands_in(s: Seq<char>, p: Seq<char>, i: int) -> bool {
    0 <= i && i + p.len() <= s.len() && forall|k: int|
        0 <= k < p.len() ==> s[i + k] == #[trigger] p[k]
}

proof fn lemma_stands_in(s: Seq<char>, p: Seq<char>, i: int)
    ensures
        stands_in(s, p, i) <==> occurs_at(s, p, i),
{
    if 0 <= i && i + p.len() <= s.len() {
        let x = s.subrange(i, i + p.len());
        if stands_in(s, p, i) {
            assert(x =~= p);
        }
        if x == p {
            assert forall|k: int| 0 <= k < p.len() implies s[i + k] == #[trigger] p[k] by {
                assert(x[k] == p[k]);
            }
        }
    }
}

/// `contains`, `startsWith` and `endsWith` say whether a text stands in another
/// anywhere, at its start, and at its end.
pub proof fn texts_are_searched(t: AnswersV, s: Seq<char>, p: Seq<char>)
    ensures
        is_val(
            method(t, ScriptV::Str(s), "contains"@, one(ScriptV::Str(p))),
            ScriptV::Bool(exists|i: int| stands_in(s, p, i)),
        ),
        is_val(
            method(t, ScriptV::Str(s), "startsWith"@, one(ScriptV::Str(p))),
            ScriptV::Bool(stands_in(s, p, 0)),
        ),
        is_val(
            method(t, ScriptV::Str(s), "endsWith"@, one(ScriptV::Str(p))),
            ScriptV::Bool(stands_in(s, p, s.len() - p.len())),
        ),
{
    lemma_method_names();
    lemma_find_from(s, p, 0);
    assert forall|i: int| stands_in(s, p, i) <==> #[trigger] occurs_at(s, p, i) by {
        lemma_stands_in(s, p, i);
    }
    if exists|i: int| stands_in(s, p, i) {
        let i = choose|i: int| stands_in(s, p, i);
        assert(occurs_at(s, p, i));
        assert(find_from(s, p, 0) is Some);
    }
    if let Some(k) = find_from(s, p, 0) {
        assert(occurs_at(s, p, k));
        assert(stands_in(s, p, k));
    }
    if p.is_prefix_of(s) {
        assert(s.subrange(0, p.len() as int) =~= p);
        assert(occurs_at(s, p, 0));
    }
    if stands_in(s, p, 0) {
        assert(p =~= s.subrange(0, p.len() as int));
    }
    let n = s.len() - p.len();
    if p.is_suffix_of(s) {
        assert(s.subrange(n, s.len() as int) =~= p);
        assert(occurs_at(s, p, n));
    }
    if stands_in(s, p, n) {
        assert(p =~= s.subrange(n, s.len() as int));
    }
}

/// In a text of ASCII characters, `length` counts them, `indexOf` gives the
/// first position at which a text stands, or -1, and `charAt` gives a character
/// by its position.
pub proof fn characters_are_counted(t: AnswersV, s: Seq<char>, p: Seq<char>, i: i64)
    requires
        is_ascii_chars(s),
        is_ascii_chars(p),
        s.len() <= i64::MAX,
    ensures
        is_val(method(t, ScriptV::Str(s), "length"@, none()), ScriptV::Int(s.len() as i64)),
        0 <= i < s.len() ==> is_val(
            method(t, ScriptV::Str(s), "charAt"@, one(ScriptV::Int(i))),
            ScriptV::Str(Seq::empty().push(s[i as int])),
        ),
        method(t, ScriptV::Str(s), "indexOf"@, one(ScriptV::Str(p))) matches Ok(ScriptV::Int(k)) && {
            ||| k == -1 && forall|j: int| !stands_in(s, p, j)
            ||| stands_in(s, p, k as int) && forall|j: int| stands_in(s, p, j) ==> k <= j
        },
{
    lemma_method_names();
    is_ascii_chars_encode_utf8(s);
    is_ascii_chars_encode_utf8(p);
    let a = encode_utf8(s);
    let b = encode_utf8(p);
    if 0 <= i < s.len() {
        assert(seq![s[i as int]] =~= Seq::empty().push(s[i as int]));
    }
    assert forall|j: int| stands_in(s, p, j) <==> #[trigger] occurs_at(a, b, j) by {
        if 0 <= j && j + p.len() <= s.len() {
            let x = a.subrange(j, j + b.len());
            if stands_in(s, p, j) {
                assert forall|k: int| 0 <= k < b.len() implies x[k] == b[k] by {
                    assert(a[j + k] == s[j + k] as u8 && b[k] == p[k] as u8);
                    assert(s[j + k] == p[k]);
                }
                assert(x =~= b);
            }
            if x == b {
                assert forall|k: int| 0 <= k < p.len() implies s[j + k] == #[trigger] p[k] by {
                    assert(x[k] == b[k]);
                    assert(a[j + k] == s[j + k] as u8 && b[k] == p[k] as u8);
                }
            }
        }
    }
    lemma_find_from(a, b, 0);
    assert forall|j: int| stands_in(s, p, j) implies occurs_at(a, b, j) by {
        assert(stands_in(s, p, j) <==> occurs_at(a, b, j));
    }
}

/// The pieces of a text, put together with a separator between each two.
pub open spec fn joined(pieces: Seq<Seq<char>>, sep: Seq<char>) -> Seq<char>
    decreases pieces.len(),
{
    if pieces.len() == 0 {
        Seq::empty()
    } else if pieces.len() == 1 {
        pieces[0]
    } else {
        joined(pieces.drop_last(), sep) + sep + pieces.last()
    }
}

proof fn lemma_joined_push(pieces: Seq<Seq<char>>, sep: Seq<char>, x: Seq<char>)
    ensures
        joined(pieces.push(x), sep) == (if pieces.len() == 0 {
            x
        } else {
            joined(pieces, sep) + sep + x
        }),
{
    assert(pieces.push(x).drop_last() =~= pieces);
}

/// Splitting and replacing walk through a text together.
proof fn lemma_split_replace(
    s: Seq<char>,
    p: Seq<char>,
    to: Seq<char>,
    from: int,
    acc: Seq<Seq<char>>,
    done: Seq<char>,
)
    requires
        0 <= from <= s.len(),
        p.len() > 0,
        acc.len() == 0 ==> done.len() == 0,
        acc.len() > 0 ==> done == joined(acc, to) + to,
    ensures
        joined(split_from(s, p, from, from, acc), to) == replace_from(s, p, to, from, from, done),
    decreases s.len() - from,
{
    lemma_find_from(s, p, from);
    match find_from(s, p, from) {
        None => {
            let last = s.subrange(from, s.len() as int);
            lemma_joined_push(acc, to, last);
            assert(joined(acc.push(last), to) =~= done + last);
        },
        Some(i) => {
            let piece = s.subrange(from, i);
            lemma_joined_push(acc, to, piece);
            assert(joined(acc.push(piece), to) + to =~= done + piece + to);
            lemma_split_replace(s, p, to, i + p.len(), acc.push(piece), done + piece + to);
        },
    }
}

proof fn lemma_replace_same(s: Seq<char>, p: Seq<char>, from: int, done: Seq<char>)
    requires
        0 <= from <= s.len(),
        p.len() > 0,
    ensures
        replace_from(s, p, p, from, from, done) == done + s.skip(from),
    decreases s.len() - from,
{
    lemma_find_from(s, p, from);
    match find_from(s, p, from) {
        None => {
            assert(s.subrange(from, s.len() as int) =~= s.skip(from));
        },
        Some(i) => {
            lemma_replace_same(s, p, i + p.len(), done + s.subrange(from, i) + p);
            assert(done + s.subrange(from, i) + p + s.skip(i + p.len()) =~= done + s.skip(from));
        },
    }
}

/// The texts of a list of texts.
pub open spec fn as_texts(pieces: Seq<Seq<char>>) -> ScriptV {
    ScriptV::Array(pieces.map_values(|x: Seq<char>| ScriptV::Str(x)))
}

/// `split` gives the pieces that, with the separator between them, make the
/// text again; `replace` gives the same pieces with the new text between them.
pub proof fn pieces_make_the_text(t: AnswersV, s: Seq<char>, p: Seq<char>, to: Seq<char>)
    requires
        p.len() > 0,
    ensures
        exists|pieces: Seq<Seq<char>>|
            is_val(
                method(t, ScriptV::Str(s), "split"@, one(ScriptV::Str(p))),
                #[trigger] as_texts(pieces),
            ) && joined(pieces, p) == s && is_val(
                method(t, ScriptV::Str(s), "replace"@, two(ScriptV::Str(p), ScriptV::Str(to))),
                ScriptV::Str(joined(pieces, to)),
            ),
{
    lemma_method_names();
    let pieces = split_text(s, p);
    let none = Seq::<Seq<char>>::empty();
    lemma_split_replace(s, p, p, 0, none, Seq::empty());
    lemma_split_replace(s, p, to, 0, none, Seq::empty());
    lemma_replace_same(s, p, 0, Seq::empty());
    assert(Seq::<char>::empty() + s.skip(0) =~= s);
    assert(is_val(
        method(t, ScriptV::Str(s), "split"@, one(ScriptV::Str(p))),
        as_texts(pieces),
    ));
}

/// Whether a text is white space and nothing else.
pub open spec fn all_white(s: Seq<char>) -> bool {
    forall|i: int| 0 <= i < s.len() ==> is_white(#[trigger] s[i])
}

proof fn lemma_white_end_at(s: Seq<char>, i: int, e: int)
    requires
        0 <= i <= e <= s.len(),
        forall|k: int| i <= k < e ==> is_white(#[trigger] s[k]),
        e < s.len() ==> !is_white(s[e]),
    ensures
        white_end(s, i) == e,
    decreases e - i,
{
    if i < e {
        lemma_white_end_at(s, i + 1, e);
    }
}

proof fn lemma_white_start_at(s: Seq<char>, low: int, j: int, e: int)
    requires
        0 <= low <= e <= j <= s.len(),
        forall|k: int| e <= k < j ==> is_white(#[trigger] s[k]),
        low < e ==> !is_white(s[e - 1]),
    ensures
        white_start(s, low, j) == e,
    decreases j - e,
{
    if e < j {
        lemma_white_start_at(s, low, j - 1, e);
    }
}

/// `trim` takes the white space off both ends, and nothing else.
pub proof fn trim_takes_white_space(
    t: AnswersV,
    a: Seq<char>,
    core: Seq<char>,
    b: Seq<char>,
)
    requires
        all_white(a),
        all_white(b),
        core.len() > 0,
        !is_white(core[0]),
        !is_white(core.last()),
    ensures
        is_val(method(t, ScriptV::Str(a + core + b), "trim"@, none()), ScriptV::Str(core)),
        is_val(method(t, ScriptV::Str(a), "trim"@, none()), ScriptV::Str(Seq::empty())),
{
    lemma_method_names();
    let s = a + core + b;
    let n = a.len() as int;
    let e = n + core.len();
    assert(s[n] == core[0] && s[e - 1] == core.last());
    assert forall|k: int| 0 <= k < n implies is_white(#[trigger] s[k]) by {
        assert(s[k] == a[k]);
    }
    assert forall|k: int| e <= k < s.len() implies is_white(#[trigger] s[k]) by {
        assert(s[k] == b[k - e]);
    }
    lemma_white_end_at(s, 0, n);
    lemma_white_start_at(s, n, s.len() as int, e);
    assert(s.subrange(n, e) =~= core);
    lemma_white_end_at(a, 0, n);
    assert(white_start(a, n, n) == n);
    assert(a.subrange(n, n) =~= Seq::empty());
}

/// The integers of a list.
pub open spec fn ints(a: Seq<i64>) -> Seq<ScriptV> {
    a.map_values(|n: i64| ScriptV::Int(n))
}

proof fn lemma_index_of(t: AnswersV, a: Seq<i64>, n: i64, i: int)
    requires
        0 <= i <= a.len(),
    ensures
        match index_of(t, ints(a), ScriptV::Int(n), i) {
            Ok(Some(k)) => i <= k < a.len() && a[k] == n && forall|j: int| i <= j < k ==> a[j] != n,
            Ok(None) => forall|j: int| i <= j < a.len() ==> a[j] != n,
            Err(_) => false,
        },
    decreases a.len() - i,
{
    if i < a.len() {
        assert(ints(a)[i] == ScriptV::Int(a[i]));
        if a[i] != n {
            lemma_index_of(t, a, n, i + 1);
        }
    }
}

/// Lists: their size, their items by position, whether and where an integer
/// stands in them, and what they are with an item more or less.
pub proof fn lists_hold_their_items(t: AnswersV, a: Seq<i64>, n: i64, i: i64, v: ScriptV)
    requires
        a.len() <= i64::MAX,
    ensures
        ({
            let list = ScriptV::Array(ints(a));
            &&& is_val(method(t, list, "size"@, none()), ScriptV::Int(a.len() as i64))
            &&& is_val(method(t, list, "length"@, none()), ScriptV::Int(a.len() as i64))
            &&& is_val(method(t, list, "isEmpty"@, none()), ScriptV::Bool(a =~= Seq::empty()))
            &&& 0 <= i < a.len() ==> is_val(
                method(t, list, "get"@, one(ScriptV::Int(i))),
                ScriptV::Int(a[i as int]),
            )
            &&& !(0 <= i < a.len()) ==> is_val(
                method(t, list, "get"@, one(ScriptV::Int(i))),
                ScriptV::Null,
            )
            &&& is_val(
                method(t, list, "contains"@, one(ScriptV::Int(n))),
                ScriptV::Bool(a.contains(n)),
            )
            &&& method(t, list, "indexOf"@, one(ScriptV::Int(n))) matches Ok(ScriptV::Int(k)) && (
            if a.contains(n) {
                0 <= k < a.len() && a[k as int] == n && !a.take(k as int).contains(n)
            } else {
                k == -1
            })
            &&& method(t, list, "add"@, one(v)) matches Ok(ScriptV::Array(b)) && b.len() == a.len()
                + 1 && b.last() == v && b.drop_last() == ints(a)
            &&& 0 <= i < a.len() ==> is_val(
                method(t, list, "remove"@, one(ScriptV::Int(i))),
                ScriptV::Array(ints(a.take(i as int) + a.skip(i + 1))),
            )
        }),
{
    lemma_method_names();
    let list = ScriptV::Array(ints(a));
    lemma_index_of(t, a, n, 0);
    if 0 <= i < a.len() {
        assert(ints(a)[i as int] == ScriptV::Int(a[i as int]));
        assert(ints(a).remove(i as int) =~= ints(a.take(i as int) + a.skip(i + 1)));
    }
    assert(ints(a).push(v).drop_last() =~= ints(a));
    match index_of(t, ints(a), ScriptV::Int(n), 0) {
        Ok(Some(k)) => {
            assert(a[k] == n);
            assert(a.contains(n));
            if a.take(k).contains(n) {
                let j = choose|j: int| 0 <= j < a.take(k).len() && a.take(k)[j] == n;
                assert(a[j] == n);
            }
        },
        _ => {},
    }
}

/// Maps: what was put under a key is there, what was removed is not, and other
/// keys keep what they had.
pub proof fn maps_hold_their_values(
    t: AnswersV,
    m: Seq<(Seq<char>, ScriptV)>,
    k: Seq<char>,
    v: ScriptV,
    other: Seq<char>,
)
    requires
        distinct_keys(m),
        other != k,
        m.len() < i64::MAX,
    ensures
        method(t, ScriptV::Dict(m), "put"@, two(ScriptV::Str(k), v)) matches Ok(after) && {
            &&& is_val(method(t, after, "get"@, one(ScriptV::Str(k))), v)
            &&& is_val(method(t, after, "containsKey"@, one(ScriptV::Str(k))), ScriptV::Bool(true))
            &&& method(t, after, "get"@, one(ScriptV::Str(other))) == method(
                t,
                ScriptV::Dict(m),
                "get"@,
                one(ScriptV::Str(other)),
            )
            &&& method(t, after, "containsKey"@, one(ScriptV::Str(other))) == method(
                t,
                ScriptV::Dict(m),
                "containsKey"@,
                one(ScriptV::Str(other)),
            )
            &&& is_val(method(t, after, "isEmpty"@, none()), ScriptV::Bool(false))
        },
        method(t, ScriptV::Dict(m), "remove"@, one(ScriptV::Str(k))) matches Ok(after) && {
            &&& is_val(method(t, after, "get"@, one(ScriptV::Str(k))), ScriptV::Null)
            &&& is_val(method(t, after, "containsKey"@, one(ScriptV::Str(k))), ScriptV::Bool(false))
            &&& method(t, after, "get"@, one(ScriptV::Str(other))) == method(
                t,
                ScriptV::Dict(m),
                "get"@,
                one(ScriptV::Str(other)),
            )
        },
        method(t, ScriptV::Dict(m), "keySet"@, none()) matches Ok(ScriptV::Array(ks)) && (method(
            t,
            ScriptV::Dict(m),
            "values"@,
            none(),
        ) matches Ok(ScriptV::Array(vs)) && ks.len() == m.len() && vs.len() == m.len() && is_val(
            method(t, ScriptV::Dict(m), "size"@, none()),
            ScriptV::Int(ks.len() as i64),
        ) && forall|i: int|
            0 <= i < m.len() ==> (#[trigger] ks[i]) == ScriptV::Str(m[i].0) && vs[i] == m[i].1),
{
    lemma_method_names();
    put_then_lookup(m, k, v, other);
    without_then_lookup(m, k, other);
    assert(put(m, k, v).len() > 0) by {
        crate::dict::lemma_key_from(m, k, 0);
    }
}

/// `Math.max`, `Math.min` and `Math.abs` of integers that doubles hold exactly:
/// the greatest is one of the two and at least the other, the least one of the
/// two and at most the other, and an absolute value is not negative.
pub proof fn extremes_are_one_of_both(t: AnswersV, a: i64, b: i64, draws: i64)
    requires
        -0x20_0000_0000_0000 <= a <= 0x20_0000_0000_0000,
        -0x20_0000_0000_0000 <= b <= 0x20_0000_0000_0000,
    ensures
        ({
            let args = two(ScriptV::Int(a), ScriptV::Int(b));
            &&& math(t, "max"@, args, draws) matches Ok(ScriptV::Int(x)) && (x == a || x == b) && x
                >= a && x >= b
            &&& math(t, "min"@, args, draws) matches Ok(ScriptV::Int(x)) && (x == a || x == b) && x
                <= a && x <= b
            &&& math(t, "abs"@, one(ScriptV::Int(a)), draws) matches Ok(ScriptV::Int(x)) && x >= 0
                && (x == a || x == -a)
        }),
{
    reveal_strlit("max");
    reveal_strlit("min");
    reveal_strlit("abs");
    assert("max"@[1] != "min"@[1] && "abs"@[0] != "max"@[0] && "abs"@[0] != "min"@[0]);
    small_integers_are_doubles(a as int);
    small_integers_are_doubles(b as int);
}

/// What a method of a moment gives, which stands for an integer: milliseconds
/// since 1970.
#[verifier::opaque]
pub open spec fn date_method(t: AnswersV, ms: i64, m: Seq<char>, args: Seq<ScriptV>) -> Val {
    method(t, ScriptV::Int(ms), m, args)
}

/// The date methods of a moment in milliseconds since 1970: the date and the
/// time of day make the second again.
#[verifier::spinoff_prover]
pub proof fn dates_read_their_parts(t: AnswersV, ms: i64)
    ensures
        ({
            match (
                date_method(t, ms, "getYear"@, none()),
                date_method(t, ms, "getMonthValue"@, none()),
                date_method(t, ms, "getDayOfMonth"@, none()),
            ) {
                (Ok(ScriptV::Int(y)), Ok(ScriptV::Int(m)), Ok(ScriptV::Int(d))) => match (
                    date_method(t, ms, "getHour"@, none()),
                    date_method(t, ms, "getMinute"@, none()),
                    date_method(t, ms, "getSecond"@, none()),
                ) {
                    (Ok(ScriptV::Int(h)), Ok(ScriptV::Int(n)), Ok(ScriptV::Int(s))) => {
                        &&& 1 <= m <= 12 && 1 <= d <= 31 && 0 <= h < 24 && 0 <= n < 60 && 0 <= s
                            < 60
                        &&& epoch_ms_of(
                            y as int,
                            m as int,
                            d as int,
                            h as int,
                            n as int,
                            s as int,
                        ) == ms - ms as int % 1000
                    },
                    _ => false,
                },
                _ => false,
            }
        }),
        is_val(date_method(t, ms, "toEpochMilli"@, none()), ScriptV::Int(ms)),
{
    parts_denote_their_second(ms);
    lemma_getters(t, ms);
}

proof fn lemma_week(ms: int)
    ensures
        day_of_week(0) == 4,
        1 <= day_of_week(ms) <= 7,
        day_of_week(ms + 86_400_000) == (if day_of_week(ms) == 7 {
            1
        } else {
            day_of_week(ms) + 1
        }),
{
    assert((ms + 86_400_000) / 86_400_000 == ms / 86_400_000 + 1);
}

/// The days of the week go round, from Monday, 1, to Sunday, 7; 1970 began with
/// a Thursday.
pub proof fn days_of_the_week_go_round(t: AnswersV, ms: i64)
    requires
        ms <= i64::MAX - 86_400_000,
    ensures
        is_val(date_method(t, 0, "getDayOfWeek"@, none()), ScriptV::Int(4)),
        match (
            date_method(t, ms, "getDayOfWeek"@, none()),
            date_method(t, (ms + 86_400_000) as i64, "getDayOfWeek"@, none()),
        ) {
            (Ok(ScriptV::Int(a)), Ok(ScriptV::Int(b))) => 1 <= a <= 7 && b == (if a == 7 {
                1
            } else {
                a + 1
            }),
            _ => false,
        },
{
    lemma_week(ms as int);
    lemma_getters(t, ms);
    lemma_getters(t, 0);
    lemma_getters(t, (ms + 86_400_000) as i64);
}

proof fn lemma_getter(t: AnswersV, ms: i64, m: Seq<char>)
    requires
        is_date_getter(m),
        m != "value"@,
    ensures
        date_method(t, ms, m, none()) == date_getter(parts_of_epoch(ms as int), m),
{
    reveal(date_method);
}

/// Which part of a date a method reads.
#[verifier::spinoff_prover]
proof fn lemma_getters(t: AnswersV, ms: i64)
    ensures
        ({
            let p = parts_of_epoch(ms as int);
            &&& is_val(date_method(t, ms, "getYear"@, none()), ScriptV::Int(p.year))
            &&& is_val(date_method(t, ms, "getMonthValue"@, none()), ScriptV::Int(p.month))
            &&& is_val(date_method(t, ms, "getDayOfMonth"@, none()), ScriptV::Int(p.day))
            &&& is_val(date_method(t, ms, "getHour"@, none()), ScriptV::Int(p.hour))
            &&& is_val(date_method(t, ms, "getMinute"@, none()), ScriptV::Int(p.minute))
            &&& is_val(date_method(t, ms, "getSecond"@, none()), ScriptV::Int(p.second))
            &&& is_val(date_method(t, ms, "toEpochMilli"@, none()), ScriptV::Int(ms))
            &&& is_val(date_method(t, ms, "getMillis"@, none()), ScriptV::Int(ms))
            &&& is_val(date_method(t, ms, "toInstant"@, none()), ScriptV::Int(ms))
            &&& is_val(
                date_method(t, ms, "getDayOfWeek"@, none()),
                ScriptV::Int(day_of_week(ms as int) as i64),
            )
            &&& date_method(t, ms, "getDayOfYear"@, none()) == date_getter(p, "getDayOfYear"@)
        }),
{
    lemma_getter_names();
    lemma_getter(t, ms, "getYear"@);
    lemma_getter(t, ms, "getMonthValue"@);
    lemma_getter(t, ms, "getDayOfMonth"@);
    lemma_getter(t, ms, "getHour"@);
    lemma_getter(t, ms, "getMinute"@);
    lemma_getter(t, ms, "getSecond"@);
    lemma_getter(t, ms, "toEpochMilli"@);
    lemma_getter(t, ms, "getMillis"@);
    lemma_getter(t, ms, "toInstant"@);
    lemma_getter(t, ms, "getDayOfWeek"@);
    lemma_getter(t, ms, "getDayOfYear"@);
}

/// The day of the year counts the days since the first of January, that day
/// included.
pub proof fn days_of_the_year_are_counted(t: AnswersV, ms: i64)
    ensures
        ({
            let p = parts_of_epoch(ms as int);
            date_method(t, ms, "getDayOfYear"@, none()) matches Ok(ScriptV::Int(n)) && n
                == days_from_civil(p.year as int, p.month as int, p.day as int) - days_from_civil(
                p.year as int,
                1,
                1,
            ) + 1
        }),
{
    let p = parts_of_epoch(ms as int);
    parts_denote_their_second(ms);
    lemma_getters(t, ms);
    lemma_getter_names();
    days_before_counts_days(p.year as int, p.month as int);
    assert(days_from_civil(p.year as int, p.month as int, p.day as int) == days_from_civil(
        p.year as int,
        p.month as int,
        1,
    ) + p.day - 1);
}


/// Moving a moment by days, hours, minutes or seconds moves it by so many
/// milliseconds, forth or back.
#[verifier::spinoff_prover]
pub proof fn dates_move_by_units(t: AnswersV, ms: i64, n: i64)
    requires
        -1_000_000 <= n <= 1_000_000,
        -0x1000_0000_0000_0000 <= ms <= 0x1000_0000_0000_0000,
    ensures
        ({
            let by = one(ScriptV::Int(n));
            &&& is_val(date_method(t, ms, "plusSeconds"@, by), ScriptV::Int((ms + 1000 * n) as i64))
            &&& is_val(date_method(t, ms, "plusMinutes"@, by), ScriptV::Int((ms + 60 * 1000 * n) as i64))
            &&& is_val(
                date_method(t, ms, "plusHours"@, by),
                ScriptV::Int((ms + 60 * 60 * 1000 * n) as i64),
            )
            &&& is_val(
                date_method(t, ms, "plusDays"@, by),
                ScriptV::Int((ms + 24 * 60 * 60 * 1000 * n) as i64),
            )
            &&& is_val(date_method(t, ms, "minusSeconds"@, by), ScriptV::Int((ms - 1000 * n) as i64))
            &&& is_val(date_method(t, ms, "minusMinutes"@, by), ScriptV::Int((ms - 60 * 1000 * n) as i64))
            &&& is_val(
                date_method(t, ms, "minusHours"@, by),
                ScriptV::Int((ms - 60 * 60 * 1000 * n) as i64),
            )
            &&& is_val(
                date_method(t, ms, "minusDays"@, by),
                ScriptV::Int((ms - 24 * 60 * 60 * 1000 * n) as i64),
            )
        }),
{
    lemma_units();
    lemma_move(t, ms, n, "plusSeconds"@, 1000);
    lemma_move(t, ms, n, "plusMinutes"@, 60_000);
    lemma_move(t, ms, n, "plusHours"@, 3_600_000);
    lemma_move(t, ms, n, "plusDays"@, 86_400_000);
    lemma_move(t, ms, n, "minusSeconds"@, -1000);
    lemma_move(t, ms, n, "minusMinutes"@, -60_000);
    lemma_move(t, ms, n, "minusHours"@, -3_600_000);
    lemma_move(t, ms, n, "minusDays"@, -86_400_000);
}

proof fn lemma_move(t: AnswersV, ms: i64, n: i64, m: Seq<char>, unit: int)
    requires
        -1_000_000 <= n <= 1_000_000,
        -0x1000_0000_0000_0000 <= ms <= 0x1000_0000_0000_0000,
        -86_400_000 <= unit <= 86_400_000,
        date_unit(m) == Some(unit as i64),
        !is_date_getter(m),
        m != "value"@,
    ensures
        is_val(
            date_method(t, ms, m, one(ScriptV::Int(n))),
            ScriptV::Int((ms + unit * n) as i64),
        ),
{
    reveal(date_method);
    small_integers_are_doubles(n as int);
    assert(-86_400_000_000_000 <= unit * n <= 86_400_000_000_000) by (nonlinear_arith)
        requires
            -1_000_000 <= n <= 1_000_000,
            -86_400_000 <= unit <= 86_400_000,
    ;
    assert(n * unit == unit * n) by (nonlinear_arith);
    let args = one(ScriptV::Int(n));
    assert(args.len() == 1 && args[0] == ScriptV::Int(n));
}

/// By how many milliseconds a method moves a moment.
#[verifier::spinoff_prover]
proof fn lemma_units()
    ensures
        date_unit("plusSeconds"@) == Some(1000i64),
        date_unit("plusMinutes"@) == Some(60_000i64),
        date_unit("plusHours"@) == Some(3_600_000i64),
        date_unit("plusDays"@) == Some(86_400_000i64),
        date_unit("minusSeconds"@) == Some(-1000i64),
        date_unit("minusMinutes"@) == Some(-60_000i64),
        date_unit("minusHours"@) == Some(-3_600_000i64),
        date_unit("minusDays"@) == Some(-86_400_000i64),
        !is_date_getter("plusSeconds"@) && "plusSeconds"@ != "value"@,
        !is_date_getter("plusMinutes"@) && "plusMinutes"@ != "value"@,
        !is_date_getter("plusHours"@) && "plusHours"@ != "value"@,
        !is_date_getter("plusDays"@) && "plusDays"@ != "value"@,
        !is_date_getter("minusSeconds"@) && "minusSeconds"@ != "value"@,
        !is_date_getter("minusMinutes"@) && "minusMinutes"@ != "value"@,
        !is_date_getter("minusHours"@) && "minusHours"@ != "value"@,
        !is_date_getter("minusDays"@) && "minusDays"@ != "value"@,
{
    lemma_unit_names();
}

} // verus!
