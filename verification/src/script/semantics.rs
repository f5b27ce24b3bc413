//! What scripts mean: functions from a syntax tree and a context to a value
//! and the context behind it.
use crate::dict::{lookup, put, without};
use crate::double::{
    ask_bits, ask_flag, ask_int, ask_parse, nonzero, query, AnswersV, DoubleV, QueryV,
};
use crate::json::{json_get, JsonV};
use crate::script::ast::{BinOp, ExprV, StmtV, UnaryOp};
use crate::script::date::{
    day_of_week, days_before, is_leap, parts_of_epoch, parts_of_text, quot, DateParts,
};
use crate::script::number::nearest;
use crate::script::regexes::{regex_fault, regex_found};
use crate::script::value::{
    as_number, display, display_items, equal, json_of, shown, truthy, value_of_json, ScriptV,
};
use crate::text::{
    find_from, i64_of_text, int_text, lower_text, nat_text, replace_text, same_ignoring_case,
    split_text, trim_text, upper_text,
};
use vstd::prelude::*;
use vstd::utf8::{decode_utf8, encode_utf8, is_ascii_chars, is_char_boundary};
use vstd::wrapping::i64_specs;

verus! {

broadcast use vstd::string::group_string_axioms;

/// Why a script was refused or stopped.
pub enum ErrV {
    Parse(Seq<char>),
    Internal(Seq<char>),
}

/// Why an evaluation stopped before its end: an error, or a computation with
/// doubles whose answer is not known yet.
pub enum HaltV {
    Error(ErrV),
    Ask(QueryV),
}

pub type Val = Result<ScriptV, HaltV>;

/// The text of an error.
pub open spec fn err_text(e: ErrV) -> Seq<char> {
    match e {
        ErrV::Parse(m) => "script parse error: "@ + m,
        ErrV::Internal(m) => "script runtime error: "@ + m,
    }
}

pub open spec fn fail<T>(m: Seq<char>) -> Result<T, HaltV> {
    Err(HaltV::Error(ErrV::Parse(m)))
}

/// A result of the caller's computations as a value.
pub open spec fn flag_val(r: Result<bool, QueryV>) -> Val {
    match r {
        Ok(b) => Ok(ScriptV::Bool(b)),
        Err(q) => Err(HaltV::Ask(q)),
    }
}

/// A result of the caller's computations as a value.
pub open spec fn bits_val(r: Result<u64, QueryV>) -> Val {
    match r {
        Ok(b) => Ok(ScriptV::Float(DoubleV::Bits(b))),
        Err(q) => Err(HaltV::Ask(q)),
    }
}

/// A result of the caller's computations as a value.
pub open spec fn text_val(r: Result<Seq<char>, QueryV>) -> Val {
    match r {
        Ok(s) => Ok(ScriptV::Str(s)),
        Err(q) => Err(HaltV::Ask(q)),
    }
}

/// A failure whose message shows a value.
pub open spec fn fail_showing(
    t: AnswersV,
    before: Seq<char>,
    v: ScriptV,
    behind: Seq<char>,
) -> Val {
    match shown(t, v) {
        Ok(s) => fail(before + s + behind),
        Err(q) => Err(HaltV::Ask(q)),
    }
}

/// A left operand, an operator and a right operand of two integers. They pass
/// through double precision; sums, differences and products wrap around. The
/// one quotient that does not fit is refused.
pub open spec fn int_binop(a: int, op: BinOp, b: int) -> Val {
    let x = nearest(a) as i64;
    let y = nearest(b) as i64;
    match op {
        BinOp::Add => Ok(ScriptV::Int(i64_specs::wrapping_add(x, y))),
        BinOp::Sub => Ok(ScriptV::Int(i64_specs::wrapping_sub(x, y))),
        BinOp::Mul => Ok(ScriptV::Int(i64_specs::wrapping_mul(x, y))),
        BinOp::Div => if y == 0 {
            fail("division by zero"@)
        } else if x == i64::MIN && y == -1 {
            fail("integer overflow"@)
        } else {
            Ok(ScriptV::Int(trunc_div(x as int, y as int) as i64))
        },
        BinOp::Mod => if y == 0 {
            fail("modulo by zero"@)
        } else if x == i64::MIN && y == -1 {
            fail("integer overflow"@)
        } else {
            Ok(ScriptV::Int((x - y * trunc_div(x as int, y as int)) as i64))
        },
        BinOp::Gt => Ok(ScriptV::Bool(x > y)),
        BinOp::Lt => Ok(ScriptV::Bool(x < y)),
        BinOp::Gte => Ok(ScriptV::Bool(x >= y)),
        _ => Ok(ScriptV::Bool(x <= y)),
    }
}

/// The quotient of two integers, rounded towards zero.
pub open spec fn trunc_div(a: int, b: int) -> int {
    if b > 0 {
        quot(a, b)
    } else {
        -quot(a, -b)
    }
}

/// An operator between two numbers that are not both integers.
pub open spec fn double_binop(t: AnswersV, a: DoubleV, op: BinOp, b: DoubleV) -> Val {
    match op {
        BinOp::Add => bits_val(ask_bits(t, query("+"@, seq![a, b]))),
        BinOp::Sub => bits_val(ask_bits(t, query("-"@, seq![a, b]))),
        BinOp::Mul => bits_val(ask_bits(t, query("*"@, seq![a, b]))),
        BinOp::Div => match nonzero(t, b) {
            Err(q) => Err(HaltV::Ask(q)),
            Ok(false) => fail("division by zero"@),
            Ok(true) => bits_val(ask_bits(t, query("/"@, seq![a, b]))),
        },
        BinOp::Mod => match nonzero(t, b) {
            Err(q) => Err(HaltV::Ask(q)),
            Ok(false) => fail("modulo by zero"@),
            Ok(true) => bits_val(ask_bits(t, query("%"@, seq![a, b]))),
        },
        BinOp::Gt => flag_val(ask_flag(t, query(">"@, seq![a, b]))),
        BinOp::Lt => flag_val(ask_flag(t, query("<"@, seq![a, b]))),
        BinOp::Gte => flag_val(ask_flag(t, query(">="@, seq![a, b]))),
        _ => flag_val(ask_flag(t, query("<="@, seq![a, b]))),
    }
}

/// `l op r`
pub open spec fn binop(t: AnswersV, l: ScriptV, op: BinOp, r: ScriptV) -> Val {
    if op == BinOp::Add && (l is Str || r is Str) {
        match display(t, l) {
            Err(q) => Err(HaltV::Ask(q)),
            Ok(a) => match display(t, r) {
                Err(q) => Err(HaltV::Ask(q)),
                Ok(b) => Ok(ScriptV::Str(a + b)),
            },
        }
    } else if op == BinOp::Eq {
        flag_val(equal(t, l, r))
    } else if op == BinOp::Neq {
        match equal(t, l, r) {
            Ok(b) => Ok(ScriptV::Bool(!b)),
            Err(q) => Err(HaltV::Ask(q)),
        }
    } else if op == BinOp::And {
        match truthy(t, l) {
            Ok(true) => flag_val(truthy(t, r)),
            x => flag_val(x),
        }
    } else if op == BinOp::Or {
        match truthy(t, l) {
            Ok(false) => flag_val(truthy(t, r)),
            x => flag_val(x),
        }
    } else {
        match (as_number(l), as_number(r)) {
            (None, _) => fail_showing(t, "cannot use "@, l, " in arithmetic"@),
            (_, None) => fail_showing(t, "cannot use "@, r, " in arithmetic"@),
            (Some(DoubleV::Int(a)), Some(DoubleV::Int(b))) => if l is Int && r is Int {
                int_binop(a as int, op, b as int)
            } else {
                double_binop(t, DoubleV::Int(a), op, DoubleV::Int(b))
            },
            (Some(a), Some(b)) => double_binop(t, a, op, b),
        }
    }
}

/// `op v`
pub open spec fn unary(t: AnswersV, op: UnaryOp, v: ScriptV) -> Val {
    match op {
        UnaryOp::Not => match truthy(t, v) {
            Ok(b) => Ok(ScriptV::Bool(!b)),
            Err(q) => Err(HaltV::Ask(q)),
        },
        UnaryOp::Neg => match v {
            ScriptV::Int(n) => Ok(ScriptV::Int(i64_specs::wrapping_sub(0, n))),
            ScriptV::Float(d) => bits_val(ask_bits(t, query("neg"@, seq![d]))),
            _ => fail_showing(t, "cannot negate "@, v, ""@),
        },
    }
}

/// Whether a pattern is found in a text.
pub open spec fn regex_test(pattern: Seq<char>, text: Seq<char>) -> Val {
    match regex_fault(pattern) {
        Some(e) => fail("invalid regex: "@ + e),
        None => Ok(ScriptV::Bool(regex_found(pattern, text))),
    }
}

/// The pattern that matches a whole text.
pub open spec fn anchored(pattern: Seq<char>) -> Seq<char> {
    "^(?:"@ + pattern + ")$"@
}

/// An operator `=~` (`whole` is false) or `==~` (it is true).
pub open spec fn regex_op(text: ScriptV, pattern: ScriptV, whole: bool) -> Val {
    match text {
        ScriptV::Str(s) => match pattern {
            ScriptV::Regex(p) => regex_test(
                if whole {
                    anchored(p)
                } else {
                    p
                },
                s,
            ),
            ScriptV::Str(p) => regex_test(
                if whole {
                    anchored(p)
                } else {
                    p
                },
                s,
            ),
            _ => fail("regex pattern must be a string or regex literal"@),
        },
        _ => if whole {
            fail("regex match requires string operand"@)
        } else {
            fail("regex find requires string operand"@)
        },
    }
}

/// The first argument.
pub open spec fn arg(args: Seq<ScriptV>, i: int) -> Option<ScriptV> {
    if i < args.len() {
        Some(args[i])
    } else {
        None
    }
}

/// A byte position within a text of `len` bytes: positions outside stand for
/// the end.
pub open spec fn clamp(i: int, len: int) -> int {
    if 0 <= i <= len {
        i
    } else {
        len
    }
}

/// The part of a text between two byte positions, if they are in order and
/// split no character.
pub open spec fn substring(s: Seq<char>, start: int, end: int) -> Val {
    let b = encode_utf8(s);
    let i = clamp(start, b.len() as int);
    let j = clamp(end, b.len() as int);
    if i <= j && is_char_boundary(b, i) && is_char_boundary(b, j) {
        Ok(ScriptV::Str(decode_utf8(b.subrange(i, j))))
    } else {
        fail("substring() indices out of range or not on a character boundary"@)
    }
}

/// What a matcher text holds: a pattern and the text to search.
pub open spec fn matcher_test(s: Seq<char>, whole: bool) -> Val {
    let rest = s.subrange("__matcher:"@.len() as int, s.len() as int);
    match find_from(rest, ":"@, 0) {
        None => Ok(ScriptV::Bool(false)),
        Some(i) => {
            let p = rest.subrange(0, i);
            regex_test(
                if whole {
                    anchored(p)
                } else {
                    p
                },
                rest.subrange(i + 1, rest.len() as int),
            )
        },
    }
}

/// A method of a text; none if texts have no such method.
pub open spec fn str_method(s: Seq<char>, m: Seq<char>, args: Seq<ScriptV>) -> Option<Val> {
    let first = arg(args, 0);
    if m == "toUpperCase"@ {
        Some(Ok(ScriptV::Str(upper_text(s))))
    } else if m == "toLowerCase"@ {
        Some(Ok(ScriptV::Str(lower_text(s))))
    } else if m == "length"@ {
        Some(Ok(ScriptV::Int(encode_utf8(s).len() as i64)))
    } else if m == "contains"@ {
        Some(
            match first {
                Some(ScriptV::Str(p)) => Ok(ScriptV::Bool(find_from(s, p, 0) is Some)),
                _ => fail("contains() requires a string argument"@),
            },
        )
    } else if m == "substring"@ {
        Some(
            match (first, arg(args, 1)) {
                (Some(ScriptV::Int(i)), Some(ScriptV::Int(j))) => substring(s, i as int, j as int),
                (Some(ScriptV::Int(i)), None) => substring(
                    s,
                    i as int,
                    encode_utf8(s).len() as int,
                ),
                _ => fail("substring() requires integer arguments"@),
            },
        )
    } else if m == "trim"@ {
        Some(Ok(ScriptV::Str(trim_text(s))))
    } else if m == "startsWith"@ {
        Some(
            match first {
                Some(ScriptV::Str(p)) => Ok(ScriptV::Bool(p.is_prefix_of(s))),
                _ => fail("startsWith() requires a string argument"@),
            },
        )
    } else if m == "endsWith"@ {
        Some(
            match first {
                Some(ScriptV::Str(p)) => Ok(ScriptV::Bool(p.is_suffix_of(s))),
                _ => fail("endsWith() requires a string argument"@),
            },
        )
    } else if m == "replace"@ {
        Some(
            match (first, arg(args, 1)) {
                (Some(ScriptV::Str(p)), Some(ScriptV::Str(to))) => Ok(
                    ScriptV::Str(replace_text(s, p, to)),
                ),
                _ => fail("replace() requires two string arguments"@),
            },
        )
    } else if m == "split"@ {
        Some(
            match first {
                Some(ScriptV::Str(p)) => Ok(
                    ScriptV::Array(split_text(s, p).map_values(|x: Seq<char>| ScriptV::Str(x))),
                ),
                _ => fail("split() requires a string argument"@),
            },
        )
    } else if m == "indexOf"@ {
        Some(
            match first {
                Some(ScriptV::Str(p)) => Ok(
                    ScriptV::Int(
                        match find_from(encode_utf8(s), encode_utf8(p), 0) {
                            Some(i) => i as i64,
                            None => (-1) as i64,
                        },
                    ),
                ),
                _ => fail("indexOf() requires a string argument"@),
            },
        )
    } else if m == "charAt"@ {
        Some(
            match first {
                Some(ScriptV::Int(i)) => Ok(
                    if 0 <= i < s.len() {
                        ScriptV::Str(seq![s[i as int]])
                    } else {
                        ScriptV::Null
                    },
                ),
                _ => fail("charAt() requires an integer argument"@),
            },
        )
    } else if m == "find"@ && "__matcher:"@.is_prefix_of(s) {
        Some(matcher_test(s, false))
    } else if m == "matches"@ && "__matcher:"@.is_prefix_of(s) {
        Some(matcher_test(s, true))
    } else {
        None
    }
}

/// The position of the first item from `i` on that equals `v`.
pub open spec fn index_of(t: AnswersV, a: Seq<ScriptV>, v: ScriptV, i: int) -> Result<
    Option<int>,
    QueryV,
>
    decreases a.len() - i,
{
    if i < 0 || i >= a.len() {
        Ok(None)
    } else {
        match equal(t, a[i], v) {
            Ok(true) => Ok(Some(i)),
            Ok(false) => index_of(t, a, v, i + 1),
            Err(q) => Err(q),
        }
    }
}

/// The item at a position, or null.
pub open spec fn item_at(a: Seq<ScriptV>, i: int) -> ScriptV {
    if 0 <= i < a.len() {
        a[i]
    } else {
        ScriptV::Null
    }
}

/// A method of a list; none if lists have no such method.
pub open spec fn array_method(
    t: AnswersV,
    a: Seq<ScriptV>,
    m: Seq<char>,
    args: Seq<ScriptV>,
) -> Option<Val> {
    let first = arg(args, 0);
    if m == "size"@ || m == "length"@ {
        Some(Ok(ScriptV::Int(a.len() as i64)))
    } else if m == "contains"@ {
        Some(
            match first {
                Some(v) => match index_of(t, a, v, 0) {
                    Ok(i) => Ok(ScriptV::Bool(i is Some)),
                    Err(q) => Err(HaltV::Ask(q)),
                },
                None => fail("contains() requires an argument"@),
            },
        )
    } else if m == "indexOf"@ {
        Some(
            match first {
                Some(v) => match index_of(t, a, v, 0) {
                    Ok(Some(i)) => Ok(ScriptV::Int(i as i64)),
                    Ok(None) => Ok(ScriptV::Int((-1) as i64)),
                    Err(q) => Err(HaltV::Ask(q)),
                },
                None => fail("indexOf() requires an argument"@),
            },
        )
    } else if m == "add"@ {
        Some(
            match first {
                Some(v) => Ok(ScriptV::Array(a.push(v))),
                None => fail("add() requires an argument"@),
            },
        )
    } else if m == "remove"@ {
        Some(
            match first {
                Some(ScriptV::Int(i)) => Ok(
                    ScriptV::Array(
                        if 0 <= i < a.len() {
                            a.remove(i as int)
                        } else {
                            a
                        },
                    ),
                ),
                _ => fail("remove() requires an integer argument"@),
            },
        )
    } else if m == "isEmpty"@ {
        Some(Ok(ScriptV::Bool(a.len() == 0)))
    } else if m == "get"@ {
        Some(
            match first {
                Some(ScriptV::Int(i)) => Ok(item_at(a, i as int)),
                _ => fail("get() requires an integer argument"@),
            },
        )
    } else if m == "join"@ {
        let sep = match first {
            Some(ScriptV::Str(s)) => s,
            _ => ","@,
        };
        Some(text_val(display_items(t, a, sep, 0, Seq::empty())))
    } else {
        None
    }
}

/// The value under a key, or null.
pub open spec fn under(m: Seq<(Seq<char>, ScriptV)>, k: Seq<char>) -> ScriptV {
    match lookup(m, k) {
        Some(v) => v,
        None => ScriptV::Null,
    }
}

/// The keys of a map, as texts.
pub open spec fn keys_of(m: Seq<(Seq<char>, ScriptV)>) -> Seq<ScriptV> {
    Seq::new(m.len(), |i: int| ScriptV::Str(m[i].0))
}

/// The values of a map.
pub open spec fn values_of(m: Seq<(Seq<char>, ScriptV)>) -> Seq<ScriptV> {
    Seq::new(m.len(), |i: int| m[i].1)
}

/// A method of a map; none if maps have no such method.
pub open spec fn map_method(
    t: AnswersV,
    p: Seq<(Seq<char>, ScriptV)>,
    m: Seq<char>,
    args: Seq<ScriptV>,
) -> Option<Val> {
    let first = arg(args, 0);
    if m == "containsKey"@ {
        Some(
            match first {
                Some(ScriptV::Str(k)) => Ok(ScriptV::Bool(lookup(p, k) is Some)),
                _ => fail("containsKey() requires a string argument"@),
            },
        )
    } else if m == "get"@ {
        Some(
            match first {
                Some(ScriptV::Str(k)) => Ok(under(p, k)),
                _ => fail("get() requires a string argument"@),
            },
        )
    } else if m == "put"@ {
        Some(
            match (first, arg(args, 1)) {
                (Some(ScriptV::Str(k)), Some(v)) => Ok(ScriptV::Dict(put(p, k, v))),
                _ => fail("put() requires a string key and a value"@),
            },
        )
    } else if m == "remove"@ {
        Some(
            match first {
                Some(ScriptV::Str(k)) => Ok(ScriptV::Dict(without(p, k))),
                _ => fail("remove() requires a string argument"@),
            },
        )
    } else if m == "keySet"@ {
        Some(Ok(ScriptV::Array(keys_of(p))))
    } else if m == "values"@ {
        Some(Ok(ScriptV::Array(values_of(p))))
    } else if m == "size"@ {
        Some(Ok(ScriptV::Int(p.len() as i64)))
    } else if m == "isEmpty"@ {
        Some(Ok(ScriptV::Bool(p.len() == 0)))
    } else if m == "containsValue"@ {
        Some(
            match first {
                Some(v) => match index_of(t, values_of(p), v, 0) {
                    Ok(i) => Ok(ScriptV::Bool(i is Some)),
                    Err(q) => Err(HaltV::Ask(q)),
                },
                None => fail("containsValue() requires an argument"@),
            },
        )
    } else if m == "matches"@ {
        Some(Ok(ScriptV::Bool(lookup(p, "_matched"@) == Some(ScriptV::Bool(true)))))
    } else if m == "group"@ {
        Some(
            Ok(
                under(
                    p,
                    match first {
                        Some(ScriptV::Int(i)) => int_text(i as int),
                        _ => "0"@,
                    },
                ),
            ),
        )
    } else {
        None
    }
}

/// The parts of the date that a value is.
pub open spec fn date_parts(t: AnswersV, v: ScriptV) -> Result<DateParts, HaltV> {
    match v {
        ScriptV::Int(ms) => Ok(parts_of_epoch(ms as int)),
        ScriptV::Str(s) => {
            let d = trim_text(s);
            if d.len() < 10 || !is_ascii_chars(d) {
                fail("cannot parse date: "@ + d)
            } else {
                Ok(parts_of_text(d))
            }
        },
        ScriptV::Float(d) => match ask_int(t, query("int"@, seq![d])) {
            Ok(ms) => Ok(parts_of_epoch(ms as int)),
            Err(q) => Err(HaltV::Ask(q)),
        },
        _ => match display(t, v) {
            Ok(s) => fail("cannot interpret as date: "@ + s),
            Err(q) => Err(HaltV::Ask(q)),
        },
    }
}

/// Whether a method reads a part of a date.
pub open spec fn is_date_getter(m: Seq<char>) -> bool {
    m == "getYear"@ || m == "getMonthValue"@ || m == "getDayOfMonth"@ || m == "getHour"@ || m
        == "getMinute"@ || m == "getSecond"@ || m == "getNano"@ || m == "getDayOfWeek"@ || m
        == "getDayOfYear"@ || m == "getMillis"@ || m == "toEpochMilli"@ || m == "toInstant"@
}

/// A part of a date.
pub open spec fn date_getter(p: DateParts, m: Seq<char>) -> Val {
    if m == "getYear"@ {
        Ok(ScriptV::Int(p.year))
    } else if m == "getMonthValue"@ {
        Ok(ScriptV::Int(p.month))
    } else if m == "getDayOfMonth"@ {
        Ok(ScriptV::Int(p.day))
    } else if m == "getHour"@ {
        Ok(ScriptV::Int(p.hour))
    } else if m == "getMinute"@ {
        Ok(ScriptV::Int(p.minute))
    } else if m == "getSecond"@ {
        Ok(ScriptV::Int(p.second))
    } else if m == "getNano"@ {
        Ok(ScriptV::Int(0))
    } else if m == "getDayOfWeek"@ {
        Ok(ScriptV::Int(day_of_week(p.epoch_ms as int) as i64))
    } else if m == "getDayOfYear"@ {
        if 1 <= p.month <= 12 {
            Ok(
                ScriptV::Int(
                    (days_before(p.month as int, is_leap(p.year as int)) + p.day) as i64,
                ),
            )
        } else {
            fail("getDayOfYear(): invalid month "@ + int_text(p.month as int) + " in date"@)
        }
    } else {
        Ok(ScriptV::Int(p.epoch_ms))
    }
}

/// The milliseconds of the unit by which a method moves a date, negative where
/// it moves it back.
pub open spec fn date_unit(m: Seq<char>) -> Option<i64> {
    if m == "plusDays"@ {
        Some(86_400_000)
    } else if m == "minusDays"@ {
        Some((-86_400_000) as i64)
    } else if m == "plusHours"@ {
        Some(3_600_000)
    } else if m == "minusHours"@ {
        Some((-3_600_000) as i64)
    } else if m == "plusMinutes"@ {
        Some(60_000)
    } else if m == "minusMinutes"@ {
        Some((-60_000) as i64)
    } else if m == "plusSeconds"@ {
        Some(1_000)
    } else if m == "minusSeconds"@ {
        Some((-1_000) as i64)
    } else {
        None
    }
}

/// A number of units: integers pass through double precision, doubles lose
/// their fraction, and what is no number is zero.
pub open spec fn amount(t: AnswersV, v: Option<ScriptV>) -> Result<i64, HaltV> {
    match v {
        Some(ScriptV::Int(n)) => Ok(nearest(n as int) as i64),
        Some(ScriptV::Float(d)) => match ask_int(t, query("int"@, seq![d])) {
            Ok(n) => Ok(n),
            Err(q) => Err(HaltV::Ask(q)),
        },
        _ => Ok(0),
    }
}

/// A method that any value may have: `value`, and those of dates.
pub open spec fn common_method(
    t: AnswersV,
    v: ScriptV,
    m: Seq<char>,
    args: Seq<ScriptV>,
) -> Val {
    if m == "value"@ {
        Ok(v)
    } else if is_date_getter(m) {
        match date_parts(t, v) {
            Ok(p) => date_getter(p, m),
            Err(h) => Err(h),
        }
    } else {
        match date_unit(m) {
            Some(unit) => match date_parts(t, v) {
                Err(h) => Err(h),
                Ok(p) => match amount(t, arg(args, 0)) {
                    Err(h) => Err(h),
                    Ok(n) => Ok(
                        ScriptV::Int(
                            i64_specs::wrapping_add(p.epoch_ms, i64_specs::wrapping_mul(n, unit)),
                        ),
                    ),
                },
            },
            None => fail("unknown method: "@ + m),
        }
    }
}

/// `v.m(args)`
pub open spec fn method(t: AnswersV, v: ScriptV, m: Seq<char>, args: Seq<ScriptV>) -> Val {
    let own = match v {
        ScriptV::Str(s) => str_method(s, m, args),
        ScriptV::Regex(p) => if m == "matcher"@ {
            Some(
                match arg(args, 0) {
                    Some(ScriptV::Str(text)) => Ok(
                        ScriptV::Str("__matcher:"@ + p + ":"@ + text),
                    ),
                    _ => fail("matcher() requires a string argument"@),
                },
            )
        } else {
            None
        },
        ScriptV::Array(a) => array_method(t, a, m, args),
        ScriptV::Dict(p) => map_method(t, p, m, args),
        _ => None,
    };
    match own {
        Some(r) => r,
        None => common_method(t, v, m, args),
    }
}

/// The integer that an argument of a class's static method spells or is.
pub open spec fn parse_integer(args: Seq<ScriptV>, none: Seq<char>) -> Val {
    match arg(args, 0) {
        Some(ScriptV::Str(s)) => match i64_of_text(trim_text(s)) {
            Some(n) => Ok(ScriptV::Int(n)),
            None => fail("cannot parse '"@ + s + "' as integer"@),
        },
        Some(ScriptV::Int(n)) => Ok(ScriptV::Int(n)),
        _ => fail(none),
    }
}

/// `class.m(args)`
pub open spec fn static_call(
    t: AnswersV,
    class: Seq<char>,
    m: Seq<char>,
    args: Seq<ScriptV>,
) -> Val {
    let whole = class == "Integer"@ || class == "Long"@;
    if whole && (m == "parseInt"@ || m == "parseLong"@) {
        parse_integer(args, class + "."@ + m + "() requires a string argument"@)
    } else if (class == "Float"@ || class == "Double"@) && (m == "parseFloat"@ || m
        == "parseDouble"@) {
        match arg(args, 0) {
            Some(ScriptV::Str(s)) => match ask_parse(t, trim_text(s)) {
                Ok(Some(b)) => Ok(ScriptV::Float(DoubleV::Bits(b))),
                Ok(None) => fail("cannot parse '"@ + s + "' as float"@),
                Err(q) => Err(HaltV::Ask(q)),
            },
            Some(ScriptV::Float(d)) => Ok(ScriptV::Float(d)),
            _ => fail(class + "."@ + m + "() requires a string argument"@),
        }
    } else if class == "String"@ && m == "valueOf"@ {
        match arg(args, 0) {
            Some(v) => text_val(display(t, v)),
            None => Ok(ScriptV::Str(Seq::empty())),
        }
    } else if whole && m == "valueOf"@ {
        parse_integer(args, class + ".valueOf() requires an argument"@)
    } else if class == "Boolean"@ && (m == "parseBoolean"@ || m == "valueOf"@) {
        match arg(args, 0) {
            Some(ScriptV::Str(s)) => Ok(ScriptV::Bool(same_ignoring_case(s, "true"@))),
            Some(ScriptV::Bool(b)) => Ok(ScriptV::Bool(b)),
            _ => Ok(ScriptV::Bool(false)),
        }
    } else {
        fail("unknown static method: "@ + class + "."@ + m)
    }
}

/// The functions of `Math` that take one number.
pub open spec fn is_math1(f: Seq<char>) -> bool {
    f == "log"@ || f == "log10"@ || f == "log2"@ || f == "exp"@ || f == "sqrt"@ || f == "cbrt"@ || f
        == "ceil"@ || f == "floor"@ || f == "round"@ || f == "rint"@ || f == "sin"@ || f == "cos"@
        || f == "tan"@ || f == "asin"@ || f == "acos"@ || f == "atan"@ || f == "sinh"@ || f
        == "cosh"@ || f == "tanh"@ || f == "signum"@ || f == "toRadians"@ || f == "toDegrees"@
}

/// The number that an argument is, if there is one and it is a number.
pub open spec fn number_arg(args: Seq<ScriptV>, i: int) -> Option<DoubleV> {
    match arg(args, i) {
        Some(v) => as_number(v),
        None => None,
    }
}

/// `Math.f(args)`, where `draws` random numbers were drawn before.
pub open spec fn math(t: AnswersV, f: Seq<char>, args: Seq<ScriptV>, draws: i64) -> Val {
    if f == "max"@ || f == "min"@ {
        match (number_arg(args, 0), number_arg(args, 1)) {
            (Some(a), Some(b)) => match (args[0], args[1]) {
                (ScriptV::Int(x), ScriptV::Int(y)) => {
                    let p = nearest(x as int) as i64;
                    let q = nearest(y as int) as i64;
                    Ok(
                        ScriptV::Int(
                            if (f == "max"@) == (p >= q) {
                                p
                            } else {
                                q
                            },
                        ),
                    )
                },
                _ => bits_val(ask_bits(t, query(f, seq![a, b]))),
            },
            _ => fail("Math."@ + f + " requires numbers"@),
        }
    } else if f == "abs"@ {
        match arg(args, 0) {
            None => fail("Math.abs requires an argument"@),
            Some(ScriptV::Int(n)) => Ok(
                ScriptV::Int(
                    if n < 0 {
                        i64_specs::wrapping_sub(0, n)
                    } else {
                        n
                    },
                ),
            ),
            Some(ScriptV::Float(d)) => bits_val(ask_bits(t, query("abs"@, seq![d]))),
            _ => fail("Math.abs requires a number"@),
        }
    } else if is_math1(f) {
        match number_arg(args, 0) {
            Some(a) => bits_val(ask_bits(t, query(f, seq![a]))),
            None => fail("Math."@ + f + " requires a number"@),
        }
    } else if f == "pow"@ || f == "atan2"@ {
        match (number_arg(args, 0), number_arg(args, 1)) {
            (Some(a), Some(b)) => bits_val(ask_bits(t, query(f, seq![a, b]))),
            _ => fail("Math."@ + f + " requires two numbers"@),
        }
    } else if f == "random"@ {
        bits_val(ask_bits(t, query("random"@, seq![DoubleV::Int(draws)])))
    } else {
        fail("unknown Math function: "@ + f)
    }
}

/// The component that a value is: a number, or a boolean as 0 or 1.
pub open spec fn component(v: ScriptV) -> Option<DoubleV> {
    match v {
        ScriptV::Bool(b) => Some(
            DoubleV::Int(
                if b {
                    1
                } else {
                    0
                },
            ),
        ),
        _ => as_number(v),
    }
}

/// The components from `i` on, behind `acc`.
pub open spec fn components(a: Seq<ScriptV>, i: int, acc: Seq<DoubleV>) -> Result<
    Seq<DoubleV>,
    HaltV,
>
    decreases a.len() - i,
{
    if i < 0 || i >= a.len() {
        Ok(acc)
    } else {
        match component(a[i]) {
            Some(d) => components(a, i + 1, acc.push(d)),
            None => fail("vector element must be numeric for similarity function"@),
        }
    }
}

/// The components of a vector. A list that begins with a list stands for that
/// one; null is the empty vector.
pub open spec fn vector(v: ScriptV) -> Result<Seq<DoubleV>, HaltV>
    decreases v,
{
    match v {
        ScriptV::Array(a) => if a.len() > 0 && a[0] is Array {
            vector(a[0])
        } else {
            components(a, 0, Seq::empty())
        },
        ScriptV::Null => Ok(Seq::empty()),
        _ => fail("expected an array for vector similarity argument"@),
    }
}

/// What a script can see and change.
#[verifier::ext_equal]
pub struct CtxV {
    pub doc: Seq<(Seq<char>, JsonV)>,
    pub source: JsonV,
    pub params: Seq<(Seq<char>, JsonV)>,
    pub locals: Seq<(Seq<char>, ScriptV)>,
    pub metadata: Seq<(Seq<char>, Seq<char>)>,
    pub draws: i64,
}

/// The value that a path of member names leads to, from name `i` on.
pub open spec fn get_path(j: JsonV, path: Seq<Seq<char>>, i: int) -> Option<JsonV>
    decreases path.len() - i,
{
    if i < 0 || i >= path.len() {
        Some(j)
    } else {
        match json_get(j, path[i]) {
            Some(v) => get_path(v, path, i + 1),
            None => None,
        }
    }
}

/// The value at a dotted path, or null.
pub open spec fn nested(j: JsonV, path: Seq<char>) -> JsonV {
    match get_path(j, split_text(path, "."@), 0) {
        Some(v) => v,
        None => JsonV::Null,
    }
}

/// `j` with `v` at a path of member names, from name `i` on. Only an object
/// takes members; a member on the way that is no object becomes one.
pub open spec fn set_path(j: JsonV, path: Seq<Seq<char>>, i: int, v: JsonV) -> JsonV
    decreases path.len() - i,
{
    match j {
        JsonV::Object(p) => if i < 0 || i >= path.len() {
            j
        } else if i + 1 == path.len() {
            JsonV::Object(put(p, path[i], v))
        } else {
            let child = match lookup(p, path[i]) {
                Some(JsonV::Object(c)) => JsonV::Object(c),
                _ => JsonV::Object(Seq::empty()),
            };
            JsonV::Object(put(p, path[i], set_path(child, path, i + 1, v)))
        },
        _ => j,
    }
}

/// `j` with `v` at a dotted path.
pub open spec fn with_nested(j: JsonV, path: Seq<char>, v: JsonV) -> JsonV {
    set_path(j, split_text(path, "."@), 0, v)
}

/// The stored vector that an argument of a vector function names or is.
pub open spec fn doc_vector(v: ScriptV, c: CtxV) -> Result<Seq<DoubleV>, HaltV> {
    match v {
        ScriptV::Str(field) => match lookup(c.doc, field) {
            Some(j) => vector(value_of_json(j)),
            None => vector(value_of_json(nested(c.source, field))),
        },
        ScriptV::Array(_) => vector(v),
        _ => fail("vector similarity field argument must be a string"@),
    }
}

/// The vector functions.
pub open spec fn is_vector_fn(f: Seq<char>) -> bool {
    f == "dotProduct"@ || f == "cosineSimilarity"@ || f == "l1norm"@ || f == "l2norm"@ || f
        == "hamming"@
}

/// A vector function of two vectors.
pub open spec fn compared(t: AnswersV, f: Seq<char>, a: Seq<DoubleV>, b: Seq<DoubleV>) -> Val {
    if a.len() != b.len() {
        fail(
            f + ": vector dimension mismatch ("@ + nat_text(a.len()) + " vs "@ + nat_text(b.len())
                + ")"@,
        )
    } else if a.len() == 0 {
        Ok(ScriptV::Float(DoubleV::Bits(0)))
    } else {
        bits_val(ask_bits(t, query(f, a + b)))
    }
}

/// `f(args)`
pub open spec fn func_call(t: AnswersV, f: Seq<char>, args: Seq<ScriptV>, c: CtxV) -> Val {
    if !is_vector_fn(f) {
        fail("unknown function: "@ + f)
    } else if args.len() != 2 {
        fail(f + " requires (queryVector, field)"@)
    } else {
        match vector(args[0]) {
            Err(h) => Err(h),
            Ok(a) => match doc_vector(args[1], c) {
                Err(h) => Err(h),
                Ok(b) => compared(t, f, a, b),
            },
        }
    }
}

/// `(name) v`
pub open spec fn cast(t: AnswersV, name: Seq<char>, v: ScriptV) -> Val {
    if name == "int"@ || name == "long"@ {
        match v {
            ScriptV::Int(n) => Ok(ScriptV::Int(n)),
            ScriptV::Float(d) => match ask_int(t, query("int"@, seq![d])) {
                Ok(n) => Ok(ScriptV::Int(n)),
                Err(q) => Err(HaltV::Ask(q)),
            },
            ScriptV::Str(s) => match i64_of_text(s) {
                Some(n) => Ok(ScriptV::Int(n)),
                None => fail("cannot cast '"@ + s + "' to int"@),
            },
            ScriptV::Bool(b) => Ok(
                ScriptV::Int(
                    if b {
                        1
                    } else {
                        0
                    },
                ),
            ),
            _ => Ok(ScriptV::Int(0)),
        }
    } else if name == "float"@ || name == "double"@ {
        match v {
            ScriptV::Int(n) => Ok(ScriptV::Float(DoubleV::Int(n))),
            ScriptV::Float(d) => Ok(ScriptV::Float(d)),
            ScriptV::Str(s) => match ask_parse(t, s) {
                Ok(Some(b)) => Ok(ScriptV::Float(DoubleV::Bits(b))),
                Ok(None) => fail("cannot cast '"@ + s + "' to double"@),
                Err(q) => Err(HaltV::Ask(q)),
            },
            _ => Ok(ScriptV::Float(DoubleV::Bits(0))),
        }
    } else if name == "String"@ {
        text_val(display(t, v))
    } else if name == "boolean"@ {
        flag_val(truthy(t, v))
    } else {
        Ok(v)
    }
}

/// `v[index]`
pub open spec fn index_access(v: ScriptV, index: ScriptV) -> Val {
    match (v, index) {
        (ScriptV::Array(a), ScriptV::Int(i)) => Ok(item_at(a, i as int)),
        (ScriptV::Dict(m), ScriptV::Str(k)) => Ok(under(m, k)),
        _ => fail("invalid index access"@),
    }
}

/// `ctx.field` as it reads: a metadata field, or what stands in the source.
pub open spec fn source_field(c: CtxV, field: Seq<char>) -> ScriptV {
    if field.len() > 0 && field[0] == '_' && lookup(c.metadata, field) is Some {
        ScriptV::Str(lookup(c.metadata, field)->0)
    } else {
        value_of_json(nested(c.source, field))
    }
}

pub open spec fn member_or_null(p: Seq<(Seq<char>, JsonV)>, k: Seq<char>) -> JsonV {
    match lookup(p, k) {
        Some(j) => j,
        None => JsonV::Null,
    }
}

/// `ctx.field = v`: the value, and the context with it in the source.
pub open spec fn assign(t: AnswersV, c: CtxV, field: Seq<char>, v: ScriptV) -> (Val, CtxV) {
    match json_of(t, v) {
        Ok(j) => (Ok(v), CtxV { source: with_nested(c.source, field, j), ..c }),
        Err(q) => (Err(HaltV::Ask(q)), c),
    }
}

/// The context with a variable set.
pub open spec fn set_local(c: CtxV, name: Seq<char>, v: ScriptV) -> CtxV {
    CtxV { locals: put(c.locals, name, v), ..c }
}

/// What a list of statements ends with.
pub enum FlowV {
    Value(ScriptV),
    Return(ScriptV),
}

pub open spec fn flow_value(r: Result<FlowV, HaltV>) -> Val {
    match r {
        Ok(FlowV::Value(v)) => Ok(v),
        Ok(FlowV::Return(v)) => Ok(v),
        Err(h) => Err(h),
    }
}

/// How often a loop may run.
pub const LOOP_LIMIT: u32 = 100_000;

/// The value of an expression, and the context behind it.
#[verifier::opaque]
pub open spec fn eval(t: AnswersV, e: ExprV, c: CtxV) -> (Val, CtxV)
    decreases e, 1nat, 0nat,
{
    match e {
        ExprV::IntLit(n) => (Ok(ScriptV::Int(n)), c),
        ExprV::FloatLit(d) => (Ok(ScriptV::Float(d)), c),
        ExprV::StringLit(s) => (Ok(ScriptV::Str(s)), c),
        ExprV::BoolLit(b) => (Ok(ScriptV::Bool(b)), c),
        ExprV::NullLit => (Ok(ScriptV::Null), c),
        ExprV::RegexLit(s) => (Ok(ScriptV::Regex(s)), c),
        ExprV::Lambda(_, _) => (Ok(ScriptV::Null), c),
        ExprV::DocField(f) => (Ok(value_of_json(member_or_null(c.doc, f))), c),
        ExprV::SourceField(f) => (Ok(source_field(c, f)), c),
        ExprV::ParamField(f) => (Ok(value_of_json(member_or_null(c.params, f))), c),
        ExprV::Var(name) => (
            Ok(
                if name == "_source"@ {
                    value_of_json(c.source)
                } else {
                    under(c.locals, name)
                },
            ),
            c,
        ),
        ExprV::Assign(f, x) => match eval(t, *x, c) {
            (Ok(v), c1) => assign(t, c1, f, v),
            r => r,
        },
        ExprV::CompoundAssign(f, op, x) => match eval(t, *x, c) {
            (Ok(v), c1) => match binop(t, value_of_json(nested(c.source, f)), op, v) {
                Ok(u) => assign(t, c1, f, u),
                Err(h) => (Err(h), c1),
            },
            r => r,
        },
        ExprV::BinOp(l, op, r) => match eval(t, *l, c) {
            (Ok(a), c1) => match eval(t, *r, c1) {
                (Ok(b), c2) => (binop(t, a, op, b), c2),
                x => x,
            },
            x => x,
        },
        ExprV::UnaryOp(op, x) => match eval(t, *x, c) {
            (Ok(v), c1) => (unary(t, op, v), c1),
            r => r,
        },
        ExprV::Ternary(x, y, z) => match eval(t, *x, c) {
            (Ok(v), c1) => match truthy(t, v) {
                Ok(true) => eval(t, *y, c1),
                Ok(false) => eval(t, *z, c1),
                Err(q) => (Err(HaltV::Ask(q)), c1),
            },
            r => r,
        },
        ExprV::MethodCall(x, m, args) => match eval(t, *x, c) {
            (Ok(v), c1) => match eval_list(t, args, 0, Seq::empty(), c1) {
                (Ok(vs), c2) => (method(t, v, m, vs), c2),
                (Err(h), c2) => (Err(h), c2),
            },
            r => r,
        },
        ExprV::MathCall(f, args) => match eval_list(t, args, 0, Seq::empty(), c) {
            (Ok(vs), c1) => (
                math(t, f, vs, c1.draws),
                if f == "random"@ {
                    CtxV { draws: i64_specs::wrapping_add(c1.draws, 1), ..c1 }
                } else {
                    c1
                },
            ),
            (Err(h), c1) => (Err(h), c1),
        },
        ExprV::FuncCall(f, args) => match eval_list(t, args, 0, Seq::empty(), c) {
            (Ok(vs), c1) => (func_call(t, f, vs, c1), c1),
            (Err(h), c1) => (Err(h), c1),
        },
        ExprV::StaticCall(k, m, args) => match eval_list(t, args, 0, Seq::empty(), c) {
            (Ok(vs), c1) => (static_call(t, k, m, vs), c1),
            (Err(h), c1) => (Err(h), c1),
        },
        ExprV::ArrayLit(xs) => match eval_list(t, xs, 0, Seq::empty(), c) {
            (Ok(vs), c1) => (Ok(ScriptV::Array(vs)), c1),
            (Err(h), c1) => (Err(h), c1),
        },
        ExprV::IfElse(x, yes, no) => match eval(t, *x, c) {
            (Ok(v), c1) => match truthy(t, v) {
                Ok(true) => {
                    let (r, c2) = run(t, yes, 0, ScriptV::Null, c1);
                    (flow_value(r), c2)
                },
                Ok(false) => match no {
                    Some(b) => {
                        let (r, c2) = run(t, b, 0, ScriptV::Null, c1);
                        (flow_value(r), c2)
                    },
                    None => (Ok(ScriptV::Null), c1),
                },
                Err(q) => (Err(HaltV::Ask(q)), c1),
            },
            r => r,
        },
        ExprV::For(init, _, _, _) => match *init {
            StmtV::VarDecl(name, x) => match eval(t, x, c) {
                (Ok(v), c1) => run_for(t, e, 0, ScriptV::Null, set_local(c1, name, v)),
                r => r,
            },
            StmtV::Expr(x) => match eval(t, x, c) {
                (Ok(_), c1) => run_for(t, e, 0, ScriptV::Null, c1),
                r => r,
            },
            StmtV::Return(x) => eval(t, x, c),
            StmtV::TryCatch(_, _, _) => run_for(t, e, 0, ScriptV::Null, c),
        },
        ExprV::ForEach(_, x, _) => match eval(t, *x, c) {
            (Ok(ScriptV::Array(items)), c1) => run_each(t, e, items, 0, ScriptV::Null, c1),
            (Ok(_), c1) => (fail("for-each requires an iterable (array)"@), c1),
            r => r,
        },
        ExprV::RegexFind(x, y) => match eval(t, *x, c) {
            (Ok(a), c1) => match eval(t, *y, c1) {
                (Ok(b), c2) => (regex_op(a, b, false), c2),
                r => r,
            },
            r => r,
        },
        ExprV::RegexMatchOp(x, y) => match eval(t, *x, c) {
            (Ok(a), c1) => match eval(t, *y, c1) {
                (Ok(b), c2) => (regex_op(a, b, true), c2),
                r => r,
            },
            r => r,
        },
        ExprV::TypeCast(name, x) => match eval(t, *x, c) {
            (Ok(v), c1) => (cast(t, name, v), c1),
            r => r,
        },
        ExprV::VarDecl(name, x) => match eval(t, *x, c) {
            (Ok(v), c1) => (Ok(v), set_local(c1, name, v)),
            r => r,
        },
        ExprV::VarCompoundAssign(name, op, x) => match eval(t, *x, c) {
            (Ok(v), c1) => match binop(t, under(c.locals, name), op, v) {
                Ok(u) => (Ok(u), set_local(c1, name, u)),
                Err(h) => (Err(h), c1),
            },
            r => r,
        },
        ExprV::IndexAccess(x, y) => match eval(t, *x, c) {
            (Ok(a), c1) => match eval(t, *y, c1) {
                (Ok(b), c2) => (index_access(a, b), c2),
                r => r,
            },
            r => r,
        },
    }
}

/// The values of expressions from `i` on, behind `acc`.
#[verifier::opaque]
pub open spec fn eval_list(
    t: AnswersV,
    xs: Seq<ExprV>,
    i: int,
    acc: Seq<ScriptV>,
    c: CtxV,
) -> (Result<Seq<ScriptV>, HaltV>, CtxV)
    decreases xs, 0nat, xs.len() - i,
{
    if i < 0 || i >= xs.len() {
        (Ok(acc), c)
    } else {
        match eval(t, xs[i], c) {
            (Ok(v), c1) => eval_list(t, xs, i + 1, acc.push(v), c1),
            (Err(h), c1) => (Err(h), c1),
        }
    }
}

/// What statements from `i` on end with, where the last value was `last`. A
/// `try` hands the text of an error, but no open computation, to its handler.
#[verifier::opaque]
pub open spec fn run(t: AnswersV, s: Seq<StmtV>, i: int, last: ScriptV, c: CtxV) -> (
    Result<FlowV, HaltV>,
    CtxV,
)
    decreases s, 0nat, s.len() - i,
{
    if i < 0 || i >= s.len() {
        (Ok(FlowV::Value(last)), c)
    } else {
        match s[i] {
            StmtV::Return(x) => match eval(t, x, c) {
                (Ok(v), c1) => (Ok(FlowV::Return(v)), c1),
                (Err(h), c1) => (Err(h), c1),
            },
            StmtV::Expr(x) => match eval(t, x, c) {
                (Ok(v), c1) => run(t, s, i + 1, v, c1),
                (Err(h), c1) => (Err(h), c1),
            },
            StmtV::VarDecl(name, x) => match eval(t, x, c) {
                (Ok(v), c1) => run(t, s, i + 1, v, set_local(c1, name, v)),
                (Err(h), c1) => (Err(h), c1),
            },
            StmtV::TryCatch(body, name, handler) => match run(t, body, 0, ScriptV::Null, c) {
                (Ok(FlowV::Value(v)), c1) => run(t, s, i + 1, v, c1),
                (Err(HaltV::Error(e)), c1) => match run(
                    t,
                    handler,
                    0,
                    ScriptV::Null,
                    set_local(c1, name, ScriptV::Str(err_text(e))),
                ) {
                    (Ok(FlowV::Value(v)), c2) => run(t, s, i + 1, v, c2),
                    r => r,
                },
                r => r,
            },
        }
    }
}

/// A `for` loop that has begun `n` rounds, where the last value was `last`.
#[verifier::opaque]
pub open spec fn run_for(t: AnswersV, e: ExprV, n: nat, last: ScriptV, c: CtxV) -> (Val, CtxV)
    decreases e, 0nat, LOOP_LIMIT - n,
{
    match e {
        ExprV::For(_, cond, next, body) => if n >= LOOP_LIMIT {
            (
                Err(HaltV::Error(ErrV::Internal("for loop iteration limit exceeded"@))),
                c,
            )
        } else {
            match eval(t, *cond, c) {
                (Err(h), c1) => (Err(h), c1),
                (Ok(v), c1) => match truthy(t, v) {
                    Err(q) => (Err(HaltV::Ask(q)), c1),
                    Ok(false) => (Ok(last), c1),
                    Ok(true) => match run(t, body, 0, ScriptV::Null, c1) {
                        (Err(h), c2) => (Err(h), c2),
                        (Ok(FlowV::Return(r)), c2) => (Ok(r), c2),
                        (Ok(FlowV::Value(r)), c2) => match *next {
                            StmtV::VarDecl(name, x) => match eval(t, x, c2) {
                                (Ok(w), c3) => run_for(t, e, n + 1, r, set_local(c3, name, w)),
                                x => x,
                            },
                            StmtV::Expr(x) => match eval(t, x, c2) {
                                (Ok(_), c3) => run_for(t, e, n + 1, r, c3),
                                x => x,
                            },
                            _ => run_for(t, e, n + 1, r, c2),
                        },
                    },
                },
            }
        },
        _ => (Ok(last), c),
    }
}

/// A for-each loop over the items from `i` on, where the last value was `last`.
#[verifier::opaque]
pub open spec fn run_each(
    t: AnswersV,
    e: ExprV,
    items: Seq<ScriptV>,
    i: int,
    last: ScriptV,
    c: CtxV,
) -> (Val, CtxV)
    decreases e, 0nat, items.len() - i,
{
    match e {
        ExprV::ForEach(name, _, body) => if i < 0 || i >= items.len() {
            (Ok(last), c)
        } else {
            match run(t, body, 0, ScriptV::Null, set_local(c, name, items[i])) {
                (Err(h), c1) => (Err(h), c1),
                (Ok(FlowV::Return(r)), c1) => (Ok(r), c1),
                (Ok(FlowV::Value(r)), c1) => run_each(t, e, items, i + 1, r, c1),
            }
        },
        _ => (Ok(last), c),
    }
}

/// The JSON result of a program, and the context behind it. Where an answer is
/// missing the context stays as it was.
pub open spec fn evaluated(t: AnswersV, program: Seq<StmtV>, c: CtxV) -> (
    Result<JsonV, HaltV>,
    CtxV,
) {
    let (r, c1) = run(t, program, 0, ScriptV::Null, c);
    match flow_value(r) {
        Err(HaltV::Ask(q)) => (Err(HaltV::Ask(q)), c),
        Err(h) => (Err(h), c1),
        Ok(v) => match json_of(t, v) {
            Ok(j) => (Ok(j), c1),
            Err(q) => (Err(HaltV::Ask(q)), c),
        },
    }
}

} // verus!
