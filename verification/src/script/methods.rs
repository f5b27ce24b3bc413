//! Operators, methods and functions of scripts.
use crate::double::{ask1, ask2, doubles_view, Answers, Double, DoubleQuery, DoubleV};
use crate::error::FerroError;
use crate::script::ast::{BinOp, UnaryOp};
use crate::script::date::{date_of_epoch, date_of_text, day_of_year, weekday, DateParts};
use crate::script::number::near;
use crate::script::regexes::{pattern_fault, pattern_found};
use crate::script::semantics::{
    anchored, arg, array_method, binop, cast, common_method, component, components, date_getter,
    date_parts, date_unit, double_binop, index_access, index_of, int_binop, is_date_getter,
    is_math1, is_vector_fn, item_at, keys_of, map_method, matcher_test, math, method, number_arg,
    parse_integer, regex_op, regex_test, static_call, str_method, substring, trunc_div, unary,
    under, values_of, vector, ErrV, HaltV, Val,
};
use crate::script::value::{
    display_list, map_get, map_put, map_remove, map_view, values_view, ScriptV, ScriptValue,
};
use crate::text::{
    chars_of, contains, ends_with, eq_ignore_case, find_bytes, find_chars, i64_text, join2, join3,
    parse_i64, replace_all, same, split, starts_with, string_of, texts_view, to_lower, to_upper,
    trim, u64_text,
};
use vstd::prelude::*;
use vstd::utf8::{
    encode_utf8, encode_utf8_decode_utf8, encode_utf8_valid_utf8, is_char_boundary,
    is_char_boundary_iff_not_is_continuation_byte, is_char_boundary_start_end_of_seq,
};

verus! {

broadcast use vstd::string::group_string_axioms;

/// Why an evaluation stopped before its end.
#[derive(Debug, PartialEq)]
pub enum Halt {
    /// The script failed.
    Error(FerroError),
    /// The answer to a computation with doubles is not known yet.
    Ask(DoubleQuery),
}

impl View for FerroError {
    type V = ErrV;

    open spec fn view(&self) -> ErrV {
        match self {
            FerroError::QueryParseError(m) => ErrV::Parse(m@),
            FerroError::Internal(m) => ErrV::Internal(m@),
        }
    }
}

impl View for Halt {
    type V = HaltV;

    open spec fn view(&self) -> HaltV {
        match self {
            Halt::Error(e) => HaltV::Error(e@),
            Halt::Ask(q) => HaltV::Ask(q@),
        }
    }
}

/// Whether `r` is the value or the halt `s`.
pub open spec fn gives(r: Result<ScriptValue, Halt>, s: Val) -> bool {
    match (r, s) {
        (Ok(x), Ok(y)) => x.view() == y,
        (Err(x), Err(y)) => x@ == y,
        _ => false,
    }
}

/// Whether `r` is the value or the halt `s`, or neither is there.
pub open spec fn gives_opt(r: Option<Result<ScriptValue, Halt>>, s: Option<Val>) -> bool {
    match (r, s) {
        (Some(x), Some(y)) => gives(x, y),
        (None, None) => true,
        _ => false,
    }
}

pub(crate) fn halt(m: &str) -> (r: Halt)
    ensures
        r@ == HaltV::Error(ErrV::Parse(m@)),
{
    Halt::Error(FerroError::QueryParseError(m.to_owned()))
}

fn no<T>(m: &str) -> (r: Result<T, Halt>)
    ensures
        r matches Err(h) && h@ == HaltV::Error(ErrV::Parse(m@)),
{
    Err(halt(m))
}

fn of_flag(r: Result<bool, DoubleQuery>) -> (v: Result<ScriptValue, Halt>)
    ensures
        match r {
            Ok(b) => gives(v, Ok(ScriptV::Bool(b))),
            Err(q) => gives(v, Err(HaltV::Ask(q@))),
        },
{
    match r {
        Ok(b) => Ok(ScriptValue::Bool(b)),
        Err(q) => Err(Halt::Ask(q)),
    }
}

fn of_bits(r: Result<u64, DoubleQuery>) -> (v: Result<ScriptValue, Halt>)
    ensures
        match r {
            Ok(b) => gives(v, Ok(ScriptV::Float(DoubleV::Bits(b)))),
            Err(q) => gives(v, Err(HaltV::Ask(q@))),
        },
{
    match r {
        Ok(b) => Ok(ScriptValue::Float(Double::Bits(b))),
        Err(q) => Err(Halt::Ask(q)),
    }
}

fn of_text(r: Result<String, DoubleQuery>) -> (v: Result<ScriptValue, Halt>)
    ensures
        match r {
            Ok(s) => gives(v, Ok(ScriptV::Str(s@))),
            Err(q) => gives(v, Err(HaltV::Ask(q@))),
        },
{
    match r {
        Ok(s) => Ok(ScriptValue::Str(s)),
        Err(q) => Err(Halt::Ask(q)),
    }
}

fn eval_int_binop(a: i64, op: BinOp, b: i64) -> (r: Result<ScriptValue, Halt>)
    ensures
        gives(r, int_binop(a as int, op, b as int)),
{
    let x = near(a);
    let y = near(b);
    match op {
        BinOp::Add => Ok(ScriptValue::Int(x.wrapping_add(y))),
        BinOp::Sub => Ok(ScriptValue::Int(x.wrapping_sub(y))),
        BinOp::Mul => Ok(ScriptValue::Int(x.wrapping_mul(y))),
        BinOp::Div => {
            if y == 0 {
                no("division by zero")
            } else if x == i64::MIN && y == -1 {
                no("integer overflow")
            } else {
                Ok(ScriptValue::Int(div_to_zero(x, y)))
            }
        },
        BinOp::Mod => {
            if y == 0 {
                no("modulo by zero")
            } else if x == i64::MIN && y == -1 {
                no("integer overflow")
            } else {
                let q = div_to_zero(x, y);
                Ok(ScriptValue::Int((x as i128 - y as i128 * q as i128) as i64))
            }
        },
        BinOp::Gt => Ok(ScriptValue::Bool(x > y)),
        BinOp::Lt => Ok(ScriptValue::Bool(x < y)),
        BinOp::Gte => Ok(ScriptValue::Bool(x >= y)),
        _ => Ok(ScriptValue::Bool(x <= y)),
    }
}

fn div_to_zero(x: i64, y: i64) -> (r: i64)
    requires
        y != 0,
        !(x == i64::MIN && y == -1),
    ensures
        r == trunc_div(x as int, y as int),
        i64::MIN <= x - y * r <= i64::MAX,
        -0x8000_0000_0000_0000 * 0x8000_0000_0000_0000 <= y * r <= 0x8000_0000_0000_0000
            * 0x8000_0000_0000_0000,
{
    let a: i128 = if x < 0 {
        -(x as i128)
    } else {
        x as i128
    };
    let b: i128 = if y < 0 {
        -(y as i128)
    } else {
        y as i128
    };
    let q: i128 = a / b;
    assert(q * b <= a && a - q * b < b && q >= 0 && q <= a) by (nonlinear_arith)
        requires
            q == a as int / b as int,
            a >= 0,
            b > 0,
    ;
    assert(q <= 0x7fff_ffff_ffff_ffff || (x < 0) == (y > 0)) by {
        if a == 0x8000_0000_0000_0000 && b >= 2 {
            assert(q <= 0x4000_0000_0000_0000) by (nonlinear_arith)
                requires
                    q * b <= a,
                    b >= 2,
                    a == 0x8000_0000_0000_0000,
                    q >= 0,
            ;
        }
    }
    let r: i64 = if (x < 0) == (y < 0) {
        q as i64
    } else {
        (-q) as i64
    };
    assert(y * r == (if x < 0 {
        -(q * b)
    } else {
        q * b
    })) by (nonlinear_arith)
        requires
            r == (if (x < 0) == (y < 0) {
                q as int
            } else {
                -(q as int)
            }),
            b == (if y < 0 {
                -(y as int)
            } else {
                y as int
            }),
            x == 0 ==> q == 0,
    ;
    r
}

fn eval_double_binop(a: Double, op: BinOp, b: Double, answers: &Answers) -> (r: Result<
    ScriptValue,
    Halt,
>)
    ensures
        gives(r, double_binop(answers@, a@, op, b@)),
{
    match op {
        BinOp::Add => of_bits(answers.bits(ask2("+", a, b))),
        BinOp::Sub => of_bits(answers.bits(ask2("-", a, b))),
        BinOp::Mul => of_bits(answers.bits(ask2("*", a, b))),
        BinOp::Div => match answers.is_nonzero(&b) {
            Err(q) => Err(Halt::Ask(q)),
            Ok(true) => of_bits(answers.bits(ask2("/", a, b))),
            Ok(false) => no("division by zero"),
        },
        BinOp::Mod => match answers.is_nonzero(&b) {
            Err(q) => Err(Halt::Ask(q)),
            Ok(true) => of_bits(answers.bits(ask2("%", a, b))),
            Ok(false) => no("modulo by zero"),
        },
        BinOp::Gt => of_flag(answers.flag(ask2(">", a, b))),
        BinOp::Lt => of_flag(answers.flag(ask2("<", a, b))),
        BinOp::Gte => of_flag(answers.flag(ask2(">=", a, b))),
        _ => of_flag(answers.flag(ask2("<=", a, b))),
    }
}

fn fail_shown(before: &str, v: &ScriptValue, behind: &str, answers: &Answers) -> (r: Result<
    ScriptValue,
    Halt,
>)
    ensures
        gives(
            r,
            crate::script::semantics::fail_showing(answers@, before@, v.view(), behind@),
        ),
{
    match v.shown(answers) {
        Ok(s) => no(&join3(before, &s, behind)),
        Err(q) => Err(Halt::Ask(q)),
    }
}

/// `left op right`
pub fn eval_binop(left: &ScriptValue, op: BinOp, right: &ScriptValue, answers: &Answers) -> (r:
    Result<ScriptValue, Halt>)
    ensures
        gives(r, binop(answers@, left.view(), op, right.view())),
{
    if op == BinOp::Add && (matches!(left, ScriptValue::Str(_)) || matches!(
        right,
        ScriptValue::Str(_),
    )) {
        return match left.display(answers) {
            Err(q) => Err(Halt::Ask(q)),
            Ok(a) => match right.display(answers) {
                Err(q) => Err(Halt::Ask(q)),
                Ok(b) => Ok(ScriptValue::Str(join2(&a, &b))),
            },
        };
    }
    if op == BinOp::Eq {
        return of_flag(left.equals(right, answers));
    }
    if op == BinOp::Neq {
        return match left.equals(right, answers) {
            Ok(b) => Ok(ScriptValue::Bool(!b)),
            Err(q) => Err(Halt::Ask(q)),
        };
    }
    if op == BinOp::And {
        return match left.is_truthy(answers) {
            Ok(true) => of_flag(right.is_truthy(answers)),
            x => of_flag(x),
        };
    }
    if op == BinOp::Or {
        return match left.is_truthy(answers) {
            Ok(false) => of_flag(right.is_truthy(answers)),
            x => of_flag(x),
        };
    }
    if let (ScriptValue::Int(a), ScriptValue::Int(b)) = (left, right) {
        return eval_int_binop(*a, op, *b);
    }
    let a = match left.as_f64() {
        Some(d) => d,
        None => return fail_shown("cannot use ", left, " in arithmetic", answers),
    };
    let b = match right.as_f64() {
        Some(d) => d,
        None => return fail_shown("cannot use ", right, " in arithmetic", answers),
    };
    eval_double_binop(a, op, b, answers)
}

/// `op val`
pub fn eval_unary(op: UnaryOp, val: &ScriptValue, answers: &Answers) -> (r: Result<
    ScriptValue,
    Halt,
>)
    ensures
        gives(r, unary(answers@, op, val.view())),
{
    match op {
        UnaryOp::Not => match val.is_truthy(answers) {
            Ok(b) => Ok(ScriptValue::Bool(!b)),
            Err(q) => Err(Halt::Ask(q)),
        },
        UnaryOp::Neg => match val {
            ScriptValue::Int(n) => Ok(ScriptValue::Int(0i64.wrapping_sub(*n))),
            ScriptValue::Float(d) => of_bits(answers.bits(ask1("neg", d.copy()))),
            _ => fail_shown("cannot negate ", val, "", answers),
        },
    }
}

fn test_regex(pattern: &str, text: &str) -> (r: Result<ScriptValue, Halt>)
    ensures
        gives(r, regex_test(pattern@, text@)),
{
    match pattern_fault(pattern) {
        Some(e) => no(&join2("invalid regex: ", &e)),
        None => Ok(ScriptValue::Bool(pattern_found(pattern, text))),
    }
}

fn anchor(pattern: &str) -> (r: String)
    ensures
        r@ == anchored(pattern@),
{
    join3("^(?:", pattern, ")$")
}

/// `text =~ pattern`, or `text ==~ pattern` where the whole text must match.
pub fn eval_regex_op(text: &ScriptValue, pattern: &ScriptValue, whole: bool) -> (r: Result<
    ScriptValue,
    Halt,
>)
    ensures
        gives(r, regex_op(text.view(), pattern.view(), whole)),
{
    let s = match text {
        ScriptValue::Str(s) => s,
        _ => {
            return if whole {
                no("regex match requires string operand")
            } else {
                no("regex find requires string operand")
            };
        },
    };
    match pattern {
        ScriptValue::Regex(p) => if whole {
            test_regex(&anchor(p), s)
        } else {
            test_regex(p, s)
        },
        ScriptValue::Str(p) => if whole {
            test_regex(&anchor(p), s)
        } else {
            test_regex(p, s)
        },
        _ => no("regex pattern must be a string or regex literal"),
    }
}

fn byte_pos(i: i64, len: usize) -> (r: usize)
    ensures
        r == crate::script::semantics::clamp(i as int, len as int),
{
    if i >= 0 && i as u64 <= len as u64 {
        i as usize
    } else {
        len
    }
}

fn cut(s: &str, i: usize, j: usize) -> (r: Result<ScriptValue, Halt>)
    requires
        i <= encode_utf8(s@).len(),
        j <= encode_utf8(s@).len(),
    ensures
        gives(r, substring(s@, i as int, j as int)),
{
    let ghost b = encode_utf8(s@);
    proof {
        encode_utf8_valid_utf8(s@);
    }
    if i <= j && s.is_char_boundary(i) && s.is_char_boundary(j) {
        let (_, tail) = s.split_at(i);
        let ghost tb = encode_utf8(tail@);
        proof {
            assert(tb =~= b.subrange(i as int, b.len() as int));
            encode_utf8_valid_utf8(tail@);
            is_char_boundary_start_end_of_seq(tb);
            if j < b.len() {
                is_char_boundary_iff_not_is_continuation_byte(b, j as int);
                is_char_boundary_iff_not_is_continuation_byte(tb, j - i);
                assert(tb[j - i] == b[j as int]);
            }
        }
        let (part, _) = tail.split_at(j - i);
        proof {
            assert(encode_utf8(part@) =~= b.subrange(i as int, j as int));
            encode_utf8_decode_utf8(part@);
        }
        Ok(ScriptValue::Str(part.to_owned()))
    } else {
        no("substring() indices out of range or not on a character boundary")
    }
}

fn eval_matcher(s: &str, whole: bool) -> (r: Result<ScriptValue, Halt>)
    requires
        "__matcher:"@.is_prefix_of(s@),
    ensures
        gives(r, matcher_test(s@, whole)),
{
    proof {
        reveal_strlit("__matcher:");
        reveal_strlit(":");
    }
    let c = chars_of(s);
    let rest = chars_of(&string_of(c.as_slice(), 10, c.len()));
    let mut colon: Vec<char> = Vec::new();
    colon.push(':');
    assert(colon@ =~= ":"@);
    match find_chars(&rest, &colon, 0) {
        None => Ok(ScriptValue::Bool(false)),
        Some(i) => {
            let p = string_of(rest.as_slice(), 0, i);
            let text = string_of(rest.as_slice(), i + 1, rest.len());
            if whole {
                test_regex(&anchor(&p), &text)
            } else {
                test_regex(&p, &text)
            }
        },
    }
}

fn first_text<'a>(args: &'a Vec<ScriptValue>) -> (r: Option<&'a String>)
    ensures
        match r {
            Some(s) => arg(values_view(args@), 0) == Some(ScriptV::Str(s@)),
            None => !(arg(values_view(args@), 0) matches Some(ScriptV::Str(_))),
        },
{
    if args.len() > 0 {
        assert(values_view(args@)[0] == args@[0].view());
        if let ScriptValue::Str(s) = &args[0] {
            return Some(s);
        }
    }
    None
}

fn first_int(args: &Vec<ScriptValue>) -> (r: Option<i64>)
    ensures
        match r {
            Some(n) => arg(values_view(args@), 0) == Some(ScriptV::Int(n)),
            None => !(arg(values_view(args@), 0) matches Some(ScriptV::Int(_))),
        },
{
    if args.len() > 0 {
        assert(values_view(args@)[0] == args@[0].view());
        if let ScriptValue::Int(n) = &args[0] {
            return Some(*n);
        }
    }
    None
}

fn nth_arg<'a>(args: &'a Vec<ScriptValue>, i: usize) -> (r: Option<&'a ScriptValue>)
    ensures
        match r {
            Some(v) => arg(values_view(args@), i as int) == Some(v.view()),
            None => arg(values_view(args@), i as int) is None,
        },
{
    if i < args.len() {
        assert(values_view(args@)[i as int] == args@[i as int].view());
        Some(&args[i])
    } else {
        None
    }
}

fn text_values(parts: &Vec<String>) -> (r: Vec<ScriptValue>)
    ensures
        values_view(r@) == texts_view(parts@).map_values(|x: Seq<char>| ScriptV::Str(x)),
{
    let mut out: Vec<ScriptValue> = Vec::new();
    let mut i: usize = 0;
    while i < parts.len()
        invariant
            i <= parts@.len(),
            out@.len() == i,
            forall|k: int|
                0 <= k < i ==> (#[trigger] out@[k]).view() == ScriptV::Str(parts@[k]@),
        decreases parts@.len() - i,
    {
        out.push(ScriptValue::Str(parts[i].clone()));
        i += 1;
    }
    assert(values_view(out@) =~= texts_view(parts@).map_values(|x: Seq<char>| ScriptV::Str(x)));
    out
}

fn eval_substring(s: &str, args: &Vec<ScriptValue>) -> (r: Result<ScriptValue, Halt>)
    ensures
        gives_opt(Some(r), str_method(s@, "substring"@, values_view(args@))),
{
    proof {
        reveal_names();
    }
    let start = match first_int(args) {
        Some(i) => i,
        None => return no("substring() requires integer arguments"),
    };
    let len = s.as_bytes().len();
    let i = byte_pos(start, len);
    let j = match nth_arg(args, 1) {
        Some(ScriptValue::Int(e)) => byte_pos(*e, len),
        None => len,
        _ => return no("substring() requires integer arguments"),
    };
    cut(s, i, j)
}

/// The names of methods of texts differ in length or in a letter.
proof fn reveal_names()
    ensures
        "substring"@ != "toUpperCase"@,
        "substring"@ != "toLowerCase"@,
        "substring"@ != "length"@,
        "substring"@ != "contains"@,
{
    reveal_strlit("substring");
    reveal_strlit("toUpperCase");
    reveal_strlit("toLowerCase");
    reveal_strlit("length");
    reveal_strlit("contains");
    assert("substring"@.len() == 9 && "toUpperCase"@.len() == 11 && "toLowerCase"@.len() == 11
        && "length"@.len() == 6 && "contains"@.len() == 8);
}

fn eval_str_method(s: &str, m: &str, args: &Vec<ScriptValue>) -> (r: Option<
    Result<ScriptValue, Halt>,
>)
    ensures
        gives_opt(r, str_method(s@, m@, values_view(args@))),
{
    if same(m, "toUpperCase") {
        return Some(Ok(ScriptValue::Str(to_upper(s))));
    }
    if same(m, "toLowerCase") {
        return Some(Ok(ScriptValue::Str(to_lower(s))));
    }
    if same(m, "length") {
        return Some(Ok(ScriptValue::Int(s.as_bytes().len() as i64)));
    }
    if same(m, "contains") {
        return Some(
            match first_text(args) {
                Some(p) => Ok(ScriptValue::Bool(contains(s, p))),
                None => no("contains() requires a string argument"),
            },
        );
    }
    if same(m, "substring") {
        return Some(eval_substring(s, args));
    }
    if same(m, "trim") {
        return Some(Ok(ScriptValue::Str(trim(s))));
    }
    if same(m, "startsWith") {
        return Some(
            match first_text(args) {
                Some(p) => Ok(ScriptValue::Bool(starts_with(s, p))),
                None => no("startsWith() requires a string argument"),
            },
        );
    }
    if same(m, "endsWith") {
        return Some(
            match first_text(args) {
                Some(p) => Ok(ScriptValue::Bool(ends_with(s, p))),
                None => no("endsWith() requires a string argument"),
            },
        );
    }
    if same(m, "replace") {
        return Some(
            match (first_text(args), nth_arg(args, 1)) {
                (Some(p), Some(ScriptValue::Str(to))) => Ok(
                    ScriptValue::Str(replace_all(s, p, to)),
                ),
                _ => no("replace() requires two string arguments"),
            },
        );
    }
    if same(m, "split") {
        return Some(
            match first_text(args) {
                Some(p) => Ok(ScriptValue::Array(text_values(&split(s, p)))),
                None => no("split() requires a string argument"),
            },
        );
    }
    if same(m, "indexOf") {
        return Some(
            match first_text(args) {
                Some(p) => Ok(
                    ScriptValue::Int(
                        match find_bytes(s.as_bytes(), p.as_str().as_bytes()) {
                            Some(i) => i as i64,
                            None => -1,
                        },
                    ),
                ),
                None => no("indexOf() requires a string argument"),
            },
        );
    }
    if same(m, "charAt") {
        return Some(
            match first_int(args) {
                Some(i) => {
                    let c = chars_of(s);
                    if i >= 0 && (i as u64) < c.len() as u64 {
                        let one = string_of(c.as_slice(), i as usize, i as usize + 1);
                        assert(one@ =~= seq![s@[i as int]]);
                        Ok(ScriptValue::Str(one))
                    } else {
                        Ok(ScriptValue::Null)
                    }
                },
                None => no("charAt() requires an integer argument"),
            },
        );
    }
    if same(m, "find") && starts_with(s, "__matcher:") {
        return Some(eval_matcher(s, false));
    }
    if same(m, "matches") && starts_with(s, "__matcher:") {
        return Some(eval_matcher(s, true));
    }
    None
}

fn find_value(a: &Vec<ScriptValue>, v: &ScriptValue, answers: &Answers) -> (r: Result<
    Option<usize>,
    DoubleQuery,
>)
    ensures
        match (r, index_of(answers@, values_view(a@), v.view(), 0)) {
            (Ok(Some(i)), Ok(Some(j))) => i == j && i < a@.len(),
            (Ok(None), Ok(None)) => true,
            (Err(q), Err(w)) => q@ == w,
            _ => false,
        },
{
    let mut i: usize = 0;
    while i < a.len()
        invariant
            i <= a@.len(),
            index_of(answers@, values_view(a@), v.view(), 0) == index_of(
                answers@,
                values_view(a@),
                v.view(),
                i as int,
            ),
        decreases a@.len() - i,
    {
        assert(values_view(a@)[i as int] == a@[i as int].view());
        match a[i].equals(v, answers) {
            Ok(true) => return Ok(Some(i)),
            Ok(false) => {},
            Err(q) => return Err(q),
        }
        i += 1;
    }
    Ok(None)
}

fn copy_values(a: &Vec<ScriptValue>) -> (r: Vec<ScriptValue>)
    ensures
        values_view(r@) == values_view(a@),
{
    let mut out: Vec<ScriptValue> = Vec::new();
    let mut i: usize = 0;
    while i < a.len()
        invariant
            i <= a@.len(),
            out@.len() == i,
            forall|k: int| 0 <= k < i ==> (#[trigger] out@[k]).view() == a@[k].view(),
        decreases a@.len() - i,
    {
        out.push(a[i].copy());
        i += 1;
    }
    assert(values_view(out@) =~= values_view(a@));
    out
}

fn get_item(a: &Vec<ScriptValue>, i: i64) -> (r: ScriptValue)
    ensures
        r.view() == item_at(values_view(a@), i as int),
{
    if i >= 0 && (i as u64) < a.len() as u64 {
        assert(values_view(a@)[i as int] == a@[i as int].view());
        a[i as usize].copy()
    } else {
        ScriptValue::Null
    }
}

fn eval_array_method(a: &Vec<ScriptValue>, m: &str, args: &Vec<ScriptValue>, answers: &Answers) -> (r:
    Option<Result<ScriptValue, Halt>>)
    ensures
        gives_opt(r, array_method(answers@, values_view(a@), m@, values_view(args@))),
{
    if same(m, "size") || same(m, "length") {
        return Some(Ok(ScriptValue::Int(a.len() as i64)));
    }
    if same(m, "contains") {
        return Some(
            match nth_arg(args, 0) {
                Some(v) => match find_value(a, v, answers) {
                    Ok(i) => Ok(ScriptValue::Bool(i.is_some())),
                    Err(q) => Err(Halt::Ask(q)),
                },
                None => no("contains() requires an argument"),
            },
        );
    }
    if same(m, "indexOf") {
        return Some(
            match nth_arg(args, 0) {
                Some(v) => match find_value(a, v, answers) {
                    Ok(Some(i)) => Ok(ScriptValue::Int(i as i64)),
                    Ok(None) => Ok(ScriptValue::Int(-1)),
                    Err(q) => Err(Halt::Ask(q)),
                },
                None => no("indexOf() requires an argument"),
            },
        );
    }
    if same(m, "add") {
        return Some(
            match nth_arg(args, 0) {
                Some(v) => {
                    let mut out = copy_values(a);
                    let ghost before = values_view(out@);
                    out.push(v.copy());
                    assert(values_view(out@) =~= before.push(v.view()));
                    Ok(ScriptValue::Array(out))
                },
                None => no("add() requires an argument"),
            },
        );
    }
    if same(m, "remove") {
        return Some(
            match first_int(args) {
                Some(i) => {
                    let mut out = copy_values(a);
                    let ghost before = values_view(out@);
                    if i >= 0 && (i as u64) < out.len() as u64 {
                        let _ = out.remove(i as usize);
                        assert(values_view(out@) =~= before.remove(i as int));
                    }
                    Ok(ScriptValue::Array(out))
                },
                None => no("remove() requires an integer argument"),
            },
        );
    }
    if same(m, "isEmpty") {
        return Some(Ok(ScriptValue::Bool(a.len() == 0)));
    }
    if same(m, "get") {
        return Some(
            match first_int(args) {
                Some(i) => Ok(get_item(a, i)),
                None => no("get() requires an integer argument"),
            },
        );
    }
    if same(m, "join") {
        proof {
            reveal_strlit("");
            assert(""@ =~= Seq::<char>::empty());
        }
        return Some(
            match first_text(args) {
                Some(sep) => of_text(display_list(a, sep, "", answers)),
                None => of_text(display_list(a, ",", "", answers)),
            },
        );
    }
    None
}

fn copy_map(m: &Vec<(String, ScriptValue)>) -> (r: Vec<(String, ScriptValue)>)
    ensures
        map_view(r@) == map_view(m@),
{
    let mut out: Vec<(String, ScriptValue)> = Vec::new();
    let mut i: usize = 0;
    while i < m.len()
        invariant
            i <= m@.len(),
            out@.len() == i,
            forall|k: int|
                0 <= k < i ==> (#[trigger] out@[k]).0@ == m@[k].0@ && out@[k].1.view()
                    == m@[k].1.view(),
        decreases m@.len() - i,
    {
        out.push((m[i].0.clone(), m[i].1.copy()));
        i += 1;
    }
    assert(map_view(out@) =~= map_view(m@));
    out
}

fn map_values(m: &Vec<(String, ScriptValue)>) -> (r: Vec<ScriptValue>)
    ensures
        values_view(r@) == values_of(map_view(m@)),
{
    let mut out: Vec<ScriptValue> = Vec::new();
    let mut i: usize = 0;
    while i < m.len()
        invariant
            i <= m@.len(),
            out@.len() == i,
            forall|k: int| 0 <= k < i ==> (#[trigger] out@[k]).view() == m@[k].1.view(),
        decreases m@.len() - i,
    {
        out.push(m[i].1.copy());
        i += 1;
    }
    assert(values_view(out@) =~= values_of(map_view(m@)));
    out
}

fn map_keys(m: &Vec<(String, ScriptValue)>) -> (r: Vec<ScriptValue>)
    ensures
        values_view(r@) == keys_of(map_view(m@)),
{
    let mut out: Vec<ScriptValue> = Vec::new();
    let mut i: usize = 0;
    while i < m.len()
        invariant
            i <= m@.len(),
            out@.len() == i,
            forall|k: int| 0 <= k < i ==> (#[trigger] out@[k]).view() == ScriptV::Str(m@[k].0@),
        decreases m@.len() - i,
    {
        out.push(ScriptValue::Str(m[i].0.clone()));
        i += 1;
    }
    assert(values_view(out@) =~= keys_of(map_view(m@)));
    out
}

/// The value under a key of a map, or null.
pub(crate) fn get_under(m: &Vec<(String, ScriptValue)>, k: &str) -> (r: ScriptValue)
    ensures
        r.view() == under(map_view(m@), k@),
{
    match map_get(m, k) {
        Some(v) => v.copy(),
        None => ScriptValue::Null,
    }
}

fn eval_map_method(p: &Vec<(String, ScriptValue)>, m: &str, args: &Vec<ScriptValue>, answers: &Answers) -> (r:
    Option<Result<ScriptValue, Halt>>)
    ensures
        gives_opt(r, map_method(answers@, map_view(p@), m@, values_view(args@))),
{
    if same(m, "containsKey") {
        return Some(
            match first_text(args) {
                Some(k) => Ok(ScriptValue::Bool(map_get(p, k).is_some())),
                None => no("containsKey() requires a string argument"),
            },
        );
    }
    if same(m, "get") {
        return Some(
            match first_text(args) {
                Some(k) => Ok(get_under(p, k)),
                None => no("get() requires a string argument"),
            },
        );
    }
    if same(m, "put") {
        return Some(
            match (first_text(args), nth_arg(args, 1)) {
                (Some(k), Some(v)) => {
                    let mut out = copy_map(p);
                    map_put(&mut out, k.clone(), v.copy());
                    Ok(ScriptValue::Dict(out))
                },
                _ => no("put() requires a string key and a value"),
            },
        );
    }
    if same(m, "remove") {
        return Some(
            match first_text(args) {
                Some(k) => {
                    let mut out = copy_map(p);
                    map_remove(&mut out, k);
                    Ok(ScriptValue::Dict(out))
                },
                None => no("remove() requires a string argument"),
            },
        );
    }
    if same(m, "keySet") {
        return Some(Ok(ScriptValue::Array(map_keys(p))));
    }
    if same(m, "values") {
        return Some(Ok(ScriptValue::Array(map_values(p))));
    }
    if same(m, "size") {
        return Some(Ok(ScriptValue::Int(p.len() as i64)));
    }
    if same(m, "isEmpty") {
        return Some(Ok(ScriptValue::Bool(p.len() == 0)));
    }
    if same(m, "containsValue") {
        return Some(
            match nth_arg(args, 0) {
                Some(v) => match find_value(&map_values(p), v, answers) {
                    Ok(i) => Ok(ScriptValue::Bool(i.is_some())),
                    Err(q) => Err(Halt::Ask(q)),
                },
                None => no("containsValue() requires an argument"),
            },
        );
    }
    if same(m, "matches") {
        return Some(
            Ok(
                ScriptValue::Bool(
                    match map_get(p, "_matched") {
                        Some(ScriptValue::Bool(b)) => *b,
                        _ => false,
                    },
                ),
            ),
        );
    }
    if same(m, "group") {
        return Some(
            Ok(
                match first_int(args) {
                    Some(i) => get_under(p, &i64_text(i)),
                    None => get_under(p, "0"),
                },
            ),
        );
    }
    None
}

/// The parts of the date that a value is.
pub fn parse_date_components(val: &ScriptValue, answers: &Answers) -> (r: Result<DateParts, Halt>)
    ensures
        match (r, date_parts(answers@, val.view())) {
            (Ok(x), Ok(y)) => x == y && -10 < x.day < 100,
            (Err(x), Err(y)) => x@ == y,
            _ => false,
        },
{
    match val {
        ScriptValue::Int(ms) => Ok(date_of_epoch(*ms)),
        ScriptValue::Str(s) => {
            let d = trim(s);
            if d.as_str().unicode_len() < 10 || !d.as_str().is_ascii() {
                return no(&join2("cannot parse date: ", &d));
            }
            Ok(date_of_text(&d))
        },
        ScriptValue::Float(d) => match answers.integer(ask1("int", d.copy())) {
            Ok(ms) => Ok(date_of_epoch(ms)),
            Err(q) => Err(Halt::Ask(q)),
        },
        _ => match val.display(answers) {
            Ok(s) => no(&join2("cannot interpret as date: ", &s)),
            Err(q) => Err(Halt::Ask(q)),
        },
    }
}

fn date_method(m: &str) -> (r: bool)
    ensures
        r == is_date_getter(m@),
{
    same(m, "getYear") || same(m, "getMonthValue") || same(m, "getDayOfMonth") || same(m, "getHour")
        || same(m, "getMinute") || same(m, "getSecond") || same(m, "getNano") || same(
        m,
        "getDayOfWeek",
    ) || same(m, "getDayOfYear") || same(m, "getMillis") || same(m, "toEpochMilli") || same(
        m,
        "toInstant",
    )
}

fn get_date_part(p: DateParts, m: &str) -> (r: Result<ScriptValue, Halt>)
    requires
        -10 < p.day < 100,
    ensures
        gives(r, date_getter(p, m@)),
{
    if same(m, "getYear") {
        return Ok(ScriptValue::Int(p.year));
    }
    if same(m, "getMonthValue") {
        return Ok(ScriptValue::Int(p.month));
    }
    if same(m, "getDayOfMonth") {
        return Ok(ScriptValue::Int(p.day));
    }
    if same(m, "getHour") {
        return Ok(ScriptValue::Int(p.hour));
    }
    if same(m, "getMinute") {
        return Ok(ScriptValue::Int(p.minute));
    }
    if same(m, "getSecond") {
        return Ok(ScriptValue::Int(p.second));
    }
    if same(m, "getNano") {
        return Ok(ScriptValue::Int(0));
    }
    if same(m, "getDayOfWeek") {
        return Ok(ScriptValue::Int(weekday(p.epoch_ms)));
    }
    if same(m, "getDayOfYear") {
        if p.month < 1 || p.month > 12 {
            return no(
                &join3("getDayOfYear(): invalid month ", &i64_text(p.month), " in date"),
            );
        }
        return Ok(ScriptValue::Int(day_of_year(p.year, p.month, p.day)));
    }
    Ok(ScriptValue::Int(p.epoch_ms))
}

fn unit_of(m: &str) -> (r: Option<i64>)
    ensures
        r == date_unit(m@),
{
    if same(m, "plusDays") {
        Some(86_400_000)
    } else if same(m, "minusDays") {
        Some(-86_400_000)
    } else if same(m, "plusHours") {
        Some(3_600_000)
    } else if same(m, "minusHours") {
        Some(-3_600_000)
    } else if same(m, "plusMinutes") {
        Some(60_000)
    } else if same(m, "minusMinutes") {
        Some(-60_000)
    } else if same(m, "plusSeconds") {
        Some(1_000)
    } else if same(m, "minusSeconds") {
        Some(-1_000)
    } else {
        None
    }
}

fn eval_common_method(v: &ScriptValue, m: &str, args: &Vec<ScriptValue>, answers: &Answers) -> (r:
    Result<ScriptValue, Halt>)
    ensures
        gives(r, common_method(answers@, v.view(), m@, values_view(args@))),
{
    if same(m, "value") {
        return Ok(v.copy());
    }
    if date_method(m) {
        return match parse_date_components(v, answers) {
            Ok(p) => get_date_part(p, m),
            Err(h) => Err(h),
        };
    }
    let unit = match unit_of(m) {
        Some(u) => u,
        None => return no(&join2("unknown method: ", m)),
    };
    let p = match parse_date_components(v, answers) {
        Ok(p) => p,
        Err(h) => return Err(h),
    };
    let n: i64 = match nth_arg(args, 0) {
        Some(ScriptValue::Int(n)) => near(*n),
        Some(ScriptValue::Float(d)) => match answers.integer(ask1("int", d.copy())) {
            Ok(n) => n,
            Err(q) => return Err(Halt::Ask(q)),
        },
        _ => 0,
    };
    Ok(ScriptValue::Int(p.epoch_ms.wrapping_add(n.wrapping_mul(unit))))
}

/// `target.m(args)`
pub fn eval_method(target: &ScriptValue, m: &str, args: &Vec<ScriptValue>, answers: &Answers) -> (r:
    Result<ScriptValue, Halt>)
    ensures
        gives(r, method(answers@, target.view(), m@, values_view(args@))),
{
    let own = match target {
        ScriptValue::Str(s) => eval_str_method(s, m, args),
        ScriptValue::Regex(p) => {
            if same(m, "matcher") {
                Some(
                    match first_text(args) {
                        Some(text) => {
                            let mut out = join3("__matcher:", p, ":");
                            out.append(text);
                            Ok(ScriptValue::Str(out))
                        },
                        None => no("matcher() requires a string argument"),
                    },
                )
            } else {
                None
            }
        },
        ScriptValue::Array(a) => eval_array_method(a, m, args, answers),
        ScriptValue::Dict(p) => eval_map_method(p, m, args, answers),
        _ => None,
    };
    match own {
        Some(r) => r,
        None => eval_common_method(target, m, args, answers),
    }
}

fn eval_parse_integer(args: &Vec<ScriptValue>, none: &str) -> (r: Result<ScriptValue, Halt>)
    ensures
        gives(r, parse_integer(values_view(args@), none@)),
{
    match nth_arg(args, 0) {
        Some(ScriptValue::Str(s)) => match parse_i64(&trim(s)) {
            Some(n) => Ok(ScriptValue::Int(n)),
            None => no(&join3("cannot parse '", s, "' as integer")),
        },
        Some(ScriptValue::Int(n)) => Ok(ScriptValue::Int(*n)),
        _ => no(none),
    }
}

/// `class.m(args)`
pub fn eval_static_call(class: &str, m: &str, args: &Vec<ScriptValue>, answers: &Answers) -> (r:
    Result<ScriptValue, Halt>)
    ensures
        gives(r, static_call(answers@, class@, m@, values_view(args@))),
{
    let whole = same(class, "Integer") || same(class, "Long");
    if whole && (same(m, "parseInt") || same(m, "parseLong")) {
        let mut none = join3(class, ".", m);
        none.append("() requires a string argument");
        return eval_parse_integer(args, &none);
    }
    if (same(class, "Float") || same(class, "Double")) && (same(m, "parseFloat") || same(
        m,
        "parseDouble",
    )) {
        return match nth_arg(args, 0) {
            Some(ScriptValue::Str(s)) => match answers.parsed(&trim(s)) {
                Ok(Some(b)) => Ok(ScriptValue::Float(Double::Bits(b))),
                Ok(None) => no(&join3("cannot parse '", s, "' as float")),
                Err(q) => Err(Halt::Ask(q)),
            },
            Some(ScriptValue::Float(d)) => Ok(ScriptValue::Float(d.copy())),
            _ => {
                let mut none = join3(class, ".", m);
                none.append("() requires a string argument");
                no(&none)
            },
        };
    }
    if same(class, "String") && same(m, "valueOf") {
        return match nth_arg(args, 0) {
            Some(v) => of_text(v.display(answers)),
            None => Ok(ScriptValue::Str(String::new())),
        };
    }
    if whole && same(m, "valueOf") {
        return eval_parse_integer(args, &join2(class, ".valueOf() requires an argument"));
    }
    if same(class, "Boolean") && (same(m, "parseBoolean") || same(m, "valueOf")) {
        return match nth_arg(args, 0) {
            Some(ScriptValue::Str(s)) => Ok(ScriptValue::Bool(eq_ignore_case(s, "true"))),
            Some(ScriptValue::Bool(b)) => Ok(ScriptValue::Bool(*b)),
            _ => Ok(ScriptValue::Bool(false)),
        };
    }
    let mut e = join3("unknown static method: ", class, ".");
    e.append(m);
    no(&e)
}

fn one_number_fn(f: &str) -> (r: bool)
    ensures
        r == is_math1(f@),
{
    same(f, "log") || same(f, "log10") || same(f, "log2") || same(f, "exp") || same(f, "sqrt")
        || same(f, "cbrt") || same(f, "ceil") || same(f, "floor") || same(f, "round") || same(
        f,
        "rint",
    ) || same(f, "sin") || same(f, "cos") || same(f, "tan") || same(f, "asin") || same(f, "acos")
        || same(f, "atan") || same(f, "sinh") || same(f, "cosh") || same(f, "tanh") || same(
        f,
        "signum",
    ) || same(f, "toRadians") || same(f, "toDegrees")
}

fn number_of(args: &Vec<ScriptValue>, i: usize) -> (r: Option<Double>)
    ensures
        match r {
            Some(d) => number_arg(values_view(args@), i as int) == Some(d@),
            None => number_arg(values_view(args@), i as int) is None,
        },
{
    match nth_arg(args, i) {
        Some(v) => v.as_f64(),
        None => None,
    }
}

/// `Math.f(args)`, where `draws` random numbers were drawn before.
pub fn eval_math(f: &str, args: &Vec<ScriptValue>, draws: i64, answers: &Answers) -> (r: Result<
    ScriptValue,
    Halt,
>)
    ensures
        gives(r, math(answers@, f@, values_view(args@), draws)),
{
    if same(f, "max") || same(f, "min") {
        return match (number_of(args, 0), number_of(args, 1)) {
            (Some(a), Some(b)) => {
                assert(values_view(args@)[0] == args@[0].view());
                assert(values_view(args@)[1] == args@[1].view());
                if let (ScriptValue::Int(x), ScriptValue::Int(y)) = (&args[0], &args[1]) {
                    let p = near(*x);
                    let q = near(*y);
                    return Ok(
                        ScriptValue::Int(
                            if same(f, "max") == (p >= q) {
                                p
                            } else {
                                q
                            },
                        ),
                    );
                }
                of_bits(answers.bits(ask2(f, a, b)))
            },
            _ => no(&join3("Math.", f, " requires numbers")),
        };
    }
    if same(f, "abs") {
        return match nth_arg(args, 0) {
            None => no("Math.abs requires an argument"),
            Some(ScriptValue::Int(n)) => Ok(
                ScriptValue::Int(
                    if *n < 0 {
                        0i64.wrapping_sub(*n)
                    } else {
                        *n
                    },
                ),
            ),
            Some(ScriptValue::Float(d)) => of_bits(answers.bits(ask1("abs", d.copy()))),
            _ => no("Math.abs requires a number"),
        };
    }
    if one_number_fn(f) {
        return match number_of(args, 0) {
            Some(a) => of_bits(answers.bits(ask1(f, a))),
            None => no(&join3("Math.", f, " requires a number")),
        };
    }
    if same(f, "pow") || same(f, "atan2") {
        return match (number_of(args, 0), number_of(args, 1)) {
            (Some(a), Some(b)) => of_bits(answers.bits(ask2(f, a, b))),
            _ => no(&join3("Math.", f, " requires two numbers")),
        };
    }
    if same(f, "random") {
        return of_bits(answers.bits(ask1("random", Double::Int(draws))));
    }
    no(&join2("unknown Math function: ", f))
}

fn get_component(v: &ScriptValue) -> (r: Option<Double>)
    ensures
        match r {
            Some(d) => component(v.view()) == Some(d@),
            None => component(v.view()) is None,
        },
{
    match v {
        ScriptValue::Bool(b) => Some(Double::Int(if *b { 1 } else { 0 })),
        _ => v.as_f64(),
    }
}

/// The components of a vector: a list of numbers and booleans, or the first of
/// a list of lists.
pub fn to_vector(val: &ScriptValue) -> (r: Result<Vec<Double>, Halt>)
    ensures
        match (r, vector(val.view())) {
            (Ok(x), Ok(y)) => doubles_view(x@) == y,
            (Err(x), Err(y)) => x@ == y,
            _ => false,
        },
    decreases *val,
{
    match val {
        ScriptValue::Array(a) => {
            if a.len() > 0 {
                assert(values_view(a@)[0] == a@[0].view());
                if let ScriptValue::Array(_) = &a[0] {
                    assert(decreases_to!(*val => val->Array_0));
                    assert(decreases_to!(a@ => a@[0]));
                    return to_vector(&a[0]);
                }
            }
            let mut out: Vec<Double> = Vec::new();
            let mut i: usize = 0;
            assert(doubles_view(out@) =~= Seq::<DoubleV>::empty());
            while i < a.len()
                invariant
                    i <= a@.len(),
                    components(values_view(a@), 0, Seq::empty()) == components(
                        values_view(a@),
                        i as int,
                        doubles_view(out@),
                    ),
                    vector(val.view()) == components(values_view(a@), 0, Seq::empty()),
                decreases a@.len() - i,
            {
                assert(values_view(a@)[i as int] == a@[i as int].view());
                let ghost before = doubles_view(out@);
                match get_component(&a[i]) {
                    Some(d) => {
                        let ghost w = d@;
                        out.push(d);
                        assert(doubles_view(out@) =~= before.push(w));
                    },
                    None => return no("vector element must be numeric for similarity function"),
                }
                i += 1;
            }
            Ok(out)
        },
        ScriptValue::Null => {
            let out: Vec<Double> = Vec::new();
            assert(doubles_view(out@) =~= Seq::<DoubleV>::empty());
            Ok(out)
        },
        _ => no("expected an array for vector similarity argument"),
    }
}

pub(crate) fn vector_fn(f: &str) -> (r: bool)
    ensures
        r == is_vector_fn(f@),
{
    same(f, "dotProduct") || same(f, "cosineSimilarity") || same(f, "l1norm") || same(f, "l2norm")
        || same(f, "hamming")
}

/// The result of a vector function on two vectors.
pub fn compare_vectors(f: &str, a: Vec<Double>, b: Vec<Double>, answers: &Answers) -> (r: Result<
    ScriptValue,
    Halt,
>)
    ensures
        gives(
            r,
            crate::script::semantics::compared(answers@, f@, doubles_view(a@), doubles_view(b@)),
        ),
{
    if a.len() != b.len() {
        let mut e = join2(f, ": vector dimension mismatch (");
        e.append(&u64_text(a.len() as u64));
        e.append(" vs ");
        e.append(&u64_text(b.len() as u64));
        e.append(")");
        return no(&e);
    }
    if a.len() == 0 {
        return Ok(ScriptValue::Float(Double::Bits(0)));
    }
    let ghost whole = doubles_view(a@) + doubles_view(b@);
    let mut args = a;
    let mut rest = b;
    args.append(&mut rest);
    let q = DoubleQuery { name: f.to_owned(), args };
    assert(q@.args =~= whole);
    of_bits(answers.bits(q))
}

/// `(name) v`
pub fn eval_cast(name: &str, v: &ScriptValue, answers: &Answers) -> (r: Result<ScriptValue, Halt>)
    ensures
        gives(r, cast(answers@, name@, v.view())),
{
    if same(name, "int") || same(name, "long") {
        return match v {
            ScriptValue::Int(n) => Ok(ScriptValue::Int(*n)),
            ScriptValue::Float(d) => match answers.integer(ask1("int", d.copy())) {
                Ok(n) => Ok(ScriptValue::Int(n)),
                Err(q) => Err(Halt::Ask(q)),
            },
            ScriptValue::Str(s) => match parse_i64(s) {
                Some(n) => Ok(ScriptValue::Int(n)),
                None => no(&join3("cannot cast '", s, "' to int")),
            },
            ScriptValue::Bool(b) => Ok(
                ScriptValue::Int(
                    if *b {
                        1
                    } else {
                        0
                    },
                ),
            ),
            _ => Ok(ScriptValue::Int(0)),
        };
    }
    if same(name, "float") || same(name, "double") {
        return match v {
            ScriptValue::Int(n) => Ok(ScriptValue::Float(Double::Int(*n))),
            ScriptValue::Float(d) => Ok(ScriptValue::Float(d.copy())),
            ScriptValue::Str(s) => match answers.parsed(s) {
                Ok(Some(b)) => Ok(ScriptValue::Float(Double::Bits(b))),
                Ok(None) => no(&join3("cannot cast '", s, "' to double")),
                Err(q) => Err(Halt::Ask(q)),
            },
            _ => Ok(ScriptValue::Float(Double::Bits(0))),
        };
    }
    if same(name, "String") {
        return of_text(v.display(answers));
    }
    if same(name, "boolean") {
        return of_flag(v.is_truthy(answers));
    }
    Ok(v.copy())
}

/// `v[index]`
pub fn eval_index(v: &ScriptValue, index: &ScriptValue) -> (r: Result<ScriptValue, Halt>)
    ensures
        gives(r, index_access(v.view(), index.view())),
{
    match (v, index) {
        (ScriptValue::Array(a), ScriptValue::Int(i)) => Ok(get_item(a, *i)),
        (ScriptValue::Dict(m), ScriptValue::Str(k)) => Ok(get_under(m, k)),
        _ => no("invalid index access"),
    }
}

} // verus!
