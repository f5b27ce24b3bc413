//! Laws of operators on doubles: which question is asked for which operator.
use crate::double::{answer_from, finite, nonzero, query, AnswerV, AnswersV, DoubleV, QueryV};
use crate::script::ast::BinOp;
use crate::script::jit_laws::is_function;
use crate::script::printed::{word_text, Word};
use crate::script::semantics::{
    binop, components, func_call, is_math1, math, static_call, vector, CtxV, HaltV, Val,
};
use crate::script::value::ScriptV;
use crate::text::ascii_lower;
use vstd::prelude::*;

verus! {

broadcast use vstd::string::group_string_axioms;

/// The question that an operator asks of two numbers: its symbol names it, and
/// the numbers stand in their order.
pub open spec fn question(op: BinOp, x: DoubleV, y: DoubleV) -> QueryV {
    query(word_text(Word::Op(op)), seq![x, y])
}

/// Whether `r` is the number that answers a question.
pub open spec fn is_number_for(t: AnswersV, q: QueryV, r: Val) -> bool {
    match answer_from(t, q, 0) {
        Some(AnswerV::Bits(b)) => r == Ok::<ScriptV, HaltV>(ScriptV::Float(DoubleV::Bits(b))),
        _ => r == Err::<ScriptV, HaltV>(HaltV::Ask(q)),
    }
}

/// Whether `r` is the flag that answers a question.
pub open spec fn is_flag_for(t: AnswersV, q: QueryV, r: Val, turned: bool) -> bool {
    match answer_from(t, q, 0) {
        Some(AnswerV::Flag(b)) => r == Ok::<ScriptV, HaltV>(ScriptV::Bool(b != turned)),
        _ => r == Err::<ScriptV, HaltV>(HaltV::Ask(q)),
    }
}

/// Sums, differences and products of doubles are the answers to the questions
/// with their symbols, and so are comparisons; unequal is the other answer to
/// equal.
pub proof fn operators_ask_by_their_symbol(t: AnswersV, x: DoubleV, y: DoubleV, op: BinOp)
    ensures
        ({
            let r = binop(t, ScriptV::Float(x), op, ScriptV::Float(y));
            let q = question(op, x, y);
            &&& op == BinOp::Add || op == BinOp::Sub || op == BinOp::Mul ==> is_number_for(t, q, r)
            &&& op == BinOp::Gt || op == BinOp::Lt || op == BinOp::Gte || op == BinOp::Lte || op
                == BinOp::Eq ==> is_flag_for(t, q, r, false)
            &&& op == BinOp::Neq ==> is_flag_for(t, question(BinOp::Eq, x, y), r, true)
        }),
{
}

/// The two zeros among the bit patterns of doubles.
pub open spec fn is_zero(bits: u64) -> bool {
    bits == 0 || bits == 0x8000_0000_0000_0000
}

/// Quotients and remainders of doubles are asked for, except by zero, by which
/// there are none.
pub proof fn quotients_ask_unless_by_zero(t: AnswersV, x: DoubleV, bits: u64, op: BinOp)
    requires
        op == BinOp::Div || op == BinOp::Mod,
    ensures
        ({
            let y = DoubleV::Bits(bits);
            let r = binop(t, ScriptV::Float(x), op, ScriptV::Float(y));
            if is_zero(bits) {
                r matches Err(h) && !(h is Ask)
            } else {
                is_number_for(t, question(op, x, y), r)
            }
        }),
{
    assert(bits % 0x8000_0000_0000_0000 == 0 <==> is_zero(bits));
}

/// An integer beside a double counts as a double, in its place.
pub proof fn integers_join_doubles(t: AnswersV, n: i64, y: DoubleV, op: BinOp)
    requires
        op == BinOp::Sub || op == BinOp::Mul || op == BinOp::Add,
    ensures
        is_number_for(
            t,
            question(op, DoubleV::Int(n), y),
            binop(t, ScriptV::Int(n), op, ScriptV::Float(y)),
        ),
        is_number_for(
            t,
            question(op, y, DoubleV::Int(n)),
            binop(t, ScriptV::Float(y), op, ScriptV::Int(n)),
        ),
{
}

/// A double is finite unless its eleven bits of exponent are all set.
pub proof fn exponents_tell_finite(t: AnswersV, bits: u64)
    ensures
        finite(t, DoubleV::Bits(bits)) == Ok::<bool, QueryV>(
            (bits >> 52) & 0x7ff != 0x7ff,
        ),
        nonzero(t, DoubleV::Bits(bits)) == Ok::<bool, QueryV>(!is_zero(bits)),
{
    assert((bits >> 52) & 0x7ff == (bits / 0x10_0000_0000_0000) % 2048) by (bit_vector);
    assert(bits % 0x8000_0000_0000_0000 == 0 <==> is_zero(bits));
}

/// A function of `Math` is the answer to the question with its name, and it is
/// handed its numbers in their order.
pub proof fn functions_ask_by_their_name(
    t: AnswersV,
    f: Seq<char>,
    x: DoubleV,
    y: DoubleV,
    n: i64,
    draws: i64,
)
    ensures
        ({
            let one = seq![ScriptV::Float(x)];
            let two = seq![ScriptV::Float(x), ScriptV::Float(y)];
            &&& is_function(f) || f == "rint"@ || f == "signum"@ || f == "toRadians"@ || f
                == "toDegrees"@ ==> is_number_for(t, query(f, seq![x]), math(t, f, one, draws))
            &&& is_function(f) && f != "abs"@ ==> is_number_for(
                t,
                query(f, seq![DoubleV::Int(n)]),
                math(t, f, seq![ScriptV::Int(n)], draws),
            )
            &&& f == "pow"@ || f == "atan2"@ || f == "max"@ || f == "min"@ ==> is_number_for(
                t,
                query(f, seq![x, y]),
                math(t, f, two, draws),
            )
            &&& f == "random"@ ==> is_number_for(
                t,
                query(f, seq![DoubleV::Int(draws)]),
                math(t, f, Seq::empty(), draws),
            )
        }),
{
    lemma_function_names();
}

proof fn lemma_function_names()
    ensures
        forall|f: Seq<char>| #[trigger] is_function(f) ==> f != "max"@ && f != "min"@,
        "pow"@ != "max"@ && "pow"@ != "min"@ && "pow"@ != "abs"@ && !is_math1("pow"@),
        "atan2"@ != "max"@ && "atan2"@ != "min"@ && "atan2"@ != "abs"@ && !is_math1("atan2"@),
        "random"@ != "max"@ && "random"@ != "min"@ && "random"@ != "abs"@ && !is_math1("random"@),
        "random"@ != "pow"@ && "random"@ != "atan2"@,
        "rint"@ != "max"@ && "rint"@ != "min"@ && "rint"@ != "abs"@,
        "signum"@ != "max"@ && "signum"@ != "min"@ && "signum"@ != "abs"@,
        "toRadians"@ != "max"@ && "toRadians"@ != "min"@ && "toRadians"@ != "abs"@,
        "toDegrees"@ != "max"@ && "toDegrees"@ != "min"@ && "toDegrees"@ != "abs"@,
{
    reveal_strlit("exp");
    reveal_strlit("log");
    reveal_strlit("log2");
    reveal_strlit("log10");
    reveal_strlit("sqrt");
    reveal_strlit("cbrt");
    reveal_strlit("sin");
    reveal_strlit("cos");
    reveal_strlit("tan");
    reveal_strlit("asin");
    reveal_strlit("acos");
    reveal_strlit("atan");
    reveal_strlit("sinh");
    reveal_strlit("cosh");
    reveal_strlit("tanh");
    reveal_strlit("abs");
    reveal_strlit("ceil");
    reveal_strlit("floor");
    reveal_strlit("round");
    reveal_strlit("rint");
    reveal_strlit("signum");
    reveal_strlit("toRadians");
    reveal_strlit("toDegrees");
    reveal_strlit("max");
    reveal_strlit("min");
    reveal_strlit("pow");
    reveal_strlit("atan2");
    reveal_strlit("random");
    assert("atan2"@.len() == 5 && "atan"@.len() == 4);
    assert("exp"@[0] == 'e' && "exp"@[1] == 'x' && "exp"@[2] == 'p');
    assert("log"@[0] == 'l' && "log"@[1] == 'o' && "log"@[2] == 'g');
    assert("log2"@[0] == 'l' && "log2"@[1] == 'o' && "log2"@[2] == 'g');
    assert("log10"@[0] == 'l' && "log10"@[1] == 'o' && "log10"@[2] == 'g');
    assert("sqrt"@[0] == 's' && "sqrt"@[1] == 'q' && "sqrt"@[2] == 'r');
    assert("cbrt"@[0] == 'c' && "cbrt"@[1] == 'b' && "cbrt"@[2] == 'r');
    assert("sin"@[0] == 's' && "sin"@[1] == 'i' && "sin"@[2] == 'n');
    assert("cos"@[0] == 'c' && "cos"@[1] == 'o' && "cos"@[2] == 's');
    assert("tan"@[0] == 't' && "tan"@[1] == 'a' && "tan"@[2] == 'n');
    assert("asin"@[0] == 'a' && "asin"@[1] == 's' && "asin"@[2] == 'i');
    assert("acos"@[0] == 'a' && "acos"@[1] == 'c' && "acos"@[2] == 'o');
    assert("atan"@[0] == 'a' && "atan"@[1] == 't' && "atan"@[2] == 'a');
    assert("sinh"@[0] == 's' && "sinh"@[1] == 'i' && "sinh"@[2] == 'n');
    assert("cosh"@[0] == 'c' && "cosh"@[1] == 'o' && "cosh"@[2] == 's');
    assert("tanh"@[0] == 't' && "tanh"@[1] == 'a' && "tanh"@[2] == 'n');
    assert("abs"@[0] == 'a' && "abs"@[1] == 'b' && "abs"@[2] == 's');
    assert("ceil"@[0] == 'c' && "ceil"@[1] == 'e' && "ceil"@[2] == 'i');
    assert("floor"@[0] == 'f' && "floor"@[1] == 'l' && "floor"@[2] == 'o');
    assert("round"@[0] == 'r' && "round"@[1] == 'o' && "round"@[2] == 'u');
    assert("rint"@[0] == 'r' && "rint"@[1] == 'i' && "rint"@[2] == 'n');
    assert("signum"@[0] == 's' && "signum"@[1] == 'i' && "signum"@[2] == 'g');
    assert("toRadians"@[0] == 't' && "toRadians"@[1] == 'o' && "toRadians"@[2] == 'R');
    assert("toDegrees"@[0] == 't' && "toDegrees"@[1] == 'o' && "toDegrees"@[2] == 'D');
    assert("max"@[0] == 'm' && "max"@[1] == 'a' && "max"@[2] == 'x');
    assert("min"@[0] == 'm' && "min"@[1] == 'i' && "min"@[2] == 'n');
    assert("pow"@[0] == 'p' && "pow"@[1] == 'o' && "pow"@[2] == 'w');
    assert("atan2"@[0] == 'a' && "atan2"@[1] == 't' && "atan2"@[2] == 'a');
    assert("random"@[0] == 'r' && "random"@[1] == 'a' && "random"@[2] == 'n');
}

/// Integers as the components of a vector.
pub open spec fn numbers(a: Seq<i64>) -> Seq<DoubleV> {
    a.map_values(|n: i64| DoubleV::Int(n))
}

/// Integers as a list.
pub open spec fn list(a: Seq<i64>) -> ScriptV {
    ScriptV::Array(a.map_values(|n: i64| ScriptV::Int(n)))
}

proof fn lemma_components(a: Seq<i64>, i: int, acc: Seq<DoubleV>)
    requires
        0 <= i <= a.len(),
        acc == numbers(a).take(i),
    ensures
        components(list(a)->Array_0, i, acc) == Ok::<Seq<DoubleV>, HaltV>(numbers(a)),
    decreases a.len() - i,
{
    let l = list(a)->Array_0;
    if i < a.len() {
        assert(l[i] == ScriptV::Int(a[i]));
        let next = acc.push(DoubleV::Int(a[i]));
        assert(next =~= numbers(a).take(i + 1));
        lemma_components(a, i + 1, next);
    } else {
        assert(numbers(a).take(i) =~= numbers(a));
    }
}

/// A function of two vectors is the answer to the question with its name and
/// the components of both, those of the first before those of the second.
/// Vectors of different lengths are not compared.
pub proof fn vectors_are_handed_in_order(
    t: AnswersV,
    f: Seq<char>,
    a: Seq<i64>,
    b: Seq<i64>,
    c: CtxV,
)
    requires
        f == "dotProduct"@ || f == "cosineSimilarity"@ || f == "l1norm"@ || f == "l2norm"@ || f
            == "hamming"@,
    ensures
        ({
            let r = func_call(t, f, seq![list(a), list(b)], c);
            if a.len() != b.len() {
                r matches Err(h) && !(h is Ask)
            } else if a.len() == 0 {
                r == Ok::<ScriptV, HaltV>(ScriptV::Float(DoubleV::Bits(0)))
            } else {
                is_number_for(t, query(f, numbers(a) + numbers(b)), r)
            }
        }),
{
    let args = seq![list(a), list(b)];
    assert(args[0] == list(a) && args[1] == list(b));
    lemma_vector(a);
    lemma_vector(b);
}

proof fn lemma_vector(a: Seq<i64>)
    ensures
        vector(list(a)) == Ok::<Seq<DoubleV>, HaltV>(numbers(a)),
{
    assert(numbers(a).take(0) =~= Seq::<DoubleV>::empty());
    lemma_components(a, 0, Seq::empty());
    let l = list(a)->Array_0;
    if a.len() > 0 {
        assert(l[0] == ScriptV::Int(a[0]));
    }
}

/// A text is read as true if it is the word, in small or capital letters.
pub proof fn flags_are_read_in_any_case(t: AnswersV, s: Seq<char>)
    ensures
        static_call(t, "Boolean"@, "parseBoolean"@, seq![ScriptV::Str(s)]) == Ok::<ScriptV, HaltV>(
            ScriptV::Bool(
                s.len() == 4 && (s[0] == 't' || s[0] == 'T') && (s[1] == 'r' || s[1] == 'R') && (
                s[2] == 'u' || s[2] == 'U') && (s[3] == 'e' || s[3] == 'E'),
            ),
        ),
{
    reveal_strlit("Boolean");
    reveal_strlit("Integer");
    reveal_strlit("Long");
    reveal_strlit("Float");
    reveal_strlit("Double");
    reveal_strlit("String");
    reveal_strlit("true");
    assert("Boolean"@[0] == 'B' && "Integer"@[0] == 'I' && "Long"@[0] == 'L');
    assert("Float"@[0] == 'F' && "Double"@[0] == 'D' && "String"@[0] == 'S');
    let x = s.map_values(|c: char| ascii_lower(c));
    let y = "true"@.map_values(|c: char| ascii_lower(c));
    assert(y =~= "true"@);
    let yes = s.len() == 4 && (s[0] == 't' || s[0] == 'T') && (s[1] == 'r' || s[1] == 'R') && (s[2]
        == 'u' || s[2] == 'U') && (s[3] == 'e' || s[3] == 'E');
    if yes {
        assert(x =~= y);
    } else if x == y {
        assert(x.len() == s.len());
        assert(x[0] == 't' && x[1] == 'r' && x[2] == 'u' && x[3] == 'e');
        assert(x[0] == ascii_lower(s[0]) && x[1] == ascii_lower(s[1]));
        assert(x[2] == ascii_lower(s[2]) && x[3] == ascii_lower(s[3]));
    }
}

} // verus!
