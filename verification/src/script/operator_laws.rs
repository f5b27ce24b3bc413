//! What the operators of scripts compute, as whole scripts show it.
use crate::double::AnswersV;
use crate::json::JsonV;
use crate::script::ast::{BinOp, ExprV, StmtV, UnaryOp};
use crate::script::number::small_integers_are_doubles;
use crate::script::semantics::{binop, eval, evaluated, run, unary, CtxV, ErrV, FlowV, HaltV, Val};
use crate::script::value::{json_of, ScriptV};
use crate::text::int_text;
use vstd::arithmetic::div_mod::lemma_fundamental_div_mod;
use vstd::prelude::*;
use vstd::wrapping::i64_specs;

verus! {

/// What the script that consists of one expression gives.
pub open spec fn answer(t: AnswersV, e: ExprV, c: CtxV) -> (Result<JsonV, HaltV>, CtxV) {
    evaluated(t, Seq::empty().push(StmtV::Expr(e)), c)
}

/// The expression `a op b` of two integers.
pub open spec fn of_ints(a: i64, op: BinOp, b: i64) -> ExprV {
    ExprV::BinOp(Box::new(ExprV::IntLit(a)), op, Box::new(ExprV::IntLit(b)))
}

/// The expression `a op b` of two booleans.
pub open spec fn of_flags(a: bool, op: BinOp, b: bool) -> ExprV {
    ExprV::BinOp(Box::new(ExprV::BoolLit(a)), op, Box::new(ExprV::BoolLit(b)))
}

/// The expression `a op b` of two texts.
pub open spec fn of_texts(a: Seq<char>, op: BinOp, b: Seq<char>) -> ExprV {
    ExprV::BinOp(Box::new(ExprV::StringLit(a)), op, Box::new(ExprV::StringLit(b)))
}

/// An integer that a double holds exactly.
pub open spec fn is_exact(n: i64) -> bool {
    -0x20_0000_0000_0000 <= n <= 0x20_0000_0000_0000
}

/// A result that is a value, with the context as it was.
pub open spec fn gives(r: (Result<JsonV, HaltV>, CtxV), j: JsonV, c: CtxV) -> bool {
    r.0 == Ok::<JsonV, HaltV>(j) && r.1 == c
}

/// A result that is an error of the script.
pub open spec fn refuses(r: (Result<JsonV, HaltV>, CtxV), m: Seq<char>) -> bool {
    r.0 == Err::<JsonV, HaltV>(HaltV::Error(ErrV::Parse(m)))
}

/// What a script gives whose last expression gave `r`, where it began with `c`.
pub open spec fn closing(t: AnswersV, r: (Val, CtxV), c: CtxV) -> (Result<JsonV, HaltV>, CtxV) {
    match r {
        (Ok(v), c1) => match json_of(t, v) {
            Ok(j) => (Ok(j), c1),
            Err(q) => (Err(HaltV::Ask(q)), c),
        },
        (Err(HaltV::Ask(q)), _) => (Err(HaltV::Ask(q)), c),
        (Err(h), c1) => (Err(h), c1),
    }
}

pub proof fn lemma_run_one(t: AnswersV, e: ExprV, c: CtxV)
    ensures
        run(t, Seq::empty().push(StmtV::Expr(e)), 0, ScriptV::Null, c) == (match eval(t, e, c) {
            (Ok(v), c1) => (Ok::<FlowV, HaltV>(FlowV::Value(v)), c1),
            (Err(h), c1) => (Err(h), c1),
        }),
{
    reveal(run);
    reveal(eval);
    let s = Seq::empty().push(StmtV::Expr(e));
    assert(s.len() == 1 && s[0] == StmtV::Expr(e));
    if let (Ok(v), c1) = eval(t, e, c) {
        assert(run(t, s, 1, v, c1) == (Ok::<FlowV, HaltV>(FlowV::Value(v)), c1));
    }
}

/// A script of one expression gives what the expression does.
pub proof fn lemma_answer(t: AnswersV, e: ExprV, c: CtxV)
    ensures
        answer(t, e, c) == closing(t, eval(t, e, c), c),
{
    lemma_run_one(t, e, c);
}

/// Literals are what they say.
pub proof fn lemma_literals(t: AnswersV, c: CtxV)
    ensures
        forall|n: i64| #[trigger]
            eval(t, ExprV::IntLit(n), c) == (Ok::<ScriptV, HaltV>(ScriptV::Int(n)), c),
        forall|b: bool| #[trigger]
            eval(t, ExprV::BoolLit(b), c) == (Ok::<ScriptV, HaltV>(ScriptV::Bool(b)), c),
        forall|s: Seq<char>| #[trigger]
            eval(t, ExprV::StringLit(s), c) == (Ok::<ScriptV, HaltV>(ScriptV::Str(s)), c),
        eval(t, ExprV::NullLit, c) == (Ok::<ScriptV, HaltV>(ScriptV::Null), c),
{
    reveal(eval);
}

/// An operator between two literals takes their values.
pub proof fn lemma_binary(t: AnswersV, l: ExprV, op: BinOp, r: ExprV, c: CtxV)
    requires
        eval(t, l, c).0 is Ok,
        eval(t, l, c).1 == c,
        eval(t, r, c).0 is Ok,
        eval(t, r, c).1 == c,
    ensures
        eval(t, ExprV::BinOp(Box::new(l), op, Box::new(r)), c) == (
            binop(t, eval(t, l, c).0->Ok_0, op, eval(t, r, c).0->Ok_0),
            c,
        ),
{
    reveal(eval);
}

proof fn lemma_of_ints(t: AnswersV, c: CtxV, a: i64, op: BinOp, b: i64)
    ensures
        answer(t, of_ints(a, op, b), c) == closing(
            t,
            (binop(t, ScriptV::Int(a), op, ScriptV::Int(b)), c),
            c,
        ),
{
    lemma_literals(t, c);
    lemma_binary(t, ExprV::IntLit(a), op, ExprV::IntLit(b), c);
    lemma_answer(t, of_ints(a, op, b), c);
}

proof fn lemma_of_flags(t: AnswersV, c: CtxV, a: bool, op: BinOp, b: bool)
    ensures
        answer(t, of_flags(a, op, b), c) == closing(
            t,
            (binop(t, ScriptV::Bool(a), op, ScriptV::Bool(b)), c),
            c,
        ),
{
    lemma_literals(t, c);
    lemma_binary(t, ExprV::BoolLit(a), op, ExprV::BoolLit(b), c);
    lemma_answer(t, of_flags(a, op, b), c);
}

proof fn lemma_of_texts(t: AnswersV, c: CtxV, a: Seq<char>, op: BinOp, b: Seq<char>)
    ensures
        answer(t, of_texts(a, op, b), c) == closing(
            t,
            (binop(t, ScriptV::Str(a), op, ScriptV::Str(b)), c),
            c,
        ),
{
    lemma_literals(t, c);
    lemma_binary(t, ExprV::StringLit(a), op, ExprV::StringLit(b), c);
    lemma_answer(t, of_texts(a, op, b), c);
}

proof fn lemma_unary(t: AnswersV, c: CtxV, op: UnaryOp, x: ExprV)
    requires
        eval(t, x, c).0 is Ok,
        eval(t, x, c).1 == c,
    ensures
        answer(t, ExprV::UnaryOp(op, Box::new(x)), c) == closing(
            t,
            (unary(t, op, eval(t, x, c).0->Ok_0), c),
            c,
        ),
{
    reveal(eval);
    lemma_answer(t, ExprV::UnaryOp(op, Box::new(x)), c);
}

/// Comparisons of integers that doubles hold exactly are those of the integers.
pub proof fn integers_compare_by_size(t: AnswersV, c: CtxV, a: i64, b: i64)
    requires
        is_exact(a),
        is_exact(b),
    ensures
        gives(answer(t, of_ints(a, BinOp::Gte, b), c), JsonV::Bool(a as int - b as int >= 0), c),
        gives(answer(t, of_ints(a, BinOp::Lte, b), c), JsonV::Bool(b as int - a as int >= 0), c),
        gives(answer(t, of_ints(a, BinOp::Gt, b), c), JsonV::Bool(a as int - b as int > 0), c),
        gives(answer(t, of_ints(a, BinOp::Lt, b), c), JsonV::Bool(b as int - a as int > 0), c),
        gives(answer(t, of_ints(a, BinOp::Eq, b), c), JsonV::Bool(a as int - b as int == 0), c),
        gives(answer(t, of_ints(a, BinOp::Neq, b), c), JsonV::Bool(a as int - b as int != 0), c),
{
    lemma_literals(t, c);
    small_integers_are_doubles(a as int);
    small_integers_are_doubles(b as int);
    lemma_of_ints(t, c, a, BinOp::Gte, b);
    lemma_of_ints(t, c, a, BinOp::Lte, b);
    lemma_of_ints(t, c, a, BinOp::Gt, b);
    lemma_of_ints(t, c, a, BinOp::Lt, b);
    lemma_of_ints(t, c, a, BinOp::Eq, b);
    lemma_of_ints(t, c, a, BinOp::Neq, b);
}


/// Sums, differences and products of integers that doubles hold exactly are
/// those of the integers, as far as they fit; a product that does not fit is
/// what its lowest 64 bits say.
pub proof fn integers_add_and_multiply(t: AnswersV, c: CtxV, a: i64, b: i64)
    requires
        is_exact(a),
        is_exact(b),
    ensures
        gives(answer(t, of_ints(a, BinOp::Add, b), c), JsonV::Int((a + b) as i64), c),
        gives(answer(t, of_ints(a, BinOp::Sub, b), c), JsonV::Int((a - b) as i64), c),
        i64::MIN <= a + b <= i64::MAX,
        i64::MIN <= a - b <= i64::MAX,
        answer(t, of_ints(a, BinOp::Mul, b), c) matches (Ok(JsonV::Int(p)), after) && after == c && (
        p - a * b) % 0x1_0000_0000_0000_0000 == 0,
{
    lemma_literals(t, c);
    small_integers_are_doubles(a as int);
    small_integers_are_doubles(b as int);
    lemma_of_ints(t, c, a, BinOp::Add, b);
    lemma_of_ints(t, c, a, BinOp::Sub, b);
    lemma_of_ints(t, c, a, BinOp::Mul, b);
    let p = i64_specs::wrapping_mul(a, b);
    assert((p - a * b) % 0x1_0000_0000_0000_0000 == 0);
}

/// A quotient and a remainder of integers that doubles hold exactly belong
/// together: the one times the divisor plus the other is the dividend, and the
/// remainder is smaller than the divisor and has the dividend's sign. Zero
/// divides nothing.
pub proof fn integers_divide(t: AnswersV, c: CtxV, a: i64, b: i64)
    requires
        is_exact(a),
        is_exact(b),
    ensures
        b == 0 ==> refuses(answer(t, of_ints(a, BinOp::Div, b), c), "division by zero"@),
        b == 0 ==> refuses(answer(t, of_ints(a, BinOp::Mod, b), c), "modulo by zero"@),
        b != 0 ==> (match (
            answer(t, of_ints(a, BinOp::Div, b), c).0,
            answer(t, of_ints(a, BinOp::Mod, b), c).0,
        ) {
            (Ok(JsonV::Int(q)), Ok(JsonV::Int(r))) => {
                &&& q * b + r == a
                &&& (b > 0 ==> -b < r < b) && (b < 0 ==> b < r < -b)
                &&& (r != 0 ==> (r > 0 <==> a > 0))
            },
            _ => false,
        }),
{
    lemma_literals(t, c);
    small_integers_are_doubles(a as int);
    small_integers_are_doubles(b as int);
    lemma_of_ints(t, c, a, BinOp::Div, b);
    lemma_of_ints(t, c, a, BinOp::Mod, b);
    if b != 0 {
        let x: int = if a >= 0 {
            a as int
        } else {
            -a
        };
        let y: int = if b >= 0 {
            b as int
        } else {
            -b
        };
        let q = x / y;
        let r = x % y;
        lemma_fundamental_div_mod(x, y);
        assert(0 <= r < y);
        assert(0 <= q <= x) by (nonlinear_arith)
            requires
                q == x / y,
                x >= 0,
                y >= 1,
        ;
        assert(y * q == q * y && (-y) * (-q) == q * y && (-y) * q == -(q * y) && y * (-q) == -(q
            * y)) by (nonlinear_arith);
        assert((-q) * (-y) == q * y && q * (-y) == -(q * y) && (-q) * y == -(q * y))
            by (nonlinear_arith);
    }
}

/// `&&`, `||` and `!` are and, or and not.
pub proof fn flags_combine(t: AnswersV, c: CtxV, a: bool, b: bool)
    ensures
        gives(answer(t, of_flags(a, BinOp::And, b), c), JsonV::Bool(a && b), c),
        gives(answer(t, of_flags(a, BinOp::Or, b), c), JsonV::Bool(a || b), c),
        gives(answer(t, of_flags(a, BinOp::Eq, b), c), JsonV::Bool(a == b), c),
        gives(answer(t, of_flags(a, BinOp::Neq, b), c), JsonV::Bool(a != b), c),
        gives(
            answer(t, ExprV::UnaryOp(UnaryOp::Not, Box::new(ExprV::BoolLit(a))), c),
            JsonV::Bool(!a),
            c,
        ),
{
    lemma_literals(t, c);
    lemma_of_flags(t, c, a, BinOp::And, b);
    lemma_of_flags(t, c, a, BinOp::Or, b);
    lemma_of_flags(t, c, a, BinOp::Eq, b);
    lemma_of_flags(t, c, a, BinOp::Neq, b);
    lemma_unary(t, c, UnaryOp::Not, ExprV::BoolLit(a));
}

/// What counts as true: an integer other than zero, a text that is not empty,
/// and never null.
pub proof fn values_count_as_flags(t: AnswersV, c: CtxV, n: i64, s: Seq<char>)
    ensures
        gives(
            answer(t, ExprV::UnaryOp(UnaryOp::Not, Box::new(ExprV::IntLit(n))), c),
            JsonV::Bool(n == 0),
            c,
        ),
        gives(
            answer(t, ExprV::UnaryOp(UnaryOp::Not, Box::new(ExprV::StringLit(s))), c),
            JsonV::Bool(s == Seq::<char>::empty()),
            c,
        ),
        gives(
            answer(t, ExprV::UnaryOp(UnaryOp::Not, Box::new(ExprV::NullLit)), c),
            JsonV::Bool(true),
            c,
        ),
{
    lemma_literals(t, c);
    lemma_unary(t, c, UnaryOp::Not, ExprV::IntLit(n));
    lemma_unary(t, c, UnaryOp::Not, ExprV::StringLit(s));
    lemma_unary(t, c, UnaryOp::Not, ExprV::NullLit);
    if s.len() == 0 {
        assert(s =~= Seq::empty());
    }
}

/// A minus sign gives the integer that makes zero together with the operand.
pub proof fn minus_negates(t: AnswersV, c: CtxV, n: i64)
    requires
        n > i64::MIN,
    ensures
        answer(t, ExprV::UnaryOp(UnaryOp::Neg, Box::new(ExprV::IntLit(n))), c) matches (
            Ok(JsonV::Int(m)),
            after,
        ) && m + n == 0 && after == c,
{
    lemma_literals(t, c);
    lemma_unary(t, c, UnaryOp::Neg, ExprV::IntLit(n));
}

/// `+` puts texts one behind the other; with a text on one side, an integer on
/// the other counts by its digits. Texts are equal if they are the same.
pub proof fn texts_join(t: AnswersV, c: CtxV, a: Seq<char>, b: Seq<char>, n: i64)
    ensures
        answer(t, of_texts(a, BinOp::Add, b), c) matches (Ok(JsonV::Str(s)), after) && after == c
            && s.len() == a.len() + b.len() && s.take(a.len() as int) == a && s.skip(
            a.len() as int,
        ) == b,
        gives(answer(t, of_texts(a, BinOp::Eq, b), c), JsonV::Bool(a == b), c),
        gives(answer(t, of_texts(a, BinOp::Neq, b), c), JsonV::Bool(a != b), c),
        gives(
            answer(
                t,
                ExprV::BinOp(
                    Box::new(ExprV::StringLit(a)),
                    BinOp::Add,
                    Box::new(ExprV::IntLit(n)),
                ),
                c,
            ),
            JsonV::Str(a + int_text(n as int)),
            c,
        ),
        gives(
            answer(
                t,
                ExprV::BinOp(
                    Box::new(ExprV::IntLit(n)),
                    BinOp::Add,
                    Box::new(ExprV::StringLit(a)),
                ),
                c,
            ),
            JsonV::Str(int_text(n as int) + a),
            c,
        ),
{
    lemma_literals(t, c);
    lemma_of_texts(t, c, a, BinOp::Add, b);
    lemma_of_texts(t, c, a, BinOp::Eq, b);
    lemma_of_texts(t, c, a, BinOp::Neq, b);
    let x = ExprV::BinOp(
        Box::new(ExprV::StringLit(a)),
        BinOp::Add,
        Box::new(ExprV::IntLit(n)),
    );
    let y = ExprV::BinOp(
        Box::new(ExprV::IntLit(n)),
        BinOp::Add,
        Box::new(ExprV::StringLit(a)),
    );
    lemma_binary(t, ExprV::StringLit(a), BinOp::Add, ExprV::IntLit(n), c);
    lemma_binary(t, ExprV::IntLit(n), BinOp::Add, ExprV::StringLit(a), c);
    lemma_answer(t, x, c);
    lemma_answer(t, y, c);
    assert((a + b).take(a.len() as int) =~= a);
    assert((a + b).skip(a.len() as int) =~= b);
}

/// A condition picks the one of two expressions that it names, and the other
/// does nothing.
pub proof fn conditions_pick(t: AnswersV, c: CtxV, b: bool, x: ExprV, y: ExprV)
    ensures
        answer(
            t,
            ExprV::Ternary(Box::new(ExprV::BoolLit(b)), Box::new(x), Box::new(y)),
            c,
        ) == (if b {
            answer(t, x, c)
        } else {
            answer(t, y, c)
        }),
        answer(
            t,
            ExprV::IfElse(
                Box::new(ExprV::BoolLit(b)),
                Seq::empty().push(StmtV::Expr(x)),
                Some(Seq::empty().push(StmtV::Expr(y))),
            ),
            c,
        ) == (if b {
            answer(t, x, c)
        } else {
            answer(t, y, c)
        }),
{
    lemma_literals(t, c);
    let e = ExprV::Ternary(Box::new(ExprV::BoolLit(b)), Box::new(x), Box::new(y));
    let f = ExprV::IfElse(
        Box::new(ExprV::BoolLit(b)),
        Seq::empty().push(StmtV::Expr(x)),
        Some(Seq::empty().push(StmtV::Expr(y))),
    );
    lemma_answer(t, e, c);
    lemma_answer(t, f, c);
    lemma_answer(t, x, c);
    lemma_answer(t, y, c);
    lemma_picks(t, c, b, x, y);
}

#[verifier::spinoff_prover]
proof fn lemma_picks(t: AnswersV, c: CtxV, b: bool, x: ExprV, y: ExprV)
    ensures
        ({
            let e = ExprV::Ternary(Box::new(ExprV::BoolLit(b)), Box::new(x), Box::new(y));
            let f = ExprV::IfElse(
                Box::new(ExprV::BoolLit(b)),
                Seq::empty().push(StmtV::Expr(x)),
                Some(Seq::empty().push(StmtV::Expr(y))),
            );
            let z = if b {
                x
            } else {
                y
            };
            eval(t, e, c) == eval(t, z, c) && eval(t, f, c) == eval(t, z, c)
        }),
{
    reveal(eval);
    reveal(run);
    lemma_run_one(t, x, c);
    lemma_run_one(t, y, c);
    let e = ExprV::Ternary(Box::new(ExprV::BoolLit(b)), Box::new(x), Box::new(y));
    let yes = Seq::empty().push(StmtV::Expr(x));
    let no = Seq::empty().push(StmtV::Expr(y));
    let f = ExprV::IfElse(Box::new(ExprV::BoolLit(b)), yes, Some(no));
    assert(eval(t, ExprV::BoolLit(b), c) == (Ok::<ScriptV, HaltV>(ScriptV::Bool(b)), c));
    if b {
        assert(eval(t, e, c) == eval(t, x, c));
        assert(eval(t, f, c) == eval(t, x, c));
    } else {
        assert(eval(t, e, c) == eval(t, y, c));
        assert(eval(t, f, c) == eval(t, y, c));
    }
}

} // verus!
