//! What statements do: variables, assignments, loops, and what ends a script.
use crate::dict::{lookup, put_then_lookup};
use crate::double::{AnswersV, QueryV};
use crate::json::JsonV;
use crate::script::ast::{BinOp, ExprV, StmtV};
use crate::script::laws::set_nested_then_get;
use crate::script::number::small_integers_are_doubles;
use crate::script::operator_laws::{
    answer, closing, gives, lemma_answer, lemma_binary, lemma_literals, lemma_run_one,
};
use crate::script::semantics::{
    cast, eval, eval_list, evaluated, index_access, run, run_each, run_for, set_local,
    source_field, static_call, under, with_nested, CtxV, FlowV, HaltV,
};
use crate::script::value::{truthy, ScriptV};
use crate::text::{int_text, int_text_reads_back, is_white, white_end, white_start};
use vstd::prelude::*;

verus! {

/// The script of two statements.
pub open spec fn pair(a: StmtV, b: StmtV) -> Seq<StmtV> {
    Seq::empty().push(a).push(b)
}

/// An integer in a script.
pub open spec fn lit(n: i64) -> ExprV {
    ExprV::IntLit(n)
}

/// `l op r`
pub open spec fn both(l: ExprV, op: BinOp, r: ExprV) -> ExprV {
    ExprV::BinOp(Box::new(l), op, Box::new(r))
}

/// Running one statement and then a return.
proof fn lemma_then_return(t: AnswersV, a: StmtV, e: ExprV, c: CtxV, v: ScriptV, c1: CtxV)
    requires
        match a {
            StmtV::Expr(x) => eval(t, x, c) == (Ok::<ScriptV, HaltV>(v), c1),
            StmtV::VarDecl(name, x) => exists|c0: CtxV|
                #[trigger] eval(t, x, c) == (Ok::<ScriptV, HaltV>(v), c0) && c1 == set_local(
                    c0,
                    name,
                    v,
                ),
            _ => false,
        },
    ensures
        evaluated(t, pair(a, StmtV::Return(e)), c) == closing(t, eval(t, e, c1), c),
{
    reveal(run);
    reveal(eval);
    let s = pair(a, StmtV::Return(e));
    assert(s.len() == 2 && s[0] == a && s[1] == StmtV::Return(e));
    assert(run(t, s, 0, ScriptV::Null, c) == run(t, s, 1, v, c1));
}

proof fn lemma_var(t: AnswersV, name: Seq<char>, c: CtxV)
    requires
        name != "_source"@,
    ensures
        eval(t, ExprV::Var(name), c) == (Ok::<ScriptV, HaltV>(under(c.locals, name)), c),
{
    reveal(eval);
}

proof fn lemma_local(c: CtxV, name: Seq<char>, v: ScriptV, other: Seq<char>)
    ensures
        under(set_local(c, name, v).locals, name) == v,
        other != name ==> under(set_local(c, name, v).locals, other) == under(c.locals, other),
{
    put_then_lookup(c.locals, name, v, other);
}

/// A variable holds what it was given; other variables keep what they had.
pub proof fn variables_hold_their_value(
    t: AnswersV,
    c: CtxV,
    name: Seq<char>,
    n: i64,
    other: Seq<char>,
)
    requires
        name != "_source"@,
        other != "_source"@,
        other != name,
    ensures
        evaluated(
            t,
            pair(StmtV::VarDecl(name, lit(n)), StmtV::Return(ExprV::Var(name))),
            c,
        ).0 == Ok::<JsonV, HaltV>(JsonV::Int(n)),
        evaluated(
            t,
            pair(
                StmtV::Expr(ExprV::VarDecl(name, Box::new(lit(n)))),
                StmtV::Return(ExprV::Var(name)),
            ),
            c,
        ).0 == Ok::<JsonV, HaltV>(JsonV::Int(n)),
        evaluated(
            t,
            pair(StmtV::VarDecl(name, lit(n)), StmtV::Return(ExprV::Var(other))),
            c,
        ).0 == answer(t, ExprV::Var(other), c).0,
{
    lemma_literals(t, c);
    let c1 = set_local(c, name, ScriptV::Int(n));
    assert(eval(t, lit(n), c) == (Ok::<ScriptV, HaltV>(ScriptV::Int(n)), c));
    let e = ExprV::VarDecl(name, Box::new(lit(n)));
    assert(eval(t, e, c) == (Ok::<ScriptV, HaltV>(ScriptV::Int(n)), c1)) by {
        reveal(eval);
    }
    lemma_then_return(
        t,
        StmtV::VarDecl(name, lit(n)),
        ExprV::Var(name),
        c,
        ScriptV::Int(n),
        c1,
    );
    lemma_then_return(t, StmtV::Expr(e), ExprV::Var(name), c, ScriptV::Int(n), c1);
    lemma_then_return(
        t,
        StmtV::VarDecl(name, lit(n)),
        ExprV::Var(other),
        c,
        ScriptV::Int(n),
        c1,
    );
    lemma_local(c, name, ScriptV::Int(n), other);
    lemma_var(t, name, c1);
    lemma_var(t, other, c1);
    lemma_var(t, other, c);
    lemma_answer(t, ExprV::Var(other), c);
}

/// `x op= e` does what `x = x op e` does.
pub proof fn compound_assignments_are_short_for_others(
    t: AnswersV,
    c: CtxV,
    name: Seq<char>,
    op: BinOp,
    n: i64,
)
    requires
        name != "_source"@,
    ensures
        answer(t, ExprV::VarCompoundAssign(name, op, Box::new(lit(n))), c) == answer(
            t,
            ExprV::VarDecl(name, Box::new(both(ExprV::Var(name), op, lit(n)))),
            c,
        ),
{
    lemma_literals(t, c);
    lemma_var(t, name, c);
    lemma_binary(t, ExprV::Var(name), op, lit(n), c);
    let a = ExprV::VarCompoundAssign(name, op, Box::new(lit(n)));
    let b = ExprV::VarDecl(name, Box::new(both(ExprV::Var(name), op, lit(n))));
    assert(eval(t, lit(n), c) == (Ok::<ScriptV, HaltV>(ScriptV::Int(n)), c));
    assert(eval(t, a, c) == eval(t, b, c)) by {
        reveal(eval);
    }
    lemma_answer(t, a, c);
    lemma_answer(t, b, c);
}

/// A field of the source reads as it was assigned.
pub proof fn assigned_fields_read_back(t: AnswersV, c: CtxV, field: Seq<char>, n: i64)
    requires
        c.source is Object,
        field.len() > 0,
        field[0] != '_',
    ensures
        evaluated(
            t,
            pair(
                StmtV::Expr(ExprV::Assign(field, Box::new(lit(n)))),
                StmtV::Return(ExprV::SourceField(field)),
            ),
            c,
        ).0 == Ok::<JsonV, HaltV>(JsonV::Int(n)),
        answer(t, ExprV::Assign(field, Box::new(lit(n))), c) == (
            Ok::<JsonV, HaltV>(JsonV::Int(n)),
            CtxV { source: with_nested(c.source, field, JsonV::Int(n)), ..c },
        ),
{
    lemma_literals(t, c);
    let e = ExprV::Assign(field, Box::new(lit(n)));
    let c1 = CtxV { source: with_nested(c.source, field, JsonV::Int(n)), ..c };
    assert(eval(t, lit(n), c) == (Ok::<ScriptV, HaltV>(ScriptV::Int(n)), c));
    assert(eval(t, e, c) == (Ok::<ScriptV, HaltV>(ScriptV::Int(n)), c1)) by {
        reveal(eval);
    }
    lemma_then_return(t, StmtV::Expr(e), ExprV::SourceField(field), c, ScriptV::Int(n), c1);
    set_nested_then_get(c.source, field, JsonV::Int(n));
    assert(eval(t, ExprV::SourceField(field), c1) == (
        Ok::<ScriptV, HaltV>(source_field(c1, field)),
        c1,
    )) by {
        reveal(eval);
    }
    lemma_answer(t, e, c);
}

/// Behind a `return` nothing is done.
pub proof fn return_ends_a_script(t: AnswersV, c: CtxV, n: i64, rest: StmtV)
    ensures
        gives(evaluated(t, pair(StmtV::Return(lit(n)), rest), c), JsonV::Int(n), c),
{
    lemma_literals(t, c);
    let s = pair(StmtV::Return(lit(n)), rest);
    assert(s[0] == StmtV::Return(lit(n)) && s.len() == 2);
    assert(eval(t, lit(n), c) == (Ok::<ScriptV, HaltV>(ScriptV::Int(n)), c));
    assert(run(t, s, 0, ScriptV::Null, c) == (
        Ok::<FlowV, HaltV>(FlowV::Return(ScriptV::Int(n))),
        c,
    )) by {
        reveal(run);
        reveal(eval);
    }
}

/// Document fields, parameters and metadata are read by their names.
pub proof fn inputs_are_read_by_name(t: AnswersV, c: CtxV, field: Seq<char>, n: i64, s: Seq<char>)
    ensures
        lookup(c.doc, field) == Some(JsonV::Int(n)) ==> gives(
            answer(t, ExprV::DocField(field), c),
            JsonV::Int(n),
            c,
        ),
        lookup(c.params, field) == Some(JsonV::Int(n)) ==> gives(
            answer(t, ExprV::ParamField(field), c),
            JsonV::Int(n),
            c,
        ),
        field.len() > 0 && field[0] == '_' && lookup(c.metadata, field) == Some(s) ==> gives(
            answer(t, ExprV::SourceField(field), c),
            JsonV::Str(s),
            c,
        ),
        lookup(c.doc, field) is None ==> gives(
            answer(t, ExprV::DocField(field), c),
            JsonV::Null,
            c,
        ),
        lookup(c.params, field) is None ==> gives(
            answer(t, ExprV::ParamField(field), c),
            JsonV::Null,
            c,
        ),
{
    reveal(eval);
    lemma_answer(t, ExprV::DocField(field), c);
    lemma_answer(t, ExprV::ParamField(field), c);
    lemma_answer(t, ExprV::SourceField(field), c);
}

/// A list of integers in a script.
pub open spec fn list_of(a: Seq<i64>) -> ExprV {
    ExprV::ArrayLit(a.map_values(|n: i64| lit(n)))
}

proof fn lemma_list(t: AnswersV, a: Seq<i64>, i: int, acc: Seq<ScriptV>, c: CtxV)
    requires
        0 <= i <= a.len(),
    ensures
        eval_list(t, a.map_values(|n: i64| lit(n)), i, acc, c) == (
            Ok::<Seq<ScriptV>, HaltV>(acc + a.skip(i).map_values(|n: i64| ScriptV::Int(n))),
            c,
        ),
    decreases a.len() - i,
{
    reveal(eval_list);
    reveal(eval);
    let xs = a.map_values(|n: i64| lit(n));
    let vs = a.skip(i).map_values(|n: i64| ScriptV::Int(n));
    if i < a.len() {
        assert(xs[i] == lit(a[i]));
        assert(eval(t, lit(a[i]), c) == (Ok::<ScriptV, HaltV>(ScriptV::Int(a[i])), c));
        lemma_list(t, a, i + 1, acc.push(ScriptV::Int(a[i])), c);
        assert(acc.push(ScriptV::Int(a[i])) + a.skip(i + 1).map_values(|n: i64| ScriptV::Int(n))
            =~= acc + vs);
    } else {
        assert(acc + vs =~= acc);
    }
}

proof fn lemma_list_of(t: AnswersV, a: Seq<i64>, c: CtxV)
    ensures
        eval(t, list_of(a), c) == (
            Ok::<ScriptV, HaltV>(ScriptV::Array(a.map_values(|n: i64| ScriptV::Int(n)))),
            c,
        ),
{
    reveal(eval);
    reveal(eval_list);
    lemma_list(t, a, 0, Seq::empty(), c);
    assert(a.skip(0) =~= a);
    let vs = a.map_values(|n: i64| ScriptV::Int(n));
    assert(Seq::<ScriptV>::empty() + vs =~= vs);
}

/// An item of a list is found by its position, from zero; beyond the list there
/// is nothing.
pub proof fn items_are_found_by_position(t: AnswersV, c: CtxV, a: Seq<i64>, i: i64)
    ensures
        gives(
            answer(t, ExprV::IndexAccess(Box::new(list_of(a)), Box::new(lit(i))), c),
            if 0 <= i < a.len() {
                JsonV::Int(a[i as int])
            } else {
                JsonV::Null
            },
            c,
        ),
{
    lemma_list_of(t, a, c);
    lemma_literals(t, c);
    let e = ExprV::IndexAccess(Box::new(list_of(a)), Box::new(lit(i)));
    let v = a.map_values(|n: i64| ScriptV::Int(n));
    assert(eval(t, lit(i), c) == (Ok::<ScriptV, HaltV>(ScriptV::Int(i)), c));
    assert(eval(t, e, c) == (index_access(ScriptV::Array(v), ScriptV::Int(i)), c)) by {
        reveal(eval);
    }
    lemma_answer(t, e, c);
}

/// Casts: a text becomes the integer that it spells, an integer its digits, and
/// a boolean one or zero.
pub proof fn casts_keep_their_value(t: AnswersV, n: i64, b: bool)
    ensures
        cast(t, "int"@, ScriptV::Str(int_text(n as int))) == Ok::<ScriptV, HaltV>(ScriptV::Int(n)),
        cast(t, "long"@, ScriptV::Int(n)) == Ok::<ScriptV, HaltV>(ScriptV::Int(n)),
        cast(t, "String"@, ScriptV::Int(n)) == Ok::<ScriptV, HaltV>(
            ScriptV::Str(int_text(n as int)),
        ),
        cast(t, "boolean"@, ScriptV::Int(n)) == Ok::<ScriptV, HaltV>(ScriptV::Bool(n != 0)),
        cast(t, "int"@, ScriptV::Bool(b)) matches Ok(ScriptV::Int(k)) && k == (if b {
            1int
        } else {
            0int
        }),
{
    reveal_strlit("int");
    reveal_strlit("long");
    reveal_strlit("float");
    reveal_strlit("double");
    reveal_strlit("String");
    reveal_strlit("boolean");
    assert("String"@[0] != "double"@[0]);
    int_text_reads_back(n as int);
    assert(truthy(t, ScriptV::Int(n)) == Ok::<bool, QueryV>(n != 0));
    assert("boolean"@.len() == 7 && "String"@.len() == 6);
}

/// `Integer.parseInt` reads what `String.valueOf` writes.
pub proof fn integers_survive_their_text(t: AnswersV, n: i64)
    ensures
        static_call(
            t,
            "String"@,
            "valueOf"@,
            Seq::empty().push(ScriptV::Int(n)),
        ) matches Ok(s) && static_call(t, "Integer"@, "parseInt"@, Seq::empty().push(s)) == Ok::<
            ScriptV,
            HaltV,
        >(ScriptV::Int(n)) && static_call(t, "Long"@, "parseLong"@, Seq::empty().push(s)) == Ok::<
            ScriptV,
            HaltV,
        >(ScriptV::Int(n)),
{
    reveal_strlit("String");
    reveal_strlit("valueOf");
    reveal_strlit("Integer");
    reveal_strlit("Long");
    reveal_strlit("Float");
    reveal_strlit("Double");
    reveal_strlit("parseInt");
    reveal_strlit("parseLong");
    reveal_strlit("parseFloat");
    reveal_strlit("parseDouble");
    assert("String"@[0] != "Double"@[0]);
    let s = int_text(n as int);
    int_text_reads_back(n as int);
    assert(!is_white(s[0]) && !is_white(s.last())) by {
        if s.len() > 1 {
            assert(s.skip(1)[s.len() - 2] == s.last());
        }
    }
    assert(white_end(s, 0) == 0);
    assert(white_start(s, 0, s.len() as int) == s.len());
    assert(s.subrange(0, s.len() as int) =~= s);
}

/// `s = s + i`, as a statement.
pub open spec fn add_to(s: Seq<char>, i: Seq<char>) -> StmtV {
    StmtV::Expr(
        ExprV::VarDecl(s, Box::new(both(ExprV::Var(s), BinOp::Add, ExprV::Var(i)))),
    )
}

/// `for (def i = 0; i < n; i = i + 1) { s = s + i }`
pub open spec fn counting_loop(i: Seq<char>, s: Seq<char>, n: i64) -> ExprV {
    ExprV::For(
        Box::new(StmtV::VarDecl(i, lit(0))),
        Box::new(both(ExprV::Var(i), BinOp::Lt, lit(n))),
        Box::new(StmtV::Expr(ExprV::VarDecl(i, Box::new(both(ExprV::Var(i), BinOp::Add, lit(1)))))),
        Seq::empty().push(add_to(s, i)),
    )
}

/// The sum of the integers below `n`, one by one.
pub open spec fn sum_below(n: nat) -> nat
    decreases n,
{
    if n == 0 {
        0
    } else {
        sum_below((n - 1) as nat) + (n - 1) as nat
    }
}

proof fn lemma_sum_bound(n: nat)
    requires
        n <= 100_000,
    ensures
        sum_below(n) <= n * 100_000,
    decreases n,
{
    if n > 0 {
        lemma_sum_bound((n - 1) as nat);
    }
}

/// Setting a variable to the sum of a variable and a value.
proof fn lemma_add(t: AnswersV, c: CtxV, s: Seq<char>, r: ExprV, a: i64, b: i64)
    requires
        s != "_source"@,
        under(c.locals, s) == ScriptV::Int(a),
        eval(t, r, c) == (Ok::<ScriptV, HaltV>(ScriptV::Int(b)), c),
        -0x20_0000_0000_0000 <= a <= 0x20_0000_0000_0000,
        -0x20_0000_0000_0000 <= b <= 0x20_0000_0000_0000,
    ensures
        eval(t, ExprV::VarDecl(s, Box::new(both(ExprV::Var(s), BinOp::Add, r))), c) == (
            Ok::<ScriptV, HaltV>(ScriptV::Int((a + b) as i64)),
            set_local(c, s, ScriptV::Int((a + b) as i64)),
        ),
{
    small_integers_are_doubles(a as int);
    small_integers_are_doubles(b as int);
    lemma_var(t, s, c);
    lemma_binary(t, ExprV::Var(s), BinOp::Add, r, c);
    let e = both(ExprV::Var(s), BinOp::Add, r);
    assert(eval(t, e, c) == (Ok::<ScriptV, HaltV>(ScriptV::Int((a + b) as i64)), c));
    assert(eval(t, ExprV::VarDecl(s, Box::new(e)), c) == (
        Ok::<ScriptV, HaltV>(ScriptV::Int((a + b) as i64)),
        set_local(c, s, ScriptV::Int((a + b) as i64)),
    )) by {
        reveal(eval);
    }
}

/// The rounds of a counting loop from round `k` on.
#[verifier::spinoff_prover]
proof fn lemma_rounds(
    t: AnswersV,
    c: CtxV,
    i: Seq<char>,
    s: Seq<char>,
    n: i64,
    k: nat,
    last: ScriptV,
)
    requires
        i != s,
        i != "_source"@,
        s != "_source"@,
        k <= n < 100_000,
        under(c.locals, i) == ScriptV::Int(k as i64),
        under(c.locals, s) == ScriptV::Int(sum_below(k) as i64),
    ensures
        ({
            let (r, after) = run_for(t, counting_loop(i, s, n), k, last, c);
            r is Ok && under(after.locals, s) == ScriptV::Int(sum_below(n as nat) as i64)
        }),
    decreases n - k,
{
    let e = counting_loop(i, s, n);
    let cond = both(ExprV::Var(i), BinOp::Lt, lit(n));
    let body = Seq::empty().push(add_to(s, i));
    let add = ExprV::VarDecl(s, Box::new(both(ExprV::Var(s), BinOp::Add, ExprV::Var(i))));
    let next = ExprV::VarDecl(i, Box::new(both(ExprV::Var(i), BinOp::Add, lit(1))));
    lemma_literals(t, c);
    lemma_var(t, i, c);
    small_integers_are_doubles(k as int);
    small_integers_are_doubles(n as int);
    assert(eval(t, lit(n), c) == (Ok::<ScriptV, HaltV>(ScriptV::Int(n)), c));
    lemma_binary(t, ExprV::Var(i), BinOp::Lt, lit(n), c);
    assert(eval(t, cond, c) == (Ok::<ScriptV, HaltV>(ScriptV::Bool(k < n)), c));
    if k < n {
        lemma_sum_bound(k);
        lemma_add(t, c, s, ExprV::Var(i), sum_below(k) as i64, k as i64);
        let sum = (sum_below(k) + k) as i64;
        let c1 = set_local(c, s, ScriptV::Int(sum));
        lemma_run_one(t, add, c);
        lemma_local(c, s, ScriptV::Int(sum), i);
        lemma_literals(t, c1);
        assert(eval(t, lit(1), c1) == (Ok::<ScriptV, HaltV>(ScriptV::Int(1)), c1));
        lemma_add(t, c1, i, lit(1), k as i64, 1);
        let c2 = set_local(c1, i, ScriptV::Int((k + 1) as i64));
        lemma_local(c1, i, ScriptV::Int((k + 1) as i64), s);
        assert(sum_below((k + 1) as nat) == sum_below(k) + k);
        assert(run(t, body, 0, ScriptV::Null, c) == (
            Ok::<FlowV, HaltV>(FlowV::Value(ScriptV::Int(sum))),
            c1,
        ));
        lemma_rounds(t, c2, i, s, n, (k + 1) as nat, ScriptV::Int(sum));
        assert(run_for(t, e, k, last, c) == run_for(
            t,
            e,
            (k + 1) as nat,
            ScriptV::Int(sum),
            c2,
        )) by {
            reveal(run_for);
            reveal(run);
            reveal(eval);
        }
    } else {
        assert(run_for(t, e, k, last, c) == (Ok::<ScriptV, HaltV>(last), c)) by {
            reveal(run_for);
            reveal(run);
            reveal(eval);
        }
    }
}

/// A loop that counts from zero up to a number, that one not included, and adds
/// the counter to a variable in each round leaves the sum of all those numbers.
pub proof fn loops_run_as_often_as_they_say(
    t: AnswersV,
    c: CtxV,
    i: Seq<char>,
    s: Seq<char>,
    n: i64,
)
    requires
        i != s,
        i != "_source"@,
        s != "_source"@,
        0 <= n < 100_000,
        under(c.locals, s) == ScriptV::Int(0),
    ensures
        evaluated(
            t,
            pair(StmtV::Expr(counting_loop(i, s, n)), StmtV::Return(ExprV::Var(s))),
            c,
        ).0 == Ok::<JsonV, HaltV>(JsonV::Int(sum_below(n as nat) as i64)),
        2 * sum_below(n as nat) == n * (n - 1),
{
    let e = counting_loop(i, s, n);
    let c1 = set_local(c, i, ScriptV::Int(0));
    lemma_literals(t, c);
    lemma_local(c, i, ScriptV::Int(0), s);
    assert(eval(t, lit(0), c) == (Ok::<ScriptV, HaltV>(ScriptV::Int(0)), c));
    lemma_rounds(t, c1, i, s, n, 0, ScriptV::Null);
    let (r, after) = run_for(t, e, 0, ScriptV::Null, c1);
    assert(eval(t, e, c) == (r, after)) by {
        reveal(eval);
        reveal(run_for);
    }
    lemma_then_return(t, StmtV::Expr(e), ExprV::Var(s), c, r->Ok_0, after);
    lemma_var(t, s, after);
    lemma_sum(n as nat);
}

proof fn lemma_sum(n: nat)
    ensures
        2 * sum_below(n) == n * (n - 1),
    decreases n,
{
    if n > 0 {
        let m = (n - 1) as nat;
        lemma_sum(m);
        assert(m * (m - 1) + 2 * m == n * (n - 1)) by (nonlinear_arith)
            requires
                m == n - 1,
        ;
        assert(sum_below(n) == sum_below(m) + m);
    } else {
        assert(n * (n - 1) == 0) by (nonlinear_arith)
            requires
                n == 0,
        ;
    }
}

/// `for (def x : list) { s = s + x }`
pub open spec fn adding_loop(x: Seq<char>, s: Seq<char>, a: Seq<i64>) -> ExprV {
    ExprV::ForEach(x, Box::new(list_of(a)), Seq::empty().push(add_to(s, x)))
}

/// The sum of integers from the first to the one before `k`.
pub open spec fn sum_of(a: Seq<i64>, k: int) -> int
    decreases k,
{
    if k <= 0 || k > a.len() {
        0
    } else {
        sum_of(a, k - 1) + a[k - 1]
    }
}

#[verifier::spinoff_prover]
proof fn lemma_each(
    t: AnswersV,
    c: CtxV,
    x: Seq<char>,
    s: Seq<char>,
    a: Seq<i64>,
    k: int,
    last: ScriptV,
)
    requires
        x != s,
        x != "_source"@,
        s != "_source"@,
        0 <= k <= a.len(),
        forall|j: int|
            0 <= j <= a.len() ==> -0x20_0000_0000_0000 <= #[trigger] sum_of(a, j)
                <= 0x20_0000_0000_0000,
        forall|j: int|
            0 <= j < a.len() ==> -0x20_0000_0000_0000 <= #[trigger] a[j] <= 0x20_0000_0000_0000,
        under(c.locals, s) == ScriptV::Int(sum_of(a, k) as i64),
    ensures
        ({
            let items = a.map_values(|n: i64| ScriptV::Int(n));
            let (r, after) = run_each(t, adding_loop(x, s, a), items, k, last, c);
            r is Ok && under(after.locals, s) == ScriptV::Int(sum_of(a, a.len() as int) as i64)
        }),
    decreases a.len() - k,
{
    let e = adding_loop(x, s, a);
    let items = a.map_values(|n: i64| ScriptV::Int(n));
    let body = Seq::empty().push(add_to(s, x));
    let add = ExprV::VarDecl(s, Box::new(both(ExprV::Var(s), BinOp::Add, ExprV::Var(x))));
    if k < a.len() {
        assert(items[k] == ScriptV::Int(a[k]));
        let c1 = set_local(c, x, ScriptV::Int(a[k]));
        lemma_local(c, x, ScriptV::Int(a[k]), s);
        lemma_var(t, x, c1);
        assert(sum_of(a, k) == sum_of(a, k));
        lemma_add(t, c1, s, ExprV::Var(x), sum_of(a, k) as i64, a[k]);
        let sum = (sum_of(a, k) + a[k]) as i64;
        assert(sum_of(a, k + 1) == sum_of(a, k) + a[k]);
        let c2 = set_local(c1, s, ScriptV::Int(sum));
        lemma_local(c1, s, ScriptV::Int(sum), x);
        lemma_run_one(t, add, c1);
        assert(run(t, body, 0, ScriptV::Null, c1) == (
            Ok::<FlowV, HaltV>(FlowV::Value(ScriptV::Int(sum))),
            c2,
        ));
        lemma_each(t, c2, x, s, a, k + 1, ScriptV::Int(sum));
        assert(run_each(t, e, items, k, last, c) == run_each(
            t,
            e,
            items,
            k + 1,
            ScriptV::Int(sum),
            c2,
        )) by {
            reveal(run_each);
            reveal(run);
        }
    } else {
        assert(run_each(t, e, items, k, last, c) == (Ok::<ScriptV, HaltV>(last), c)) by {
            reveal(run_each);
            reveal(run);
        }
    }
}

/// A loop over a list takes each of its items once: it leaves their sum.
pub proof fn loops_take_each_item_once(
    t: AnswersV,
    c: CtxV,
    x: Seq<char>,
    s: Seq<char>,
    a: Seq<i64>,
)
    requires
        x != s,
        x != "_source"@,
        s != "_source"@,
        forall|j: int|
            0 <= j <= a.len() ==> -0x20_0000_0000_0000 <= #[trigger] sum_of(a, j)
                <= 0x20_0000_0000_0000,
        forall|j: int|
            0 <= j < a.len() ==> -0x20_0000_0000_0000 <= #[trigger] a[j] <= 0x20_0000_0000_0000,
        under(c.locals, s) == ScriptV::Int(0),
    ensures
        evaluated(
            t,
            pair(StmtV::Expr(adding_loop(x, s, a)), StmtV::Return(ExprV::Var(s))),
            c,
        ).0 == Ok::<JsonV, HaltV>(JsonV::Int(sum_of(a, a.len() as int) as i64)),
{
    let e = adding_loop(x, s, a);
    lemma_list_of(t, a, c);
    assert(sum_of(a, 0) == 0);
    lemma_each(t, c, x, s, a, 0, ScriptV::Null);
    let items = a.map_values(|n: i64| ScriptV::Int(n));
    let (r, after) = run_each(t, e, items, 0, ScriptV::Null, c);
    assert(eval(t, e, c) == (r, after)) by {
        reveal(eval);
        reveal(run_each);
    }
    lemma_then_return(t, StmtV::Expr(e), ExprV::Var(s), c, r->Ok_0, after);
    lemma_var(t, s, after);
}

} // verus!
