//! A script that got through with some answers gets through in the same way
//! with more of them.
use crate::dict::lookup;
use crate::double::{answer_from, answers_stay, AnswersV, QueryV};
use crate::json::JsonV;
use crate::script::ast::{BinOp, ExprV, StmtV, UnaryOp};
use crate::script::grammar::quoted_text;
use crate::script::semantics::{
    arg, assign, binop, cast, err_text, eval, eval_list, evaluated, func_call, index_of, math,
    method, nested, run, run_each, run_for, set_local, static_call, unary, under, values_of, CtxV,
    FlowV, HaltV, LOOP_LIMIT,
};
use crate::script::value::{
    display, display_entries, display_items, equal, equal_entries, equal_items, json_entries_of,
    json_of, jsons_of, shown, shown_entries, shown_items, value_of_json, ScriptV,
};
use vstd::prelude::*;

verus! {

/// Whether `u` answers every question that `t` answers, and in the same way.
pub open spec fn knows(u: AnswersV, t: AnswersV) -> bool {
    forall|q: QueryV|
        (#[trigger] answer_from(t, q, 0)) is Some ==> answer_from(u, q, 0) == answer_from(t, q, 0)
}

/// Whether a result is a question.
pub open spec fn asks<T>(r: Result<T, HaltV>) -> bool {
    r matches Err(HaltV::Ask(_))
}

/// A script that ended with some answers, with a value or an error, ends in the
/// same way, and leaves the same context, with more answers behind them.
pub proof fn result_stays(t: AnswersV, more: AnswersV, program: Seq<StmtV>, c: CtxV)
    requires
        !asks(evaluated(t, program, c).0),
    ensures
        evaluated(t + more, program, c) == evaluated(t, program, c),
{
    let u = t + more;
    assert forall|q: QueryV| (#[trigger] answer_from(t, q, 0)) is Some implies answer_from(
        u,
        q,
        0,
    ) == answer_from(t, q, 0) by {
        answers_stay(t, more, q);
    }
    lemma_run(t, u, program, 0, ScriptV::Null, c);
    match run(t, program, 0, ScriptV::Null, c).0 {
        Ok(FlowV::Value(v)) => lemma_json_of(t, u, v),
        Ok(FlowV::Return(v)) => lemma_json_of(t, u, v),
        Err(_) => {},
    }
}

proof fn lemma_json_of(t: AnswersV, u: AnswersV, v: ScriptV)
    requires
        knows(u, t),
    ensures
        json_of(t, v) is Ok ==> json_of(u, v) == json_of(t, v),
    decreases v, 0nat,
{
    match v {
        ScriptV::Array(a) => lemma_jsons_of(t, u, a, 0, Seq::empty()),
        ScriptV::Dict(m) => lemma_json_entries_of(t, u, m, 0, Seq::empty()),
        _ => {},
    }
}

proof fn lemma_jsons_of(t: AnswersV, u: AnswersV, a: Seq<ScriptV>, i: int, acc: Seq<JsonV>)
    requires
        knows(u, t),
    ensures
        jsons_of(t, a, i, acc) is Ok ==> jsons_of(u, a, i, acc) == jsons_of(t, a, i, acc),
    decreases a, a.len() - i,
{
    if 0 <= i < a.len() {
        lemma_json_of(t, u, a[i]);
        if let Ok(j) = json_of(t, a[i]) {
            lemma_jsons_of(t, u, a, i + 1, acc.push(j));
        }
    }
}

proof fn lemma_json_entries_of(
    t: AnswersV,
    u: AnswersV,
    m: Seq<(Seq<char>, ScriptV)>,
    i: int,
    acc: Seq<(Seq<char>, JsonV)>,
)
    requires
        knows(u, t),
    ensures
        json_entries_of(t, m, i, acc) is Ok ==> json_entries_of(u, m, i, acc) == json_entries_of(
            t,
            m,
            i,
            acc,
        ),
    decreases m, m.len() - i,
{
    if 0 <= i < m.len() {
        lemma_json_of(t, u, m[i].1);
        if let Ok(j) = json_of(t, m[i].1) {
            lemma_json_entries_of(t, u, m, i + 1, acc.push((m[i].0, j)));
        }
    }
}

proof fn lemma_display(t: AnswersV, u: AnswersV, v: ScriptV)
    requires
        knows(u, t),
    ensures
        display(t, v) is Ok ==> display(u, v) == display(t, v),
    decreases v, 0nat,
{
    match v {
        ScriptV::Array(a) => lemma_display_items(t, u, a, ", "@, 0, "["@),
        ScriptV::Dict(m) => lemma_display_entries(t, u, m, 0, "{"@),
        _ => {},
    }
}

proof fn lemma_display_items(
    t: AnswersV,
    u: AnswersV,
    a: Seq<ScriptV>,
    sep: Seq<char>,
    i: int,
    acc: Seq<char>,
)
    requires
        knows(u, t),
    ensures
        display_items(t, a, sep, i, acc) is Ok ==> display_items(u, a, sep, i, acc)
            == display_items(t, a, sep, i, acc),
    decreases a, a.len() - i,
{
    if 0 <= i < a.len() {
        lemma_display(t, u, a[i]);
        if let Ok(s) = display(t, a[i]) {
            lemma_display_items(
                t,
                u,
                a,
                sep,
                i + 1,
                if i > 0 {
                    acc + sep + s
                } else {
                    acc + s
                },
            );
        }
    }
}

proof fn lemma_display_entries(
    t: AnswersV,
    u: AnswersV,
    m: Seq<(Seq<char>, ScriptV)>,
    i: int,
    acc: Seq<char>,
)
    requires
        knows(u, t),
    ensures
        display_entries(t, m, i, acc) is Ok ==> display_entries(u, m, i, acc) == display_entries(
            t,
            m,
            i,
            acc,
        ),
    decreases m, m.len() - i,
{
    if 0 <= i < m.len() {
        lemma_display(t, u, m[i].1);
        if let Ok(s) = display(t, m[i].1) {
            lemma_display_entries(
                t,
                u,
                m,
                i + 1,
                (if i > 0 {
                    acc + ", "@
                } else {
                    acc
                }) + m[i].0 + ": "@ + s,
            );
        }
    }
}

proof fn lemma_shown(t: AnswersV, u: AnswersV, v: ScriptV)
    requires
        knows(u, t),
    ensures
        shown(t, v) is Ok ==> shown(u, v) == shown(t, v),
    decreases v, 0nat,
{
    match v {
        ScriptV::Array(a) => lemma_shown_items(t, u, a, 0, "Array(["@),
        ScriptV::Dict(m) => lemma_shown_entries(t, u, m, 0, "Map({"@),
        _ => {},
    }
}

proof fn lemma_shown_items(t: AnswersV, u: AnswersV, a: Seq<ScriptV>, i: int, acc: Seq<char>)
    requires
        knows(u, t),
    ensures
        shown_items(t, a, i, acc) is Ok ==> shown_items(u, a, i, acc) == shown_items(t, a, i, acc),
    decreases a, a.len() - i,
{
    if 0 <= i < a.len() {
        lemma_shown(t, u, a[i]);
        if let Ok(s) = shown(t, a[i]) {
            lemma_shown_items(
                t,
                u,
                a,
                i + 1,
                if i > 0 {
                    acc + ", "@ + s
                } else {
                    acc + s
                },
            );
        }
    }
}

proof fn lemma_shown_entries(
    t: AnswersV,
    u: AnswersV,
    m: Seq<(Seq<char>, ScriptV)>,
    i: int,
    acc: Seq<char>,
)
    requires
        knows(u, t),
    ensures
        shown_entries(t, m, i, acc) is Ok ==> shown_entries(u, m, i, acc) == shown_entries(
            t,
            m,
            i,
            acc,
        ),
    decreases m, m.len() - i,
{
    if 0 <= i < m.len() {
        lemma_shown(t, u, m[i].1);
        if let Ok(s) = shown(t, m[i].1) {
            lemma_shown_entries(
                t,
                u,
                m,
                i + 1,
                (if i > 0 {
                    acc + ", "@
                } else {
                    acc
                }) + quoted_text(m[i].0) + ": "@ + s,
            );
        }
    }
}

proof fn lemma_equal(t: AnswersV, u: AnswersV, a: ScriptV, b: ScriptV)
    requires
        knows(u, t),
    ensures
        equal(t, a, b) is Ok ==> equal(u, a, b) == equal(t, a, b),
    decreases a, 0nat,
{
    match (a, b) {
        (ScriptV::Array(x), ScriptV::Array(y)) => lemma_equal_items(t, u, x, y, 0),
        (ScriptV::Dict(x), ScriptV::Dict(y)) => lemma_equal_entries(t, u, x, y, 0),
        _ => {},
    }
}

proof fn lemma_equal_items(t: AnswersV, u: AnswersV, x: Seq<ScriptV>, y: Seq<ScriptV>, i: int)
    requires
        knows(u, t),
    ensures
        equal_items(t, x, y, i) is Ok ==> equal_items(u, x, y, i) == equal_items(t, x, y, i),
    decreases x, x.len() - i,
{
    if 0 <= i < x.len() && i < y.len() {
        lemma_equal(t, u, x[i], y[i]);
        lemma_equal_items(t, u, x, y, i + 1);
    }
}

proof fn lemma_equal_entries(
    t: AnswersV,
    u: AnswersV,
    x: Seq<(Seq<char>, ScriptV)>,
    y: Seq<(Seq<char>, ScriptV)>,
    i: int,
)
    requires
        knows(u, t),
    ensures
        equal_entries(t, x, y, i) is Ok ==> equal_entries(u, x, y, i) == equal_entries(t, x, y, i),
    decreases x, x.len() - i,
{
    if 0 <= i < x.len() {
        if let Some(v) = lookup(y, x[i].0) {
            lemma_equal(t, u, x[i].1, v);
            lemma_equal_entries(t, u, x, y, i + 1);
        }
    }
}

proof fn lemma_index_of(t: AnswersV, u: AnswersV, a: Seq<ScriptV>, v: ScriptV, i: int)
    requires
        knows(u, t),
    ensures
        index_of(t, a, v, i) is Ok ==> index_of(u, a, v, i) == index_of(t, a, v, i),
    decreases a.len() - i,
{
    if 0 <= i < a.len() {
        lemma_equal(t, u, a[i], v);
        lemma_index_of(t, u, a, v, i + 1);
    }
}

#[verifier::spinoff_prover]
proof fn lemma_binop(t: AnswersV, u: AnswersV, l: ScriptV, op: BinOp, r: ScriptV)
    requires
        knows(u, t),
    ensures
        !asks(binop(t, l, op, r)) ==> binop(u, l, op, r) == binop(t, l, op, r),
{
    lemma_display(t, u, l);
    lemma_display(t, u, r);
    lemma_shown(t, u, l);
    lemma_shown(t, u, r);
    lemma_equal(t, u, l, r);
}

proof fn lemma_unary(t: AnswersV, u: AnswersV, op: UnaryOp, v: ScriptV)
    requires
        knows(u, t),
    ensures
        !asks(unary(t, op, v)) ==> unary(u, op, v) == unary(t, op, v),
{
    lemma_shown(t, u, v);
}

#[verifier::spinoff_prover]
proof fn lemma_method(t: AnswersV, u: AnswersV, v: ScriptV, m: Seq<char>, args: Seq<ScriptV>)
    requires
        knows(u, t),
    ensures
        !asks(method(t, v, m, args)) ==> method(u, v, m, args) == method(t, v, m, args),
{
    lemma_display(t, u, v);
    match v {
        ScriptV::Array(a) => {
            if let Some(x) = arg(args, 0) {
                lemma_index_of(t, u, a, x, 0);
            }
            let sep = match arg(args, 0) {
                Some(ScriptV::Str(s)) => s,
                _ => ","@,
            };
            lemma_display_items(t, u, a, sep, 0, Seq::empty());
        },
        ScriptV::Dict(p) => {
            if let Some(x) = arg(args, 0) {
                lemma_index_of(t, u, values_of(p), x, 0);
            }
        },
        _ => {},
    }
}

proof fn lemma_static_call(
    t: AnswersV,
    u: AnswersV,
    class: Seq<char>,
    m: Seq<char>,
    args: Seq<ScriptV>,
)
    requires
        knows(u, t),
    ensures
        !asks(static_call(t, class, m, args)) ==> static_call(u, class, m, args) == static_call(
            t,
            class,
            m,
            args,
        ),
{
    if let Some(v) = arg(args, 0) {
        lemma_display(t, u, v);
    }
}

proof fn lemma_math(t: AnswersV, u: AnswersV, f: Seq<char>, args: Seq<ScriptV>, draws: i64)
    requires
        knows(u, t),
    ensures
        !asks(math(t, f, args, draws)) ==> math(u, f, args, draws) == math(t, f, args, draws),
{
}

proof fn lemma_func_call(t: AnswersV, u: AnswersV, f: Seq<char>, args: Seq<ScriptV>, c: CtxV)
    requires
        knows(u, t),
    ensures
        !asks(func_call(t, f, args, c)) ==> func_call(u, f, args, c) == func_call(t, f, args, c),
{
}

proof fn lemma_cast(t: AnswersV, u: AnswersV, name: Seq<char>, v: ScriptV)
    requires
        knows(u, t),
    ensures
        !asks(cast(t, name, v)) ==> cast(u, name, v) == cast(t, name, v),
{
    lemma_display(t, u, v);
}

proof fn lemma_assign(t: AnswersV, u: AnswersV, c: CtxV, f: Seq<char>, v: ScriptV)
    requires
        knows(u, t),
    ensures
        !asks(assign(t, c, f, v).0) ==> assign(u, c, f, v) == assign(t, c, f, v),
{
    lemma_json_of(t, u, v);
}

#[verifier::spinoff_prover]
proof fn lemma_eval(t: AnswersV, u: AnswersV, e: ExprV, c: CtxV)
    requires
        knows(u, t),
    ensures
        !asks(eval(t, e, c).0) ==> eval(u, e, c) == eval(t, e, c),
    decreases e, 1nat, 0nat,
{
    reveal(eval);
    match e {
        ExprV::Assign(f, x) => {
            lemma_eval(t, u, *x, c);
            if let (Ok(v), c1) = eval(t, *x, c) {
                lemma_assign(t, u, c1, f, v);
            }
        },
        ExprV::CompoundAssign(f, op, x) => {
            lemma_eval(t, u, *x, c);
            if let (Ok(v), c1) = eval(t, *x, c) {
                let old = value_of_json(nested(c.source, f));
                lemma_binop(t, u, old, op, v);
                if let Ok(w) = binop(t, old, op, v) {
                    lemma_assign(t, u, c1, f, w);
                }
            }
        },
        ExprV::BinOp(l, op, r) => {
            lemma_eval(t, u, *l, c);
            if let (Ok(a), c1) = eval(t, *l, c) {
                lemma_eval(t, u, *r, c1);
                if let (Ok(b), c2) = eval(t, *r, c1) {
                    lemma_binop(t, u, a, op, b);
                }
            }
        },
        ExprV::UnaryOp(op, x) => {
            lemma_eval(t, u, *x, c);
            if let (Ok(v), c1) = eval(t, *x, c) {
                lemma_unary(t, u, op, v);
            }
        },
        ExprV::Ternary(x, y, z) => {
            lemma_eval(t, u, *x, c);
            let c1 = eval(t, *x, c).1;
            lemma_eval(t, u, *y, c1);
            lemma_eval(t, u, *z, c1);
        },
        ExprV::MethodCall(x, m, args) => {
            lemma_eval(t, u, *x, c);
            if let (Ok(v), c1) = eval(t, *x, c) {
                lemma_eval_list(t, u, args, 0, Seq::empty(), c1);
                if let (Ok(vs), c2) = eval_list(t, args, 0, Seq::empty(), c1) {
                    lemma_method(t, u, v, m, vs);
                }
            }
        },
        ExprV::MathCall(f, args) => {
            lemma_eval_list(t, u, args, 0, Seq::empty(), c);
            if let (Ok(vs), c1) = eval_list(t, args, 0, Seq::empty(), c) {
                lemma_math(t, u, f, vs, c1.draws);
            }
        },
        ExprV::FuncCall(f, args) => {
            lemma_eval_list(t, u, args, 0, Seq::empty(), c);
            if let (Ok(vs), c1) = eval_list(t, args, 0, Seq::empty(), c) {
                lemma_func_call(t, u, f, vs, c1);
            }
        },
        ExprV::StaticCall(k, m, args) => {
            lemma_eval_list(t, u, args, 0, Seq::empty(), c);
            if let (Ok(vs), c1) = eval_list(t, args, 0, Seq::empty(), c) {
                lemma_static_call(t, u, k, m, vs);
            }
        },
        ExprV::ArrayLit(xs) => {
            lemma_eval_list(t, u, xs, 0, Seq::empty(), c);
        },
        ExprV::IfElse(x, yes, no) => {
            lemma_eval(t, u, *x, c);
            let c1 = eval(t, *x, c).1;
            lemma_run(t, u, yes, 0, ScriptV::Null, c1);
            if let Some(b) = no {
                lemma_run(t, u, b, 0, ScriptV::Null, c1);
            }
        },
        ExprV::For(init, _, _, _) => match *init {
            StmtV::VarDecl(name, x) => {
                lemma_eval(t, u, x, c);
                if let (Ok(v), c1) = eval(t, x, c) {
                    lemma_for(t, u, e, 0, ScriptV::Null, set_local(c1, name, v));
                }
            },
            StmtV::Expr(x) => {
                lemma_eval(t, u, x, c);
                lemma_for(t, u, e, 0, ScriptV::Null, eval(t, x, c).1);
            },
            StmtV::Return(x) => {
                lemma_eval(t, u, x, c);
            },
            StmtV::TryCatch(_, _, _) => {
                lemma_for(t, u, e, 0, ScriptV::Null, c);
            },
        },
        ExprV::ForEach(_, x, _) => {
            lemma_eval(t, u, *x, c);
            if let (Ok(ScriptV::Array(items)), c1) = eval(t, *x, c) {
                lemma_each(t, u, e, items, 0, ScriptV::Null, c1);
            }
        },
        ExprV::RegexFind(x, y) => {
            lemma_eval(t, u, *x, c);
            lemma_eval(t, u, *y, eval(t, *x, c).1);
        },
        ExprV::RegexMatchOp(x, y) => {
            lemma_eval(t, u, *x, c);
            lemma_eval(t, u, *y, eval(t, *x, c).1);
        },
        ExprV::TypeCast(name, x) => {
            lemma_eval(t, u, *x, c);
            if let (Ok(v), c1) = eval(t, *x, c) {
                lemma_cast(t, u, name, v);
            }
        },
        ExprV::VarDecl(_, x) => {
            lemma_eval(t, u, *x, c);
        },
        ExprV::VarCompoundAssign(name, op, x) => {
            lemma_eval(t, u, *x, c);
            if let (Ok(v), c1) = eval(t, *x, c) {
                lemma_binop(t, u, under(c.locals, name), op, v);
            }
        },
        ExprV::IndexAccess(x, y) => {
            lemma_eval(t, u, *x, c);
            lemma_eval(t, u, *y, eval(t, *x, c).1);
        },
        _ => {},
    }
}

#[verifier::spinoff_prover]
proof fn lemma_eval_list(
    t: AnswersV,
    u: AnswersV,
    xs: Seq<ExprV>,
    i: int,
    acc: Seq<ScriptV>,
    c: CtxV,
)
    requires
        knows(u, t),
    ensures
        !asks(eval_list(t, xs, i, acc, c).0) ==> eval_list(u, xs, i, acc, c) == eval_list(
            t,
            xs,
            i,
            acc,
            c,
        ),
    decreases xs, 0nat, xs.len() - i,
{
    reveal(eval_list);
    reveal(eval);
    if 0 <= i < xs.len() {
        lemma_eval(t, u, xs[i], c);
        if let (Ok(v), c1) = eval(t, xs[i], c) {
            lemma_eval_list(t, u, xs, i + 1, acc.push(v), c1);
        }
    }
}

#[verifier::spinoff_prover]
proof fn lemma_run(t: AnswersV, u: AnswersV, s: Seq<StmtV>, i: int, last: ScriptV, c: CtxV)
    requires
        knows(u, t),
    ensures
        !asks(run(t, s, i, last, c).0) ==> run(u, s, i, last, c) == run(t, s, i, last, c),
    decreases s, 0nat, s.len() - i,
{
    reveal(run);
    reveal(eval);
    if 0 <= i < s.len() {
        match s[i] {
            StmtV::Return(x) => {
                lemma_eval(t, u, x, c);
            },
            StmtV::Expr(x) => {
                lemma_eval(t, u, x, c);
                if let (Ok(v), c1) = eval(t, x, c) {
                    lemma_run(t, u, s, i + 1, v, c1);
                }
            },
            StmtV::VarDecl(name, x) => {
                lemma_eval(t, u, x, c);
                if let (Ok(v), c1) = eval(t, x, c) {
                    lemma_run(t, u, s, i + 1, v, set_local(c1, name, v));
                }
            },
            StmtV::TryCatch(body, name, handler) => {
                lemma_run(t, u, body, 0, ScriptV::Null, c);
                let (r, c1) = run(t, body, 0, ScriptV::Null, c);
                match r {
                    Ok(FlowV::Value(v)) => {
                        lemma_run(t, u, s, i + 1, v, c1);
                    },
                    Err(HaltV::Error(e)) => {
                        let c2 = set_local(c1, name, ScriptV::Str(err_text(e)));
                        lemma_run(t, u, handler, 0, ScriptV::Null, c2);
                        if let (Ok(FlowV::Value(v)), c3) = run(
                            t,
                            handler,
                            0,
                            ScriptV::Null,
                            c2,
                        ) {
                            lemma_run(t, u, s, i + 1, v, c3);
                        }
                    },
                    _ => {},
                }
            },
        }
    }
}

#[verifier::spinoff_prover]
proof fn lemma_for(t: AnswersV, u: AnswersV, e: ExprV, n: nat, last: ScriptV, c: CtxV)
    requires
        knows(u, t),
    ensures
        !asks(run_for(t, e, n, last, c).0) ==> run_for(u, e, n, last, c) == run_for(
            t,
            e,
            n,
            last,
            c,
        ),
    decreases e, 0nat, LOOP_LIMIT - n,
{
    reveal(run_for);
    reveal(eval);
    reveal(run);
    if let ExprV::For(_, cond, next, body) = e {
        if n < LOOP_LIMIT {
            lemma_eval(t, u, *cond, c);
            if let (Ok(v), c1) = eval(t, *cond, c) {
                lemma_run(t, u, body, 0, ScriptV::Null, c1);
                if let (Ok(FlowV::Value(r)), c2) = run(t, body, 0, ScriptV::Null, c1) {
                    match *next {
                        StmtV::VarDecl(name, x) => {
                            lemma_eval(t, u, x, c2);
                            if let (Ok(w), c3) = eval(t, x, c2) {
                                lemma_for(t, u, e, n + 1, r, set_local(c3, name, w));
                            }
                        },
                        StmtV::Expr(x) => {
                            lemma_eval(t, u, x, c2);
                            lemma_for(t, u, e, n + 1, r, eval(t, x, c2).1);
                        },
                        _ => {
                            lemma_for(t, u, e, n + 1, r, c2);
                        },
                    }
                }
            }
        }
    }
}

#[verifier::spinoff_prover]
proof fn lemma_each(
    t: AnswersV,
    u: AnswersV,
    e: ExprV,
    items: Seq<ScriptV>,
    i: int,
    last: ScriptV,
    c: CtxV,
)
    requires
        knows(u, t),
    ensures
        !asks(run_each(t, e, items, i, last, c).0) ==> run_each(u, e, items, i, last, c)
            == run_each(t, e, items, i, last, c),
    decreases e, 0nat, items.len() - i,
{
    reveal(run_each);
    reveal(run);
    if let ExprV::ForEach(name, _, body) = e {
        if 0 <= i < items.len() {
            let c0 = set_local(c, name, items[i]);
            lemma_run(t, u, body, 0, ScriptV::Null, c0);
            if let (Ok(FlowV::Value(r)), c1) = run(t, body, 0, ScriptV::Null, c0) {
                lemma_each(t, u, e, items, i + 1, r, c1);
            }
        }
    }
}

} // verus!
