//! Walking the syntax tree of a script.
use crate::double::Answers;
use crate::error::FerroError;
use crate::json::{entries_view, Json, JsonV};
use crate::script::ast::{exprs_view, stmts_view, Expr, Stmt, StmtV};
use crate::script::context::{get_nested_value, read_member, set_nested_value, ScriptContext};
use crate::script::methods::{
    compare_vectors, eval_binop, eval_cast, eval_index, eval_math, eval_method, eval_regex_op,
    eval_static_call, eval_unary, get_under, gives, halt, to_vector, vector_fn, Halt,
};
use crate::script::parser::{parse, program_of};
use crate::script::semantics::{
    assign, doc_vector, eval, eval_list, evaluated, func_call, run, run_each, run_for, set_local,
    ErrV, FlowV, HaltV, LOOP_LIMIT,
};
use crate::script::value::{values_view, ScriptV, ScriptValue};
use crate::text::{join2, same};
use vstd::prelude::*;

verus! {

broadcast use vstd::string::group_string_axioms;

/// What a list of statements ends with.
pub enum Flow {
    Value(ScriptValue),
    Return(ScriptValue),
}

/// Whether `r` is the flow or the halt `s`.
pub open spec fn gives_flow(r: Result<Flow, Halt>, s: Result<FlowV, HaltV>) -> bool {
    match (r, s) {
        (Ok(Flow::Value(x)), Ok(FlowV::Value(y))) => x.view() == y,
        (Ok(Flow::Return(x)), Ok(FlowV::Return(y))) => x.view() == y,
        (Err(x), Err(y)) => x@ == y,
        _ => false,
    }
}

/// Whether `r` are the values or the halt `s`.
pub open spec fn gives_list(
    r: Result<Vec<ScriptValue>, Halt>,
    s: Result<Seq<ScriptV>, HaltV>,
) -> bool {
    match (r, s) {
        (Ok(x), Ok(y)) => values_view(x@) == y,
        (Err(x), Err(y)) => x@ == y,
        _ => false,
    }
}

/// Whether `r` is the JSON value or the halt `s`.
pub open spec fn gives_json(r: Result<Json, Halt>, s: Result<JsonV, HaltV>) -> bool {
    match (r, s) {
        (Ok(x), Ok(y)) => x.view() == y,
        (Err(x), Err(y)) => x@ == y,
        _ => false,
    }
}

/// Runs a script. Where it lacks the answer to a computation with doubles, it
/// hands that computation back and leaves the context as it was; run it again
/// when the answer is known.
pub fn evaluate(script: &str, ctx: &mut ScriptContext, answers: &Answers) -> (r: Result<Json, Halt>)
    ensures
        match program_of(script@) {
            Err(m) => r matches Err(h) && h@ == HaltV::Error(ErrV::Parse(m)) && final(ctx)@
                == old(ctx)@,
            Ok(program) => gives_json(r, evaluated(answers@, program, old(ctx)@).0) && final(ctx)@
                == evaluated(answers@, program, old(ctx)@).1,
        },
{
    match parse(script) {
        Ok(stmts) => evaluate_parsed(&stmts, ctx, answers),
        Err(e) => Err(Halt::Error(e)),
    }
}

/// Runs a script that is read already.
pub fn evaluate_parsed(stmts: &Vec<Stmt>, ctx: &mut ScriptContext, answers: &Answers) -> (r: Result<
    Json,
    Halt,
>)
    ensures
        gives_json(r, evaluated(answers@, stmts_view(stmts@), old(ctx)@).0),
        final(ctx)@ == evaluated(answers@, stmts_view(stmts@), old(ctx)@).1,
{
    let mut work = ctx.copy();
    let v = match eval_stmts(stmts, &mut work, answers) {
        Ok(v) => v,
        Err(Halt::Ask(q)) => return Err(Halt::Ask(q)),
        Err(h) => {
            *ctx = work;
            return Err(h);
        },
    };
    match v.to_json(answers) {
        Ok(j) => {
            *ctx = work;
            Ok(j)
        },
        Err(q) => Err(Halt::Ask(q)),
    }
}

fn eval_stmts(stmts: &Vec<Stmt>, ctx: &mut ScriptContext, answers: &Answers) -> (r: Result<
    ScriptValue,
    Halt,
>)
    ensures
        gives(
            r,
            crate::script::semantics::flow_value(
                run(answers@, stmts_view(stmts@), 0, ScriptV::Null, old(ctx)@).0,
            ),
        ),
        final(ctx)@ == run(answers@, stmts_view(stmts@), 0, ScriptV::Null, old(ctx)@).1,
    decreases stmts@, 1nat, 0nat,
{
    match eval_stmts_inner(stmts, ctx, answers) {
        Ok(Flow::Value(v)) => Ok(v),
        Ok(Flow::Return(v)) => Ok(v),
        Err(h) => Err(h),
    }
}

fn eval_stmts_inner(stmts: &Vec<Stmt>, ctx: &mut ScriptContext, answers: &Answers) -> (r: Result<
    Flow,
    Halt,
>)
    ensures
        gives_flow(r, run(answers@, stmts_view(stmts@), 0, ScriptV::Null, old(ctx)@).0),
        final(ctx)@ == run(answers@, stmts_view(stmts@), 0, ScriptV::Null, old(ctx)@).1,
    decreases stmts@, 0nat, 0nat,
{
    let mut last = ScriptValue::Null;
    let mut i: usize = 0;
    let ghost t = answers@;
    let ghost s = stmts_view(stmts@);
    let ghost c0 = ctx@;
    while i < stmts.len()
        invariant
            i <= stmts@.len(),
            t == answers@,
            s == stmts_view(stmts@),
            c0 == old(ctx)@,
            run(t, s, 0, ScriptV::Null, c0) == run(t, s, i as int, last.view(), ctx@),
        decreases stmts@.len() - i,
    {
        proof {
            reveal(run);
            reveal(eval);
        }
        assert(s[i as int] == stmts@[i as int].view());
        assert(decreases_to!(stmts@ => stmts@[i as int]));
        match &stmts[i] {
            Stmt::Return(x) => {
                assert(decreases_to!(stmts@[i as int] => *x));
                return match eval_expr(x, ctx, answers) {
                    Ok(v) => Ok(Flow::Return(v)),
                    Err(h) => Err(h),
                };
            },
            Stmt::Expr(x) => {
                assert(decreases_to!(stmts@[i as int] => *x));
                match eval_expr(x, ctx, answers) {
                    Ok(v) => {
                        last = v;
                    },
                    Err(h) => return Err(h),
                }
            },
            Stmt::VarDecl(name, x) => {
                assert(decreases_to!(stmts@[i as int] => *x));
                match eval_expr(x, ctx, answers) {
                    Ok(v) => {
                        ctx.set_local(name, v.copy());
                        last = v;
                    },
                    Err(h) => return Err(h),
                }
            },
            Stmt::TryCatch(body, name, handler) => {
                assert(decreases_to!(stmts@[i as int] => *body));
                assert(decreases_to!(stmts@[i as int] => *handler));
                match eval_stmts_inner(body, ctx, answers) {
                    Ok(Flow::Return(v)) => return Ok(Flow::Return(v)),
                    Ok(Flow::Value(v)) => {
                        last = v;
                    },
                    Err(Halt::Ask(q)) => return Err(Halt::Ask(q)),
                    Err(Halt::Error(e)) => {
                        ctx.set_local(name, ScriptValue::Str(e.message()));
                        match eval_stmts_inner(handler, ctx, answers) {
                            Ok(Flow::Return(v)) => return Ok(Flow::Return(v)),
                            Ok(Flow::Value(v)) => {
                                last = v;
                            },
                            Err(h) => return Err(h),
                        }
                    },
                }
            },
        }
        i += 1;
    }
    proof {
        reveal(run);
    }
    Ok(Flow::Value(last))
}

fn eval_args(args: &Vec<Expr>, ctx: &mut ScriptContext, answers: &Answers) -> (r: Result<
    Vec<ScriptValue>,
    Halt,
>)
    ensures
        gives_list(r, eval_list(answers@, exprs_view(args@), 0, Seq::empty(), old(ctx)@).0),
        final(ctx)@ == eval_list(answers@, exprs_view(args@), 0, Seq::empty(), old(ctx)@).1,
    decreases args@, 0nat, 0nat,
{
    let mut out: Vec<ScriptValue> = Vec::new();
    let mut i: usize = 0;
    let ghost t = answers@;
    let ghost s = exprs_view(args@);
    let ghost c0 = ctx@;
    assert(values_view(out@) =~= Seq::<ScriptV>::empty());
    while i < args.len()
        invariant
            i <= args@.len(),
            t == answers@,
            s == exprs_view(args@),
            c0 == old(ctx)@,
            eval_list(t, s, 0, Seq::empty(), c0) == eval_list(
                t,
                s,
                i as int,
                values_view(out@),
                ctx@,
            ),
        decreases args@.len() - i,
    {
        proof {
            reveal(eval_list);
            reveal(eval);
        }
        assert(s[i as int] == args@[i as int].view());
        assert(decreases_to!(args@ => args@[i as int]));
        let ghost before = values_view(out@);
        match eval_expr(&args[i], ctx, answers) {
            Ok(v) => {
                let ghost w = v.view();
                out.push(v);
                assert(values_view(out@) =~= before.push(w));
            },
            Err(h) => return Err(h),
        }
        i += 1;
    }
    proof {
        reveal(eval_list);
    }
    Ok(out)
}

fn assign_field(ctx: &mut ScriptContext, field: &str, v: ScriptValue, answers: &Answers) -> (r:
    Result<ScriptValue, Halt>)
    ensures
        gives(r, assign(answers@, old(ctx)@, field@, v.view()).0),
        final(ctx)@ == assign(answers@, old(ctx)@, field@, v.view()).1,
{
    match v.to_json(answers) {
        Ok(j) => {
            set_nested_value(&mut ctx.source, field, j);
            Ok(v)
        },
        Err(q) => Err(Halt::Ask(q)),
    }
}

/// The stored vector that an argument of a vector function names or is.
fn resolve_doc_vector(arg: &ScriptValue, ctx: &ScriptContext) -> (r: Result<
    Vec<crate::double::Double>,
    Halt,
>)
    ensures
        match (r, doc_vector(arg.view(), ctx@)) {
            (Ok(x), Ok(y)) => crate::double::doubles_view(x@) == y,
            (Err(x), Err(y)) => x@ == y,
            _ => false,
        },
{
    match arg {
        ScriptValue::Str(field) => {
            let k = crate::dict::find_key::<Json, JsonV>(
                &ctx.doc,
                field,
                Ghost(entries_view(ctx.doc@)),
            );
            if k < ctx.doc.len() {
                assert(entries_view(ctx.doc@)[k as int] == (
                    ctx.doc@[k as int].0@,
                    ctx.doc@[k as int].1.view(),
                ));
                return to_vector(&ScriptValue::from(&ctx.doc[k].1));
            }
            to_vector(&ScriptValue::from(&get_nested_value(&ctx.source, field)))
        },
        ScriptValue::Array(_) => to_vector(arg),
        _ => Err(halt("vector similarity field argument must be a string")),
    }
}

fn eval_func_call(f: &str, args: &Vec<ScriptValue>, ctx: &ScriptContext, answers: &Answers) -> (r:
    Result<ScriptValue, Halt>)
    ensures
        gives(r, func_call(answers@, f@, values_view(args@), ctx@)),
{
    if !vector_fn(f) {
        return Err(halt(&join2("unknown function: ", f)));
    }
    if args.len() != 2 {
        return Err(halt(&join2(f, " requires (queryVector, field)")));
    }
    assert(values_view(args@)[0] == args@[0].view());
    assert(values_view(args@)[1] == args@[1].view());
    let a = match to_vector(&args[0]) {
        Ok(a) => a,
        Err(h) => return Err(h),
    };
    let b = match resolve_doc_vector(&args[1], ctx) {
        Ok(b) => b,
        Err(h) => return Err(h),
    };
    compare_vectors(f, a, b, answers)
}

#[verifier::spinoff_prover]
fn eval_for(e: &Expr, ctx: &mut ScriptContext, answers: &Answers) -> (r: Result<ScriptValue, Halt>)
    requires
        e is For,
    ensures
        gives(r, run_for(answers@, e.view(), 0, ScriptV::Null, old(ctx)@).0),
        final(ctx)@ == run_for(answers@, e.view(), 0, ScriptV::Null, old(ctx)@).1,
    decreases *e, 0nat, 0nat,
{
    if let Expr::For(init, cond, next, body) = e {
        let mut last = ScriptValue::Null;
        let mut n: u32 = 0;
        let ghost t = answers@;
        let ghost c0 = ctx@;
        loop
            invariant
                n <= LOOP_LIMIT,
                t == answers@,
                c0 == old(ctx)@,
                *e == Expr::For(*init, *cond, *next, *body),
                run_for(t, e.view(), 0, ScriptV::Null, c0) == run_for(
                    t,
                    e.view(),
                    n as nat,
                    last.view(),
                    ctx@,
                ),
            decreases LOOP_LIMIT - n,
        {
            proof {
                reveal(run_for);
                reveal(run);
                reveal(eval);
            }
            assert(decreases_to!(*e => e->For_1));
            assert(decreases_to!(*e => e->For_2));
            assert(decreases_to!(*e => e->For_3));
            if n >= LOOP_LIMIT {
                return Err(
                    Halt::Error(
                        FerroError::Internal("for loop iteration limit exceeded".to_owned()),
                    ),
                );
            }
            let v = match eval_expr(cond, ctx, answers) {
                Ok(v) => v,
                Err(h) => return Err(h),
            };
            match v.is_truthy(answers) {
                Ok(true) => {},
                Ok(false) => return Ok(last),
                Err(q) => return Err(Halt::Ask(q)),
            }
            let ghost c1 = ctx@;
            match eval_stmts_inner(body, ctx, answers) {
                Ok(Flow::Return(v)) => return Ok(v),
                Ok(Flow::Value(v)) => {
                    last = v;
                },
                Err(h) => return Err(h),
            }
            match &**next {
                Stmt::VarDecl(name, x) => {
                    assert(decreases_to!(**next => *x));
                    assert((**next).view() == StmtV::VarDecl(name@, x.view()));
                    match eval_expr(x, ctx, answers) {
                        Ok(w) => ctx.set_local(name, w),
                        Err(h) => return Err(h),
                    }
                },
                Stmt::Expr(x) => {
                    assert(decreases_to!(**next => *x));
                    assert((**next).view() == StmtV::Expr(x.view()));
                    match eval_expr(x, ctx, answers) {
                        Ok(_) => {},
                        Err(h) => return Err(h),
                    }
                },
                Stmt::Return(x) => {
                    assert((**next).view() == StmtV::Return(x.view()));
                },
                Stmt::TryCatch(b, name, h) => {
                    assert((**next).view() == StmtV::TryCatch(stmts_view(b@), name@, stmts_view(h@)));
                },
            }
            n += 1;
        }
    } else {
        Ok(ScriptValue::Null)
    }
}

#[verifier::spinoff_prover]
fn eval_each(e: &Expr, items: &Vec<ScriptValue>, ctx: &mut ScriptContext, answers: &Answers) -> (r:
    Result<ScriptValue, Halt>)
    requires
        e is ForEach,
    ensures
        gives(
            r,
            run_each(answers@, e.view(), values_view(items@), 0, ScriptV::Null, old(ctx)@).0,
        ),
        final(ctx)@ == run_each(
            answers@,
            e.view(),
            values_view(items@),
            0,
            ScriptV::Null,
            old(ctx)@,
        ).1,
    decreases *e, 0nat, 0nat,
{
    if let Expr::ForEach(name, list, body) = e {
        let mut last = ScriptValue::Null;
        let mut i: usize = 0;
        let ghost t = answers@;
        let ghost c0 = ctx@;
        let ghost vs = values_view(items@);
        while i < items.len()
            invariant
                i <= items@.len(),
                t == answers@,
                c0 == old(ctx)@,
                vs == values_view(items@),
                *e == Expr::ForEach(*name, *list, *body),
                run_each(t, e.view(), vs, 0, ScriptV::Null, c0) == run_each(
                    t,
                    e.view(),
                    vs,
                    i as int,
                    last.view(),
                    ctx@,
                ),
            decreases items@.len() - i,
        {
            proof {
                reveal(run_each);
                reveal(run);
            }
            assert(vs[i as int] == items@[i as int].view());
            assert(decreases_to!(*e => e->ForEach_2));
            ctx.set_local(name, items[i].copy());
            match eval_stmts_inner(body, ctx, answers) {
                Ok(Flow::Return(v)) => return Ok(v),
                Ok(Flow::Value(v)) => {
                    last = v;
                },
                Err(h) => return Err(h),
            }
            i += 1;
        }
        proof {
            reveal(run_each);
        }
        Ok(last)
    } else {
        Ok(ScriptValue::Null)
    }
}

#[verifier::spinoff_prover]
fn eval_for_whole(e: &Expr, ctx: &mut ScriptContext, answers: &Answers) -> (r: Result<
    ScriptValue,
    Halt,
>)
    requires
        e is For,
    ensures
        gives(r, eval(answers@, e.view(), old(ctx)@).0),
        final(ctx)@ == eval(answers@, e.view(), old(ctx)@).1,
    decreases *e, 0nat, 1nat,
{
    proof {
        reveal(eval);
        reveal(run_for);
    }
    if let Expr::For(init, _, _, _) = e {
        assert(decreases_to!(*e => e->For_0));
        match &**init {
            Stmt::VarDecl(name, x) => {
                assert(decreases_to!(**init => *x));
                assert((**init).view() == StmtV::VarDecl(name@, x.view()));
                match eval_expr(x, ctx, answers) {
                    Ok(v) => ctx.set_local(name, v),
                    Err(h) => return Err(h),
                }
            },
            Stmt::Expr(x) => {
                assert(decreases_to!(**init => *x));
                assert((**init).view() == StmtV::Expr(x.view()));
                match eval_expr(x, ctx, answers) {
                    Ok(_) => {},
                    Err(h) => return Err(h),
                }
            },
            Stmt::Return(x) => {
                assert(decreases_to!(**init => *x));
                assert((**init).view() == StmtV::Return(x.view()));
                return eval_expr(x, ctx, answers);
            },
            Stmt::TryCatch(b, name, h) => {
                assert((**init).view() == StmtV::TryCatch(stmts_view(b@), name@, stmts_view(h@)));
            },
        }
    }
    eval_for(e, ctx, answers)
}

#[verifier::spinoff_prover]
fn eval_expr(e: &Expr, ctx: &mut ScriptContext, answers: &Answers) -> (r: Result<ScriptValue, Halt>)
    ensures
        gives(r, eval(answers@, e.view(), old(ctx)@).0),
        final(ctx)@ == eval(answers@, e.view(), old(ctx)@).1,
    decreases *e, 1nat, 0nat,
{
    proof {
        reveal(eval);
        reveal(eval_list);
        reveal(run);
        reveal(run_each);
    }
    match e {
        Expr::IntLit(n) => Ok(ScriptValue::Int(*n)),
        Expr::FloatLit(d) => Ok(ScriptValue::Float(d.copy())),
        Expr::StringLit(s) => Ok(ScriptValue::Str(s.clone())),
        Expr::BoolLit(b) => Ok(ScriptValue::Bool(*b)),
        Expr::NullLit => Ok(ScriptValue::Null),
        Expr::RegexLit(s) => Ok(ScriptValue::Regex(s.clone())),
        Expr::Lambda(_, _) => Ok(ScriptValue::Null),
        Expr::DocField(f) => Ok(read_member(&ctx.doc, f)),
        Expr::SourceField(f) => Ok(ctx.read_source(f)),
        Expr::ParamField(f) => Ok(read_member(&ctx.params, f)),
        Expr::Var(name) => {
            if same(name, "_source") {
                Ok(ScriptValue::from(&ctx.source))
            } else {
                Ok(get_under(&ctx.locals, name))
            }
        },
        Expr::Assign(f, x) => match eval_expr(x, ctx, answers) {
            Ok(v) => assign_field(ctx, f, v, answers),
            Err(h) => Err(h),
        },
        Expr::CompoundAssign(f, op, x) => {
            let current = ScriptValue::from(&get_nested_value(&ctx.source, f));
            match eval_expr(x, ctx, answers) {
                Ok(v) => match eval_binop(&current, *op, &v, answers) {
                    Ok(u) => assign_field(ctx, f, u, answers),
                    Err(h) => Err(h),
                },
                Err(h) => Err(h),
            }
        },
        Expr::BinOp(l, op, r) => match eval_expr(l, ctx, answers) {
            Ok(a) => match eval_expr(r, ctx, answers) {
                Ok(b) => eval_binop(&a, *op, &b, answers),
                Err(h) => Err(h),
            },
            Err(h) => Err(h),
        },
        Expr::UnaryOp(op, x) => match eval_expr(x, ctx, answers) {
            Ok(v) => eval_unary(*op, &v, answers),
            Err(h) => Err(h),
        },
        Expr::Ternary(x, y, z) => match eval_expr(x, ctx, answers) {
            Ok(v) => match v.is_truthy(answers) {
                Ok(true) => eval_expr(y, ctx, answers),
                Ok(false) => eval_expr(z, ctx, answers),
                Err(q) => Err(Halt::Ask(q)),
            },
            Err(h) => Err(h),
        },
        Expr::MethodCall(x, m, args) => match eval_expr(x, ctx, answers) {
            Ok(v) => match eval_args(args, ctx, answers) {
                Ok(vs) => eval_method(&v, m, &vs, answers),
                Err(h) => Err(h),
            },
            Err(h) => Err(h),
        },
        Expr::MathCall(f, args) => match eval_args(args, ctx, answers) {
            Ok(vs) => {
                let r = eval_math(f, &vs, ctx.draws, answers);
                if same(f, "random") {
                    ctx.draws = ctx.draws.wrapping_add(1);
                }
                r
            },
            Err(h) => Err(h),
        },
        Expr::FuncCall(f, args) => match eval_args(args, ctx, answers) {
            Ok(vs) => eval_func_call(f, &vs, ctx, answers),
            Err(h) => Err(h),
        },
        Expr::StaticCall(k, m, args) => match eval_args(args, ctx, answers) {
            Ok(vs) => eval_static_call(k, m, &vs, answers),
            Err(h) => Err(h),
        },
        Expr::ArrayLit(xs) => match eval_args(xs, ctx, answers) {
            Ok(vs) => Ok(ScriptValue::Array(vs)),
            Err(h) => Err(h),
        },
        Expr::IfElse(x, yes, no) => match eval_expr(x, ctx, answers) {
            Ok(v) => match v.is_truthy(answers) {
                Ok(true) => eval_stmts(yes, ctx, answers),
                Ok(false) => match no {
                    Some(b) => eval_stmts(b, ctx, answers),
                    None => Ok(ScriptValue::Null),
                },
                Err(q) => Err(Halt::Ask(q)),
            },
            Err(h) => Err(h),
        },
        Expr::For(_, _, _, _) => eval_for_whole(e, ctx, answers),
        Expr::ForEach(_, x, _) => match eval_expr(x, ctx, answers) {
            Ok(ScriptValue::Array(items)) => eval_each(e, &items, ctx, answers),
            Ok(_) => Err(halt("for-each requires an iterable (array)")),
            Err(h) => Err(h),
        },
        Expr::RegexFind(x, y) => match eval_expr(x, ctx, answers) {
            Ok(a) => match eval_expr(y, ctx, answers) {
                Ok(b) => eval_regex_op(&a, &b, false),
                Err(h) => Err(h),
            },
            Err(h) => Err(h),
        },
        Expr::RegexMatchOp(x, y) => match eval_expr(x, ctx, answers) {
            Ok(a) => match eval_expr(y, ctx, answers) {
                Ok(b) => eval_regex_op(&a, &b, true),
                Err(h) => Err(h),
            },
            Err(h) => Err(h),
        },
        Expr::TypeCast(name, x) => match eval_expr(x, ctx, answers) {
            Ok(v) => eval_cast(name, &v, answers),
            Err(h) => Err(h),
        },
        Expr::VarDecl(name, x) => match eval_expr(x, ctx, answers) {
            Ok(v) => {
                ctx.set_local(name, v.copy());
                Ok(v)
            },
            Err(h) => Err(h),
        },
        Expr::VarCompoundAssign(name, op, x) => {
            let current = get_under(&ctx.locals, name);
            match eval_expr(x, ctx, answers) {
                Ok(v) => match eval_binop(&current, *op, &v, answers) {
                    Ok(u) => {
                        ctx.set_local(name, u.copy());
                        Ok(u)
                    },
                    Err(h) => Err(h),
                },
                Err(h) => Err(h),
            }
        },
        Expr::IndexAccess(x, y) => match eval_expr(x, ctx, answers) {
            Ok(a) => match eval_expr(y, ctx, answers) {
                Ok(b) => eval_index(&a, &b),
                Err(h) => Err(h),
            },
            Err(h) => Err(h),
        },
    }
}

} // verus!
