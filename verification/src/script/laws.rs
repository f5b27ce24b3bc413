//! What holds of the expression language as a whole.
use crate::dict::{distinct_keys, lookup, put_then_lookup};
use crate::double::{finite, AnswersV};
use crate::json::{json_get, JsonV};
use crate::script::semantics::{
    binop, err_text, eval, eval_list, evaluated, get_path, nested, run, run_each, run_for,
    set_local, set_path, under, with_nested, CtxV, FlowV, HaltV, LOOP_LIMIT,
};
use crate::script::token::{
    digits_end, lex, lex_step, line_end, regex_body, string_body, tokens_of, word_end, LexStep,
    Token, TokenV,
};
use crate::script::value::{json_entries_of, json_of, jsons_of, value_of_json, ScriptV};
use crate::text::{find_from, lemma_find_from, split_from, split_text};
use crate::script::ast::{ExprV, StmtV};
use vstd::prelude::*;

verus! {

broadcast use vstd::string::group_string_axioms;

proof fn lemma_ends(c: Seq<char>, i: int)
    requires
        0 <= i <= c.len(),
    ensures
        i <= line_end(c, i) <= c.len(),
        i <= digits_end(c, i) <= c.len(),
        i <= word_end(c, i) <= c.len(),
    decreases c.len() - i,
{
    if i < c.len() {
        lemma_ends(c, i + 1);
    }
}

proof fn lemma_bodies(c: Seq<char>, i: int, quote: char, acc: Seq<char>)
    requires
        0 <= i <= c.len(),
    ensures
        regex_body(c, i, acc) matches Some((_, j)) ==> i <= j < c.len(),
        string_body(c, i, quote, acc) matches Some((_, j)) ==> i <= j < c.len(),
    decreases c.len() - i,
{
    if i < c.len() {
        if c[i] == '\\' && i + 1 < c.len() {
            lemma_bodies(c, i + 2, quote, acc.push(c[i]).push(c[i + 1]));
            lemma_bodies(c, i + 2, quote, acc.push(crate::script::token::unescaped(c[i + 1])));
        } else {
            lemma_bodies(c, i + 1, quote, acc.push(c[i]));
        }
    }
}

/// A step of the tokenizer moves on, stays within the script, and gives no end
/// mark.
proof fn lemma_step_moves(c: Seq<char>, i: int, acc: Seq<TokenV>)
    requires
        0 <= i < c.len(),
    ensures
        match lex_step(c, i, acc) {
            LexStep::Skip(j) => i < j <= c.len(),
            LexStep::Tok(t, j) => i < j <= c.len() && t != TokenV::Symbol(Token::Eof),
            LexStep::Fail(_) => true,
        },
{
    lemma_ends(c, i + 1);
    lemma_ends(c, i);
    let e = digits_end(c, i);
    if e + 1 < c.len() {
        lemma_ends(c, e + 1);
    }
    lemma_bodies(c, i + 1, c[i], Seq::empty());
}

proof fn lemma_lex_ends(c: Seq<char>, i: int, acc: Seq<TokenV>)
    requires
        0 <= i <= c.len(),
        forall|k: int|
            0 <= k < acc.len() ==> #[trigger] acc[k] != TokenV::Symbol(Token::Eof),
    ensures
        lex(c, i, acc) matches Ok(t) ==> t.len() > 0 && t.last() == TokenV::Symbol(Token::Eof)
            && forall|k: int|
            0 <= k < t.len() - 1 ==> #[trigger] t[k] != TokenV::Symbol(Token::Eof),
    decreases c.len() - i,
{
    if i < c.len() {
        lemma_step_moves(c, i, acc);
        match lex_step(c, i, acc) {
            LexStep::Skip(j) => {
                lemma_lex_ends(c, j, acc);
            },
            LexStep::Tok(t, j) => {
                lemma_lex_ends(c, j, acc.push(t));
            },
            LexStep::Fail(_) => {},
        }
    }
}

/// The tokens of a script end with an end mark, and hold no other.
pub proof fn tokens_end_once(script: Seq<char>)
    ensures
        tokens_of(script) matches Ok(t) ==> t.len() > 0 && t.last() == TokenV::Symbol(Token::Eof)
            && forall|k: int|
            0 <= k < t.len() - 1 ==> #[trigger] t[k] != TokenV::Symbol(Token::Eof),
{
    lemma_lex_ends(script, 0, Seq::empty());
}

proof fn lemma_split_nonempty(s: Seq<char>, p: Seq<char>, start: int, from: int, acc: Seq<Seq<char>>)
    requires
        p.len() > 0,
    ensures
        split_from(s, p, start, from, acc).len() > acc.len(),
    decreases s.len() + 1 - from,
{
    lemma_find_from(s, p, from);
    if let Some(i) = find_from(s, p, from) {
        lemma_split_nonempty(s, p, i + p.len(), i + p.len(), acc.push(s.subrange(start, i)));
    }
}

proof fn lemma_set_then_get(j: JsonV, path: Seq<Seq<char>>, i: int, v: JsonV)
    requires
        j is Object,
        0 <= i < path.len(),
    ensures
        get_path(set_path(j, path, i, v), path, i) == Some(v),
        set_path(j, path, i, v) is Object,
    decreases path.len() - i,
{
    let p = j->Object_0;
    if i + 1 == path.len() {
        put_then_lookup(p, path[i], v, path[i]);
        assert(get_path(v, path, i + 1) == Some(v));
    } else {
        let child = match lookup(p, path[i]) {
            Some(JsonV::Object(c)) => JsonV::Object(c),
            _ => JsonV::Object(Seq::empty()),
        };
        lemma_set_then_get(child, path, i + 1, v);
        put_then_lookup(p, path[i], set_path(child, path, i + 1, v), path[i]);
    }
}

/// What is put at a dotted path of an object is read there again.
pub proof fn set_nested_then_get(j: JsonV, path: Seq<char>, v: JsonV)
    requires
        j is Object,
    ensures
        nested(with_nested(j, path, v), path) == v,
{
    reveal_strlit(".");
    lemma_split_nonempty(path, "."@, 0, 0, Seq::empty());
    lemma_set_then_get(j, split_text(path, "."@), 0, v);
}

/// A value that is no object takes nothing: it stays as it is.
pub proof fn set_nested_in_no_object(j: JsonV, path: Seq<char>, v: JsonV)
    requires
        !(j is Object),
    ensures
        with_nested(j, path, v) == j,
{
}

/// Putting a value at a path leaves every member of the object alone but the
/// one that the path begins with.
pub proof fn set_nested_keeps_others(j: JsonV, path: Seq<char>, v: JsonV, other: Seq<char>)
    requires
        j is Object,
        other != split_text(path, "."@)[0],
    ensures
        json_get(with_nested(j, path, v), other) == json_get(j, other),
{
    reveal_strlit(".");
    lemma_split_nonempty(path, "."@, 0, 0, Seq::empty());
    let parts = split_text(path, "."@);
    let p = j->Object_0;
    if parts.len() == 1 {
        put_then_lookup(p, parts[0], v, other);
    } else {
        let child = match lookup(p, parts[0]) {
            Some(JsonV::Object(c)) => JsonV::Object(c),
            _ => JsonV::Object(Seq::empty()),
        };
        put_then_lookup(p, parts[0], set_path(child, parts, 1, v), other);
    }
}

/// A JSON value whose integers fit an `i64` and whose doubles are known to be
/// finite.
pub open spec fn keeps(t: AnswersV, j: JsonV) -> bool
    decreases j,
{
    match j {
        JsonV::UInt(_) => false,
        JsonV::Float(d) => finite(t, d) == Ok::<bool, crate::double::QueryV>(true),
        JsonV::Array(a) => forall|i: int| 0 <= i < a.len() ==> keeps(t, #[trigger] a[i]),
        JsonV::Object(o) => forall|i: int|
            0 <= i < o.len() ==> keeps(t, (#[trigger] o[i]).1),
        _ => true,
    }
}

proof fn lemma_json_round(t: AnswersV, j: JsonV)
    requires
        keeps(t, j),
    ensures
        json_of(t, value_of_json(j)) == Ok::<JsonV, crate::double::QueryV>(j),
    decreases j, 0nat,
{
    match j {
        JsonV::Array(a) => {
            let w = value_of_json(j)->Array_0;
            lemma_jsons_round(t, a, w, 0, Seq::empty());
            assert(Seq::<JsonV>::empty() + a.subrange(0, a.len() as int) =~= a);
        },
        JsonV::Object(o) => {
            let w = value_of_json(j)->Dict_0;
            lemma_entries_round(t, o, w, 0, Seq::empty());
            assert(Seq::<(Seq<char>, JsonV)>::empty() + o.subrange(0, o.len() as int) =~= o);
        },
        _ => {},
    }
}

proof fn lemma_jsons_round(t: AnswersV, a: Seq<JsonV>, w: Seq<ScriptV>, i: int, acc: Seq<JsonV>)
    requires
        0 <= i <= a.len(),
        w.len() == a.len(),
        forall|k: int| 0 <= k < a.len() ==> #[trigger] w[k] == value_of_json(a[k]),
        forall|k: int| 0 <= k < a.len() ==> keeps(t, #[trigger] a[k]),
    ensures
        jsons_of(t, w, i, acc) == Ok::<Seq<JsonV>, crate::double::QueryV>(
            acc + a.subrange(i, a.len() as int),
        ),
    decreases a, a.len() - i,
{
    if i < a.len() {
        assert(keeps(t, a[i]));
        assert(w[i] == value_of_json(a[i]));
        lemma_json_round(t, a[i]);
        lemma_jsons_round(t, a, w, i + 1, acc.push(a[i]));
        assert(acc.push(a[i]) + a.subrange(i + 1, a.len() as int) =~= acc + a.subrange(
            i,
            a.len() as int,
        ));
    } else {
        assert(acc + a.subrange(i, a.len() as int) =~= acc);
    }
}

proof fn lemma_entries_round(
    t: AnswersV,
    o: Seq<(Seq<char>, JsonV)>,
    w: Seq<(Seq<char>, ScriptV)>,
    i: int,
    acc: Seq<(Seq<char>, JsonV)>,
)
    requires
        0 <= i <= o.len(),
        w.len() == o.len(),
        forall|k: int|
            0 <= k < o.len() ==> #[trigger] w[k] == (o[k].0, value_of_json(o[k].1)),
        forall|k: int| 0 <= k < o.len() ==> keeps(t, (#[trigger] o[k]).1),
    ensures
        json_entries_of(t, w, i, acc) == Ok::<Seq<(Seq<char>, JsonV)>, crate::double::QueryV>(
            acc + o.subrange(i, o.len() as int),
        ),
    decreases o, o.len() - i,
{
    if i < o.len() {
        assert(keeps(t, o[i].1));
        assert(w[i] == (o[i].0, value_of_json(o[i].1)));
        assert(decreases_to!(o => o[i]));
        lemma_json_round(t, o[i].1);
        lemma_entries_round(t, o, w, i + 1, acc.push((o[i].0, o[i].1)));
        assert(acc.push((o[i].0, o[i].1)) + o.subrange(i + 1, o.len() as int) =~= acc + o.subrange(
            i,
            o.len() as int,
        ));
    } else {
        assert(acc + o.subrange(i, o.len() as int) =~= acc);
    }
}

/// A JSON value that is read as a script value and written again is the same.
/// Left out are integers above the largest `i64`, which become doubles, and
/// doubles that are not finite, which no JSON text denotes.
pub proof fn json_round_trip(t: AnswersV, j: JsonV)
    requires
        keeps(t, j),
    ensures
        json_of(t, value_of_json(j)) == Ok::<JsonV, crate::double::QueryV>(j),
{
    lemma_json_round(t, j);
}

/// An empty script has the value null and changes nothing.
pub proof fn empty_program_is_null(t: AnswersV, c: CtxV)
    ensures
        evaluated(t, Seq::empty(), c) == (Ok::<JsonV, HaltV>(JsonV::Null), c),
{
    reveal(run);
}

/// A script that lacks the answer to a computation changes nothing.
pub proof fn question_changes_nothing(t: AnswersV, program: Seq<StmtV>, c: CtxV)
    requires
        evaluated(t, program, c).0 matches Err(HaltV::Ask(_)),
    ensures
        evaluated(t, program, c).1 == c,
{
}

/// Whether a context differs from another in what scripts may change only: the
/// source, the variables, and the count of draws; and no variable has come to
/// have two values.
pub open spec fn follows(before: CtxV, after: CtxV) -> bool {
    &&& after.doc == before.doc
    &&& after.params == before.params
    &&& after.metadata == before.metadata
    &&& distinct_keys(before.locals) ==> distinct_keys(after.locals)
}

/// A script, whatever it does and however it ends, leaves the document's fields,
/// its parameters and the metadata as they are, and no variable gets two values.
pub proof fn scripts_keep_their_inputs(t: AnswersV, program: Seq<StmtV>, c: CtxV)
    ensures
        follows(c, evaluated(t, program, c).1),
{
    lemma_run_follows(t, program, 0, ScriptV::Null, c);
}

proof fn lemma_set_local_follows(c: CtxV, name: Seq<char>, v: ScriptV)
    ensures
        follows(c, set_local(c, name, v)),
{
    put_then_lookup(c.locals, name, v, name);
}

#[verifier::spinoff_prover]
proof fn lemma_eval_follows(t: AnswersV, e: ExprV, c: CtxV)
    ensures
        follows(c, eval(t, e, c).1),
    decreases e, 1nat, 0nat,
{
    reveal(eval);
    match e {
        ExprV::Assign(_, x) => {
            lemma_eval_follows(t, *x, c);
        },
        ExprV::CompoundAssign(_, _, x) => {
            lemma_eval_follows(t, *x, c);
        },
        ExprV::BinOp(l, _, r) => {
            lemma_eval_follows(t, *l, c);
            lemma_eval_follows(t, *r, eval(t, *l, c).1);
        },
        ExprV::UnaryOp(_, x) => {
            lemma_eval_follows(t, *x, c);
        },
        ExprV::Ternary(x, y, z) => {
            lemma_eval_follows(t, *x, c);
            let c1 = eval(t, *x, c).1;
            lemma_eval_follows(t, *y, c1);
            lemma_eval_follows(t, *z, c1);
        },
        ExprV::MethodCall(x, _, args) => {
            lemma_eval_follows(t, *x, c);
            lemma_list_follows(t, args, 0, Seq::empty(), eval(t, *x, c).1);
        },
        ExprV::MathCall(_, args) => {
            lemma_list_follows(t, args, 0, Seq::empty(), c);
        },
        ExprV::FuncCall(_, args) => {
            lemma_list_follows(t, args, 0, Seq::empty(), c);
        },
        ExprV::StaticCall(_, _, args) => {
            lemma_list_follows(t, args, 0, Seq::empty(), c);
        },
        ExprV::ArrayLit(xs) => {
            lemma_list_follows(t, xs, 0, Seq::empty(), c);
        },
        ExprV::IfElse(x, yes, no) => {
            lemma_eval_follows(t, *x, c);
            let c1 = eval(t, *x, c).1;
            lemma_run_follows(t, yes, 0, ScriptV::Null, c1);
            if let Some(b) = no {
                lemma_run_follows(t, b, 0, ScriptV::Null, c1);
            }
        },
        ExprV::For(init, _, _, _) => match *init {
            StmtV::VarDecl(name, x) => {
                lemma_eval_follows(t, x, c);
                if let (Ok(v), c1) = eval(t, x, c) {
                    lemma_set_local_follows(c1, name, v);
                    lemma_for_follows(t, e, 0, ScriptV::Null, set_local(c1, name, v));
                }
            },
            StmtV::Expr(x) => {
                lemma_eval_follows(t, x, c);
                lemma_for_follows(t, e, 0, ScriptV::Null, eval(t, x, c).1);
            },
            StmtV::Return(x) => {
                lemma_eval_follows(t, x, c);
            },
            StmtV::TryCatch(_, _, _) => {
                lemma_for_follows(t, e, 0, ScriptV::Null, c);
            },
        },
        ExprV::ForEach(_, x, _) => {
            lemma_eval_follows(t, *x, c);
            if let (Ok(ScriptV::Array(items)), c1) = eval(t, *x, c) {
                lemma_each_follows(t, e, items, 0, ScriptV::Null, c1);
            }
        },
        ExprV::RegexFind(x, y) => {
            lemma_eval_follows(t, *x, c);
            lemma_eval_follows(t, *y, eval(t, *x, c).1);
        },
        ExprV::RegexMatchOp(x, y) => {
            lemma_eval_follows(t, *x, c);
            lemma_eval_follows(t, *y, eval(t, *x, c).1);
        },
        ExprV::TypeCast(_, x) => {
            lemma_eval_follows(t, *x, c);
        },
        ExprV::VarDecl(name, x) => {
            lemma_eval_follows(t, *x, c);
            if let (Ok(v), c1) = eval(t, *x, c) {
                lemma_set_local_follows(c1, name, v);
            }
        },
        ExprV::VarCompoundAssign(name, op, x) => {
            lemma_eval_follows(t, *x, c);
            if let (Ok(v), c1) = eval(t, *x, c) {
                if let Ok(u) = binop(t, under(c.locals, name), op, v) {
                    lemma_set_local_follows(c1, name, u);
                }
            }
        },
        ExprV::IndexAccess(x, y) => {
            lemma_eval_follows(t, *x, c);
            lemma_eval_follows(t, *y, eval(t, *x, c).1);
        },
        _ => {},
    }
}

proof fn lemma_list_follows(t: AnswersV, xs: Seq<ExprV>, i: int, acc: Seq<ScriptV>, c: CtxV)
    ensures
        follows(c, eval_list(t, xs, i, acc, c).1),
    decreases xs, 0nat, xs.len() - i,
{
    reveal(eval_list);
    reveal(eval);
    if 0 <= i < xs.len() {
        lemma_eval_follows(t, xs[i], c);
        if let (Ok(v), c1) = eval(t, xs[i], c) {
            lemma_list_follows(t, xs, i + 1, acc.push(v), c1);
        }
    }
}

#[verifier::spinoff_prover]
proof fn lemma_run_follows(t: AnswersV, s: Seq<StmtV>, i: int, last: ScriptV, c: CtxV)
    ensures
        follows(c, run(t, s, i, last, c).1),
    decreases s, 0nat, s.len() - i,
{
    reveal(run);
    if 0 <= i < s.len() {
        match s[i] {
            StmtV::Return(x) => {
                lemma_eval_follows(t, x, c);
            },
            StmtV::Expr(x) => {
                lemma_eval_follows(t, x, c);
                if let (Ok(v), c1) = eval(t, x, c) {
                    lemma_run_follows(t, s, i + 1, v, c1);
                }
            },
            StmtV::VarDecl(name, x) => {
                lemma_eval_follows(t, x, c);
                if let (Ok(v), c1) = eval(t, x, c) {
                    lemma_set_local_follows(c1, name, v);
                    lemma_run_follows(t, s, i + 1, v, set_local(c1, name, v));
                }
            },
            StmtV::TryCatch(body, name, handler) => {
                lemma_run_follows(t, body, 0, ScriptV::Null, c);
                let (r, c1) = run(t, body, 0, ScriptV::Null, c);
                match r {
                    Ok(FlowV::Value(v)) => {
                        lemma_run_follows(t, s, i + 1, v, c1);
                    },
                    Err(HaltV::Error(e)) => {
                        let text = ScriptV::Str(err_text(e));
                        lemma_set_local_follows(c1, name, text);
                        let c2 = set_local(c1, name, text);
                        lemma_run_follows(t, handler, 0, ScriptV::Null, c2);
                        if let (Ok(FlowV::Value(v)), c3) = run(
                            t,
                            handler,
                            0,
                            ScriptV::Null,
                            c2,
                        ) {
                            lemma_run_follows(t, s, i + 1, v, c3);
                        }
                    },
                    _ => {},
                }
            },
        }
    }
}

#[verifier::spinoff_prover]
proof fn lemma_for_follows(t: AnswersV, e: ExprV, n: nat, last: ScriptV, c: CtxV)
    ensures
        follows(c, run_for(t, e, n, last, c).1),
    decreases e, 0nat, LOOP_LIMIT - n,
{
    reveal(run_for);
    if let ExprV::For(_, cond, next, body) = e {
        if n < LOOP_LIMIT {
            lemma_eval_follows(t, *cond, c);
            let c1 = eval(t, *cond, c).1;
            lemma_run_follows(t, body, 0, ScriptV::Null, c1);
            if let (Ok(FlowV::Value(r)), c2) = run(t, body, 0, ScriptV::Null, c1) {
                match *next {
                    StmtV::VarDecl(name, x) => {
                        lemma_eval_follows(t, x, c2);
                        if let (Ok(w), c3) = eval(t, x, c2) {
                            lemma_set_local_follows(c3, name, w);
                            lemma_for_follows(t, e, n + 1, r, set_local(c3, name, w));
                        }
                    },
                    StmtV::Expr(x) => {
                        lemma_eval_follows(t, x, c2);
                        lemma_for_follows(t, e, n + 1, r, eval(t, x, c2).1);
                    },
                    _ => {
                        lemma_for_follows(t, e, n + 1, r, c2);
                    },
                }
            }
        }
    }
}

#[verifier::spinoff_prover]
proof fn lemma_each_follows(
    t: AnswersV,
    e: ExprV,
    items: Seq<ScriptV>,
    i: int,
    last: ScriptV,
    c: CtxV,
)
    ensures
        follows(c, run_each(t, e, items, i, last, c).1),
    decreases e, 0nat, items.len() - i,
{
    reveal(run_each);
    if let ExprV::ForEach(name, _, body) = e {
        if 0 <= i < items.len() {
            lemma_set_local_follows(c, name, items[i]);
            let c0 = set_local(c, name, items[i]);
            lemma_run_follows(t, body, 0, ScriptV::Null, c0);
            if let (Ok(FlowV::Value(r)), c1) = run(t, body, 0, ScriptV::Null, c0) {
                lemma_each_follows(t, e, items, i + 1, r, c1);
            }
        }
    }
}

} // verus!
