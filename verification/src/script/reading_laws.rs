//! Laws of the grammar: which part of a statement is read as what.
use crate::script::ast::{BinOp, ExprV, StmtV};
use crate::script::grammar::{
    at, g_args, g_binary, g_block, g_block_tail, g_doc, g_expr, g_for, g_group, g_if, g_list_tail,
    g_params, g_plain_expr, g_postfix_tail, g_stmt, g_ternary, g_unary, is_cast_type,
    past_semicolon, sym, Read,
};
use crate::script::token::{Token, TokenV};
use vstd::prelude::*;

verus! {

broadcast use vstd::string::group_string_axioms;

/// Whether `x` was read from `i` up to `j`.
pub open spec fn reads<T>(r: Read<T>, t: Seq<TokenV>, i: int, x: T, j: int) -> bool {
    r == Ok::<(T, int), Seq<char>>((x, j)) && 0 <= i < j <= t.len()
}

/// `a ? b : c` has the condition first, what counts where it holds second, and
/// what counts elsewhere third.
pub proof fn choices_read_in_order(
    t: Seq<TokenV>,
    i: int,
    a: ExprV,
    j: int,
    b: ExprV,
    k: int,
    c: ExprV,
    n: int,
)
    requires
        reads(g_binary(t, i, 0), t, i, a, j),
        sym(t, j, Token::Question),
        reads(g_expr(t, j + 1), t, j + 1, b, k),
        sym(t, k, Token::Colon),
        reads(g_expr(t, k + 1), t, k + 1, c, n),
    ensures
        reads(
            g_ternary(t, i),
            t,
            i,
            ExprV::Ternary(Box::new(a), Box::new(b), Box::new(c)),
            n,
        ),
{
    reveal(g_ternary);
    reveal(g_binary);
    reveal(g_expr);
}

/// `if (c) { a } else { b }` runs its first block where the condition holds and
/// the second elsewhere; without `else` there is no second.
pub proof fn branches_read_in_order(
    t: Seq<TokenV>,
    i: int,
    c: ExprV,
    j: int,
    a: Seq<StmtV>,
    k: int,
    b: Seq<StmtV>,
    n: int,
)
    requires
        sym(t, i, Token::If),
        sym(t, i + 1, Token::LParen),
        reads(g_expr(t, i + 2), t, i + 2, c, j),
        sym(t, j, Token::RParen),
        reads(g_block(t, j + 1), t, j + 1, a, k),
        0 <= i,
    ensures
        !sym(t, k, Token::Else) ==> reads(
            g_if(t, i),
            t,
            i,
            ExprV::IfElse(Box::new(c), a, None),
            k,
        ),
        sym(t, k, Token::Else) && !sym(t, k + 1, Token::If) && reads(
            g_block(t, k + 1),
            t,
            k + 1,
            b,
            n,
        ) ==> reads(g_if(t, i), t, i, ExprV::IfElse(Box::new(c), a, Some(b)), n),
{
    reveal(g_if);
    reveal(g_expr);
    reveal(g_block);
}

/// `for (start; c; step) { body }` begins, tests, steps and runs its body.
pub proof fn loops_read_in_order(
    t: Seq<TokenV>,
    i: int,
    start: StmtV,
    j: int,
    c: ExprV,
    k: int,
    step: ExprV,
    l: int,
    body: Seq<StmtV>,
    n: int,
)
    requires
        0 <= i,
        sym(t, i, Token::For),
        sym(t, i + 1, Token::LParen),
        !sym(t, i + 4, Token::Colon),
        reads(g_stmt(t, i + 2), t, i + 2, start, j),
        reads(g_expr(t, j), t, j, c, k),
        sym(t, k, Token::Semicolon),
        reads(g_expr(t, k + 1), t, k + 1, step, l),
        sym(t, l, Token::RParen),
        reads(g_block(t, l + 1), t, l + 1, body, n),
    ensures
        reads(
            g_for(t, i),
            t,
            i,
            ExprV::For(Box::new(start), Box::new(c), Box::new(StmtV::Expr(step)), body),
            n,
        ),
{
    reveal(g_for);
    reveal(g_expr);
    reveal(g_block);
    reveal(g_stmt);
}

/// `for (def x : list) { body }` takes the items of the list under the name.
pub proof fn walks_read_in_order(
    t: Seq<TokenV>,
    i: int,
    x: Seq<char>,
    list: ExprV,
    j: int,
    body: Seq<StmtV>,
    n: int,
)
    requires
        0 <= i,
        sym(t, i, Token::For),
        sym(t, i + 1, Token::LParen),
        sym(t, i + 2, Token::Def),
        at(t, i + 3) == TokenV::Ident(x),
        sym(t, i + 4, Token::Colon),
        reads(g_expr(t, i + 5), t, i + 5, list, j),
        sym(t, j, Token::RParen),
        reads(g_block(t, j + 1), t, j + 1, body, n),
    ensures
        reads(g_for(t, i), t, i, ExprV::ForEach(x, Box::new(list), body), n),
{
    reveal(g_for);
    reveal(g_expr);
    reveal(g_block);
    reveal(g_stmt);
}

/// A block holds its statements in their order.
pub proof fn blocks_keep_their_order(
    t: Seq<TokenV>,
    i: int,
    a: StmtV,
    j: int,
    b: StmtV,
    k: int,
)
    requires
        0 <= i,
        sym(t, i, Token::LBrace),
        !sym(t, i + 1, Token::RBrace) && !sym(t, i + 1, Token::Eof),
        reads(g_stmt(t, i + 1), t, i + 1, a, j),
        !sym(t, j, Token::RBrace) && !sym(t, j, Token::Eof),
        reads(g_stmt(t, j), t, j, b, k),
        sym(t, k, Token::RBrace),
    ensures
        g_block(t, i) == Ok::<(Seq<StmtV>, int), Seq<char>>((seq![a, b], k + 1)),
{
    reveal(g_block);
    reveal(g_block_tail);
    let none = Seq::<StmtV>::empty();
    assert(g_block_tail(t, k, none.push(a).push(b)) == Ok::<(Seq<StmtV>, int), Seq<char>>(
        (none.push(a).push(b), k + 1),
    )) by {
        reveal(g_block_tail);
        reveal(g_stmt);
    }
    assert(g_block_tail(t, j, none.push(a)) == g_block_tail(t, k, none.push(a).push(b))) by {
        reveal(g_block_tail);
        reveal(g_stmt);
    }
    assert(g_block_tail(t, i + 1, none) == g_block_tail(t, j, none.push(a))) by {
        reveal(g_block_tail);
        reveal(g_stmt);
    }
    assert(none.push(a).push(b) =~= seq![a, b]);
}

/// `return e`, `def x = e` and `def x` are read as what they say; a variable
/// without a value is null.
pub proof fn statements_read_as_they_say(t: Seq<TokenV>, i: int, x: Seq<char>, e: ExprV, j: int)
    ensures
        sym(t, i, Token::Return) && reads(g_expr(t, i + 1), t, i + 1, e, j) ==> g_stmt(t, i) == Ok::<
            (StmtV, int),
            Seq<char>,
        >((StmtV::Return(e), past_semicolon(t, j))),
        sym(t, i, Token::Def) && at(t, i + 1) == TokenV::Ident(x) && sym(t, i + 2, Token::Assign)
            && reads(g_expr(t, i + 3), t, i + 3, e, j) ==> g_stmt(t, i) == Ok::<
            (StmtV, int),
            Seq<char>,
        >((StmtV::VarDecl(x, e), past_semicolon(t, j))),
        sym(t, i, Token::Def) && at(t, i + 1) == TokenV::Ident(x) && !sym(t, i + 2, Token::Assign)
            ==> g_stmt(t, i) == Ok::<(StmtV, int), Seq<char>>(
            (StmtV::VarDecl(x, ExprV::NullLit), past_semicolon(t, i + 2)),
        ),
{
    reveal(g_stmt);
    reveal(g_expr);
}

/// `x = e` sets the variable; `x += e` and its like compute with the operator
/// before the equals sign.
pub proof fn assignments_read_their_operator(
    t: Seq<TokenV>,
    i: int,
    x: Seq<char>,
    e: ExprV,
    j: int,
)
    requires
        at(t, i) == TokenV::Ident(x),
        reads(g_expr(t, i + 2), t, i + 2, e, j),
    ensures
        sym(t, i + 1, Token::Assign) ==> g_plain_expr(t, i) == Ok::<(ExprV, int), Seq<char>>(
            (ExprV::VarDecl(x, Box::new(e)), j),
        ),
        sym(t, i + 1, Token::PlusAssign) ==> g_plain_expr(t, i) == Ok::<(ExprV, int), Seq<char>>(
            (ExprV::VarCompoundAssign(x, BinOp::Add, Box::new(e)), j),
        ),
        sym(t, i + 1, Token::MinusAssign) ==> g_plain_expr(t, i) == Ok::<(ExprV, int), Seq<char>>(
            (ExprV::VarCompoundAssign(x, BinOp::Sub, Box::new(e)), j),
        ),
        sym(t, i + 1, Token::StarAssign) ==> g_plain_expr(t, i) == Ok::<(ExprV, int), Seq<char>>(
            (ExprV::VarCompoundAssign(x, BinOp::Mul, Box::new(e)), j),
        ),
        sym(t, i + 1, Token::SlashAssign) ==> g_plain_expr(t, i) == Ok::<(ExprV, int), Seq<char>>(
            (ExprV::VarCompoundAssign(x, BinOp::Div, Box::new(e)), j),
        ),
{
    reveal(g_plain_expr);
    reveal(g_expr);
}

/// Arguments with commas between them keep their order.
pub proof fn arguments_keep_their_order(
    t: Seq<TokenV>,
    i: int,
    a: ExprV,
    j: int,
    b: ExprV,
    k: int,
)
    requires
        !sym(t, i, Token::RParen),
        reads(g_expr(t, i), t, i, a, j),
        sym(t, j, Token::Comma),
        reads(g_expr(t, j + 1), t, j + 1, b, k),
        !sym(t, k, Token::Comma),
    ensures
        g_args(t, i) == Ok::<(Seq<ExprV>, int), Seq<char>>((seq![a, b], k)),
{
    reveal(g_args);
    reveal(g_expr);
    reveal(g_list_tail);
    let one = seq![a];
    assert(one.push(b) =~= seq![a, b]);
    assert(g_list_tail(t, k, one.push(b)) == Ok::<(Seq<ExprV>, int), Seq<char>>(
        (one.push(b), k),
    )) by {
        reveal(g_list_tail);
        reveal(g_expr);
    }
    assert(g_list_tail(t, j, one) == g_list_tail(t, k, one.push(b))) by {
        reveal(g_list_tail);
        reveal(g_expr);
    }
}

/// `e[x]` takes from `e` what stands at `x`.
pub proof fn indexes_read_behind_their_list(t: Seq<TokenV>, i: int, e: ExprV, x: ExprV, j: int)
    requires
        0 <= i,
        sym(t, i, Token::LBracket),
        reads(g_expr(t, i + 1), t, i + 1, x, j),
        sym(t, j, Token::RBracket),
        j < t.len(),
        !sym(t, j + 1, Token::Dot) && !sym(t, j + 1, Token::LBracket),
    ensures
        g_postfix_tail(t, i, e) == Ok::<(ExprV, int), Seq<char>>(
            (ExprV::IndexAccess(Box::new(e), Box::new(x)), j + 1),
        ),
{
    let whole = ExprV::IndexAccess(Box::new(e), Box::new(x));
    assert(g_postfix_tail(t, j + 1, whole) == Ok::<(ExprV, int), Seq<char>>((whole, j + 1))) by {
        reveal(g_postfix_tail);
        reveal(g_expr);
    }
    assert(g_postfix_tail(t, i, e) == g_postfix_tail(t, j + 1, whole)) by {
        reveal(g_postfix_tail);
        reveal(g_expr);
    }
}

/// `(type) e` casts, and `(e)` is `e`.
pub proof fn brackets_cast_or_group(t: Seq<TokenV>, i: int, name: Seq<char>, e: ExprV, j: int)
    ensures
        at(t, i) == TokenV::Ident(name) && is_cast_type(name) && sym(t, i + 1, Token::RParen)
            && reads(g_unary(t, i + 2), t, i + 2, e, j) ==> g_group(t, i) == Ok::<
            (ExprV, int),
            Seq<char>,
        >((ExprV::TypeCast(name, Box::new(e)), j)),
        !sym(t, i + 1, Token::RParen) && reads(g_expr(t, i), t, i, e, j) && sym(
            t,
            j,
            Token::RParen,
        ) ==> g_group(t, i) == Ok::<(ExprV, int), Seq<char>>((e, j + 1)),
{
    reveal(g_group);
    reveal(g_expr);
    reveal(g_unary);
}

/// `doc['f']`, with `.value` or without, and `params.f` name a field.
pub proof fn fields_read_by_name(t: Seq<TokenV>, i: int, f: Seq<char>)
    ensures
        sym(t, i, Token::LBracket) && at(t, i + 1) == TokenV::StringLit(f) && sym(
            t,
            i + 2,
            Token::RBracket,
        ) && !sym(t, i + 3, Token::Dot) ==> g_doc(t, i) == Ok::<(ExprV, int), Seq<char>>(
            (ExprV::DocField(f), i + 3),
        ),
        sym(t, i, Token::LBracket) && at(t, i + 1) == TokenV::StringLit(f) && sym(
            t,
            i + 2,
            Token::RBracket,
        ) && sym(t, i + 3, Token::Dot) && at(t, i + 4) == TokenV::Ident("value"@) ==> g_doc(t, i)
            == Ok::<(ExprV, int), Seq<char>>((ExprV::DocField(f), i + 5)),
        sym(t, i, Token::Dot) && at(t, i + 1) == TokenV::Ident(f) ==> g_params(t, i) == Ok::<
            (ExprV, int),
            Seq<char>,
        >((ExprV::ParamField(f), i + 2)),
{
    reveal(g_doc);
    reveal(g_params);
}

} // verus!
