//! The grammar of the expression language, as functions from a list of tokens
//! and a position to a syntax tree and the position behind it.
use crate::double::DoubleV;
use crate::script::ast::{BinOp, ExprV, StmtV, UnaryOp};
use crate::script::token::{Token, TokenV};
use crate::text::{int_text, nat_text};
use vstd::prelude::*;

verus! {

broadcast use vstd::string::group_string_axioms;

/// How `str`'s debug format spells a text: in quotes, with escapes.
pub uninterp spec fn quoted_text(s: Seq<char>) -> Seq<char>;

/// The debug format of `str`, which is a function of the text alone; the name
/// [`quoted_text`] stands for it.
#[verifier::external_body]
pub(crate) fn quoted(s: &str) -> (r: String)
    ensures
        r@ == quoted_text(s@),
{
    format!("{:?}", s)
}

/// The name of a symbol.
pub open spec fn symbol_name(t: Token) -> Seq<char> {
    match t {
        Token::Null => "Null"@,
        Token::If => "If"@,
        Token::Else => "Else"@,
        Token::Return => "Return"@,
        Token::For => "For"@,
        Token::Def => "Def"@,
        Token::Int => "Int"@,
        Token::New => "New"@,
        Token::RegexFind => "RegexFind"@,
        Token::RegexMatch => "RegexMatch"@,
        Token::Plus => "Plus"@,
        Token::PlusAssign => "PlusAssign"@,
        Token::Minus => "Minus"@,
        Token::MinusAssign => "MinusAssign"@,
        Token::Star => "Star"@,
        Token::StarAssign => "StarAssign"@,
        Token::Slash => "Slash"@,
        Token::SlashAssign => "SlashAssign"@,
        Token::Percent => "Percent"@,
        Token::Eq => "Eq"@,
        Token::Neq => "Neq"@,
        Token::Gt => "Gt"@,
        Token::Lt => "Lt"@,
        Token::Gte => "Gte"@,
        Token::Lte => "Lte"@,
        Token::And => "And"@,
        Token::Or => "Or"@,
        Token::Not => "Not"@,
        Token::Assign => "Assign"@,
        Token::LParen => "LParen"@,
        Token::RParen => "RParen"@,
        Token::LBrace => "LBrace"@,
        Token::RBrace => "RBrace"@,
        Token::LBracket => "LBracket"@,
        Token::RBracket => "RBracket"@,
        Token::Dot => "Dot"@,
        Token::Comma => "Comma"@,
        Token::Semicolon => "Semicolon"@,
        Token::Question => "Question"@,
        Token::Colon => "Colon"@,
        _ => "Eof"@,
    }
}

/// How a message shows a double: as it was written.
pub open spec fn double_shown(d: DoubleV) -> Seq<char> {
    match d {
        DoubleV::Text(s) => s,
        DoubleV::Bits(b) => "bits "@ + nat_text(b as nat),
        DoubleV::Int(n) => int_text(n as int) + ".0"@,
    }
}

/// How a message shows a token.
#[verifier::opaque]
pub open spec fn token_shown(t: TokenV) -> Seq<char> {
    match t {
        TokenV::IntLit(n) => "IntLit("@ + int_text(n as int) + ")"@,
        TokenV::FloatLit(d) => "FloatLit("@ + double_shown(d) + ")"@,
        TokenV::StringLit(s) => "StringLit("@ + quoted_text(s) + ")"@,
        TokenV::BoolLit(b) => if b {
            "BoolLit(true)"@
        } else {
            "BoolLit(false)"@
        },
        TokenV::RegexLit(s) => "RegexLit("@ + quoted_text(s) + ")"@,
        TokenV::Ident(s) => "Ident("@ + quoted_text(s) + ")"@,
        TokenV::Symbol(k) => symbol_name(k),
    }
}

/// The token at a position; behind the last one there are only end marks.
pub open spec fn at(t: Seq<TokenV>, i: int) -> TokenV {
    if 0 <= i < t.len() {
        t[i]
    } else {
        TokenV::Symbol(Token::Eof)
    }
}

pub open spec fn sym(t: Seq<TokenV>, i: int, k: Token) -> bool {
    at(t, i) == TokenV::Symbol(k)
}

/// The position behind the token at `i`.
pub open spec fn step(t: Seq<TokenV>, i: int) -> int {
    if i < t.len() {
        i + 1
    } else {
        i
    }
}

/// The position `j` that a part of the script reached from `i`. A part never
/// ends before it starts nor behind the last token, so this is `j`.
pub open spec fn reach(t: Seq<TokenV>, i: int, j: int) -> int {
    if i < j <= t.len() {
        j
    } else if i < t.len() {
        t.len() as int
    } else {
        i
    }
}

/// A result and the position behind what it was read from, or a message.
pub type Read<T> = Result<(T, int), Seq<char>>;

/// The position behind a token that must be `k`.
pub open spec fn want(t: Seq<TokenV>, i: int, k: Token) -> Result<int, Seq<char>> {
    if sym(t, i, k) {
        Ok(step(t, i))
    } else {
        Err("expected "@ + symbol_name(k) + ", got "@ + token_shown(at(t, i)))
    }
}

/// The position behind an optional semicolon.
pub open spec fn past_semicolon(t: Seq<TokenV>, i: int) -> int {
    if sym(t, i, Token::Semicolon) {
        step(t, i)
    } else {
        i
    }
}

/// A name and the further names that dots join to it.
#[verifier::opaque]
pub open spec fn dotted(t: Seq<TokenV>, i: int, path: Seq<char>) -> (Seq<char>, int)
    decreases t.len() - i,
{
    if sym(t, i, Token::Dot) && at(t, i + 1) is Ident {
        dotted(t, i + 2, path + "."@ + at(t, i + 1)->Ident_0)
    } else {
        (path, i)
    }
}

/// Like [`dotted`], but the last name stays out where a call follows it.
#[verifier::opaque]
pub open spec fn dotted_fields(t: Seq<TokenV>, i: int, path: Seq<char>) -> (Seq<char>, int)
    decreases t.len() - i,
{
    if sym(t, i, Token::Dot) && at(t, i + 1) is Ident && !sym(t, i + 2, Token::LParen) {
        dotted_fields(t, i + 2, path + "."@ + at(t, i + 1)->Ident_0)
    } else {
        (path, i)
    }
}

pub proof fn lemma_dotted(t: Seq<TokenV>, i: int, path: Seq<char>)
    requires
        0 <= i <= t.len(),
    ensures
        i <= dotted(t, i, path).1 <= t.len(),
        i <= dotted_fields(t, i, path).1 <= t.len(),
    decreases t.len() - i,
{
    reveal(dotted);
    reveal(dotted_fields);
    if sym(t, i, Token::Dot) && at(t, i + 1) is Ident {
        lemma_dotted(t, i + 2, path + "."@ + at(t, i + 1)->Ident_0);
    }
}

/// The field that `ctx._source.a.b`, `ctx._source['a']` or `ctx.a.b` names,
/// and the position behind it.
#[verifier::opaque]
pub open spec fn source_lvalue(t: Seq<TokenV>, i: int) -> Option<(Seq<char>, int)> {
    if at(t, i) == TokenV::Ident("ctx"@) && sym(t, i + 1, Token::Dot) {
        match at(t, i + 2) {
            TokenV::Ident(s) => if s != "_source"@ {
                Some(dotted(t, i + 3, s))
            } else if sym(t, i + 3, Token::Dot) {
                match at(t, i + 4) {
                    TokenV::Ident(f) => Some(dotted(t, i + 5, f)),
                    _ => None,
                }
            } else if sym(t, i + 3, Token::LBracket) {
                match at(t, i + 4) {
                    TokenV::StringLit(f) => if sym(t, i + 5, Token::RBracket) {
                        Some((f, i + 6))
                    } else {
                        None
                    },
                    _ => None,
                }
            } else {
                None
            },
            _ => None,
        }
    } else {
        None
    }
}

pub proof fn lemma_source_lvalue(t: Seq<TokenV>, i: int)
    requires
        0 <= i <= t.len(),
    ensures
        source_lvalue(t, i) matches Some((_, j)) ==> i < j <= t.len(),
{
    reveal(source_lvalue);
    if source_lvalue(t, i) is Some {
        if let TokenV::Ident(s) = at(t, i + 2) {
            if s != "_source"@ {
                lemma_dotted(t, i + 3, s);
            }
        }
        if let TokenV::Ident(f) = at(t, i + 4) {
            if sym(t, i + 3, Token::Dot) {
                lemma_dotted(t, i + 5, f);
            }
        }
    }
}

/// The operator of a compound assignment.
pub open spec fn compound_op(t: TokenV) -> Option<BinOp> {
    match t {
        TokenV::Symbol(Token::PlusAssign) => Some(BinOp::Add),
        TokenV::Symbol(Token::MinusAssign) => Some(BinOp::Sub),
        TokenV::Symbol(Token::StarAssign) => Some(BinOp::Mul),
        TokenV::Symbol(Token::SlashAssign) => Some(BinOp::Div),
        _ => None,
    }
}

/// An operator between two operands.
pub enum Infix {
    Plain(BinOp),
    Find,
    Match,
}

/// The operators of a level of precedence, from `||` (0) to `*` (5).
pub open spec fn infix_op(level: int, t: TokenV) -> Option<Infix> {
    match t {
        TokenV::Symbol(k) => if level == 0 {
            match k {
                Token::Or => Some(Infix::Plain(BinOp::Or)),
                _ => None,
            }
        } else if level == 1 {
            match k {
                Token::And => Some(Infix::Plain(BinOp::And)),
                _ => None,
            }
        } else if level == 2 {
            match k {
                Token::Eq => Some(Infix::Plain(BinOp::Eq)),
                Token::Neq => Some(Infix::Plain(BinOp::Neq)),
                Token::RegexFind => Some(Infix::Find),
                Token::RegexMatch => Some(Infix::Match),
                _ => None,
            }
        } else if level == 3 {
            match k {
                Token::Gt => Some(Infix::Plain(BinOp::Gt)),
                Token::Lt => Some(Infix::Plain(BinOp::Lt)),
                Token::Gte => Some(Infix::Plain(BinOp::Gte)),
                Token::Lte => Some(Infix::Plain(BinOp::Lte)),
                _ => None,
            }
        } else if level == 4 {
            match k {
                Token::Plus => Some(Infix::Plain(BinOp::Add)),
                Token::Minus => Some(Infix::Plain(BinOp::Sub)),
                _ => None,
            }
        } else {
            match k {
                Token::Star => Some(Infix::Plain(BinOp::Mul)),
                Token::Slash => Some(Infix::Plain(BinOp::Div)),
                Token::Percent => Some(Infix::Plain(BinOp::Mod)),
                _ => None,
            }
        },
        _ => None,
    }
}

pub open spec fn infix_expr(l: ExprV, op: Infix, r: ExprV) -> ExprV {
    match op {
        Infix::Plain(o) => ExprV::BinOp(Box::new(l), o, Box::new(r)),
        Infix::Find => ExprV::RegexFind(Box::new(l), Box::new(r)),
        Infix::Match => ExprV::RegexMatchOp(Box::new(l), Box::new(r)),
    }
}

/// A statement.
#[verifier::opaque]
pub open spec fn g_stmt(t: Seq<TokenV>, i: int) -> Read<StmtV>
    decreases t.len() - i, 16int,
{
    if sym(t, i, Token::Return) {
        match g_expr(t, i + 1) {
            Ok((e, j)) => Ok((StmtV::Return(e), past_semicolon(t, j))),
            Err(m) => Err(m),
        }
    } else if sym(t, i, Token::Def) || sym(t, i, Token::Int) {
        match at(t, i + 1) {
            TokenV::Ident(name) => if sym(t, i + 2, Token::Assign) {
                match g_expr(t, i + 3) {
                    Ok((e, j)) => Ok((StmtV::VarDecl(name, e), past_semicolon(t, j))),
                    Err(m) => Err(m),
                }
            } else {
                Ok((StmtV::VarDecl(name, ExprV::NullLit), past_semicolon(t, i + 2)))
            },
            _ => Err("expected variable name after type"@),
        }
    } else {
        match g_expr(t, i) {
            Ok((e, j)) => Ok((StmtV::Expr(e), past_semicolon(t, j))),
            Err(m) => Err(m),
        }
    }
}

/// An expression. What looks like an assignment target, but is none or has no
/// assignment behind it, is read again as an expression.
#[verifier::opaque]
pub open spec fn g_expr(t: Seq<TokenV>, i: int) -> Read<ExprV>
    decreases t.len() - i, 15int,
{
    if sym(t, i, Token::If) {
        g_if(t, i)
    } else if sym(t, i, Token::For) {
        g_for(t, i)
    } else if i < 0 || i >= t.len() {
        g_plain_expr(t, i)
    } else {
        proof {
            lemma_source_lvalue(t, i);
        }
        match source_lvalue(t, i) {
            Some((f, p)) => if sym(t, p, Token::Assign) {
                match g_expr(t, p + 1) {
                    Ok((e, j)) => Ok((ExprV::Assign(f, Box::new(e)), j)),
                    Err(m) => Err(m),
                }
            } else {
                match compound_op(at(t, p)) {
                    Some(op) => match g_expr(t, p + 1) {
                        Ok((e, j)) => Ok((ExprV::CompoundAssign(f, op, Box::new(e)), j)),
                        Err(m) => Err(m),
                    },
                    None => g_plain_expr(t, i),
                }
            },
            None => g_plain_expr(t, i),
        }
    }
}

/// An assignment to a variable, or an expression that assigns nothing.
#[verifier::opaque]
pub open spec fn g_plain_expr(t: Seq<TokenV>, i: int) -> Read<ExprV>
    decreases t.len() - i, 14int,
{
    match at(t, i) {
        TokenV::Ident(name) => if sym(t, i + 1, Token::Assign) {
            match g_expr(t, i + 2) {
                Ok((e, j)) => Ok((ExprV::VarDecl(name, Box::new(e)), j)),
                Err(m) => Err(m),
            }
        } else {
            match compound_op(at(t, i + 1)) {
                Some(op) => match g_expr(t, i + 2) {
                    Ok((e, j)) => Ok((ExprV::VarCompoundAssign(name, op, Box::new(e)), j)),
                    Err(m) => Err(m),
                },
                None => g_ternary(t, i),
            }
        },
        _ => g_ternary(t, i),
    }
}

/// `if (cond) { .. } else if .. else { .. }`
#[verifier::opaque]
pub open spec fn g_if(t: Seq<TokenV>, i: int) -> Read<ExprV>
    decreases t.len() - i, 13int,
{
    if !sym(t, i, Token::If) {
        Err(want(t, i, Token::If)->Err_0)
    } else if !sym(t, i + 1, Token::LParen) {
        Err(want(t, i + 1, Token::LParen)->Err_0)
    } else {
        match g_expr(t, i + 2) {
            Err(m) => Err(m),
            Ok((cond, j0)) => {
                let j = reach(t, i + 2, j0);
                match want(t, j, Token::RParen) {
                    Err(m) => Err(m),
                    Ok(k) => match g_block(t, k) {
                        Err(m) => Err(m),
                        Ok((yes, l0)) => {
                            let l = reach(t, k, l0);
                            if !sym(t, l, Token::Else) {
                                Ok((ExprV::IfElse(Box::new(cond), yes, None), l))
                            } else if sym(t, l + 1, Token::If) {
                                match g_if(t, l + 1) {
                                    Err(m) => Err(m),
                                    Ok((e, n)) => Ok(
                                        (
                                            ExprV::IfElse(
                                                Box::new(cond),
                                                yes,
                                                Some(seq![StmtV::Expr(e)]),
                                            ),
                                            n,
                                        ),
                                    ),
                                }
                            } else {
                                match g_block(t, l + 1) {
                                    Err(m) => Err(m),
                                    Ok((no, n)) => Ok(
                                        (ExprV::IfElse(Box::new(cond), yes, Some(no)), n),
                                    ),
                                }
                            }
                        },
                    },
                }
            },
        }
    }
}

/// Whether `def name :` or `int name :` stands at `i`.
pub open spec fn is_foreach(t: Seq<TokenV>, i: int) -> bool {
    (sym(t, i, Token::Def) || sym(t, i, Token::Int)) && at(t, i + 1) is Ident && sym(
        t,
        i + 2,
        Token::Colon,
    )
}

/// `for (def x : list) { .. }` or `for (init; cond; step) { .. }`
#[verifier::opaque]
pub open spec fn g_for(t: Seq<TokenV>, i: int) -> Read<ExprV>
    decreases t.len() - i, 13int,
{
    if !sym(t, i, Token::For) {
        Err(want(t, i, Token::For)->Err_0)
    } else if !sym(t, i + 1, Token::LParen) {
        Err(want(t, i + 1, Token::LParen)->Err_0)
    } else if is_foreach(t, i + 2) {
        let name = at(t, i + 3)->Ident_0;
        match g_expr(t, i + 5) {
            Err(m) => Err(m),
            Ok((list, j0)) => {
                let j = reach(t, i + 5, j0);
                match want(t, j, Token::RParen) {
                    Err(m) => Err(m),
                    Ok(k) => match g_block(t, k) {
                        Err(m) => Err(m),
                        Ok((body, n)) => Ok((ExprV::ForEach(name, Box::new(list), body), n)),
                    },
                }
            },
        }
    } else {
        match g_stmt(t, i + 2) {
            Err(m) => Err(m),
            Ok((init, a0)) => {
                let a = reach(t, i + 2, a0);
                match g_expr(t, a) {
                    Err(m) => Err(m),
                    Ok((cond, b0)) => {
                        let b = reach(t, a, b0);
                        match want(t, b, Token::Semicolon) {
                            Err(m) => Err(m),
                            Ok(c) => match g_expr(t, c) {
                                Err(m) => Err(m),
                                Ok((incr, d0)) => {
                                    let d = reach(t, c, d0);
                                    match want(t, d, Token::RParen) {
                                        Err(m) => Err(m),
                                        Ok(e) => match g_block(t, e) {
                                            Err(m) => Err(m),
                                            Ok((body, n)) => Ok(
                                                (
                                                    ExprV::For(
                                                        Box::new(init),
                                                        Box::new(cond),
                                                        Box::new(StmtV::Expr(incr)),
                                                        body,
                                                    ),
                                                    n,
                                                ),
                                            ),
                                        },
                                    }
                                },
                            },
                        }
                    },
                }
            },
        }
    }
}

/// Statements in braces.
#[verifier::opaque]
pub open spec fn g_block(t: Seq<TokenV>, i: int) -> Read<Seq<StmtV>>
    decreases t.len() - i, 17int,
{
    match want(t, i, Token::LBrace) {
        Err(m) => Err(m),
        Ok(j) => g_block_tail(t, j, Seq::empty()),
    }
}

/// The statements up to a closing brace, behind `acc`.
#[verifier::opaque]
pub open spec fn g_block_tail(t: Seq<TokenV>, i: int, acc: Seq<StmtV>) -> Read<Seq<StmtV>>
    decreases t.len() - i, 17int,
{
    if sym(t, i, Token::RBrace) || sym(t, i, Token::Eof) {
        match want(t, i, Token::RBrace) {
            Err(m) => Err(m),
            Ok(j) => Ok((acc, j)),
        }
    } else {
        match g_stmt(t, i) {
            Err(m) => Err(m),
            Ok((s, j)) => g_block_tail(t, reach(t, i, j), acc.push(s)),
        }
    }
}

/// `cond ? yes : no`, or what stands before the question mark.
#[verifier::opaque]
pub open spec fn g_ternary(t: Seq<TokenV>, i: int) -> Read<ExprV>
    decreases t.len() - i, 13int,
{
    match g_binary(t, i, 0) {
        Err(m) => Err(m),
        Ok((cond, j0)) => {
            let j = reach(t, i, j0);
            if sym(t, j, Token::Question) {
                match g_expr(t, j + 1) {
                    Err(m) => Err(m),
                    Ok((yes, k0)) => {
                        let k = reach(t, j + 1, k0);
                        match want(t, k, Token::Colon) {
                            Err(m) => Err(m),
                            Ok(l) => match g_expr(t, l) {
                                Err(m) => Err(m),
                                Ok((no, n)) => Ok(
                                    (
                                        ExprV::Ternary(
                                            Box::new(cond),
                                            Box::new(yes),
                                            Box::new(no),
                                        ),
                                        n,
                                    ),
                                ),
                            },
                        }
                    },
                }
            } else {
                Ok((cond, j))
            }
        },
    }
}

/// Operands of a level of precedence, joined from the left.
#[verifier::opaque]
pub open spec fn g_binary(t: Seq<TokenV>, i: int, level: int) -> Read<ExprV>
    decreases
            t.len() - i,
            if 0 <= level < 6 {
                12 - level
            } else {
                6
            },
{
    if level < 0 || level >= 6 {
        g_unary(t, i)
    } else {
        match g_binary(t, i, level + 1) {
            Err(m) => Err(m),
            Ok((left, j)) => g_binary_tail(t, reach(t, i, j), level, left),
        }
    }
}

/// The operators and operands that follow `left` on a level.
#[verifier::opaque]
pub open spec fn g_binary_tail(t: Seq<TokenV>, i: int, level: int, left: ExprV) -> Read<ExprV>
    decreases t.len() - i, 1int,
{
    match infix_op(level, at(t, i)) {
        None => Ok((left, i)),
        Some(op) => if 0 <= level < 6 && 0 <= i < t.len() {
            match g_binary(t, i + 1, level + 1) {
                Err(m) => Err(m),
                Ok((right, j)) => g_binary_tail(
                    t,
                    reach(t, i + 1, j),
                    level,
                    infix_expr(left, op, right),
                ),
            }
        } else {
            Ok((left, i))
        },
    }
}

/// `!e`, `-e`, or an operand.
#[verifier::opaque]
pub open spec fn g_unary(t: Seq<TokenV>, i: int) -> Read<ExprV>
    decreases t.len() - i, 5int,
{
    if sym(t, i, Token::Not) {
        match g_unary(t, i + 1) {
            Err(m) => Err(m),
            Ok((e, j)) => Ok((ExprV::UnaryOp(UnaryOp::Not, Box::new(e)), j)),
        }
    } else if sym(t, i, Token::Minus) {
        match g_unary(t, i + 1) {
            Err(m) => Err(m),
            Ok((e, j)) => Ok((ExprV::UnaryOp(UnaryOp::Neg, Box::new(e)), j)),
        }
    } else {
        match g_primary(t, i) {
            Err(m) => Err(m),
            Ok((e, j)) => g_postfix_tail(t, reach(t, i, j), e),
        }
    }
}

/// The member accesses, calls and indexes that follow an operand.
#[verifier::opaque]
pub open spec fn g_postfix_tail(t: Seq<TokenV>, i: int, e: ExprV) -> Read<ExprV>
    decreases t.len() - i, 1int,
{
    if sym(t, i, Token::Dot) {
        match at(t, i + 1) {
            TokenV::Ident(name) => if sym(t, i + 2, Token::LParen) {
                match g_args(t, i + 3) {
                    Err(m) => Err(m),
                    Ok((args, j0)) => match want(t, j0, Token::RParen) {
                        Err(m) => Err(m),
                        Ok(k) => g_postfix_tail(
                            t,
                            reach(t, i + 2, k),
                            ExprV::MethodCall(Box::new(e), name, args),
                        ),
                    },
                }
            } else {
                g_postfix_tail(t, i + 2, ExprV::MethodCall(Box::new(e), name, Seq::empty()))
            },
            _ => Err("expected identifier after '.'"@),
        }
    } else if sym(t, i, Token::LBracket) {
        match g_expr(t, i + 1) {
            Err(m) => Err(m),
            Ok((index, j)) => match want(t, j, Token::RBracket) {
                Err(m) => Err(m),
                Ok(k) => g_postfix_tail(
                    t,
                    reach(t, i, k),
                    ExprV::IndexAccess(Box::new(e), Box::new(index)),
                ),
            },
        }
    } else {
        Ok((e, i))
    }
}

/// Arguments up to a closing bracket, which stays.
#[verifier::opaque]
pub open spec fn g_args(t: Seq<TokenV>, i: int) -> Read<Seq<ExprV>>
    decreases t.len() - i, 16int,
{
    if sym(t, i, Token::RParen) {
        Ok((Seq::empty(), i))
    } else {
        match g_expr(t, i) {
            Err(m) => Err(m),
            Ok((e, j)) => g_list_tail(t, reach(t, i, j), seq![e]),
        }
    }
}

/// The further members of a list, each behind a comma.
#[verifier::opaque]
pub open spec fn g_list_tail(t: Seq<TokenV>, i: int, acc: Seq<ExprV>) -> Read<Seq<ExprV>>
    decreases t.len() - i, 1int,
{
    if sym(t, i, Token::Comma) {
        match g_expr(t, i + 1) {
            Err(m) => Err(m),
            Ok((e, j)) => g_list_tail(t, reach(t, i + 1, j), acc.push(e)),
        }
    } else {
        Ok((acc, i))
    }
}

/// Arguments in round brackets.
#[verifier::opaque]
pub open spec fn g_call(t: Seq<TokenV>, i: int) -> Read<Seq<ExprV>>
    decreases t.len() - i, 2int,
{
    match want(t, i, Token::LParen) {
        Err(m) => Err(m),
        Ok(j) => match g_args(t, j) {
            Err(m) => Err(m),
            Ok((args, k)) => match want(t, k, Token::RParen) {
                Err(m) => Err(m),
                Ok(n) => Ok((args, n)),
            },
        },
    }
}

/// The types that a cast can name.
pub open spec fn is_cast_type(s: Seq<char>) -> bool {
    s == "int"@ || s == "long"@ || s == "float"@ || s == "double"@ || s == "String"@ || s
        == "boolean"@
}

/// The classes that have static methods.
pub open spec fn is_class(s: Seq<char>) -> bool {
    s == "Integer"@ || s == "Long"@ || s == "Float"@ || s == "Double"@ || s == "String"@ || s
        == "Boolean"@
}

/// The bit pattern of the double nearest to pi.
pub const PI_BITS: u64 = 0x4009_21fb_5444_2d18;

/// The bit pattern of the double nearest to Euler's number.
pub const E_BITS: u64 = 0x4005_bf0a_8b14_5769;

/// A literal, a name, a call, or an expression in brackets.
#[verifier::opaque]
pub open spec fn g_primary(t: Seq<TokenV>, i: int) -> Read<ExprV>
    decreases t.len() - i, 3int,
{
    match at(t, i) {
        TokenV::IntLit(n) => Ok((ExprV::IntLit(n), i + 1)),
        TokenV::FloatLit(d) => Ok((ExprV::FloatLit(d), i + 1)),
        TokenV::StringLit(s) => Ok((ExprV::StringLit(s), i + 1)),
        TokenV::BoolLit(b) => Ok((ExprV::BoolLit(b), i + 1)),
        TokenV::RegexLit(s) => Ok((ExprV::RegexLit(s), i + 1)),
        TokenV::Symbol(Token::Null) => Ok((ExprV::NullLit, i + 1)),
        TokenV::Symbol(Token::LBracket) => g_array(t, i + 1),
        TokenV::Symbol(Token::LParen) => g_group(t, i + 1),
        TokenV::Ident(name) => g_named(t, i + 1, name),
        tok => Err("unexpected token: "@ + token_shown(tok)),
    }
}

/// The members of an array literal and its closing bracket.
#[verifier::opaque]
pub open spec fn g_array(t: Seq<TokenV>, i: int) -> Read<ExprV>
    decreases t.len() - i, 17int,
{
    let members = if sym(t, i, Token::RBracket) {
        Ok((Seq::empty(), i))
    } else {
        match g_expr(t, i) {
            Err(m) => Err(m),
            Ok((e, j)) => g_list_tail(t, reach(t, i, j), seq![e]),
        }
    };
    match members {
        Err(m) => Err(m),
        Ok((es, j)) => match want(t, j, Token::RBracket) {
            Err(m) => Err(m),
            Ok(k) => Ok((ExprV::ArrayLit(es), k)),
        },
    }
}

/// What stands behind an opening round bracket: a cast, or an expression.
#[verifier::opaque]
pub open spec fn g_group(t: Seq<TokenV>, i: int) -> Read<ExprV>
    decreases t.len() - i, 17int,
{
    let cast = match at(t, i) {
        TokenV::Ident(s) => if is_cast_type(s) {
            Some(s)
        } else {
            None
        },
        TokenV::Symbol(Token::Int) => Some("int"@),
        _ => None,
    };
    if cast is Some && sym(t, i + 1, Token::RParen) {
        match g_unary(t, i + 2) {
            Err(m) => Err(m),
            Ok((e, j)) => Ok((ExprV::TypeCast(cast->0, Box::new(e)), j)),
        }
    } else {
        match g_expr(t, i) {
            Err(m) => Err(m),
            Ok((e, j)) => match want(t, j, Token::RParen) {
                Err(m) => Err(m),
                Ok(k) => Ok((e, k)),
            },
        }
    }
}

/// What stands behind a name.
#[verifier::opaque]
pub open spec fn g_named(t: Seq<TokenV>, i: int, name: Seq<char>) -> Read<ExprV>
    decreases t.len() - i, 17int,
{
    if name == "doc"@ {
        g_doc(t, i)
    } else if name == "ctx"@ {
        g_ctx(t, i)
    } else if name == "params"@ {
        g_params(t, i)
    } else if name == "Math"@ {
        match want(t, i, Token::Dot) {
            Err(m) => Err(m),
            Ok(j) => match at(t, j) {
                TokenV::Ident(func) => if func == "PI"@ {
                    Ok((ExprV::FloatLit(DoubleV::Bits(PI_BITS)), j + 1))
                } else if func == "E"@ {
                    Ok((ExprV::FloatLit(DoubleV::Bits(E_BITS)), j + 1))
                } else {
                    match g_call(t, j + 1) {
                        Err(m) => Err(m),
                        Ok((args, k)) => Ok((ExprV::MathCall(func, args), k)),
                    }
                },
                _ => Err("expected Math method name"@),
            },
        }
    } else if is_class(name) {
        if sym(t, i, Token::Dot) {
            match at(t, i + 1) {
                TokenV::Ident(method) => match g_call(t, i + 2) {
                    Err(m) => Err(m),
                    Ok((args, k)) => Ok((ExprV::StaticCall(name, method, args), k)),
                },
                _ => Err("expected method name after "@ + name + "."@),
            }
        } else {
            Ok((ExprV::Var(name), i))
        }
    } else if sym(t, i, Token::LParen) {
        match g_call(t, i) {
            Err(m) => Err(m),
            Ok((args, k)) => Ok((ExprV::FuncCall(name, args), k)),
        }
    } else {
        Ok((ExprV::Var(name), i))
    }
}

/// `['field']`, and `.value` or a lone dot behind it.
#[verifier::opaque]
pub open spec fn g_doc(t: Seq<TokenV>, i: int) -> Read<ExprV> {
    match want(t, i, Token::LBracket) {
        Err(m) => Err(m),
        Ok(j) => match at(t, j) {
            TokenV::StringLit(field) => match want(t, j + 1, Token::RBracket) {
                Err(m) => Err(m),
                Ok(k) => Ok(
                    (
                        ExprV::DocField(field),
                        if !sym(t, k, Token::Dot) {
                            k
                        } else if at(t, k + 1) == TokenV::Ident("value"@) {
                            k + 2
                        } else {
                            k + 1
                        },
                    ),
                ),
            },
            tok => Err("expected string in doc access, got "@ + token_shown(tok)),
        },
    }
}

/// What stands behind `ctx`: a field of the source, or the source itself.
#[verifier::opaque]
pub open spec fn g_ctx(t: Seq<TokenV>, i: int) -> Read<ExprV> {
    match want(t, i, Token::Dot) {
        Err(m) => Err(m),
        Ok(a) => match at(t, a) {
            TokenV::Ident(s) => {
                let c = a + 1;
                if s != "_source"@ {
                    let (p, j) = dotted(t, c, s);
                    Ok((ExprV::SourceField(p), j))
                } else if sym(t, c, Token::Dot) {
                    match at(t, c + 1) {
                        TokenV::Ident(f) => if sym(t, c + 2, Token::LParen) {
                            Ok((ExprV::Var("_source"@), c))
                        } else {
                            let (p, j) = dotted_fields(t, c + 2, f);
                            Ok((ExprV::SourceField(p), j))
                        },
                        _ => Ok((ExprV::Var("_source"@), c)),
                    }
                } else if sym(t, c, Token::LBracket) {
                    match at(t, c + 1) {
                        TokenV::StringLit(f) => match want(t, c + 2, Token::RBracket) {
                            Err(m) => Err(m),
                            Ok(j) => Ok((ExprV::SourceField(f), j)),
                        },
                        _ => Err("expected string in ctx._source[] access"@),
                    }
                } else {
                    Ok((ExprV::Var("_source"@), c))
                }
            },
            _ => Err("expected field after ctx."@),
        },
    }
}

/// `.name` behind `params`.
#[verifier::opaque]
pub open spec fn g_params(t: Seq<TokenV>, i: int) -> Read<ExprV> {
    match want(t, i, Token::Dot) {
        Err(m) => Err(m),
        Ok(j) => match at(t, j) {
            TokenV::Ident(f) => Ok((ExprV::ParamField(f), j + 1)),
            _ => Err("expected field name after params."@),
        },
    }
}

/// The statements of a script from position `i` on, behind `acc`.
#[verifier::opaque]
pub open spec fn g_program(t: Seq<TokenV>, i: int, acc: Seq<StmtV>) -> Result<
    Seq<StmtV>,
    Seq<char>,
>
    decreases t.len() - i,
{
    if sym(t, i, Token::Eof) {
        Ok(acc)
    } else {
        match g_stmt(t, i) {
            Err(m) => Err(m),
            Ok((s, j)) => g_program(t, reach(t, i, j), acc.push(s)),
        }
    }
}

} // verus!
