//! Expressions written out with as few brackets as the order of the operators
//! asks for, and read again.
use crate::script::ast::{BinOp, ExprV, StmtV, UnaryOp};
use crate::script::grammar::{
    at, compound_op, g_binary, g_binary_tail, g_expr, g_group, g_named, g_plain_expr,
    g_postfix_tail, g_primary, g_program, g_stmt, g_ternary, g_unary, infix_expr, infix_op,
    is_cast_type, is_class, source_lvalue, sym, want, Infix, Read,
};
use crate::script::parser::program_of;
use crate::script::token::{
    digits_end, is_word_char, lex, lex_number, lex_step, opens_regex, string_body, word_end,
    word_token, LexStep, Token, TokenV,
};
use crate::text::{is_digit, is_letter, lemma_nat_text, nat_text};
use vstd::prelude::*;

verus! {

/// A word of a script.
pub enum Word {
    Int(i64),
    Name(Seq<char>),
    Text(Seq<char>),
    True,
    False,
    Null,
    Open,
    Close,
    Not,
    Minus,
    Op(BinOp),
    Find,
    Match,
}

/// How a word is written.
pub open spec fn word_text(w: Word) -> Seq<char> {
    match w {
        Word::Int(n) => nat_text(n as nat),
        Word::Name(s) => s,
        Word::Text(s) => "'"@ + s + "'"@,
        Word::True => "true"@,
        Word::False => "false"@,
        Word::Null => "null"@,
        Word::Open => "("@,
        Word::Close => ")"@,
        Word::Not => "!"@,
        Word::Minus => "-"@,
        Word::Op(BinOp::Add) => "+"@,
        Word::Op(BinOp::Sub) => "-"@,
        Word::Op(BinOp::Mul) => "*"@,
        Word::Op(BinOp::Div) => "/"@,
        Word::Op(BinOp::Mod) => "%"@,
        Word::Op(BinOp::Eq) => "=="@,
        Word::Op(BinOp::Neq) => "!="@,
        Word::Op(BinOp::Gt) => ">"@,
        Word::Op(BinOp::Lt) => "<"@,
        Word::Op(BinOp::Gte) => ">="@,
        Word::Op(BinOp::Lte) => "<="@,
        Word::Op(BinOp::And) => "&&"@,
        Word::Op(BinOp::Or) => "||"@,
        Word::Find => "=~"@,
        Word::Match => "==~"@,
    }
}

/// The script of words: each with a space behind it.
pub open spec fn script_text(ws: Seq<Word>) -> Seq<char>
    decreases ws.len(),
{
    if ws.len() == 0 {
        Seq::empty()
    } else {
        word_text(ws[0]) + " "@ + script_text(ws.skip(1))
    }
}

/// How tightly an operator binds: `||`, then `&&`, then equality and patterns,
/// then comparisons, then sums, then products.
pub open spec fn rank(op: BinOp) -> int {
    match op {
        BinOp::Or => 0,
        BinOp::And => 1,
        BinOp::Eq | BinOp::Neq => 2,
        BinOp::Gt | BinOp::Lt | BinOp::Gte | BinOp::Lte => 3,
        BinOp::Add | BinOp::Sub => 4,
        BinOp::Mul | BinOp::Div | BinOp::Mod => 5,
    }
}

/// The words of an expression where operators that bind less tightly than
/// `level` need brackets. Operators of one rank join from the left.
pub open spec fn words(e: ExprV, level: int) -> Seq<Word>
    decreases e,
{
    match e {
        ExprV::IntLit(n) => Seq::empty().push(Word::Int(n)),
        ExprV::Var(s) => Seq::empty().push(Word::Name(s)),
        ExprV::StringLit(s) => Seq::empty().push(Word::Text(s)),
        ExprV::BoolLit(b) => Seq::empty().push(
            if b {
                Word::True
            } else {
                Word::False
            },
        ),
        ExprV::UnaryOp(UnaryOp::Not, x) => Seq::empty().push(Word::Not) + words(*x, 6),
        ExprV::UnaryOp(UnaryOp::Neg, x) => Seq::empty().push(Word::Minus) + words(*x, 6),
        ExprV::BinOp(l, op, r) => bracketed(
            words(*l, rank(op)).push(Word::Op(op)) + words(*r, rank(op) + 1),
            rank(op) < level,
        ),
        ExprV::RegexFind(l, r) => bracketed(
            words(*l, 2).push(Word::Find) + words(*r, 3),
            2 < level,
        ),
        ExprV::RegexMatchOp(l, r) => bracketed(
            words(*l, 2).push(Word::Match) + words(*r, 3),
            2 < level,
        ),
        _ => Seq::empty().push(Word::Null),
    }
}

/// Words in brackets, or as they are.
pub open spec fn bracketed(ws: Seq<Word>, yes: bool) -> Seq<Word> {
    if yes {
        Seq::empty().push(Word::Open) + ws.push(Word::Close)
    } else {
        ws
    }
}

/// A name that is no keyword and stands for nothing but a variable.
pub open spec fn is_variable(s: Seq<char>) -> bool {
    &&& s.len() > 0 && (is_letter(s[0]) || s[0] == '_')
    &&& forall|i: int| 0 <= i < s.len() ==> is_word_char(#[trigger] s[i])
    &&& s != "true"@ && s != "false"@ && s != "null"@ && s != "if"@ && s != "else"@ && s
        != "return"@ && s != "for"@ && s != "def"@ && s != "int"@ && s != "new"@
    &&& s != "doc"@ && s != "ctx"@ && s != "params"@ && s != "Math"@
    &&& !is_class(s) && !is_cast_type(s)
}

/// A text that needs no escapes between single quotes.
pub open spec fn is_quiet(s: Seq<char>) -> bool {
    forall|i: int| 0 <= i < s.len() ==> (#[trigger] s[i]) != '\'' && s[i] != '\\'
}

/// An expression of operators over literals and variables.
pub open spec fn is_formula(e: ExprV) -> bool
    decreases e,
{
    match e {
        ExprV::IntLit(n) => n >= 0,
        ExprV::Var(s) => is_variable(s),
        ExprV::StringLit(s) => is_quiet(s),
        ExprV::BoolLit(_) => true,
        ExprV::NullLit => true,
        ExprV::UnaryOp(_, x) => is_formula(*x),
        ExprV::BinOp(l, _, r) => is_formula(*l) && is_formula(*r),
        ExprV::RegexFind(l, r) => is_formula(*l) && is_formula(*r),
        ExprV::RegexMatchOp(l, r) => is_formula(*l) && is_formula(*r),
        _ => false,
    }
}

/// A word that can be written: an integer without a sign, a variable, a text
/// without escapes.
spec fn is_sound(w: Word) -> bool {
    match w {
        Word::Int(n) => n >= 0,
        Word::Name(s) => is_variable(s),
        Word::Text(s) => is_quiet(s),
        _ => true,
    }
}

/// The token that a word is.
spec fn token_of(w: Word) -> TokenV {
    match w {
        Word::Int(n) => TokenV::IntLit(n),
        Word::Name(s) => TokenV::Ident(s),
        Word::Text(s) => TokenV::StringLit(s),
        Word::True => TokenV::BoolLit(true),
        Word::False => TokenV::BoolLit(false),
        Word::Null => TokenV::Symbol(Token::Null),
        Word::Open => TokenV::Symbol(Token::LParen),
        Word::Close => TokenV::Symbol(Token::RParen),
        Word::Not => TokenV::Symbol(Token::Not),
        Word::Minus => TokenV::Symbol(Token::Minus),
        Word::Op(BinOp::Add) => TokenV::Symbol(Token::Plus),
        Word::Op(BinOp::Sub) => TokenV::Symbol(Token::Minus),
        Word::Op(BinOp::Mul) => TokenV::Symbol(Token::Star),
        Word::Op(BinOp::Div) => TokenV::Symbol(Token::Slash),
        Word::Op(BinOp::Mod) => TokenV::Symbol(Token::Percent),
        Word::Op(BinOp::Eq) => TokenV::Symbol(Token::Eq),
        Word::Op(BinOp::Neq) => TokenV::Symbol(Token::Neq),
        Word::Op(BinOp::Gt) => TokenV::Symbol(Token::Gt),
        Word::Op(BinOp::Lt) => TokenV::Symbol(Token::Lt),
        Word::Op(BinOp::Gte) => TokenV::Symbol(Token::Gte),
        Word::Op(BinOp::Lte) => TokenV::Symbol(Token::Lte),
        Word::Op(BinOp::And) => TokenV::Symbol(Token::And),
        Word::Op(BinOp::Or) => TokenV::Symbol(Token::Or),
        Word::Find => TokenV::Symbol(Token::RegexFind),
        Word::Match => TokenV::Symbol(Token::RegexMatch),
    }
}

spec fn tokens(ws: Seq<Word>) -> Seq<TokenV> {
    ws.map_values(|w: Word| token_of(w))
}

/// A word that ends a value, behind which a slash divides.
spec fn ends_value(w: Word) -> bool {
    w is Int || w is Name || w is Text || w is True || w is False || w is Null || w is Close
}

/// Words in which every division stands behind a value.
spec fn divides_values(ws: Seq<Word>) -> bool {
    forall|i: int|
        0 <= i < ws.len() && #[trigger] ws[i] == Word::Op(BinOp::Div) ==> i > 0 && ends_value(
            ws[i - 1],
        )
}

proof fn lemma_words(e: ExprV, level: int)
    requires
        is_formula(e),
    ensures
        words(e, level).len() > 0,
        ends_value(words(e, level).last()),
        !(words(e, level)[0] is Op),
        divides_values(words(e, level)),
        forall|i: int| 0 <= i < words(e, level).len() ==> is_sound(#[trigger] words(e, level)[i]),
    decreases e,
{
    match e {
        ExprV::UnaryOp(op, x) => {
            lemma_words(*x, 6);
            let w = words(e, level);
            assert(w.last() == words(*x, 6).last());
            assert forall|i: int| 0 <= i < w.len() && #[trigger] w[i] == Word::Op(BinOp::Div) implies i
                > 0 && ends_value(w[i - 1]) by {
                assert(words(*x, 6)[i - 1] == w[i]);
                assert(i >= 2 && words(*x, 6)[i - 2] == w[i - 1]);
            }
        },
        ExprV::BinOp(l, op, r) => {
            lemma_words(*l, rank(op));
            lemma_words(*r, rank(op) + 1);
            lemma_joined(words(*l, rank(op)), Word::Op(op), words(*r, rank(op) + 1), rank(op) < level);
        },
        ExprV::RegexFind(l, r) => {
            lemma_words(*l, 2);
            lemma_words(*r, 3);
            lemma_joined(words(*l, 2), Word::Find, words(*r, 3), 2 < level);
        },
        ExprV::RegexMatchOp(l, r) => {
            lemma_words(*l, 2);
            lemma_words(*r, 3);
            lemma_joined(words(*l, 2), Word::Match, words(*r, 3), 2 < level);
        },
        _ => {},
    }
}

spec fn is_good(ws: Seq<Word>) -> bool {
    &&& ws.len() > 0
    &&& ends_value(ws.last())
    &&& !(ws[0] is Op)
    &&& divides_values(ws)
    &&& forall|i: int| 0 <= i < ws.len() ==> is_sound(#[trigger] ws[i])
}

proof fn lemma_joined(a: Seq<Word>, op: Word, b: Seq<Word>, yes: bool)
    requires
        is_good(a),
        is_good(b),
        op is Op || op is Find || op is Match,
    ensures
        is_good(bracketed(a.push(op) + b, yes)),
{
    let w = a.push(op) + b;
    let n = a.len() as int;
    assert(w.last() == b.last() && w[0] == a[0]);
    assert forall|i: int| 0 <= i < w.len() && #[trigger] w[i] == Word::Op(BinOp::Div) implies i > 0
        && ends_value(w[i - 1]) by {
        if i < n {
            assert(a[i] == w[i]);
            assert(a[i - 1] == w[i - 1]);
        } else if i == n {
            assert(w[i - 1] == a.last());
        } else {
            assert(b[i - n - 1] == w[i]);
            assert(b[i - n - 2] == w[i - 1]);
        }
    }
    assert forall|i: int| 0 <= i < w.len() implies is_sound(#[trigger] w[i]) by {
        if i < n {
            assert(a[i] == w[i]);
        } else if i > n {
            assert(b[i - n - 1] == w[i]);
        }
    }
    if yes {
        let v = bracketed(w, true);
        assert forall|i: int| 0 <= i < v.len() && #[trigger] v[i] == Word::Op(BinOp::Div) implies i > 0
            && ends_value(v[i - 1]) by {
            assert(w[i - 1] == v[i]);
            assert(w[i - 2] == v[i - 1]);
        }
        assert forall|i: int| 0 <= i < v.len() implies is_sound(#[trigger] v[i]) by {
            if 0 < i < v.len() - 1 {
                assert(w[i - 1] == v[i]);
            }
        }
    }
}

// ---- From text to tokens

proof fn lemma_digits_end(c: Seq<char>, i: int, e: int)
    requires
        0 <= i <= e < c.len(),
        forall|k: int| i <= k < e ==> is_digit(#[trigger] c[k]),
        !is_digit(c[e]),
    ensures
        digits_end(c, i) == e,
    decreases e - i,
{
    if i < e {
        lemma_digits_end(c, i + 1, e);
    }
}

proof fn lemma_word_end(c: Seq<char>, i: int, e: int)
    requires
        0 <= i <= e < c.len(),
        forall|k: int| i <= k < e ==> is_word_char(#[trigger] c[k]),
        !is_word_char(c[e]),
    ensures
        word_end(c, i) == e,
    decreases e - i,
{
    if i < e {
        lemma_word_end(c, i + 1, e);
    }
}

proof fn lemma_string_body(c: Seq<char>, i: int, e: int, acc: Seq<char>)
    requires
        0 <= i <= e < c.len(),
        forall|k: int| i <= k < e ==> (#[trigger] c[k]) != '\'' && c[k] != '\\',
        c[e] == '\'',
    ensures
        string_body(c, i, '\'', acc) == Some((acc + c.subrange(i, e), e)),
    decreases e - i,
{
    if i < e {
        lemma_string_body(c, i + 1, e, acc.push(c[i]));
        assert(acc.push(c[i]) + c.subrange(i + 1, e) =~= acc + c.subrange(i, e));
    } else {
        assert(acc + c.subrange(i, e) =~= acc);
    }
}

/// Whether a word and a space stand at a position.
spec fn word_at(c: Seq<char>, i: int, w: Word) -> bool {
    let n = word_text(w).len();
    &&& 0 <= i
    &&& i + n < c.len()
    &&& forall|k: int| 0 <= k < n ==> c[i + k] == #[trigger] word_text(w)[k]
    &&& c[i + n] == ' '
}

#[verifier::spinoff_prover]
proof fn lemma_symbol(c: Seq<char>, i: int, w: Word, acc: Seq<TokenV>)
    requires
        word_at(c, i, w),
        w is Open || w is Close || w is Not || w is Minus || w is Op || w is Find || w is Match,
        w == Word::Op(BinOp::Div) ==> !opens_regex(acc),
    ensures
        word_text(w).len() > 0,
        lex_step(c, i, acc) == LexStep::Tok(token_of(w), i + word_text(w).len()),
{
    reveal_strlit("(");
    reveal_strlit(")");
    reveal_strlit("!");
    reveal_strlit("-");
    reveal_strlit("+");
    reveal_strlit("*");
    reveal_strlit("/");
    reveal_strlit("%");
    reveal_strlit("==");
    reveal_strlit("!=");
    reveal_strlit(">");
    reveal_strlit("<");
    reveal_strlit(">=");
    reveal_strlit("<=");
    reveal_strlit("&&");
    reveal_strlit("||");
    reveal_strlit("=~");
    reveal_strlit("==~");
    let s = word_text(w);
    assert(c[i + 0] == s[0]);
    if s.len() > 1 {
        assert(c[i + 1] == s[1]);
    }
    if s.len() > 2 {
        assert(c[i + 2] == s[2]);
    }
}

#[verifier::spinoff_prover]
proof fn lemma_literal(c: Seq<char>, i: int, w: Word, acc: Seq<TokenV>)
    requires
        word_at(c, i, w),
        is_sound(w),
        w is Int || w is Text,
    ensures
        word_text(w).len() > 0,
        lex_step(c, i, acc) == LexStep::Tok(token_of(w), i + word_text(w).len()),
{
    reveal_strlit("'");
    let s = word_text(w);
    let e = i + s.len();
    match w {
        Word::Int(n) => {
            lemma_nat_text(n as nat);
            assert forall|k: int| i <= k < e implies is_digit(#[trigger] c[k]) by {
                assert(c[i + (k - i)] == s[k - i]);
            }
            lemma_digits_end(c, i, e);
            assert(c.subrange(i, e) =~= s);
            assert(is_digit(c[i]));
            assert(lex_number(c, i) == LexStep::Tok(TokenV::IntLit(n), e));
        },
        Word::Text(x) => {
            assert(c[i + 0] == s[0]);
            assert forall|k: int| i + 1 <= k < e - 1 implies (#[trigger] c[k]) != '\'' && c[k] != '\\' by {
                assert(c[i + (k - i)] == s[k - i]);
                assert(s[k - i] == x[k - i - 1]);
            }
            assert(c[i + (s.len() - 1)] == s[s.len() - 1]);
            lemma_string_body(c, i + 1, e - 1, Seq::empty());
            assert(Seq::<char>::empty() + c.subrange(i + 1, e - 1) =~= x) by {
                assert forall|k: int| 0 <= k < x.len() implies c[i + 1 + k] == x[k] by {
                    assert(c[i + (k + 1)] == s[k + 1]);
                }
            }
        },
        _ => {},
    }
}

#[verifier::spinoff_prover]
proof fn lemma_name(c: Seq<char>, i: int, w: Word, acc: Seq<TokenV>)
    requires
        word_at(c, i, w),
        is_sound(w),
        w is Name || w is True || w is False || w is Null,
    ensures
        word_text(w).len() > 0,
        lex_step(c, i, acc) == LexStep::Tok(token_of(w), i + word_text(w).len()),
{
    reveal_strlit("true");
    reveal_strlit("false");
    reveal_strlit("null");
    let s = word_text(w);
    let e = i + s.len();
    assert(forall|k: int| 0 <= k < s.len() ==> is_word_char(#[trigger] s[k]));
    assert forall|k: int| i <= k < e implies is_word_char(#[trigger] c[k]) by {
        assert(c[i + (k - i)] == s[k - i]);
    }
    lemma_word_end(c, i, e);
    assert(c.subrange(i, e) =~= s);
    assert(c[i + 0] == s[0]);
    assert("true"@[0] != "false"@[0] && "true"@[0] != "null"@[0]);
    assert(word_token(s) == token_of(w));
    assert(is_letter(s[0]) || s[0] == '_');
}

proof fn lemma_word(c: Seq<char>, i: int, w: Word, acc: Seq<TokenV>)
    requires
        word_at(c, i, w),
        is_sound(w),
        w == Word::Op(BinOp::Div) ==> !opens_regex(acc),
    ensures
        lex(c, i, acc) == lex(c, i + word_text(w).len() + 1, acc.push(token_of(w))),
{
    let n = word_text(w).len();
    if w is Int || w is Text {
        lemma_literal(c, i, w, acc);
    } else if w is Name || w is True || w is False || w is Null {
        lemma_name(c, i, w, acc);
    } else {
        lemma_symbol(c, i, w, acc);
    }
    let next = acc.push(token_of(w));
    assert(lex(c, i, acc) == lex(c, i + n, next));
    assert(lex_step(c, i + n, next) == LexStep::Skip(i + n + 1));
}

proof fn lemma_script(ws: Seq<Word>, k: int, c: Seq<char>, i: int)
    requires
        is_good(ws),
        0 <= k <= ws.len(),
        0 <= i <= c.len(),
        c.skip(i) == script_text(ws.skip(k)),
    ensures
        lex(c, i, tokens(ws.take(k))) == Ok::<Seq<TokenV>, Seq<char>>(
            tokens(ws).push(TokenV::Symbol(Token::Eof)),
        ),
    decreases ws.len() - k,
{
    let rest = ws.skip(k);
    let acc = tokens(ws.take(k));
    if k < ws.len() {
        reveal_strlit(" ");
        let w = ws[k];
        assert(rest[0] == w);
        assert(rest.skip(1) =~= ws.skip(k + 1));
        let s = word_text(w);
        let y = c.skip(i);
        assert(y == s + " "@ + script_text(ws.skip(k + 1)));
        assert forall|j: int| 0 <= j < s.len() implies c[i + j] == #[trigger] s[j] by {
            assert(y[j] == s[j]);
        }
        assert(c[i + s.len()] == y[s.len() as int]);
        assert(c.skip(i + s.len() + 1) =~= script_text(ws.skip(k + 1))) by {
            assert(y.skip((s.len() + 1) as int) =~= script_text(ws.skip(k + 1)));
        }
        if w == Word::Op(BinOp::Div) {
            assert(acc.last() == token_of(ws[k - 1]));
        }
        lemma_word(c, i, w, acc);
        assert(tokens(ws.take(k + 1)) =~= acc.push(token_of(w)));
        lemma_script(ws, k + 1, c, i + s.len() + 1);
    } else {
        assert(ws.take(k) =~= ws);
        assert(c.skip(i).len() == 0);
    }
}

// ---- From tokens to the tree

/// Whether words stand among the tokens at a position.
spec fn stand(t: Seq<TokenV>, i: int, ws: Seq<Word>) -> bool {
    &&& 0 <= i
    &&& i + ws.len() <= t.len()
    &&& forall|k: int| 0 <= k < ws.len() ==> t[i + k] == token_of(#[trigger] ws[k])
}

/// Whether the token at a position ends an expression in which operators that
/// bind less tightly than `level` do not belong.
spec fn stops(t: Seq<TokenV>, j: int, level: int) -> bool {
    ||| at(t, j) == TokenV::Symbol(Token::RParen)
    ||| at(t, j) == TokenV::Symbol(Token::Eof)
    ||| exists|op: BinOp| rank(op) < level && at(t, j) == #[trigger] token_of(Word::Op(op))
    ||| level > 2 && at(t, j) == token_of(Word::Find)
    ||| level > 2 && at(t, j) == token_of(Word::Match)
}

proof fn lemma_stop(t: Seq<TokenV>, j: int, level: int, l: int)
    requires
        stops(t, j, level),
        level <= l < 6,
        0 <= l,
    ensures
        infix_op(l, at(t, j)) is None,
{
}

proof fn lemma_stops_more(t: Seq<TokenV>, j: int, level: int, more: int)
    requires
        stops(t, j, level),
        level <= more,
    ensures
        stops(t, j, more),
{
    if exists|op: BinOp| rank(op) < level && at(t, j) == #[trigger] token_of(Word::Op(op)) {
        let op = choose|op: BinOp| rank(op) < level && at(t, j) == #[trigger] token_of(Word::Op(op));
        assert(rank(op) < more && at(t, j) == token_of(Word::Op(op)));
    }
}

proof fn lemma_postfix(t: Seq<TokenV>, j: int, level: int, e: ExprV)
    requires
        stops(t, j, level),
    ensures
        g_postfix_tail(t, j, e) == Ok::<(ExprV, int), Seq<char>>((e, j)),
        !sym(t, j, Token::LParen),
        !sym(t, j, Token::Question),
        !sym(t, j, Token::Assign),
        compound_op(at(t, j)) is None,
{
    reveal(g_postfix_tail);
}

/// What was read: an expression up to a position.
spec fn got(e: ExprV, j: int) -> Read<ExprV> {
    Ok((e, j))
}

/// A literal or a variable.
proof fn lemma_leaf(t: Seq<TokenV>, i: int, e: ExprV, level: int)
    requires
        is_formula(e),
        e is IntLit || e is Var || e is StringLit || e is BoolLit || e is NullLit,
        stand(t, i, words(e, 6)),
        stops(t, i + 1, level),
    ensures
        words(e, 6).len() == 1,
        g_unary(t, i) == got(e, i + 1),
{
    reveal(g_unary);
    reveal(g_postfix_tail);
    reveal(g_primary);
    reveal(g_named);
    let w = words(e, 6)[0];
    assert(t[i + 0] == token_of(w));
    lemma_postfix(t, i + 1, level, e);
    assert(g_primary(t, i) == got(e, i + 1));
}

/// An operator before an operand.
proof fn lemma_prefix(t: Seq<TokenV>, i: int, op: UnaryOp, x: ExprV, j: int)
    requires
        0 <= i < t.len(),
        op == UnaryOp::Not ==> t[i] == token_of(Word::Not),
        op == UnaryOp::Neg ==> t[i] == token_of(Word::Minus),
        g_unary(t, i + 1) == got(x, j),
    ensures
        g_unary(t, i) == got(ExprV::UnaryOp(op, Box::new(x)), j),
{
    reveal(g_unary);
}

/// An expression in brackets.
proof fn lemma_brackets(t: Seq<TokenV>, i: int, e: ExprV, j: int, level: int)
    requires
        0 <= i,
        i + 1 < j < t.len(),
        t[i] == token_of(Word::Open),
        t[j] == token_of(Word::Close),
        at(t, i + 1) is Ident ==> !is_cast_type(at(t, i + 1)->Ident_0),
        !sym(t, i + 1, Token::Int),
        g_expr(t, i + 1) == got(e, j),
        stops(t, j + 1, level),
    ensures
        g_unary(t, i) == got(e, j + 1),
{
    reveal(g_unary);
    reveal(g_postfix_tail);
    reveal(g_primary);
    reveal(g_group);
    reveal(g_expr);
    lemma_postfix(t, j + 1, level, e);
    assert(want(t, j, Token::RParen) == Ok::<int, Seq<char>>(j + 1));
    assert(g_group(t, i + 1) == got(e, j + 1));
    assert(g_primary(t, i) == got(e, j + 1));
}

/// An expression that is neither a statement nor an assignment.
proof fn lemma_no_assignment(t: Seq<TokenV>, i: int, e: ExprV, j: int)
    requires
        0 <= i < j < t.len(),
        g_binary(t, i, 0) == got(e, j),
        !sym(t, i, Token::If),
        !sym(t, i, Token::For),
        at(t, i) != TokenV::Ident("ctx"@),
        !sym(t, i + 1, Token::Assign),
        compound_op(at(t, i + 1)) is None,
        !sym(t, j, Token::Question),
    ensures
        g_expr(t, i) == got(e, j),
{
    reveal(g_expr);
    reveal(g_plain_expr);
    reveal(g_ternary);
    reveal(g_binary);
    reveal(source_lvalue);
    assert(g_ternary(t, i) == got(e, j));
    assert(g_plain_expr(t, i) == got(e, j));
}

/// One more operand of an operator.
proof fn lemma_step(
    t: Seq<TokenV>,
    i: int,
    level: int,
    left: ExprV,
    op: Infix,
    right: ExprV,
    j: int,
)
    requires
        0 <= i < t.len(),
        0 <= level < 6,
        infix_op(level, t[i]) == Some(op),
        g_binary(t, i + 1, level + 1) == got(right, j),
        i + 1 < j <= t.len(),
    ensures
        g_binary_tail(t, i, level, left) == g_binary_tail(
            t,
            j,
            level,
            infix_expr(left, op, right),
        ),
{
    reveal(g_binary_tail);
    reveal(g_binary);
}

/// The first operand of a level.
proof fn lemma_first(t: Seq<TokenV>, i: int, level: int, e: ExprV, j: int)
    requires
        0 <= level < 6,
        0 <= i < j <= t.len(),
        g_binary(t, i, level + 1) == got(e, j),
    ensures
        g_binary(t, i, level) == g_binary_tail(t, j, level, e),
{
    reveal(g_binary);
    reveal(g_binary_tail);
}

proof fn lemma_last(t: Seq<TokenV>, j: int, level: int, e: ExprV)
    requires
        infix_op(level, at(t, j)) is None,
    ensures
        g_binary_tail(t, j, level, e) == got(e, j),
{
    reveal(g_binary_tail);
}

/// The operator at the top of an expression, where there is one: its rank, its
/// word, and the operands.
spec fn top(e: ExprV) -> Option<(int, Word, ExprV, ExprV)> {
    match e {
        ExprV::BinOp(l, op, r) => Some((rank(op), Word::Op(op), *l, *r)),
        ExprV::RegexFind(l, r) => Some((2, Word::Find, *l, *r)),
        ExprV::RegexMatchOp(l, r) => Some((2, Word::Match, *l, *r)),
        _ => None,
    }
}

spec fn top_rank(e: ExprV) -> int {
    match top(e) {
        Some((n, _, _, _)) => n,
        None => 6,
    }
}

spec fn top_word(e: ExprV) -> Word {
    match top(e) {
        Some((_, w, _, _)) => w,
        None => Word::Null,
    }
}

/// The operator that a word is.
spec fn infix_of_word(w: Word) -> Infix {
    match w {
        Word::Op(op) => Infix::Plain(op),
        Word::Find => Infix::Find,
        _ => Infix::Match,
    }
}

proof fn lemma_top(e: ExprV, level: int)
    ensures
        top(e) matches Some((n, w, l, r)) ==> {
            &&& 0 <= n < 6
            &&& words(e, level) == bracketed(words(l, n).push(w) + words(r, n + 1), n < level)
            &&& infix_op(n, token_of(w)) == Some(infix_of_word(w))
            &&& infix_expr(l, infix_of_word(w), r) == e
            &&& is_formula(e) ==> is_formula(l) && is_formula(r)
            &&& (w is Op && w->Op_0 == BinOp::Sub) || w is Op || w is Find || w is Match
        },
        top(e) is None && is_formula(e) ==> words(e, level) == words(e, 6),
{
}

/// An operator of a rank ends an expression of a tighter level.
proof fn lemma_operator_stops(t: Seq<TokenV>, j: int, e: ExprV)
    requires
        top(e) is Some,
        0 <= j < t.len(),
        t[j] == token_of(top_word(e)),
    ensures
        stops(t, j, top_rank(e) + 1),
{
    match e {
        ExprV::BinOp(l, op, r) => {
            assert(rank(op) < top_rank(e) + 1 && at(t, j) == token_of(Word::Op(op)));
        },
        _ => {},
    }
}

/// Operands and operators of a level, up to where the level ends.
#[verifier::spinoff_prover]
proof fn lemma_level(t: Seq<TokenV>, i: int, e: ExprV, level: int)
    requires
        is_formula(e),
        0 <= level <= 6,
        stand(t, i, words(e, level)),
        i + words(e, level).len() < t.len(),
        stops(t, i + words(e, level).len(), level),
    ensures
        g_binary(t, i, level) == got(e, i + words(e, level).len()),
    decreases words(e, level).len(), 2 * (7 - level) + 1,
{
    let j = i + words(e, level).len();
    lemma_words(e, level);
    if level < 6 {
        lemma_chain(t, i, e, level);
        lemma_stop(t, j, level, level);
        lemma_last(t, j, level, e);
    } else {
        lemma_tight(t, i, e);
        reveal(g_binary);
    }
}

/// What a level reads before it looks for a further operator.
#[verifier::spinoff_prover]
proof fn lemma_chain(t: Seq<TokenV>, i: int, e: ExprV, level: int)
    requires
        is_formula(e),
        0 <= level < 6,
        stand(t, i, words(e, level)),
        i + words(e, level).len() < t.len(),
        stops(t, i + words(e, level).len(), level + 1),
    ensures
        g_binary(t, i, level) == g_binary_tail(t, i + words(e, level).len(), level, e),
    decreases words(e, level).len(), 2 * (7 - level),
{
    let ws = words(e, level);
    let j = i + ws.len();
    lemma_top(e, level);
    lemma_top(e, level + 1);
    lemma_words(e, level);
    if top(e) is Some && top_rank(e) == level {
        let (n, w, l, r) = top(e)->0;
        let a = words(l, n);
        let b = words(r, n + 1);
        lemma_words(l, n);
        lemma_words(r, n + 1);
        assert(ws == a.push(w) + b);
        assert(ws.len() == a.len() + 1 + b.len());
        let m = i + a.len();
        assert forall|k: int| 0 <= k < a.len() implies t[i + k] == token_of(#[trigger] a[k]) by {
            assert(ws[k] == a[k]);
        }
        assert(ws[a.len() as int] == w);
        assert(t[i + a.len()] == token_of(w));
        assert forall|k: int| 0 <= k < b.len() implies t[m + 1 + k] == token_of(#[trigger] b[k]) by {
            assert(ws[a.len() + 1 + k] == b[k]);
            assert(t[i + (a.len() + 1 + k)] == token_of(ws[a.len() + 1 + k]));
        }
        lemma_operator_stops(t, m, e);
        lemma_chain(t, i, l, level);
        lemma_level(t, m + 1, r, level + 1);
        lemma_step(t, m, level, l, infix_of_word(w), r, j);
    } else {
        assert(words(e, level + 1) == ws);
        lemma_level(t, i, e, level + 1);
        lemma_first(t, i, level, e, j);
    }
}

/// An operand, with brackets where it is made of operators.
#[verifier::spinoff_prover]
proof fn lemma_tight(t: Seq<TokenV>, i: int, e: ExprV)
    requires
        is_formula(e),
        stand(t, i, words(e, 6)),
        i + words(e, 6).len() < t.len(),
        stops(t, i + words(e, 6).len(), 6),
    ensures
        g_unary(t, i) == got(e, i + words(e, 6).len()),
    decreases words(e, 6).len(), 1int,
{
    let ws = words(e, 6);
    let j = i + ws.len();
    lemma_words(e, 6);
    lemma_top(e, 6);
    lemma_top(e, 0);
    if top(e) is Some {
        let inner = words(e, 0);
        lemma_words(e, 0);
        assert(ws == Seq::empty().push(Word::Open) + inner.push(Word::Close));
        assert(ws.len() == inner.len() + 2);
        assert(t[i + 0] == token_of(ws[0]));
        assert(t[i + (ws.len() - 1)] == token_of(ws[ws.len() - 1]));
        assert forall|k: int| 0 <= k < inner.len() implies t[i + 1 + k] == token_of(
            #[trigger] inner[k],
        ) by {
            assert(ws[k + 1] == inner[k]);
            assert(t[i + (k + 1)] == token_of(ws[k + 1]));
        }
        lemma_level(t, i + 1, e, 0);
        lemma_plain(t, i + 1, e);
        assert(t[i + 1 + 0] == token_of(inner[0]));
        assert(is_sound(inner[0]));
        lemma_brackets(t, i, e, j - 1, 6);
    } else if e is UnaryOp {
        let (op, x) = (e->UnaryOp_0, *e->UnaryOp_1);
        let xs = words(x, 6);
        assert(ws.len() == xs.len() + 1);
        assert(t[i + 0] == token_of(ws[0]));
        assert forall|k: int| 0 <= k < xs.len() implies t[i + 1 + k] == token_of(#[trigger] xs[k]) by {
            assert(ws[k + 1] == xs[k]);
            assert(t[i + (k + 1)] == token_of(ws[k + 1]));
        }
        lemma_tight(t, i + 1, x);
        lemma_prefix(t, i, op, x, j);
    } else {
        lemma_leaf(t, i, e, 6);
    }
}

/// A formula on its own is no assignment.
proof fn lemma_plain(t: Seq<TokenV>, i: int, e: ExprV)
    requires
        is_formula(e),
        stand(t, i, words(e, 0)),
        i + words(e, 0).len() < t.len(),
        stops(t, i + words(e, 0).len(), 0),
        g_binary(t, i, 0) == got(e, i + words(e, 0).len()),
    ensures
        g_expr(t, i) == got(e, i + words(e, 0).len()),
{
    let ws = words(e, 0);
    let j = i + ws.len();
    lemma_words(e, 0);
    assert(t[i + 0] == token_of(ws[0]));
    assert(is_sound(ws[0]));
    lemma_postfix(t, j, 0, e);
    if ws.len() > 1 {
        assert(t[i + 1] == token_of(ws[1]));
    }
    lemma_no_assignment(t, i, e, j);
}

/// A formula that is written out, with brackets only where an operator stands
/// below one that binds at least as tightly, is read as that formula and
/// nothing else.
pub proof fn formulas_survive_printing(e: ExprV)
    requires
        is_formula(e),
    ensures
        program_of(script_text(words(e, 0))) == Ok::<Seq<StmtV>, Seq<char>>(
            Seq::empty().push(StmtV::Expr(e)),
        ),
{
    let ws = words(e, 0);
    let c = script_text(ws);
    lemma_words(e, 0);
    assert(ws.skip(0) =~= ws);
    assert(c.skip(0) =~= c);
    assert(tokens(ws.take(0)) =~= Seq::<TokenV>::empty());
    lemma_script(ws, 0, c, 0);
    let t = tokens(ws).push(TokenV::Symbol(Token::Eof));
    let n = ws.len() as int;
    assert forall|k: int| 0 <= k < ws.len() implies t[0 + k] == token_of(#[trigger] ws[k]) by {}
    assert(at(t, n) == TokenV::Symbol(Token::Eof));
    lemma_level(t, 0, e, 0);
    lemma_plain(t, 0, e);
    assert(t[0] == token_of(ws[0]));
    lemma_program(t, e, n);
}

proof fn lemma_program(t: Seq<TokenV>, e: ExprV, n: int)
    requires
        0 < n,
        t.len() == n + 1,
        g_expr(t, 0) == got(e, n),
        t[n] == TokenV::Symbol(Token::Eof),
        t[0] != TokenV::Symbol(Token::Eof),
        t[0] != TokenV::Symbol(Token::Return),
        t[0] != TokenV::Symbol(Token::Def),
        t[0] != TokenV::Symbol(Token::Int),
    ensures
        g_program(t, 0, Seq::empty()) == Ok::<Seq<StmtV>, Seq<char>>(
            Seq::empty().push(StmtV::Expr(e)),
        ),
{
    reveal(g_program);
    reveal(g_stmt);
    reveal(g_expr);
    assert(g_stmt(t, 0) == Ok::<(StmtV, int), Seq<char>>((StmtV::Expr(e), n)));
    let acc = Seq::empty().push(StmtV::Expr(e));
    assert(g_program(t, n, acc) == Ok::<Seq<StmtV>, Seq<char>>(acc));
}

} // verus!
