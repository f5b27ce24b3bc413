//! Laws of tokens: how texts, fractions, comments and patterns are written,
//! and what marks and words stand for.
use crate::double::DoubleV;
use crate::script::token::{
    digits_end, is_word_char, lex_step, line_end, regex_body, string_body, word_end, LexStep,
    Token, TokenV,
};
use crate::text::{all_digits, is_digit, is_letter, is_white};
use vstd::prelude::*;

verus! {

broadcast use vstd::string::group_string_axioms;

/// How a character is written between quotes.
pub open spec fn char_text(ch: char, quote: char) -> Seq<char> {
    if ch == '\n' {
        seq!['\\', 'n']
    } else if ch == '\t' {
        seq!['\\', 't']
    } else if ch == quote || ch == '\\' {
        seq!['\\', ch]
    } else {
        seq![ch]
    }
}

/// How a text is written between quotes.
pub open spec fn inner_text(s: Seq<char>, quote: char) -> Seq<char>
    decreases s.len(),
{
    if s.len() == 0 {
        Seq::empty()
    } else {
        char_text(s[0], quote) + inner_text(s.drop_first(), quote)
    }
}

proof fn lemma_inner(
    c: Seq<char>,
    i: int,
    s: Seq<char>,
    rest: Seq<char>,
    quote: char,
    acc: Seq<char>,
)
    requires
        quote == '"' || quote == '\'',
        0 <= i <= c.len(),
        c.skip(i) == inner_text(s, quote) + seq![quote] + rest,
    ensures
        string_body(c, i, quote, acc) == Some((acc + s, i + inner_text(s, quote).len())),
    decreases s.len(),
{
    let t = c.skip(i);
    assert(t.len() == inner_text(s, quote).len() + 1 + rest.len());
    assert(c.len() == i + t.len());
    if s.len() == 0 {
        assert(c[i] == t[0]);
        assert(t[0] == quote);
        assert(acc + s =~= acc);
    } else {
        let x = char_text(s[0], quote);
        let more = inner_text(s.drop_first(), quote);
        let n = x.len() as int;
        assert(t =~= x + (more + seq![quote] + rest));
        assert(c.skip(i + n) =~= t.skip(n));
        assert(c.skip(i + n) =~= more + seq![quote] + rest);
        let next = acc.push(s[0]);
        lemma_inner(c, i + n, s.drop_first(), rest, quote, next);
        assert(next + s.drop_first() =~= acc + s);
        assert(c[i] == t[0] && t[0] == x[0]);
        if n == 2 {
            assert(c[i + 1] == t[1] && t[1] == x[1]);
        }
        assert(string_body(c, i, quote, acc) == string_body(c, i + n, quote, next));
    }
}

/// A text between quotes of either kind, with a backslash before quotes and
/// backslashes and with `\n` and `\t` for breaks and tabs, is read as itself.
pub proof fn texts_survive_their_quotes(
    before: Seq<char>,
    s: Seq<char>,
    rest: Seq<char>,
    quote: char,
    acc: Seq<TokenV>,
)
    requires
        quote == '"' || quote == '\'',
    ensures
        ({
            let text = seq![quote] + inner_text(s, quote) + seq![quote];
            lex_step(before + text + rest, before.len() as int, acc) == LexStep::Tok(
                TokenV::StringLit(s),
                (before.len() + text.len()) as int,
            )
        }),
{
    let text = seq![quote] + inner_text(s, quote) + seq![quote];
    let c = before + text + rest;
    let i = before.len() as int;
    assert(c[i] == quote);
    assert(c.skip(i + 1) =~= inner_text(s, quote) + seq![quote] + rest);
    lemma_inner(c, i + 1, s, rest, quote, Seq::empty());
    assert(Seq::<char>::empty() + s =~= s);
}

proof fn lemma_digits(c: Seq<char>, i: int, e: int)
    requires
        0 <= i <= e <= c.len(),
        forall|k: int| i <= k < e ==> is_digit(#[trigger] c[k]),
        e < c.len() ==> !is_digit(c[e]),
    ensures
        digits_end(c, i) == e,
    decreases e - i,
{
    if i < e {
        assert(is_digit(c[i]));
        lemma_digits(c, i + 1, e);
    }
}

/// Digits, a point and digits are one number, with all its digits; a point
/// without digits behind it is not part of a number.
pub proof fn fractions_keep_their_digits(
    before: Seq<char>,
    whole: Seq<char>,
    part: Seq<char>,
    rest: Seq<char>,
    acc: Seq<TokenV>,
)
    requires
        whole.len() > 0,
        part.len() > 0,
        all_digits(whole),
        all_digits(part),
        rest.len() > 0 ==> !is_digit(rest[0]),
    ensures
        ({
            let text = whole + seq!['.'] + part;
            lex_step(before + text + rest, before.len() as int, acc) == LexStep::Tok(
                TokenV::FloatLit(DoubleV::Text(text)),
                (before.len() + text.len()) as int,
            )
        }),
{
    let text = whole + seq!['.'] + part;
    let c = before + text + rest;
    let i = before.len() as int;
    let e = i + whole.len();
    let f = e + 1 + part.len();
    assert forall|k: int| i <= k < e implies is_digit(#[trigger] c[k]) by {
        assert(c[k] == whole[k - i]);
    }
    assert(c[e] == '.');
    assert forall|k: int| e + 1 <= k < f implies is_digit(#[trigger] c[k]) by {
        assert(c[k] == part[k - e - 1]);
    }
    if f < c.len() {
        assert(c[f] == rest[0]);
    }
    lemma_digits(c, i, e);
    lemma_digits(c, e + 1, f);
    assert(is_digit(c[i]));
    assert(is_digit(c[e + 1]));
    assert(c.subrange(i, f) =~= text);
}

/// A comment goes from two slashes to the end of its line, and no further.
pub proof fn comments_end_with_their_line(
    before: Seq<char>,
    comment: Seq<char>,
    rest: Seq<char>,
    acc: Seq<TokenV>,
)
    requires
        !comment.contains('\n'),
        rest.len() > 0 ==> rest[0] == '\n',
    ensures
        lex_step(before + seq!['/', '/'] + comment + rest, before.len() as int, acc)
            == LexStep::Skip((before.len() + 2 + comment.len()) as int),
{
    let c = before + seq!['/', '/'] + comment + rest;
    let i = before.len() as int;
    let e = i + 2 + comment.len();
    assert(c[i] == '/' && c[i + 1] == '/');
    assert forall|k: int| i <= k < e implies (#[trigger] c[k]) != '\n' by {
        if k >= i + 2 {
            assert(c[k] == comment[k - i - 2]);
            assert(comment.contains(comment[k - i - 2]));
        }
    }
    if e < c.len() {
        assert(c[e] == rest[0]);
    }
    lemma_line_end(c, i, e);
}

proof fn lemma_line_end(c: Seq<char>, i: int, e: int)
    requires
        0 <= i <= e <= c.len(),
        forall|k: int| i <= k < e ==> (#[trigger] c[k]) != '\n',
        e < c.len() ==> c[e] == '\n',
    ensures
        line_end(c, i) == e,
    decreases e - i,
{
    if i < e {
        assert(c[i] != '\n');
        lemma_line_end(c, i + 1, e);
    }
}

proof fn lemma_pattern(c: Seq<char>, i: int, e: int, acc: Seq<char>)
    requires
        0 <= i <= e < c.len(),
        forall|k: int| i <= k < e ==> (#[trigger] c[k]) != '/' && c[k] != '\\',
        c[e] == '/',
    ensures
        regex_body(c, i, acc) == Some((acc + c.subrange(i, e), e)),
    decreases e - i,
{
    if i < e {
        assert(c[i] != '/');
        lemma_pattern(c, i + 1, e, acc.push(c[i]));
        assert(acc.push(c[i]) + c.subrange(i + 1, e) =~= acc + c.subrange(i, e));
    } else {
        assert(acc + c.subrange(i, e) =~= acc);
    }
}

/// What stands between slashes is a pattern where no value goes before it, and
/// a slash behind a value divides.
pub proof fn slashes_open_patterns(
    before: Seq<char>,
    pattern: Seq<char>,
    rest: Seq<char>,
    acc: Seq<TokenV>,
)
    requires
        pattern.len() > 0,
        pattern[0] != '=',
        forall|k: int| 0 <= k < pattern.len() ==> (#[trigger] pattern[k]) != '/' && pattern[k] != '\\',
    ensures
        ({
            let c = before + seq!['/'] + pattern + seq!['/'] + rest;
            let i = before.len() as int;
            let behind_value = acc.len() > 0 && (acc.last() is IntLit || acc.last() is FloatLit
                || acc.last() is Ident || acc.last() is StringLit || acc.last() is BoolLit
                || acc.last() == TokenV::Symbol(Token::RParen) || acc.last() == TokenV::Symbol(
                Token::RBracket,
            ) || acc.last() == TokenV::Symbol(Token::Null));
            if behind_value {
                lex_step(c, i, acc) == LexStep::Tok(TokenV::Symbol(Token::Slash), i + 1)
            } else {
                lex_step(c, i, acc) == LexStep::Tok(
                    TokenV::RegexLit(pattern),
                    i + 2 + pattern.len(),
                )
            }
        }),
{
    let c = before + seq!['/'] + pattern + seq!['/'] + rest;
    let i = before.len() as int;
    let e = i + 1 + pattern.len();
    assert(c[i] == '/' && c[i + 1] == pattern[0] && c[e] == '/');
    assert forall|k: int| i + 1 <= k < e implies (#[trigger] c[k]) != '/' && c[k] != '\\' by {
        assert(c[k] == pattern[k - i - 1]);
    }
    lemma_pattern(c, i + 1, e, Seq::empty());
    assert(Seq::<char>::empty() + c.subrange(i + 1, e) =~= pattern);
}

/// The mark that a character is, if it is one of those that stand alone.
pub open spec fn mark(ch: char) -> Option<Token> {
    if ch == '(' {
        Some(Token::LParen)
    } else if ch == ')' {
        Some(Token::RParen)
    } else if ch == '{' {
        Some(Token::LBrace)
    } else if ch == '}' {
        Some(Token::RBrace)
    } else if ch == '[' {
        Some(Token::LBracket)
    } else if ch == ']' {
        Some(Token::RBracket)
    } else if ch == '.' {
        Some(Token::Dot)
    } else if ch == ',' {
        Some(Token::Comma)
    } else if ch == ';' {
        Some(Token::Semicolon)
    } else if ch == '?' {
        Some(Token::Question)
    } else if ch == ':' {
        Some(Token::Colon)
    } else {
        None
    }
}

/// Brackets, points and the like are read wherever they stand; an operator with
/// an equals sign behind it assigns; white space is passed over.
pub proof fn marks_stand_for_themselves(c: Seq<char>, i: int, acc: Seq<TokenV>)
    requires
        0 <= i < c.len(),
    ensures
        mark(c[i]) matches Some(t) ==> lex_step(c, i, acc) == LexStep::Tok(
            TokenV::Symbol(t),
            i + 1,
        ),
        i + 1 < c.len() && c[i + 1] == '=' ==> {
            &&& c[i] == '+' ==> lex_step(c, i, acc) == LexStep::Tok(
                TokenV::Symbol(Token::PlusAssign),
                i + 2,
            )
            &&& c[i] == '-' ==> lex_step(c, i, acc) == LexStep::Tok(
                TokenV::Symbol(Token::MinusAssign),
                i + 2,
            )
            &&& c[i] == '*' ==> lex_step(c, i, acc) == LexStep::Tok(
                TokenV::Symbol(Token::StarAssign),
                i + 2,
            )
            &&& c[i] == '/' ==> lex_step(c, i, acc) == LexStep::Tok(
                TokenV::Symbol(Token::SlashAssign),
                i + 2,
            )
        },
        c[i] == '=' && (i + 1 == c.len() || (c[i + 1] != '=' && c[i + 1] != '~')) ==> lex_step(
            c,
            i,
            acc,
        ) == LexStep::Tok(TokenV::Symbol(Token::Assign), i + 1),
        is_white(c[i]) ==> lex_step(c, i, acc) == LexStep::Skip(i + 1),
{
}

proof fn lemma_word(c: Seq<char>, i: int, e: int)
    requires
        0 <= i <= e <= c.len(),
        forall|k: int| i <= k < e ==> is_word_char(#[trigger] c[k]),
        e < c.len() ==> !is_word_char(c[e]),
    ensures
        word_end(c, i) == e,
    decreases e - i,
{
    if i < e {
        assert(is_word_char(c[i]));
        lemma_word(c, i + 1, e);
    }
}

/// A word is read whole: the words of the language as what they are, and any
/// other as a name.
pub proof fn words_are_read_whole(
    before: Seq<char>,
    w: Seq<char>,
    rest: Seq<char>,
    acc: Seq<TokenV>,
)
    requires
        w.len() > 0,
        is_letter(w[0]) || w[0] == '_',
        forall|k: int| 0 <= k < w.len() ==> is_word_char(#[trigger] w[k]),
        rest.len() > 0 ==> !is_word_char(rest[0]),
    ensures
        lex_step(before + w + rest, before.len() as int, acc) matches LexStep::Tok(t, j) && {
            &&& j == before.len() + w.len()
            &&& t == TokenV::Symbol(Token::If) <==> w == "if"@
            &&& t == TokenV::Symbol(Token::Else) <==> w == "else"@
            &&& t == TokenV::Symbol(Token::Return) <==> w == "return"@
            &&& t == TokenV::Symbol(Token::For) <==> w == "for"@
            &&& t == TokenV::Symbol(Token::Def) <==> w == "def"@
            &&& t == TokenV::Symbol(Token::Int) <==> w == "int"@
            &&& t == TokenV::Symbol(Token::New) <==> w == "new"@
            &&& t == TokenV::Symbol(Token::Null) <==> w == "null"@
            &&& t == TokenV::BoolLit(true) <==> w == "true"@
            &&& t == TokenV::BoolLit(false) <==> w == "false"@
            &&& t is Ident ==> t == TokenV::Ident(w)
        },
{
    reveal_strlit("if");
    reveal_strlit("else");
    reveal_strlit("return");
    reveal_strlit("for");
    reveal_strlit("def");
    reveal_strlit("int");
    reveal_strlit("new");
    reveal_strlit("null");
    reveal_strlit("true");
    reveal_strlit("false");
    assert("for"@[0] == 'f' && "def"@[0] == 'd' && "int"@[0] == 'i' && "new"@[0] == 'n');
    assert("null"@[0] == 'n' && "true"@[0] == 't' && "else"@[0] == 'e');
    let c = before + w + rest;
    let i = before.len() as int;
    let e = i + w.len();
    assert(c[i] == w[0]);
    assert forall|k: int| i <= k < e implies is_word_char(#[trigger] c[k]) by {
        assert(c[k] == w[k - i]);
    }
    if e < c.len() {
        assert(c[e] == rest[0]);
    }
    lemma_word(c, i, e);
    assert(c.subrange(i, e) =~= w);
}

} // verus!
