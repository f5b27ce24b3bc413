//! Splitting a script into tokens.
use crate::double::{Double, DoubleV};
use crate::error::FerroError;
use crate::text::{
    all_digits, char_is_digit, char_is_letter, char_is_white, chars_of, digits_u64, digits_value,
    is_digit, is_letter, is_white, same, string_of,
};
use vstd::prelude::*;

verus! {

broadcast use vstd::string::group_string_axioms;

#[derive(Debug, PartialEq)]
pub enum Token {
    // Literals
    IntLit(i64),
    FloatLit(Double),
    StringLit(String),
    BoolLit(bool),
    Null,
    RegexLit(String),
    // Identifiers and keywords
    Ident(String),
    If,
    Else,
    Return,
    For,
    Def,
    Int,
    New,
    /// `=~`
    RegexFind,
    /// `==~`
    RegexMatch,
    // Operators
    Plus,
    PlusAssign,
    Minus,
    MinusAssign,
    Star,
    StarAssign,
    Slash,
    SlashAssign,
    Percent,
    Eq,
    Neq,
    Gt,
    Lt,
    Gte,
    Lte,
    And,
    Or,
    Not,
    Assign,
    // Delimiters
    LParen,
    RParen,
    LBrace,
    RBrace,
    LBracket,
    RBracket,
    Dot,
    Comma,
    Semicolon,
    Question,
    Colon,
    Eof,
}

/// What a [`Token`] says: a literal with its value, a name, or a fixed
/// symbol, which is itself.
pub enum TokenV {
    IntLit(i64),
    FloatLit(DoubleV),
    StringLit(Seq<char>),
    BoolLit(bool),
    RegexLit(Seq<char>),
    Ident(Seq<char>),
    Symbol(Token),
}

impl View for Token {
    type V = TokenV;

    open spec fn view(&self) -> TokenV {
        match self {
            Token::IntLit(n) => TokenV::IntLit(*n),
            Token::FloatLit(d) => TokenV::FloatLit(d@),
            Token::StringLit(s) => TokenV::StringLit(s@),
            Token::BoolLit(b) => TokenV::BoolLit(*b),
            Token::RegexLit(s) => TokenV::RegexLit(s@),
            Token::Ident(s) => TokenV::Ident(s@),
            _ => TokenV::Symbol(*self),
        }
    }
}

impl Token {
    pub fn copy(&self) -> (r: Token)
        ensures
            r@ == self@,
    {
        match self {
            Token::IntLit(n) => Token::IntLit(*n),
            Token::FloatLit(d) => Token::FloatLit(d.copy()),
            Token::StringLit(s) => Token::StringLit(s.clone()),
            Token::BoolLit(b) => Token::BoolLit(*b),
            Token::Null => Token::Null,
            Token::RegexLit(s) => Token::RegexLit(s.clone()),
            Token::Ident(s) => Token::Ident(s.clone()),
            Token::If => Token::If,
            Token::Else => Token::Else,
            Token::Return => Token::Return,
            Token::For => Token::For,
            Token::Def => Token::Def,
            Token::Int => Token::Int,
            Token::New => Token::New,
            Token::RegexFind => Token::RegexFind,
            Token::RegexMatch => Token::RegexMatch,
            Token::Plus => Token::Plus,
            Token::PlusAssign => Token::PlusAssign,
            Token::Minus => Token::Minus,
            Token::MinusAssign => Token::MinusAssign,
            Token::Star => Token::Star,
            Token::StarAssign => Token::StarAssign,
            Token::Slash => Token::Slash,
            Token::SlashAssign => Token::SlashAssign,
            Token::Percent => Token::Percent,
            Token::Eq => Token::Eq,
            Token::Neq => Token::Neq,
            Token::Gt => Token::Gt,
            Token::Lt => Token::Lt,
            Token::Gte => Token::Gte,
            Token::Lte => Token::Lte,
            Token::And => Token::And,
            Token::Or => Token::Or,
            Token::Not => Token::Not,
            Token::Assign => Token::Assign,
            Token::LParen => Token::LParen,
            Token::RParen => Token::RParen,
            Token::LBrace => Token::LBrace,
            Token::RBrace => Token::RBrace,
            Token::LBracket => Token::LBracket,
            Token::RBracket => Token::RBracket,
            Token::Dot => Token::Dot,
            Token::Comma => Token::Comma,
            Token::Semicolon => Token::Semicolon,
            Token::Question => Token::Question,
            Token::Colon => Token::Colon,
            Token::Eof => Token::Eof,
        }
    }
}

/// The tokens of a list, as they read.
pub open spec fn tokens_view(t: Seq<Token>) -> Seq<TokenV> {
    t.map_values(|x: Token| x@)
}

/// One step of the tokenizer from a position.
pub enum LexStep {
    /// Nothing to report up to this position.
    Skip(int),
    /// A token, and the position behind it.
    Tok(TokenV, int),
    /// The script is refused with this message.
    Fail(Seq<char>),
}

/// The first position at or behind `i` that holds a line break, or the end.
pub open spec fn line_end(c: Seq<char>, i: int) -> int
    decreases c.len() - i,
{
    if i >= c.len() || c[i] == '\n' {
        i
    } else {
        line_end(c, i + 1)
    }
}

/// The first position at or behind `i` that holds no decimal digit, or the end.
pub open spec fn digits_end(c: Seq<char>, i: int) -> int
    decreases c.len() - i,
{
    if i >= c.len() || !is_digit(c[i]) {
        i
    } else {
        digits_end(c, i + 1)
    }
}

/// A character of a name.
pub open spec fn is_word_char(c: char) -> bool {
    is_letter(c) || is_digit(c) || c == '_'
}

/// The first position at or behind `i` that holds no character of a name.
pub open spec fn word_end(c: Seq<char>, i: int) -> int
    decreases c.len() - i,
{
    if i >= c.len() || !is_word_char(c[i]) {
        i
    } else {
        word_end(c, i + 1)
    }
}

/// The pattern of a regex literal that goes on at `i`, behind `acc`, and the
/// position of its closing slash; none if it never closes. An escape stays in
/// the pattern with its backslash, and an escaped slash does not close.
pub open spec fn regex_body(c: Seq<char>, i: int, acc: Seq<char>) -> Option<(Seq<char>, int)>
    decreases c.len() - i,
{
    if i >= c.len() {
        None
    } else if c[i] == '/' {
        Some((acc, i))
    } else if c[i] == '\\' && i + 1 < c.len() {
        regex_body(c, i + 2, acc.push(c[i]).push(c[i + 1]))
    } else {
        regex_body(c, i + 1, acc.push(c[i]))
    }
}

/// What an escaped character of a string literal stands for.
pub open spec fn unescaped(c: char) -> char {
    if c == 'n' {
        '\n'
    } else if c == 't' {
        '\t'
    } else {
        c
    }
}

/// The text of a string literal that goes on at `i`, behind `acc`, and the
/// position of its closing quote; none if it never closes.
pub open spec fn string_body(c: Seq<char>, i: int, quote: char, acc: Seq<char>) -> Option<
    (Seq<char>, int),
>
    decreases c.len() - i,
{
    if i >= c.len() {
        None
    } else if c[i] == quote {
        Some((acc, i))
    } else if c[i] == '\\' && i + 1 < c.len() {
        string_body(c, i + 2, quote, acc.push(unescaped(c[i + 1])))
    } else {
        string_body(c, i + 1, quote, acc.push(c[i]))
    }
}

/// The operator that two characters spell.
pub open spec fn pair_token(a: char, b: char) -> Option<Token> {
    if a == '=' && b == '=' {
        Some(Token::Eq)
    } else if a == '!' && b == '=' {
        Some(Token::Neq)
    } else if a == '>' && b == '=' {
        Some(Token::Gte)
    } else if a == '<' && b == '=' {
        Some(Token::Lte)
    } else if a == '&' && b == '&' {
        Some(Token::And)
    } else if a == '|' && b == '|' {
        Some(Token::Or)
    } else if a == '+' && b == '=' {
        Some(Token::PlusAssign)
    } else if a == '-' && b == '=' {
        Some(Token::MinusAssign)
    } else if a == '*' && b == '=' {
        Some(Token::StarAssign)
    } else if a == '/' && b == '=' {
        Some(Token::SlashAssign)
    } else if a == '=' && b == '~' {
        Some(Token::RegexFind)
    } else {
        None
    }
}

/// The token that one character spells.
pub open spec fn single_token(c: char) -> Option<Token> {
    match c {
        '+' => Some(Token::Plus),
        '-' => Some(Token::Minus),
        '*' => Some(Token::Star),
        '/' => Some(Token::Slash),
        '%' => Some(Token::Percent),
        '>' => Some(Token::Gt),
        '<' => Some(Token::Lt),
        '!' => Some(Token::Not),
        '=' => Some(Token::Assign),
        '(' => Some(Token::LParen),
        ')' => Some(Token::RParen),
        '{' => Some(Token::LBrace),
        '}' => Some(Token::RBrace),
        '[' => Some(Token::LBracket),
        ']' => Some(Token::RBracket),
        '.' => Some(Token::Dot),
        ',' => Some(Token::Comma),
        ';' => Some(Token::Semicolon),
        '?' => Some(Token::Question),
        ':' => Some(Token::Colon),
        _ => None,
    }
}

/// Whether a slash behind the tokens `acc` opens a regex literal: it divides
/// behind a value, and opens a regex anywhere else.
pub open spec fn opens_regex(acc: Seq<TokenV>) -> bool {
    acc.len() == 0 || match acc.last() {
        TokenV::Symbol(t) => !(t is RParen || t is RBracket || t is Null),
        TokenV::RegexLit(_) => true,
        _ => false,
    }
}

/// The token that a word is: a keyword, or a name.
pub open spec fn word_token(w: Seq<char>) -> TokenV {
    if w == "true"@ {
        TokenV::BoolLit(true)
    } else if w == "false"@ {
        TokenV::BoolLit(false)
    } else if w == "null"@ {
        TokenV::Symbol(Token::Null)
    } else if w == "if"@ {
        TokenV::Symbol(Token::If)
    } else if w == "else"@ {
        TokenV::Symbol(Token::Else)
    } else if w == "return"@ {
        TokenV::Symbol(Token::Return)
    } else if w == "for"@ {
        TokenV::Symbol(Token::For)
    } else if w == "def"@ {
        TokenV::Symbol(Token::Def)
    } else if w == "int"@ {
        TokenV::Symbol(Token::Int)
    } else if w == "new"@ {
        TokenV::Symbol(Token::New)
    } else {
        TokenV::Ident(w)
    }
}

/// The number that starts at `i`: digits, and a fraction if a point with a
/// digit behind it follows.
pub open spec fn lex_number(c: Seq<char>, i: int) -> LexStep {
    let e = digits_end(c, i);
    if e + 1 < c.len() && c[e] == '.' && is_digit(c[e + 1]) {
        let f = digits_end(c, e + 1);
        LexStep::Tok(TokenV::FloatLit(DoubleV::Text(c.subrange(i, f))), f)
    } else {
        let n = digits_value(c.subrange(i, e));
        if n <= i64::MAX {
            LexStep::Tok(TokenV::IntLit(n as i64), e)
        } else {
            LexStep::Fail("invalid int: number too large to fit in target type"@)
        }
    }
}

/// What stands at position `i`, behind the tokens `acc`.
pub open spec fn lex_step(c: Seq<char>, i: int, acc: Seq<TokenV>) -> LexStep {
    let ch = c[i];
    if is_white(ch) {
        LexStep::Skip(i + 1)
    } else if ch == '/' && i + 1 < c.len() && c[i + 1] == '/' {
        LexStep::Skip(line_end(c, i))
    } else if i + 2 < c.len() && ch == '=' && c[i + 1] == '=' && c[i + 2] == '~' {
        LexStep::Tok(TokenV::Symbol(Token::RegexMatch), i + 3)
    } else if i + 1 < c.len() && pair_token(ch, c[i + 1]) is Some {
        LexStep::Tok(TokenV::Symbol(pair_token(ch, c[i + 1])->0), i + 2)
    } else if ch == '/' && opens_regex(acc) {
        match regex_body(c, i + 1, Seq::empty()) {
            Some((p, j)) => LexStep::Tok(TokenV::RegexLit(p), j + 1),
            None => LexStep::Fail("unterminated regex literal"@),
        }
    } else if single_token(ch) is Some {
        LexStep::Tok(TokenV::Symbol(single_token(ch)->0), i + 1)
    } else if ch == '\'' || ch == '"' {
        match string_body(c, i + 1, ch, Seq::empty()) {
            Some((s, j)) => LexStep::Tok(TokenV::StringLit(s), j + 1),
            None => LexStep::Fail("unterminated string literal"@),
        }
    } else if is_digit(ch) {
        lex_number(c, i)
    } else if is_letter(ch) || ch == '_' {
        let e = word_end(c, i);
        LexStep::Tok(word_token(c.subrange(i, e)), e)
    } else {
        LexStep::Fail("unexpected character: '"@ + seq![ch] + "'"@)
    }
}

/// The tokens of a script from position `i` on, behind the tokens `acc`; the
/// last one is the end mark. A step that would not move on, or leave the script, counts as the end.
pub open spec fn lex(c: Seq<char>, i: int, acc: Seq<TokenV>) -> Result<Seq<TokenV>, Seq<char>>
    decreases c.len() - i,
{
    if i >= c.len() {
        Ok(acc.push(TokenV::Symbol(Token::Eof)))
    } else {
        match lex_step(c, i, acc) {
            LexStep::Skip(j) => if i < j <= c.len() {
                lex(c, j, acc)
            } else {
                Ok(acc)
            },
            LexStep::Tok(t, j) => if i < j <= c.len() {
                lex(c, j, acc.push(t))
            } else {
                Ok(acc)
            },
            LexStep::Fail(m) => Err(m),
        }
    }
}

/// The tokens of a whole script.
pub open spec fn tokens_of(script: Seq<char>) -> Result<Seq<TokenV>, Seq<char>> {
    lex(script, 0, Seq::empty())
}

proof fn lemma_digits_end(c: Seq<char>, i: int)
    requires
        0 <= i <= c.len(),
    ensures
        i <= digits_end(c, i) <= c.len(),
        all_digits(c.subrange(i, digits_end(c, i))),
    decreases c.len() - i,
{
    if i < c.len() && is_digit(c[i]) {
        lemma_digits_end(c, i + 1);
        let e = digits_end(c, i + 1);
        assert forall|k: int| 0 <= k < e - i implies is_digit(#[trigger] c.subrange(i, e)[k]) by {
            if k > 0 {
                assert(c.subrange(i, e)[k] == c.subrange(i + 1, e)[k - 1]);
            }
        }
    }
}

fn scan_line(c: &Vec<char>, from: usize) -> (r: usize)
    requires
        from <= c@.len(),
    ensures
        r == line_end(c@, from as int),
        from <= r <= c@.len(),
{
    let mut i: usize = from;
    while i < c.len() && c[i] != '\n'
        invariant
            from <= i <= c@.len(),
            line_end(c@, from as int) == line_end(c@, i as int),
        decreases c@.len() - i,
    {
        i += 1;
    }
    i
}

fn scan_digits(c: &Vec<char>, from: usize) -> (r: usize)
    requires
        from <= c@.len(),
    ensures
        r == digits_end(c@, from as int),
        from <= r <= c@.len(),
{
    let mut i: usize = from;
    while i < c.len() && char_is_digit(c[i])
        invariant
            from <= i <= c@.len(),
            digits_end(c@, from as int) == digits_end(c@, i as int),
        decreases c@.len() - i,
    {
        i += 1;
    }
    i
}

fn scan_word(c: &Vec<char>, from: usize) -> (r: usize)
    requires
        from <= c@.len(),
    ensures
        r == word_end(c@, from as int),
        from <= r <= c@.len(),
{
    let mut i: usize = from;
    while i < c.len() && (char_is_letter(c[i]) || char_is_digit(c[i]) || c[i] == '_')
        invariant
            from <= i <= c@.len(),
            word_end(c@, from as int) == word_end(c@, i as int),
        decreases c@.len() - i,
    {
        i += 1;
    }
    i
}

fn scan_regex(c: &Vec<char>, from: usize) -> (r: Option<(String, usize)>)
    requires
        from <= c@.len(),
    ensures
        match r {
            Some((s, j)) => regex_body(c@, from as int, Seq::empty()) == Some((s@, j as int))
                && from <= j < c@.len(),
            None => regex_body(c@, from as int, Seq::empty()) is None,
        },
{
    let mut i: usize = from;
    let mut acc = String::new();
    while i < c.len() && c[i] != '/'
        invariant
            from <= i <= c@.len(),
            regex_body(c@, from as int, Seq::empty()) == regex_body(c@, i as int, acc@),
        decreases c@.len() - i,
    {
        if c[i] == '\\' && c.len() - i > 1 {
            acc.push(c[i]);
            acc.push(c[i + 1]);
            i += 2;
        } else {
            acc.push(c[i]);
            i += 1;
        }
    }
    if i >= c.len() {
        None
    } else {
        Some((acc, i))
    }
}

fn scan_string(c: &Vec<char>, from: usize, quote: char) -> (r: Option<(String, usize)>)
    requires
        from <= c@.len(),
    ensures
        match r {
            Some((s, j)) => string_body(c@, from as int, quote, Seq::empty()) == Some(
                (s@, j as int),
            ) && from <= j < c@.len(),
            None => string_body(c@, from as int, quote, Seq::empty()) is None,
        },
{
    let mut i: usize = from;
    let mut acc = String::new();
    while i < c.len() && c[i] != quote
        invariant
            from <= i <= c@.len(),
            string_body(c@, from as int, quote, Seq::empty()) == string_body(
                c@,
                i as int,
                quote,
                acc@,
            ),
        decreases c@.len() - i,
    {
        if c[i] == '\\' && c.len() - i > 1 {
            let e = c[i + 1];
            if e == 'n' {
                acc.push('\n');
            } else if e == 't' {
                acc.push('\t');
            } else {
                acc.push(e);
            }
            i += 2;
        } else {
            acc.push(c[i]);
            i += 1;
        }
    }
    if i >= c.len() {
        None
    } else {
        Some((acc, i))
    }
}

fn pair_of(a: char, b: char) -> (r: Option<Token>)
    ensures
        r == pair_token(a, b),
        r matches Some(t) ==> t@ == TokenV::Symbol(t),
{
    if b == '=' {
        match a {
            '=' => Some(Token::Eq),
            '!' => Some(Token::Neq),
            '>' => Some(Token::Gte),
            '<' => Some(Token::Lte),
            '+' => Some(Token::PlusAssign),
            '-' => Some(Token::MinusAssign),
            '*' => Some(Token::StarAssign),
            '/' => Some(Token::SlashAssign),
            _ => None,
        }
    } else if a == '&' && b == '&' {
        Some(Token::And)
    } else if a == '|' && b == '|' {
        Some(Token::Or)
    } else if a == '=' && b == '~' {
        Some(Token::RegexFind)
    } else {
        None
    }
}

fn single_of(c: char) -> (r: Option<Token>)
    ensures
        r == single_token(c),
        r matches Some(t) ==> t@ == TokenV::Symbol(t),
{
    match c {
        '+' => Some(Token::Plus),
        '-' => Some(Token::Minus),
        '*' => Some(Token::Star),
        '/' => Some(Token::Slash),
        '%' => Some(Token::Percent),
        '>' => Some(Token::Gt),
        '<' => Some(Token::Lt),
        '!' => Some(Token::Not),
        '=' => Some(Token::Assign),
        '(' => Some(Token::LParen),
        ')' => Some(Token::RParen),
        '{' => Some(Token::LBrace),
        '}' => Some(Token::RBrace),
        '[' => Some(Token::LBracket),
        ']' => Some(Token::RBracket),
        '.' => Some(Token::Dot),
        ',' => Some(Token::Comma),
        ';' => Some(Token::Semicolon),
        '?' => Some(Token::Question),
        ':' => Some(Token::Colon),
        _ => None,
    }
}

fn word_of(w: String) -> (r: Token)
    ensures
        r@ == word_token(w@),
{
    if same(&w, "true") {
        Token::BoolLit(true)
    } else if same(&w, "false") {
        Token::BoolLit(false)
    } else if same(&w, "null") {
        Token::Null
    } else if same(&w, "if") {
        Token::If
    } else if same(&w, "else") {
        Token::Else
    } else if same(&w, "return") {
        Token::Return
    } else if same(&w, "for") {
        Token::For
    } else if same(&w, "def") {
        Token::Def
    } else if same(&w, "int") {
        Token::Int
    } else if same(&w, "new") {
        Token::New
    } else {
        Token::Ident(w)
    }
}

fn regex_may_open(tokens: &Vec<Token>) -> (r: bool)
    ensures
        r == opens_regex(tokens_view(tokens@)),
{
    if tokens.len() == 0 {
        return true;
    }
    let t = &tokens[tokens.len() - 1];
    assert(tokens_view(tokens@).last() == t@);
    !matches!(
        t,
        Token::RParen | Token::RBracket | Token::IntLit(_) | Token::FloatLit(_) | Token::StringLit(
            _,
        ) | Token::BoolLit(_) | Token::Ident(_) | Token::Null,
    )
}

fn number_at(c: &Vec<char>, i: usize) -> (r: Result<(Token, usize), FerroError>)
    requires
        i < c@.len(),
        is_digit(c@[i as int]),
    ensures
        match r {
            Ok((t, j)) => lex_number(c@, i as int) == LexStep::Tok(t@, j as int) && i < j
                <= c@.len(),
            Err(e) => e matches FerroError::QueryParseError(m) && lex_number(c@, i as int)
                == LexStep::Fail(m@),
        },
{
    let e = scan_digits(c, i);
    proof {
        lemma_digits_end(c@, i as int);
        assert(digits_end(c@, i as int) == digits_end(c@, i + 1));
        lemma_digits_end(c@, i + 1);
    }
    if c.len() - e > 1 && c[e] == '.' && char_is_digit(c[e + 1]) {
        let f = scan_digits(c, e + 1);
        let s = string_of(c.as_slice(), i, f);
        Ok((Token::FloatLit(Double::Text(s)), f))
    } else {
        match digits_u64(c.as_slice(), i, e) {
            Some(n) if n <= 0x7fff_ffff_ffff_ffff => Ok((Token::IntLit(n as i64), e)),
            _ => Err(
                FerroError::QueryParseError(
                    "invalid int: number too large to fit in target type".to_owned(),
                ),
            ),
        }
    }
}

/// Splits a script into tokens, the last of which is [`Token::Eof`].
pub fn tokenize(input: &str) -> (r: Result<Vec<Token>, FerroError>)
    ensures
        match r {
            Ok(t) => tokens_of(input@) == Ok::<Seq<TokenV>, Seq<char>>(tokens_view(t@)),
            Err(e) => e matches FerroError::QueryParseError(m) && tokens_of(input@) == Err::<
                Seq<TokenV>,
                Seq<char>,
            >(m@),
        },
{
    let c = chars_of(input);
    let mut tokens: Vec<Token> = Vec::new();
    let mut i: usize = 0;
    assert(tokens_view(tokens@) =~= Seq::<TokenV>::empty());
    while i < c.len()
        invariant
            i <= c@.len(),
            c@ == input@,
            tokens_of(input@) == lex(c@, i as int, tokens_view(tokens@)),
        decreases c@.len() - i,
    {
        let ch = c[i];
        let ghost before = tokens_view(tokens@);
        if char_is_white(ch) {
            i += 1;
            continue;
        }
        if ch == '/' && c.len() - i > 1 && c[i + 1] == '/' {
            assert(line_end(c@, i as int) == line_end(c@, i + 1));
            i = scan_line(&c, i + 1);
            continue;
        }
        if c.len() - i > 2 && ch == '=' && c[i + 1] == '=' && c[i + 2] == '~' {
            tokens.push(Token::RegexMatch);
            assert(tokens_view(tokens@) =~= before.push(TokenV::Symbol(Token::RegexMatch)));
            i += 3;
            continue;
        }
        if c.len() - i > 1 {
            if let Some(t) = pair_of(ch, c[i + 1]) {
                let ghost v = t@;
                tokens.push(t);
                assert(tokens_view(tokens@) =~= before.push(v));
                i += 2;
                continue;
            }
        }
        if ch == '/' && regex_may_open(&tokens) {
            match scan_regex(&c, i + 1) {
                Some((s, j)) => {
                    let ghost v = TokenV::RegexLit(s@);
                    tokens.push(Token::RegexLit(s));
                    assert(tokens_view(tokens@) =~= before.push(v));
                    i = j + 1;
                    continue;
                },
                None => {
                    return Err(
                        FerroError::QueryParseError("unterminated regex literal".to_owned()),
                    );
                },
            }
        }
        if let Some(t) = single_of(ch) {
            let ghost v = t@;
            tokens.push(t);
            assert(tokens_view(tokens@) =~= before.push(v));
            i += 1;
            continue;
        }
        if ch == '\'' || ch == '"' {
            match scan_string(&c, i + 1, ch) {
                Some((s, j)) => {
                    let ghost v = TokenV::StringLit(s@);
                    tokens.push(Token::StringLit(s));
                    assert(tokens_view(tokens@) =~= before.push(v));
                    i = j + 1;
                    continue;
                },
                None => {
                    return Err(
                        FerroError::QueryParseError("unterminated string literal".to_owned()),
                    );
                },
            }
        }
        if char_is_digit(ch) {
            match number_at(&c, i) {
                Ok((t, j)) => {
                    let ghost v = t@;
                    tokens.push(t);
                    assert(tokens_view(tokens@) =~= before.push(v));
                    i = j;
                    continue;
                },
                Err(e) => {
                    return Err(e);
                },
            }
        }
        if char_is_letter(ch) || ch == '_' {
            assert(word_end(c@, i as int) == word_end(c@, i + 1));
            let e = scan_word(&c, i + 1);
            let t = word_of(string_of(c.as_slice(), i, e));
            let ghost v = t@;
            tokens.push(t);
            assert(tokens_view(tokens@) =~= before.push(v));
            i = e;
            continue;
        }
        let mut m = "unexpected character: '".to_owned();
        m.push(ch);
        m.push('\'');
        proof {
            reveal_strlit("'");
            assert(m@ =~= "unexpected character: '"@ + seq![ch] + "'"@);
        }
        return Err(FerroError::QueryParseError(m));
    }
    let ghost before = tokens_view(tokens@);
    tokens.push(Token::Eof);
    assert(tokens_view(tokens@) =~= before.push(TokenV::Symbol(Token::Eof)));
    Ok(tokens)
}

} // verus!
