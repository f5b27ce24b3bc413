//! Recursive descent over the tokens of a script.
use crate::double::Double;
use crate::error::FerroError;
use crate::script::ast::{exprs_view, stmts_view, BinOp, Expr, ExprV, Stmt, StmtV, UnaryOp};
use crate::script::grammar::{
    at, compound_op, dotted, dotted_fields, double_shown, g_args, g_array, g_binary, g_binary_tail,
    g_block, g_block_tail, g_call, g_ctx, g_doc, g_expr, g_for, g_group, g_if, g_list_tail,
    g_named, g_params, g_plain_expr, g_postfix_tail, g_primary, g_program, g_stmt, g_ternary,
    g_unary, infix_op, is_cast_type, is_class, past_semicolon, quoted, source_lvalue, sym,
    symbol_name, token_shown, E_BITS, Infix, PI_BITS, Read,
};
use crate::script::token::{tokenize, tokens_of, tokens_view, Token, TokenV};
use crate::text::{i64_text, join2, join3, same, u64_text};
use vstd::prelude::*;

verus! {

broadcast use vstd::string::group_string_axioms;

/// What a script reads as: its statements, or why it is refused.
pub open spec fn program_of(script: Seq<char>) -> Result<Seq<StmtV>, Seq<char>> {
    match tokens_of(script) {
        Ok(t) => g_program(t, 0, Seq::empty()),
        Err(m) => Err(m),
    }
}

/// Whether `r` and `pos` are what was read.
pub open spec fn reads_expr(r: Result<Expr, FerroError>, s: Read<ExprV>, pos: int) -> bool {
    match (r, s) {
        (Ok(e), Ok((v, j))) => e.view() == v && pos == j,
        (Err(FerroError::QueryParseError(m)), Err(w)) => m@ == w,
        _ => false,
    }
}

/// Whether `r` and `pos` are what was read.
pub open spec fn reads_stmt(r: Result<Stmt, FerroError>, s: Read<StmtV>, pos: int) -> bool {
    match (r, s) {
        (Ok(e), Ok((v, j))) => e.view() == v && pos == j,
        (Err(FerroError::QueryParseError(m)), Err(w)) => m@ == w,
        _ => false,
    }
}

/// Whether `r` and `pos` are what was read.
pub open spec fn reads_exprs(
    r: Result<Vec<Expr>, FerroError>,
    s: Read<Seq<ExprV>>,
    pos: int,
) -> bool {
    match (r, s) {
        (Ok(e), Ok((v, j))) => exprs_view(e@) == v && pos == j,
        (Err(FerroError::QueryParseError(m)), Err(w)) => m@ == w,
        _ => false,
    }
}

/// Whether `r` and `pos` are what was read.
pub open spec fn reads_stmts(
    r: Result<Vec<Stmt>, FerroError>,
    s: Read<Seq<StmtV>>,
    pos: int,
) -> bool {
    match (r, s) {
        (Ok(e), Ok((v, j))) => stmts_view(e@) == v && pos == j,
        (Err(FerroError::QueryParseError(m)), Err(w)) => m@ == w,
        _ => false,
    }
}

/// Whether `r` is the program `s`.
pub open spec fn reads_program(
    r: Result<Vec<Stmt>, FerroError>,
    s: Result<Seq<StmtV>, Seq<char>>,
) -> bool {
    match (r, s) {
        (Ok(e), Ok(v)) => stmts_view(e@) == v,
        (Err(FerroError::QueryParseError(m)), Err(w)) => m@ == w,
        _ => false,
    }
}

fn refuse<T>(m: &str) -> (r: Result<T, FerroError>)
    ensures
        r matches Err(FerroError::QueryParseError(w)) && w@ == m@,
{
    Err(FerroError::QueryParseError(m.to_owned()))
}

fn symbol_text(t: &Token) -> (r: &'static str)
    requires
        t@ is Symbol,
    ensures
        r@ == symbol_name(*t),
{
    match t {
        Token::Null => "Null",
        Token::If => "If",
        Token::Else => "Else",
        Token::Return => "Return",
        Token::For => "For",
        Token::Def => "Def",
        Token::Int => "Int",
        Token::New => "New",
        Token::RegexFind => "RegexFind",
        Token::RegexMatch => "RegexMatch",
        Token::Plus => "Plus",
        Token::PlusAssign => "PlusAssign",
        Token::Minus => "Minus",
        Token::MinusAssign => "MinusAssign",
        Token::Star => "Star",
        Token::StarAssign => "StarAssign",
        Token::Slash => "Slash",
        Token::SlashAssign => "SlashAssign",
        Token::Percent => "Percent",
        Token::Eq => "Eq",
        Token::Neq => "Neq",
        Token::Gt => "Gt",
        Token::Lt => "Lt",
        Token::Gte => "Gte",
        Token::Lte => "Lte",
        Token::And => "And",
        Token::Or => "Or",
        Token::Not => "Not",
        Token::Assign => "Assign",
        Token::LParen => "LParen",
        Token::RParen => "RParen",
        Token::LBrace => "LBrace",
        Token::RBrace => "RBrace",
        Token::LBracket => "LBracket",
        Token::RBracket => "RBracket",
        Token::Dot => "Dot",
        Token::Comma => "Comma",
        Token::Semicolon => "Semicolon",
        Token::Question => "Question",
        Token::Colon => "Colon",
        _ => "Eof",
    }
}

fn show_double(d: &Double) -> (r: String)
    ensures
        r@ == double_shown(d@),
{
    match d {
        Double::Text(s) => s.clone(),
        Double::Bits(b) => join2("bits ", &u64_text(*b)),
        Double::Int(n) => join2(&i64_text(*n), ".0"),
    }
}

fn show_token(t: &Token) -> (r: String)
    ensures
        r@ == token_shown(t@),
{
    reveal(token_shown);
    match t {
        Token::IntLit(n) => join3("IntLit(", &i64_text(*n), ")"),
        Token::FloatLit(d) => join3("FloatLit(", &show_double(d), ")"),
        Token::StringLit(s) => join3("StringLit(", &quoted(s), ")"),
        Token::BoolLit(b) => if *b {
            "BoolLit(true)".to_owned()
        } else {
            "BoolLit(false)".to_owned()
        },
        Token::RegexLit(s) => join3("RegexLit(", &quoted(s), ")"),
        Token::Ident(s) => join3("Ident(", &quoted(s), ")"),
        _ => symbol_text(t).to_owned(),
    }
}

fn compound_assign_op(t: Option<&Token>) -> (r: Option<BinOp>)
    ensures
        r == match t {
            Some(k) => compound_op(k@),
            None => None,
        },
{
    match t {
        Some(Token::PlusAssign) => Some(BinOp::Add),
        Some(Token::MinusAssign) => Some(BinOp::Sub),
        Some(Token::StarAssign) => Some(BinOp::Mul),
        Some(Token::SlashAssign) => Some(BinOp::Div),
        _ => None,
    }
}

fn infix_of(level: u8, t: Option<&Token>) -> (r: Option<Infix>)
    requires
        level < 6,
    ensures
        r == match t {
            Some(k) => infix_op(level as int, k@),
            None => None,
        },
{
    let t = match t {
        Some(t) => t,
        None => return None,
    };
    match level {
        0 => match t {
            Token::Or => Some(Infix::Plain(BinOp::Or)),
            _ => None,
        },
        1 => match t {
            Token::And => Some(Infix::Plain(BinOp::And)),
            _ => None,
        },
        2 => match t {
            Token::Eq => Some(Infix::Plain(BinOp::Eq)),
            Token::Neq => Some(Infix::Plain(BinOp::Neq)),
            Token::RegexFind => Some(Infix::Find),
            Token::RegexMatch => Some(Infix::Match),
            _ => None,
        },
        3 => match t {
            Token::Gt => Some(Infix::Plain(BinOp::Gt)),
            Token::Lt => Some(Infix::Plain(BinOp::Lt)),
            Token::Gte => Some(Infix::Plain(BinOp::Gte)),
            Token::Lte => Some(Infix::Plain(BinOp::Lte)),
            _ => None,
        },
        4 => match t {
            Token::Plus => Some(Infix::Plain(BinOp::Add)),
            Token::Minus => Some(Infix::Plain(BinOp::Sub)),
            _ => None,
        },
        _ => match t {
            Token::Star => Some(Infix::Plain(BinOp::Mul)),
            Token::Slash => Some(Infix::Plain(BinOp::Div)),
            Token::Percent => Some(Infix::Plain(BinOp::Mod)),
            _ => None,
        },
    }
}

fn cast_type(s: &str) -> (r: bool)
    ensures
        r == is_cast_type(s@),
{
    same(s, "int") || same(s, "long") || same(s, "float") || same(s, "double") || same(s, "String")
        || same(s, "boolean")
}

fn class_name(s: &str) -> (r: bool)
    ensures
        r == is_class(s@),
{
    same(s, "Integer") || same(s, "Long") || same(s, "Float") || same(s, "Double") || same(
        s,
        "String",
    ) || same(s, "Boolean")
}

/// Tokens and the position of the next one.
pub struct Parser {
    tokens: Vec<Token>,
    pos: usize,
}

impl Parser {
    /// The tokens, as they read.
    pub closed spec fn toks(&self) -> Seq<TokenV> {
        tokens_view(self.tokens@)
    }

    /// The position of the next token.
    pub closed spec fn at(&self) -> int {
        self.pos as int
    }

    /// The position is among the tokens or right behind them.
    pub closed spec fn wf(&self) -> bool {
        self.pos <= self.tokens@.len()
    }

    spec fn later(&self, o: &Parser) -> bool {
        self.tokens == o.tokens && o.pos <= self.pos <= self.tokens@.len()
    }

    pub fn new(tokens: Vec<Token>) -> (r: Self)
        ensures
            r.wf(),
            r.toks() == tokens_view(tokens@),
            r.at() == 0,
    {
        Self { tokens, pos: 0 }
    }

    fn look(&self, ahead: usize) -> (r: Option<&Token>)
        requires
            self.wf(),
        ensures
            match r {
                Some(t) => at(self.toks(), self.pos + ahead) == t@ && self.pos + ahead
                    < self.tokens@.len(),
                None => at(self.toks(), self.pos + ahead) == TokenV::Symbol(Token::Eof),
            },
    {
        if ahead < self.tokens.len() - self.pos {
            Some(&self.tokens[self.pos + ahead])
        } else {
            None
        }
    }

    fn skip(&mut self, n: usize)
        requires
            old(self).pos + n <= old(self).tokens.len(),
        ensures
            final(self).tokens == old(self).tokens,
            final(self).pos == old(self).pos + n,
    {
        self.pos = self.pos + n;
    }

    fn shown(&self) -> (r: String)
        requires
            self.wf(),
        ensures
            r@ == token_shown(at(self.toks(), self.pos as int)),
    {
        proof {
            reveal(token_shown);
        }
        match self.look(0) {
            Some(t) => show_token(t),
            None => "Eof".to_owned(),
        }
    }

    fn wanted<T>(&self, name: &str) -> (r: Result<T, FerroError>)
        requires
            self.wf(),
        ensures
            r matches Err(FerroError::QueryParseError(m)) && m@ == "expected "@ + name@ + ", got "@
                + token_shown(at(self.toks(), self.pos as int)),
    {
        let mut m = join3("expected ", name, ", got ");
        m.append(&self.shown());
        Err(FerroError::QueryParseError(m))
    }

    fn skip_semicolon(&mut self)
        requires
            old(self).wf(),
        ensures
            final(self).later(old(self)),
            final(self).pos == past_semicolon(old(self).toks(), old(self).pos as int),
    {
        if matches!(self.look(0), Some(Token::Semicolon)) {
            self.skip(1);
        }
    }

    /// Reads all statements up to the end mark.
    pub fn parse_program(&mut self) -> (r: Result<Vec<Stmt>, FerroError>)
        requires
            old(self).wf(),
        ensures
            final(self).wf(),
            final(self).toks() == old(self).toks(),
            reads_program(r, g_program(old(self).toks(), old(self).at(), Seq::empty())),
    {
        proof {
            reveal(g_stmt);
            reveal(g_program);
        }
        let mut stmts: Vec<Stmt> = Vec::new();
        assert(stmts_view(stmts@) =~= Seq::<StmtV>::empty());
        while !matches!(self.look(0), None | Some(Token::Eof))
            invariant
                self.later(old(self)),
                g_program(old(self).toks(), old(self).at(), Seq::empty()) == g_program(
                    self.toks(),
                    self.pos as int,
                    stmts_view(stmts@),
                ),
            decreases self.tokens@.len() - self.pos,
        {
            proof {
                reveal(g_stmt);
                reveal(g_program);
            }
            let ghost before = stmts_view(stmts@);
            match self.parse_stmt() {
                Ok(s) => {
                    let ghost v = s.view();
                    stmts.push(s);
                    assert(stmts_view(stmts@) =~= before.push(v));
                },
                Err(e) => return Err(e),
            }
        }
        Ok(stmts)
    }

    fn parse_stmt(&mut self) -> (r: Result<Stmt, FerroError>)
        requires
            old(self).wf(),
        ensures
            final(self).later(old(self)),
            r is Ok ==> old(self).pos < final(self).pos,
            reads_stmt(r, g_stmt(old(self).toks(), old(self).pos as int), final(self).pos as int),
        decreases old(self).tokens@.len() - old(self).pos, 16int,
    {
        proof {
            reveal(g_expr);
            reveal(g_stmt);
        }
        if matches!(self.look(0), Some(Token::Return)) {
            self.skip(1);
            return match self.parse_expr() {
                Ok(e) => {
                    self.skip_semicolon();
                    Ok(Stmt::Return(e))
                },
                Err(e) => Err(e),
            };
        }
        if matches!(self.look(0), Some(Token::Def | Token::Int)) {
            let name = match self.look(1) {
                Some(Token::Ident(name)) => name.clone(),
                _ => return refuse("expected variable name after type"),
            };
            if matches!(self.look(2), Some(Token::Assign)) {
                self.skip(3);
                return match self.parse_expr() {
                    Ok(e) => {
                        self.skip_semicolon();
                        Ok(Stmt::VarDecl(name, e))
                    },
                    Err(e) => Err(e),
                };
            }
            self.skip(2);
            self.skip_semicolon();
            return Ok(Stmt::VarDecl(name, Expr::NullLit));
        }
        match self.parse_expr() {
            Ok(e) => {
                self.skip_semicolon();
                Ok(Stmt::Expr(e))
            },
            Err(e) => Err(e),
        }
    }

    fn parse_expr(&mut self) -> (r: Result<Expr, FerroError>)
        requires
            old(self).wf(),
        ensures
            final(self).later(old(self)),
            r is Ok ==> old(self).pos < final(self).pos,
            reads_expr(r, g_expr(old(self).toks(), old(self).pos as int), final(self).pos as int),
        decreases old(self).tokens@.len() - old(self).pos, 15int,
    {
        proof {
            reveal(g_if);
            reveal(g_for);
            reveal(g_plain_expr);
            reveal(g_expr);
        }
        if matches!(self.look(0), Some(Token::If)) {
            return self.parse_if();
        }
        if matches!(self.look(0), Some(Token::For)) {
            return self.parse_for();
        }
        let start = self.pos;
        if let Some(field) = self.try_parse_source_lvalue() {
            if matches!(self.look(0), Some(Token::Assign)) {
                self.skip(1);
                return match self.parse_expr() {
                    Ok(e) => Ok(Expr::Assign(field, Box::new(e))),
                    Err(e) => Err(e),
                };
            }
            if let Some(op) = compound_assign_op(self.look(0)) {
                self.skip(1);
                return match self.parse_expr() {
                    Ok(e) => Ok(Expr::CompoundAssign(field, op, Box::new(e))),
                    Err(e) => Err(e),
                };
            }
        }
        self.pos = start;
        self.parse_plain_expr()
    }

    fn parse_plain_expr(&mut self) -> (r: Result<Expr, FerroError>)
        requires
            old(self).wf(),
        ensures
            final(self).later(old(self)),
            r is Ok ==> old(self).pos < final(self).pos,
            reads_expr(
                r,
                g_plain_expr(old(self).toks(), old(self).pos as int),
                final(self).pos as int,
            ),
        decreases old(self).tokens@.len() - old(self).pos, 14int,
    {
        proof {
            reveal(g_expr);
            reveal(g_ternary);
            reveal(g_plain_expr);
        }
        if let Some(Token::Ident(name)) = self.look(0) {
            let name = name.clone();
            if matches!(self.look(1), Some(Token::Assign)) {
                self.skip(2);
                return match self.parse_expr() {
                    Ok(e) => Ok(Expr::VarDecl(name, Box::new(e))),
                    Err(e) => Err(e),
                };
            }
            if let Some(op) = compound_assign_op(self.look(1)) {
                self.skip(2);
                return match self.parse_expr() {
                    Ok(e) => Ok(Expr::VarCompoundAssign(name, op, Box::new(e))),
                    Err(e) => Err(e),
                };
            }
        }
        self.parse_ternary()
    }

    fn take_dotted(&mut self, first: String, fields: bool) -> (r: String)
        requires
            old(self).wf(),
        ensures
            final(self).later(old(self)),
            !fields ==> dotted(old(self).toks(), old(self).pos as int, first@) == (
                r@,
                final(self).pos as int,
            ),
            fields ==> dotted_fields(old(self).toks(), old(self).pos as int, first@) == (
                r@,
                final(self).pos as int,
            ),
    {
        proof {
            reveal(dotted);
            reveal(dotted_fields);
        }
        let mut path = first;
        loop
            invariant
                self.later(old(self)),
                !fields ==> dotted(old(self).toks(), old(self).pos as int, first@) == dotted(
                    self.toks(),
                    self.pos as int,
                    path@,
                ),
                fields ==> dotted_fields(old(self).toks(), old(self).pos as int, first@)
                    == dotted_fields(self.toks(), self.pos as int, path@),
            decreases self.tokens@.len() - self.pos,
        {
            proof {
                reveal(dotted);
                reveal(dotted_fields);
            }
            if !matches!(self.look(0), Some(Token::Dot)) {
                return path;
            }
            let next = match self.look(1) {
                Some(Token::Ident(s)) => s.clone(),
                _ => return path,
            };
            if fields && matches!(self.look(2), Some(Token::LParen)) {
                return path;
            }
            path = join3(&path, ".", &next);
            self.skip(2);
        }
    }

    fn try_parse_source_lvalue(&mut self) -> (r: Option<String>)
        requires
            old(self).wf(),
        ensures
            final(self).later(old(self)),
            r is Some ==> old(self).pos < final(self).pos,
            source_lvalue(old(self).toks(), old(self).pos as int) == (match r {
                Some(s) => Some((s@, final(self).pos as int)),
                None => None,
            }),
    {
        proof {
            reveal(source_lvalue);
        }
        let is_ctx = match self.look(0) {
            Some(Token::Ident(s)) => same(s, "ctx"),
            _ => false,
        };
        if !is_ctx || !matches!(self.look(1), Some(Token::Dot)) {
            return None;
        }
        let first = match self.look(2) {
            Some(Token::Ident(s)) => s.clone(),
            _ => return None,
        };
        if !same(&first, "_source") {
            self.skip(3);
            return Some(self.take_dotted(first, false));
        }
        if matches!(self.look(3), Some(Token::Dot)) {
            let field = match self.look(4) {
                Some(Token::Ident(s)) => s.clone(),
                _ => return None,
            };
            self.skip(5);
            return Some(self.take_dotted(field, false));
        }
        if matches!(self.look(3), Some(Token::LBracket)) {
            let field = match self.look(4) {
                Some(Token::StringLit(s)) => s.clone(),
                _ => return None,
            };
            if !matches!(self.look(5), Some(Token::RBracket)) {
                return None;
            }
            self.skip(6);
            return Some(field);
        }
        None
    }

    #[verifier::spinoff_prover]
    fn parse_if(&mut self) -> (r: Result<Expr, FerroError>)
        requires
            old(self).wf(),
        ensures
            final(self).later(old(self)),
            r is Ok ==> old(self).pos < final(self).pos,
            reads_expr(r, g_if(old(self).toks(), old(self).pos as int), final(self).pos as int),
        decreases old(self).tokens@.len() - old(self).pos, 13int,
    {
        proof {
            reveal(g_expr);
            reveal(g_block);
            reveal(g_if);
        }
        if !matches!(self.look(0), Some(Token::If)) {
            return self.wanted("If");
        }
        self.skip(1);
        if !matches!(self.look(0), Some(Token::LParen)) {
            return self.wanted("LParen");
        }
        self.skip(1);
        let cond = match self.parse_expr() {
            Ok(e) => e,
            Err(e) => return Err(e),
        };
        if !matches!(self.look(0), Some(Token::RParen)) {
            return self.wanted("RParen");
        }
        self.skip(1);
        let yes = match self.parse_block() {
            Ok(b) => b,
            Err(e) => return Err(e),
        };
        if !matches!(self.look(0), Some(Token::Else)) {
            return Ok(Expr::IfElse(Box::new(cond), yes, None));
        }
        self.skip(1);
        if matches!(self.look(0), Some(Token::If)) {
            return match self.parse_if() {
                Ok(e) => {
                    let ghost v = StmtV::Expr(e.view());
                    let no = vec![Stmt::Expr(e)];
                    assert(stmts_view(no@) =~= seq![v]);
                    Ok(Expr::IfElse(Box::new(cond), yes, Some(no)))
                },
                Err(e) => Err(e),
            };
        }
        match self.parse_block() {
            Ok(no) => Ok(Expr::IfElse(Box::new(cond), yes, Some(no))),
            Err(e) => Err(e),
        }
    }

    #[verifier::spinoff_prover]
    fn parse_for(&mut self) -> (r: Result<Expr, FerroError>)
        requires
            old(self).wf(),
        ensures
            final(self).later(old(self)),
            r is Ok ==> old(self).pos < final(self).pos,
            reads_expr(r, g_for(old(self).toks(), old(self).pos as int), final(self).pos as int),
        decreases old(self).tokens@.len() - old(self).pos, 13int,
    {
        proof {
            reveal(g_expr);
            reveal(g_stmt);
            reveal(g_block);
            reveal(g_for);
        }
        if !matches!(self.look(0), Some(Token::For)) {
            return self.wanted("For");
        }
        self.skip(1);
        if !matches!(self.look(0), Some(Token::LParen)) {
            return self.wanted("LParen");
        }
        self.skip(1);
        let typed = matches!(self.look(0), Some(Token::Def | Token::Int));
        let name = match self.look(1) {
            Some(Token::Ident(s)) if typed => Some(s.clone()),
            _ => None,
        };
        let colon = matches!(self.look(2), Some(Token::Colon));
        if let Some(name) = name {
            if colon {
                self.skip(3);
                let list = match self.parse_expr() {
                    Ok(e) => e,
                    Err(e) => return Err(e),
                };
                if !matches!(self.look(0), Some(Token::RParen)) {
                    return self.wanted("RParen");
                }
                self.skip(1);
                return match self.parse_block() {
                    Ok(body) => Ok(Expr::ForEach(name, Box::new(list), body)),
                    Err(e) => Err(e),
                };
            }
        }
        let init = match self.parse_stmt() {
            Ok(s) => s,
            Err(e) => return Err(e),
        };
        let cond = match self.parse_expr() {
            Ok(e) => e,
            Err(e) => return Err(e),
        };
        if !matches!(self.look(0), Some(Token::Semicolon)) {
            return self.wanted("Semicolon");
        }
        self.skip(1);
        let incr = match self.parse_expr() {
            Ok(e) => e,
            Err(e) => return Err(e),
        };
        if !matches!(self.look(0), Some(Token::RParen)) {
            return self.wanted("RParen");
        }
        self.skip(1);
        let next = Stmt::Expr(incr);
        assert(next.view() == StmtV::Expr(incr.view()));
        match self.parse_block() {
            Ok(body) => Ok(Expr::For(Box::new(init), Box::new(cond), Box::new(next), body)),
            Err(e) => Err(e),
        }
    }

    fn parse_block(&mut self) -> (r: Result<Vec<Stmt>, FerroError>)
        requires
            old(self).wf(),
        ensures
            final(self).later(old(self)),
            r is Ok ==> old(self).pos < final(self).pos,
            reads_stmts(r, g_block(old(self).toks(), old(self).pos as int), final(self).pos as int),
        decreases old(self).tokens@.len() - old(self).pos, 17int,
    {
        proof {
            reveal(g_stmt);
            reveal(g_block);
            reveal(g_block_tail);
        }
        if !matches!(self.look(0), Some(Token::LBrace)) {
            return self.wanted("LBrace");
        }
        self.skip(1);
        let mut stmts: Vec<Stmt> = Vec::new();
        assert(stmts_view(stmts@) =~= Seq::<StmtV>::empty());
        while !matches!(self.look(0), None | Some(Token::Eof | Token::RBrace))
            invariant
                self.later(old(self)),
                old(self).pos < self.pos,
                g_block(old(self).toks(), old(self).pos as int) == g_block_tail(
                    self.toks(),
                    self.pos as int,
                    stmts_view(stmts@),
                ),
            decreases self.tokens@.len() - self.pos,
        {
            proof {
                reveal(g_stmt);
                reveal(g_block_tail);
            }
            let ghost before = stmts_view(stmts@);
            match self.parse_stmt() {
                Ok(s) => {
                    let ghost v = s.view();
                    stmts.push(s);
                    assert(stmts_view(stmts@) =~= before.push(v));
                },
                Err(e) => return Err(e),
            }
        }
        if !matches!(self.look(0), Some(Token::RBrace)) {
            return self.wanted("RBrace");
        }
        self.skip(1);
        Ok(stmts)
    }

    fn parse_ternary(&mut self) -> (r: Result<Expr, FerroError>)
        requires
            old(self).wf(),
        ensures
            final(self).later(old(self)),
            r is Ok ==> old(self).pos < final(self).pos,
            reads_expr(r, g_ternary(old(self).toks(), old(self).pos as int), final(self).pos as int),
        decreases old(self).tokens@.len() - old(self).pos, 13int,
    {
        proof {
            reveal(g_binary);
            reveal(g_expr);
            reveal(g_ternary);
        }
        let cond = match self.parse_binary(0) {
            Ok(e) => e,
            Err(e) => return Err(e),
        };
        if !matches!(self.look(0), Some(Token::Question)) {
            return Ok(cond);
        }
        self.skip(1);
        let yes = match self.parse_expr() {
            Ok(e) => e,
            Err(e) => return Err(e),
        };
        if !matches!(self.look(0), Some(Token::Colon)) {
            return self.wanted("Colon");
        }
        self.skip(1);
        match self.parse_expr() {
            Ok(no) => Ok(Expr::Ternary(Box::new(cond), Box::new(yes), Box::new(no))),
            Err(e) => Err(e),
        }
    }

    /// The operators of a level of precedence: 0 is `||`, then `&&`, the
    /// equalities and regex tests, the comparisons, sums, products.
    fn parse_binary(&mut self, level: u8) -> (r: Result<Expr, FerroError>)
        requires
            old(self).wf(),
            level <= 6,
        ensures
            final(self).later(old(self)),
            r is Ok ==> old(self).pos < final(self).pos,
            reads_expr(
                r,
                g_binary(old(self).toks(), old(self).pos as int, level as int),
                final(self).pos as int,
            ),
        decreases old(self).tokens@.len() - old(self).pos, 12 - level,
    {
        proof {
            reveal(g_unary);
            reveal(g_binary);
            reveal(g_binary_tail);
        }
        if level >= 6 {
            return self.parse_unary();
        }
        let mut left = match self.parse_binary(level + 1) {
            Ok(e) => e,
            Err(e) => return Err(e),
        };
        loop
            invariant
                self.later(old(self)),
                old(self).pos < self.pos,
                level < 6,
                g_binary(old(self).toks(), old(self).pos as int, level as int) == g_binary_tail(
                    self.toks(),
                    self.pos as int,
                    level as int,
                    left.view(),
                ),
            decreases self.tokens@.len() - self.pos,
        {
            proof {
                reveal(g_unary);
                reveal(g_binary);
                reveal(g_binary_tail);
            }
            let op = match infix_of(level, self.look(0)) {
                Some(op) => op,
                None => return Ok(left),
            };
            self.skip(1);
            let right = match self.parse_binary(level + 1) {
                Ok(e) => e,
                Err(e) => return Err(e),
            };
            left = match op {
                Infix::Plain(o) => Expr::BinOp(Box::new(left), o, Box::new(right)),
                Infix::Find => Expr::RegexFind(Box::new(left), Box::new(right)),
                Infix::Match => Expr::RegexMatchOp(Box::new(left), Box::new(right)),
            };
        }
    }

    fn parse_unary(&mut self) -> (r: Result<Expr, FerroError>)
        requires
            old(self).wf(),
        ensures
            final(self).later(old(self)),
            r is Ok ==> old(self).pos < final(self).pos,
            reads_expr(r, g_unary(old(self).toks(), old(self).pos as int), final(self).pos as int),
        decreases old(self).tokens@.len() - old(self).pos, 5int,
    {
        proof {
            reveal(g_unary);
        }
        if matches!(self.look(0), Some(Token::Not)) {
            self.skip(1);
            return match self.parse_unary() {
                Ok(e) => Ok(Expr::UnaryOp(UnaryOp::Not, Box::new(e))),
                Err(e) => Err(e),
            };
        }
        if matches!(self.look(0), Some(Token::Minus)) {
            self.skip(1);
            return match self.parse_unary() {
                Ok(e) => Ok(Expr::UnaryOp(UnaryOp::Neg, Box::new(e))),
                Err(e) => Err(e),
            };
        }
        self.parse_postfix()
    }

    #[verifier::spinoff_prover]
    fn parse_postfix(&mut self) -> (r: Result<Expr, FerroError>)
        requires
            old(self).wf(),
            !sym(old(self).toks(), old(self).pos as int, Token::Not),
            !sym(old(self).toks(), old(self).pos as int, Token::Minus),
        ensures
            final(self).later(old(self)),
            r is Ok ==> old(self).pos < final(self).pos,
            reads_expr(r, g_unary(old(self).toks(), old(self).pos as int), final(self).pos as int),
        decreases old(self).tokens@.len() - old(self).pos, 4int,
    {
        proof {
            reveal(g_primary);
            reveal(g_args);
            reveal(g_expr);
            reveal(g_unary);
            reveal(g_postfix_tail);
        }
        let mut expr = match self.parse_primary() {
            Ok(e) => e,
            Err(e) => return Err(e),
        };
        loop
            invariant
                self.later(old(self)),
                old(self).pos < self.pos,
                g_unary(old(self).toks(), old(self).pos as int) == g_postfix_tail(
                    self.toks(),
                    self.pos as int,
                    expr.view(),
                ),
            decreases self.tokens@.len() - self.pos,
        {
            proof {
                reveal(g_primary);
                reveal(g_args);
                reveal(g_expr);
                reveal(g_postfix_tail);
            }
            if matches!(self.look(0), Some(Token::Dot)) {
                let name = match self.look(1) {
                    Some(Token::Ident(s)) => s.clone(),
                    _ => return refuse("expected identifier after '.'"),
                };
                self.skip(2);
                if matches!(self.look(0), Some(Token::LParen)) {
                    self.skip(1);
                    let args = match self.parse_args() {
                        Ok(a) => a,
                        Err(e) => return Err(e),
                    };
                    if !matches!(self.look(0), Some(Token::RParen)) {
                        return self.wanted("RParen");
                    }
                    self.skip(1);
                    expr = Expr::MethodCall(Box::new(expr), name, args);
                } else {
                    let none: Vec<Expr> = Vec::new();
                    assert(exprs_view(none@) =~= Seq::<ExprV>::empty());
                    expr = Expr::MethodCall(Box::new(expr), name, none);
                }
            } else if matches!(self.look(0), Some(Token::LBracket)) {
                self.skip(1);
                let index = match self.parse_expr() {
                    Ok(e) => e,
                    Err(e) => return Err(e),
                };
                if !matches!(self.look(0), Some(Token::RBracket)) {
                    return self.wanted("RBracket");
                }
                self.skip(1);
                expr = Expr::IndexAccess(Box::new(expr), Box::new(index));
            } else {
                return Ok(expr);
            }
        }
    }

    fn parse_args(&mut self) -> (r: Result<Vec<Expr>, FerroError>)
        requires
            old(self).wf(),
        ensures
            final(self).later(old(self)),
            reads_exprs(r, g_args(old(self).toks(), old(self).pos as int), final(self).pos as int),
        decreases old(self).tokens@.len() - old(self).pos, 17int,
    {
        proof {
            reveal(g_expr);
            reveal(g_list_tail);
            reveal(g_args);
        }
        let mut args: Vec<Expr> = Vec::new();
        if matches!(self.look(0), Some(Token::RParen)) {
            assert(exprs_view(args@) =~= Seq::<ExprV>::empty());
            return Ok(args);
        }
        match self.parse_expr() {
            Ok(e) => {
                let ghost v = e.view();
                args.push(e);
                assert(exprs_view(args@) =~= seq![v]);
            },
            Err(e) => return Err(e),
        }
        self.parse_more(args)
    }

    fn parse_more(&mut self, first: Vec<Expr>) -> (r: Result<Vec<Expr>, FerroError>)
        requires
            old(self).wf(),
        ensures
            final(self).later(old(self)),
            reads_exprs(
                r,
                g_list_tail(old(self).toks(), old(self).pos as int, exprs_view(first@)),
                final(self).pos as int,
            ),
        decreases old(self).tokens@.len() - old(self).pos, 1int,
    {
        proof {
            reveal(g_expr);
            reveal(g_list_tail);
        }
        let mut args = first;
        while matches!(self.look(0), Some(Token::Comma))
            invariant
                self.later(old(self)),
                g_list_tail(old(self).toks(), old(self).pos as int, exprs_view(first@))
                    == g_list_tail(self.toks(), self.pos as int, exprs_view(args@)),
            decreases self.tokens@.len() - self.pos,
        {
            proof {
                reveal(g_expr);
                reveal(g_list_tail);
            }
            let ghost before = exprs_view(args@);
            self.skip(1);
            match self.parse_expr() {
                Ok(e) => {
                    let ghost v = e.view();
                    args.push(e);
                    assert(exprs_view(args@) =~= before.push(v));
                },
                Err(e) => return Err(e),
            }
        }
        Ok(args)
    }

    #[verifier::spinoff_prover]
    fn parse_call(&mut self) -> (r: Result<Vec<Expr>, FerroError>)
        requires
            old(self).wf(),
        ensures
            final(self).later(old(self)),
            r is Ok ==> old(self).pos < final(self).pos,
            reads_exprs(r, g_call(old(self).toks(), old(self).pos as int), final(self).pos as int),
        decreases old(self).tokens@.len() - old(self).pos, 2int,
    {
        proof {
            reveal(g_args);
            reveal(g_call);
        }
        if !matches!(self.look(0), Some(Token::LParen)) {
            return self.wanted("LParen");
        }
        self.skip(1);
        let args = match self.parse_args() {
            Ok(a) => a,
            Err(e) => return Err(e),
        };
        if !matches!(self.look(0), Some(Token::RParen)) {
            return self.wanted("RParen");
        }
        self.skip(1);
        Ok(args)
    }

    fn parse_primary(&mut self) -> (r: Result<Expr, FerroError>)
        requires
            old(self).wf(),
        ensures
            final(self).later(old(self)),
            r is Ok ==> old(self).pos < final(self).pos,
            reads_expr(r, g_primary(old(self).toks(), old(self).pos as int), final(self).pos as int),
        decreases old(self).tokens@.len() - old(self).pos, 3int,
    {
        proof {
            reveal(g_array);
            reveal(g_group);
            reveal(g_named);
            reveal(token_shown);
            reveal(g_primary);
        }
        let tok = match self.look(0) {
            Some(t) => t.copy(),
            None => return Err(FerroError::QueryParseError(join2("unexpected token: ", "Eof"))),
        };
        match tok {
            Token::IntLit(n) => {
                self.skip(1);
                Ok(Expr::IntLit(n))
            },
            Token::FloatLit(d) => {
                self.skip(1);
                Ok(Expr::FloatLit(d))
            },
            Token::StringLit(s) => {
                self.skip(1);
                Ok(Expr::StringLit(s))
            },
            Token::BoolLit(b) => {
                self.skip(1);
                Ok(Expr::BoolLit(b))
            },
            Token::RegexLit(s) => {
                self.skip(1);
                Ok(Expr::RegexLit(s))
            },
            Token::Null => {
                self.skip(1);
                Ok(Expr::NullLit)
            },
            Token::LBracket => {
                self.skip(1);
                self.parse_array()
            },
            Token::LParen => {
                self.skip(1);
                self.parse_group()
            },
            Token::Ident(name) => {
                self.skip(1);
                self.parse_named(name)
            },
            other => Err(
                FerroError::QueryParseError(join2("unexpected token: ", &show_token(&other))),
            ),
        }
    }

    fn parse_array(&mut self) -> (r: Result<Expr, FerroError>)
        requires
            old(self).wf(),
        ensures
            final(self).later(old(self)),
            r is Ok ==> old(self).pos < final(self).pos,
            reads_expr(r, g_array(old(self).toks(), old(self).pos as int), final(self).pos as int),
        decreases old(self).tokens@.len() - old(self).pos, 18int,
    {
        proof {
            reveal(g_expr);
            reveal(g_list_tail);
            reveal(g_array);
        }
        let mut elements: Vec<Expr> = Vec::new();
        assert(exprs_view(elements@) =~= Seq::<ExprV>::empty());
        if !matches!(self.look(0), Some(Token::RBracket)) {
            match self.parse_expr() {
                Ok(e) => {
                    let ghost v = e.view();
                    elements.push(e);
                    assert(exprs_view(elements@) =~= seq![v]);
                },
                Err(e) => return Err(e),
            }
            elements = match self.parse_more(elements) {
                Ok(es) => es,
                Err(e) => return Err(e),
            };
        }
        if !matches!(self.look(0), Some(Token::RBracket)) {
            return self.wanted("RBracket");
        }
        self.skip(1);
        Ok(Expr::ArrayLit(elements))
    }

    fn parse_group(&mut self) -> (r: Result<Expr, FerroError>)
        requires
            old(self).wf(),
        ensures
            final(self).later(old(self)),
            r is Ok ==> old(self).pos < final(self).pos,
            reads_expr(r, g_group(old(self).toks(), old(self).pos as int), final(self).pos as int),
        decreases old(self).tokens@.len() - old(self).pos, 18int,
    {
        proof {
            reveal(g_expr);
            reveal(g_unary);
            reveal(g_group);
        }
        let cast = match self.look(0) {
            Some(Token::Ident(s)) if cast_type(s) => Some(s.clone()),
            Some(Token::Int) => Some("int".to_owned()),
            _ => None,
        };
        if let Some(name) = cast {
            if matches!(self.look(1), Some(Token::RParen)) {
                self.skip(2);
                return match self.parse_unary() {
                    Ok(e) => Ok(Expr::TypeCast(name, Box::new(e))),
                    Err(e) => Err(e),
                };
            }
        }
        let expr = match self.parse_expr() {
            Ok(e) => e,
            Err(e) => return Err(e),
        };
        if !matches!(self.look(0), Some(Token::RParen)) {
            return self.wanted("RParen");
        }
        self.skip(1);
        Ok(expr)
    }

    #[verifier::spinoff_prover]
    fn parse_named(&mut self, name: String) -> (r: Result<Expr, FerroError>)
        requires
            old(self).wf(),
        ensures
            final(self).later(old(self)),
            reads_expr(
                r,
                g_named(old(self).toks(), old(self).pos as int, name@),
                final(self).pos as int,
            ),
        decreases old(self).tokens@.len() - old(self).pos, 18int,
    {
        proof {
            reveal(g_call);
            reveal(g_named);
        }
        if same(&name, "doc") {
            return self.parse_doc_access();
        }
        if same(&name, "ctx") {
            return self.parse_ctx_access();
        }
        if same(&name, "params") {
            return self.parse_params_access();
        }
        if same(&name, "Math") {
            if !matches!(self.look(0), Some(Token::Dot)) {
                return self.wanted("Dot");
            }
            self.skip(1);
            let func = match self.look(0) {
                Some(Token::Ident(s)) => s.clone(),
                _ => return refuse("expected Math method name"),
            };
            self.skip(1);
            if same(&func, "PI") {
                return Ok(Expr::FloatLit(Double::Bits(PI_BITS)));
            }
            if same(&func, "E") {
                return Ok(Expr::FloatLit(Double::Bits(E_BITS)));
            }
            return match self.parse_call() {
                Ok(args) => Ok(Expr::MathCall(func, args)),
                Err(e) => Err(e),
            };
        }
        if class_name(&name) {
            if !matches!(self.look(0), Some(Token::Dot)) {
                return Ok(Expr::Var(name));
            }
            let method = match self.look(1) {
                Some(Token::Ident(s)) => s.clone(),
                _ => return Err(
                    FerroError::QueryParseError(join3("expected method name after ", &name, ".")),
                ),
            };
            self.skip(2);
            return match self.parse_call() {
                Ok(args) => Ok(Expr::StaticCall(name, method, args)),
                Err(e) => Err(e),
            };
        }
        if matches!(self.look(0), Some(Token::LParen)) {
            return match self.parse_call() {
                Ok(args) => Ok(Expr::FuncCall(name, args)),
                Err(e) => Err(e),
            };
        }
        Ok(Expr::Var(name))
    }

    fn parse_doc_access(&mut self) -> (r: Result<Expr, FerroError>)
        requires
            old(self).wf(),
        ensures
            final(self).later(old(self)),
            reads_expr(r, g_doc(old(self).toks(), old(self).pos as int), final(self).pos as int),
    {
        proof {
            reveal(g_doc);
        }
        if !matches!(self.look(0), Some(Token::LBracket)) {
            return self.wanted("LBracket");
        }
        self.skip(1);
        let field = match self.look(0) {
            Some(Token::StringLit(s)) => s.clone(),
            _ => return Err(
                FerroError::QueryParseError(
                    join2("expected string in doc access, got ", &self.shown()),
                ),
            ),
        };
        self.skip(1);
        if !matches!(self.look(0), Some(Token::RBracket)) {
            return self.wanted("RBracket");
        }
        self.skip(1);
        if matches!(self.look(0), Some(Token::Dot)) {
            self.skip(1);
            let value = match self.look(0) {
                Some(Token::Ident(s)) => same(s, "value"),
                _ => false,
            };
            if value {
                self.skip(1);
            }
        }
        Ok(Expr::DocField(field))
    }

    fn parse_ctx_access(&mut self) -> (r: Result<Expr, FerroError>)
        requires
            old(self).wf(),
        ensures
            final(self).later(old(self)),
            reads_expr(r, g_ctx(old(self).toks(), old(self).pos as int), final(self).pos as int),
    {
        proof {
            reveal(g_ctx);
        }
        if !matches!(self.look(0), Some(Token::Dot)) {
            return self.wanted("Dot");
        }
        self.skip(1);
        let first = match self.look(0) {
            Some(Token::Ident(s)) => s.clone(),
            _ => return refuse("expected field after ctx."),
        };
        self.skip(1);
        if !same(&first, "_source") {
            return Ok(Expr::SourceField(self.take_dotted(first, false)));
        }
        if matches!(self.look(0), Some(Token::Dot)) {
            let field = match self.look(1) {
                Some(Token::Ident(s)) => s.clone(),
                _ => return Ok(Expr::Var("_source".to_owned())),
            };
            if matches!(self.look(2), Some(Token::LParen)) {
                return Ok(Expr::Var("_source".to_owned()));
            }
            self.skip(2);
            return Ok(Expr::SourceField(self.take_dotted(field, true)));
        }
        if matches!(self.look(0), Some(Token::LBracket)) {
            let field = match self.look(1) {
                Some(Token::StringLit(s)) => s.clone(),
                _ => return refuse("expected string in ctx._source[] access"),
            };
            self.skip(2);
            if !matches!(self.look(0), Some(Token::RBracket)) {
                return self.wanted("RBracket");
            }
            self.skip(1);
            return Ok(Expr::SourceField(field));
        }
        Ok(Expr::Var("_source".to_owned()))
    }

    fn parse_params_access(&mut self) -> (r: Result<Expr, FerroError>)
        requires
            old(self).wf(),
        ensures
            final(self).later(old(self)),
            reads_expr(r, g_params(old(self).toks(), old(self).pos as int), final(self).pos as int),
    {
        proof {
            reveal(g_params);
        }
        if !matches!(self.look(0), Some(Token::Dot)) {
            return self.wanted("Dot");
        }
        self.skip(1);
        let field = match self.look(0) {
            Some(Token::Ident(s)) => s.clone(),
            _ => return refuse("expected field name after params."),
        };
        self.skip(1);
        Ok(Expr::ParamField(field))
    }
}

/// Reads a script.
pub fn parse(input: &str) -> (r: Result<Vec<Stmt>, FerroError>)
    ensures
        reads_program(r, program_of(input@)),
{
    let tokens = match tokenize(input) {
        Ok(t) => t,
        Err(e) => return Err(e),
    };
    let mut parser = Parser::new(tokens);
    parser.parse_program()
}

} // verus!
