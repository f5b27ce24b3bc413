//! The syntax tree of a script.
use crate::double::{Double, DoubleV};
use vstd::prelude::*;

verus! {

#[derive(Debug, PartialEq)]
pub enum Expr {
    IntLit(i64),
    FloatLit(Double),
    StringLit(String),
    BoolLit(bool),
    NullLit,
    /// Binary operation: left op right
    BinOp(Box<Expr>, BinOp, Box<Expr>),
    /// Unary operation: op expr
    UnaryOp(UnaryOp, Box<Expr>),
    /// Ternary: cond ? yes : no
    Ternary(Box<Expr>, Box<Expr>, Box<Expr>),
    /// Field access: `doc['field'].value`
    DocField(String),
    /// `ctx._source` access (for read)
    SourceField(String),
    /// `params` access
    ParamField(String),
    /// Assignment: `ctx._source.field = expr`
    Assign(String, Box<Expr>),
    /// Compound assignment: `ctx._source.field <op>= expr`
    CompoundAssign(String, BinOp, Box<Expr>),
    /// Method call on a value: `expr.method(args)`
    MethodCall(Box<Expr>, String, Vec<Expr>),
    /// `Math.fn(args)`
    MathCall(String, Vec<Expr>),
    /// Bare function call: `fn(args)`, such as the vector helpers
    /// `dotProduct(query, 'field')` and `cosineSimilarity(query, 'field')`
    FuncCall(String, Vec<Expr>),
    /// Variable reference
    Var(String),
    /// If/else
    IfElse(Box<Expr>, Vec<Stmt>, Option<Vec<Stmt>>),
    /// For loop: `for (init; cond; incr) { body }`
    For(Box<Stmt>, Box<Expr>, Box<Stmt>, Vec<Stmt>),
    /// For-each loop: `for (type var : iterable) { body }`
    ForEach(String, Box<Expr>, Vec<Stmt>),
    /// Regex literal
    RegexLit(String),
    /// Regex find operator: `text =~ /pattern/`
    RegexFind(Box<Expr>, Box<Expr>),
    /// Regex match operator: `text ==~ /pattern/`
    RegexMatchOp(Box<Expr>, Box<Expr>),
    /// Type cast: `(int) expr`, `(double) expr`
    TypeCast(String, Box<Expr>),
    /// Static method call: `Integer.parseInt(s)`, `String.valueOf(n)`
    StaticCall(String, String, Vec<Expr>),
    /// Lambda expression: `(params) -> body`
    Lambda(Vec<String>, Box<Expr>),
    /// Array literal: `[1, 2, 3]`
    ArrayLit(Vec<Expr>),
    /// Variable declaration with assignment: `def x = expr`, `x = expr`
    VarDecl(String, Box<Expr>),
    /// Compound assignment on a local variable: `x <op>= expr`
    VarCompoundAssign(String, BinOp, Box<Expr>),
    /// Index access: `expr[index]`
    IndexAccess(Box<Expr>, Box<Expr>),
}

#[derive(Debug, Clone, Copy, PartialEq, Eq, Structural)]
pub enum BinOp {
    Add,
    Sub,
    Mul,
    Div,
    Mod,
    Eq,
    Neq,
    Gt,
    Lt,
    Gte,
    Lte,
    And,
    Or,
}

#[derive(Debug, Clone, Copy, PartialEq, Eq, Structural)]
pub enum UnaryOp {
    Neg,
    Not,
}

#[derive(Debug, PartialEq)]
pub enum Stmt {
    Expr(Expr),
    Return(Expr),
    VarDecl(String, Expr),
    /// `try { body } catch (Exception e) { handler }`
    TryCatch(Vec<Stmt>, String, Vec<Stmt>),
}

/// What an [`Expr`] says, with texts and lists as sequences.
#[verifier::ext_equal]
pub enum ExprV {
    IntLit(i64),
    FloatLit(DoubleV),
    StringLit(Seq<char>),
    BoolLit(bool),
    NullLit,
    BinOp(Box<ExprV>, BinOp, Box<ExprV>),
    UnaryOp(UnaryOp, Box<ExprV>),
    Ternary(Box<ExprV>, Box<ExprV>, Box<ExprV>),
    DocField(Seq<char>),
    SourceField(Seq<char>),
    ParamField(Seq<char>),
    Assign(Seq<char>, Box<ExprV>),
    CompoundAssign(Seq<char>, BinOp, Box<ExprV>),
    MethodCall(Box<ExprV>, Seq<char>, Seq<ExprV>),
    MathCall(Seq<char>, Seq<ExprV>),
    FuncCall(Seq<char>, Seq<ExprV>),
    Var(Seq<char>),
    IfElse(Box<ExprV>, Seq<StmtV>, Option<Seq<StmtV>>),
    For(Box<StmtV>, Box<ExprV>, Box<StmtV>, Seq<StmtV>),
    ForEach(Seq<char>, Box<ExprV>, Seq<StmtV>),
    RegexLit(Seq<char>),
    RegexFind(Box<ExprV>, Box<ExprV>),
    RegexMatchOp(Box<ExprV>, Box<ExprV>),
    TypeCast(Seq<char>, Box<ExprV>),
    StaticCall(Seq<char>, Seq<char>, Seq<ExprV>),
    Lambda(Seq<Seq<char>>, Box<ExprV>),
    ArrayLit(Seq<ExprV>),
    VarDecl(Seq<char>, Box<ExprV>),
    VarCompoundAssign(Seq<char>, BinOp, Box<ExprV>),
    IndexAccess(Box<ExprV>, Box<ExprV>),
}

/// What a [`Stmt`] says.
#[verifier::ext_equal]
pub enum StmtV {
    Expr(ExprV),
    Return(ExprV),
    VarDecl(Seq<char>, ExprV),
    TryCatch(Seq<StmtV>, Seq<char>, Seq<StmtV>),
}

impl Expr {
    pub open spec fn view(self) -> ExprV
        decreases self,
    {
        match self {
            Expr::IntLit(n) => ExprV::IntLit(n),
            Expr::FloatLit(d) => ExprV::FloatLit(d@),
            Expr::StringLit(s) => ExprV::StringLit(s@),
            Expr::BoolLit(b) => ExprV::BoolLit(b),
            Expr::NullLit => ExprV::NullLit,
            Expr::BinOp(a, op, b) => ExprV::BinOp(Box::new(a.view()), op, Box::new(b.view())),
            Expr::UnaryOp(op, a) => ExprV::UnaryOp(op, Box::new(a.view())),
            Expr::Ternary(a, b, c) => ExprV::Ternary(
                Box::new(a.view()),
                Box::new(b.view()),
                Box::new(c.view()),
            ),
            Expr::DocField(s) => ExprV::DocField(s@),
            Expr::SourceField(s) => ExprV::SourceField(s@),
            Expr::ParamField(s) => ExprV::ParamField(s@),
            Expr::Assign(s, a) => ExprV::Assign(s@, Box::new(a.view())),
            Expr::CompoundAssign(s, op, a) => ExprV::CompoundAssign(s@, op, Box::new(a.view())),
            Expr::MethodCall(a, s, args) => ExprV::MethodCall(
                Box::new(a.view()),
                s@,
                exprs_view(args@),
            ),
            Expr::MathCall(s, args) => ExprV::MathCall(
                s@,
                exprs_view(args@),
            ),
            Expr::FuncCall(s, args) => ExprV::FuncCall(
                s@,
                exprs_view(args@),
            ),
            Expr::Var(s) => ExprV::Var(s@),
            Expr::IfElse(c, t, e) => ExprV::IfElse(
                Box::new(c.view()),
                stmts_view(t@),
                match e {
                    Some(b) => Some(stmts_view(b@)),
                    None => None,
                },
            ),
            Expr::For(init, c, step, body) => ExprV::For(
                Box::new(init.view()),
                Box::new(c.view()),
                Box::new(step.view()),
                stmts_view(body@),
            ),
            Expr::ForEach(s, e, body) => ExprV::ForEach(
                s@,
                Box::new(e.view()),
                stmts_view(body@),
            ),
            Expr::RegexLit(s) => ExprV::RegexLit(s@),
            Expr::RegexFind(a, b) => ExprV::RegexFind(Box::new(a.view()), Box::new(b.view())),
            Expr::RegexMatchOp(a, b) => ExprV::RegexMatchOp(Box::new(a.view()), Box::new(b.view())),
            Expr::TypeCast(s, a) => ExprV::TypeCast(s@, Box::new(a.view())),
            Expr::StaticCall(c, m, args) => ExprV::StaticCall(
                c@,
                m@,
                exprs_view(args@),
            ),
            Expr::Lambda(ps, b) => ExprV::Lambda(
                Seq::new(ps@.len(), |i: int| ps@[i]@),
                Box::new(b.view()),
            ),
            Expr::ArrayLit(es) => ExprV::ArrayLit(exprs_view(es@)),
            Expr::VarDecl(s, a) => ExprV::VarDecl(s@, Box::new(a.view())),
            Expr::VarCompoundAssign(s, op, a) => ExprV::VarCompoundAssign(
                s@,
                op,
                Box::new(a.view()),
            ),
            Expr::IndexAccess(a, b) => ExprV::IndexAccess(Box::new(a.view()), Box::new(b.view())),
        }
    }
}

impl Stmt {
    pub open spec fn view(self) -> StmtV
        decreases self,
    {
        match self {
            Stmt::Expr(e) => StmtV::Expr(e.view()),
            Stmt::Return(e) => StmtV::Return(e.view()),
            Stmt::VarDecl(s, e) => StmtV::VarDecl(s@, e.view()),
            Stmt::TryCatch(b, s, h) => StmtV::TryCatch(
                stmts_view(b@),
                s@,
                stmts_view(h@),
            ),
        }
    }
}

/// A list of statements as it reads.
pub open spec fn stmts_view(s: Seq<Stmt>) -> Seq<StmtV>
    decreases s,
{
    Seq::new(
        s.len(),
        |i: int|
            if 0 <= i < s.len() {
                s[i].view()
            } else {
                StmtV::Expr(ExprV::NullLit)
            },
    )
}

/// A list of expressions as it reads.
pub open spec fn exprs_view(s: Seq<Expr>) -> Seq<ExprV>
    decreases s,
{
    Seq::new(
        s.len(),
        |i: int|
            if 0 <= i < s.len() {
                s[i].view()
            } else {
                ExprV::NullLit
            },
    )
}

} // verus!
