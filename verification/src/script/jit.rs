//! Which scripts run as machine code, and what code they are.
//!
//! A script that is one expression over numbers, fields of the document and
//! the score becomes a tree of floating-point instructions.
use crate::dict::{find_key, lookup};
use crate::double::{Double, DoubleV};
use crate::script::ast::{exprs_view, BinOp, Expr, ExprV, Stmt, UnaryOp};
use crate::script::parser::{parse, program_of};
use crate::text::{same, texts_view};
use vstd::prelude::*;

verus! {

broadcast use vstd::string::group_string_axioms;

/// A tree of floating-point instructions.
#[derive(Debug, PartialEq)]
pub enum Code {
    Const(Double),
    /// The score that is handed in.
    Score,
    /// The value of the field with this position.
    Field(usize),
    /// An arithmetic operator, or a comparison that gives 1 or 0.
    Binary(Box<Code>, BinOp, Box<Code>),
    Neg(Box<Code>),
    /// A function of one number.
    Call(String, Box<Code>),
    /// The second where the first is not zero, else the third.
    Select(Box<Code>, Box<Code>, Box<Code>),
}

/// What a [`Code`] says.
pub enum CodeV {
    Const(DoubleV),
    Score,
    Field(int),
    Binary(Box<CodeV>, BinOp, Box<CodeV>),
    Neg(Box<CodeV>),
    Call(Seq<char>, Box<CodeV>),
    Select(Box<CodeV>, Box<CodeV>, Box<CodeV>),
}

impl Code {
    pub open spec fn view(self) -> CodeV
        decreases self,
    {
        match self {
            Code::Const(d) => CodeV::Const(d@),
            Code::Score => CodeV::Score,
            Code::Field(i) => CodeV::Field(i as int),
            Code::Binary(a, op, b) => CodeV::Binary(Box::new(a.view()), op, Box::new(b.view())),
            Code::Neg(a) => CodeV::Neg(Box::new(a.view())),
            Code::Call(f, a) => CodeV::Call(f@, Box::new(a.view())),
            Code::Select(a, b, c) => CodeV::Select(
                Box::new(a.view()),
                Box::new(b.view()),
                Box::new(c.view()),
            ),
        }
    }
}

/// The instructions of a script and the fields whose values they read.
#[derive(Debug, PartialEq)]
pub struct JitPlan {
    pub fields: Vec<String>,
    pub code: Code,
}

/// The first position at or behind `i` that holds `f`, or the length.
pub open spec fn field_from(fields: Seq<Seq<char>>, f: Seq<char>, i: int) -> int
    decreases fields.len() - i,
{
    if i >= fields.len() || fields[i] == f {
        i
    } else {
        field_from(fields, f, i + 1)
    }
}

/// The fields that an expression reads, behind those in `acc`, each once and in
/// the order in which they come; none if the expression is not numeric.
#[verifier::opaque]
pub open spec fn jit_fields(e: ExprV, acc: Seq<Seq<char>>) -> Option<Seq<Seq<char>>>
    decreases e, 1nat, 0nat,
{
    match e {
        ExprV::IntLit(_) => Some(acc),
        ExprV::FloatLit(_) => Some(acc),
        ExprV::BoolLit(_) => Some(acc),
        ExprV::Var(name) => if name == "_score"@ {
            Some(acc)
        } else {
            None
        },
        ExprV::DocField(f) => Some(
            if field_from(acc, f, 0) < acc.len() {
                acc
            } else {
                acc.push(f)
            },
        ),
        ExprV::BinOp(l, _, r) => match jit_fields(*l, acc) {
            Some(a) => jit_fields(*r, a),
            None => None,
        },
        ExprV::UnaryOp(_, x) => jit_fields(*x, acc),
        ExprV::MathCall(_, args) => jit_fields_list(args, 0, acc),
        ExprV::Ternary(x, y, z) => match jit_fields(*x, acc) {
            Some(a) => match jit_fields(*y, a) {
                Some(b) => jit_fields(*z, b),
                None => None,
            },
            None => None,
        },
        ExprV::MethodCall(x, m, _) => if m == "value"@ {
            jit_fields(*x, acc)
        } else {
            None
        },
        _ => None,
    }
}

#[verifier::opaque]
pub open spec fn jit_fields_list(xs: Seq<ExprV>, i: int, acc: Seq<Seq<char>>) -> Option<
    Seq<Seq<char>>,
>
    decreases xs, 0nat, xs.len() - i,
{
    if i < 0 || i >= xs.len() {
        Some(acc)
    } else {
        match jit_fields(xs[i], acc) {
            Some(a) => jit_fields_list(xs, i + 1, a),
            None => None,
        }
    }
}

/// The operators that have an instruction.
pub open spec fn has_instruction(op: BinOp) -> bool {
    !(op == BinOp::Mod || op == BinOp::And || op == BinOp::Or)
}

/// The functions of one number that machine code can call.
pub open spec fn is_callable(f: Seq<char>) -> bool {
    f == "log"@ || f == "log10"@ || f == "log2"@ || f == "exp"@ || f == "sqrt"@ || f == "cbrt"@ || f
        == "sin"@ || f == "cos"@ || f == "tan"@ || f == "asin"@ || f == "acos"@ || f == "atan"@ || f
        == "sinh"@ || f == "cosh"@ || f == "tanh"@ || f == "ceil"@ || f == "floor"@ || f == "round"@
        || f == "abs"@
}

/// The instructions of an expression that reads `fields`; none where there is
/// no instruction for a part of it.
#[verifier::opaque]
pub open spec fn lowered(e: ExprV, fields: Seq<Seq<char>>) -> Option<CodeV>
    decreases e,
{
    match e {
        ExprV::FloatLit(d) => Some(CodeV::Const(d)),
        ExprV::IntLit(n) => Some(CodeV::Const(DoubleV::Int(n))),
        ExprV::BoolLit(b) => Some(
            CodeV::Const(
                DoubleV::Int(
                    if b {
                        1
                    } else {
                        0
                    },
                ),
            ),
        ),
        ExprV::Var(name) => if name == "_score"@ {
            Some(CodeV::Score)
        } else {
            None
        },
        ExprV::DocField(f) => {
            let i = field_from(fields, f, 0);
            if i < fields.len() {
                Some(CodeV::Field(i))
            } else {
                None
            }
        },
        ExprV::MethodCall(x, m, _) => if m == "value"@ {
            lowered(*x, fields)
        } else {
            None
        },
        ExprV::BinOp(l, op, r) => match (lowered(*l, fields), lowered(*r, fields)) {
            (Some(a), Some(b)) => if has_instruction(op) {
                Some(CodeV::Binary(Box::new(a), op, Box::new(b)))
            } else {
                None
            },
            _ => None,
        },
        ExprV::UnaryOp(UnaryOp::Neg, x) => match lowered(*x, fields) {
            Some(a) => Some(CodeV::Neg(Box::new(a))),
            None => None,
        },
        ExprV::MathCall(f, args) => if args.len() == 0 {
            None
        } else {
            match lowered(args[0], fields) {
                Some(a) => if is_callable(f) {
                    Some(CodeV::Call(f, Box::new(a)))
                } else {
                    None
                },
                None => None,
            }
        },
        ExprV::Ternary(x, y, z) => match (
            lowered(*x, fields),
            lowered(*y, fields),
            lowered(*z, fields),
        ) {
            (Some(a), Some(b), Some(c)) => Some(
                CodeV::Select(Box::new(a), Box::new(b), Box::new(c)),
            ),
            _ => None,
        },
        _ => None,
    }
}

/// The fields and the code of a script that can run as machine code.
pub open spec fn jit_plan(source: Seq<char>) -> Option<(Seq<Seq<char>>, CodeV)> {
    match program_of(source) {
        Ok(p) => if p.len() == 1 && p[0] is Expr {
            let e = p[0]->Expr_0;
            match jit_fields(e, Seq::empty()) {
                Some(fields) => match lowered(e, fields) {
                    Some(code) => Some((fields, code)),
                    None => None,
                },
                None => None,
            }
        } else {
            None
        },
        Err(_) => None,
    }
}

fn field_index(fields: &Vec<String>, f: &str) -> (r: usize)
    ensures
        r == field_from(texts_view(fields@), f@, 0),
        r <= fields@.len(),
{
    let mut i: usize = 0;
    while i < fields.len()
        invariant
            i <= fields@.len(),
            field_from(texts_view(fields@), f@, 0) == field_from(texts_view(fields@), f@, i as int),
        decreases fields@.len() - i,
    {
        if same(&fields[i], f) {
            return i;
        }
        i += 1;
    }
    i
}

/// Whether an expression is numeric; adds the fields that it reads.
#[verifier::spinoff_prover]
pub fn is_jitable(e: &Expr, fields: &mut Vec<String>) -> (r: bool)
    ensures
        match jit_fields(e.view(), texts_view(old(fields)@)) {
            Some(f) => r && texts_view(final(fields)@) == f,
            None => !r,
        },
    decreases *e, 1nat,
{
    proof {
        reveal(jit_fields);
        reveal(jit_fields_list);
    }
    match e {
        Expr::IntLit(_) | Expr::FloatLit(_) | Expr::BoolLit(_) => true,
        Expr::Var(name) => same(name, "_score"),
        Expr::DocField(f) => {
            let ghost before = texts_view(fields@);
            if field_index(fields, f) >= fields.len() {
                fields.push(f.clone());
                assert(texts_view(fields@) =~= before.push(f@));
            }
            true
        },
        Expr::BinOp(l, _, r) => is_jitable(l, fields) && is_jitable(r, fields),
        Expr::UnaryOp(_, x) => is_jitable(x, fields),
        Expr::MathCall(_, args) => all_jitable(args, fields),
        Expr::Ternary(x, y, z) => is_jitable(x, fields) && is_jitable(y, fields) && is_jitable(
            z,
            fields,
        ),
        Expr::MethodCall(x, m, _) => same(m, "value") && is_jitable(x, fields),
        _ => false,
    }
}

fn all_jitable(args: &Vec<Expr>, fields: &mut Vec<String>) -> (r: bool)
    ensures
        match jit_fields_list(exprs_view(args@), 0, texts_view(old(fields)@)) {
            Some(f) => r && texts_view(final(fields)@) == f,
            None => !r,
        },
    decreases args@, 0nat,
{
    let mut i: usize = 0;
    let ghost s = exprs_view(args@);
    while i < args.len()
        invariant
            i <= args@.len(),
            s == exprs_view(args@),
            jit_fields_list(s, 0, texts_view(old(fields)@)) == jit_fields_list(
                s,
                i as int,
                texts_view(fields@),
            ),
        decreases args@.len() - i,
    {
        proof {
            reveal(jit_fields);
            reveal(jit_fields_list);
        }
        assert(s[i as int] == args@[i as int].view());
        assert(decreases_to!(args@ => args@[i as int]));
        if !is_jitable(&args[i], fields) {
            return false;
        }
        i += 1;
    }
    proof {
        reveal(jit_fields_list);
    }
    true
}

fn callable(f: &str) -> (r: bool)
    ensures
        r == is_callable(f@),
{
    same(f, "log") || same(f, "log10") || same(f, "log2") || same(f, "exp") || same(f, "sqrt")
        || same(f, "cbrt") || same(f, "sin") || same(f, "cos") || same(f, "tan") || same(f, "asin")
        || same(f, "acos") || same(f, "atan") || same(f, "sinh") || same(f, "cosh") || same(
        f,
        "tanh",
    ) || same(f, "ceil") || same(f, "floor") || same(f, "round") || same(f, "abs")
}

/// The instructions of an expression that reads `fields`.
#[verifier::spinoff_prover]
pub fn compile_expr(e: &Expr, fields: &Vec<String>) -> (r: Option<Code>)
    ensures
        match r {
            Some(c) => lowered(e.view(), texts_view(fields@)) == Some(c.view()),
            None => lowered(e.view(), texts_view(fields@)) is None,
        },
    decreases *e,
{
    proof {
        reveal(lowered);
    }
    match e {
        Expr::FloatLit(d) => Some(Code::Const(d.copy())),
        Expr::IntLit(n) => Some(Code::Const(Double::Int(*n))),
        Expr::BoolLit(b) => Some(
            Code::Const(
                Double::Int(
                    if *b {
                        1
                    } else {
                        0
                    },
                ),
            ),
        ),
        Expr::Var(name) => if same(name, "_score") {
            Some(Code::Score)
        } else {
            None
        },
        Expr::DocField(f) => {
            let i = field_index(fields, f);
            if i < fields.len() {
                Some(Code::Field(i))
            } else {
                None
            }
        },
        Expr::MethodCall(x, m, _) => if same(m, "value") {
            compile_expr(x, fields)
        } else {
            None
        },
        Expr::BinOp(l, op, r) => match (compile_expr(l, fields), compile_expr(r, fields)) {
            (Some(a), Some(b)) => if *op == BinOp::Mod || *op == BinOp::And || *op == BinOp::Or {
                None
            } else {
                Some(Code::Binary(Box::new(a), *op, Box::new(b)))
            },
            _ => None,
        },
        Expr::UnaryOp(UnaryOp::Neg, x) => match compile_expr(x, fields) {
            Some(a) => Some(Code::Neg(Box::new(a))),
            None => None,
        },
        Expr::MathCall(f, args) => {
            assert(exprs_view(args@).len() == args@.len());
            if args.len() == 0 {
                return None;
            }
            assert(exprs_view(args@)[0] == args@[0].view());
            assert(decreases_to!(*e => e->MathCall_1));
            assert(decreases_to!(args@ => args@[0]));
            match compile_expr(&args[0], fields) {
                Some(a) => if callable(f) {
                    Some(Code::Call(f.clone(), Box::new(a)))
                } else {
                    None
                },
                None => None,
            }
        },
        Expr::Ternary(x, y, z) => match (
            compile_expr(x, fields),
            compile_expr(y, fields),
            compile_expr(z, fields),
        ) {
            (Some(a), Some(b), Some(c)) => Some(
                Code::Select(Box::new(a), Box::new(b), Box::new(c)),
            ),
            _ => None,
        },
        _ => None,
    }
}

/// The fields and the code of a script, if it can run as machine code.
pub fn try_jit_compile(source: &str) -> (r: Option<JitPlan>)
    ensures
        match r {
            Some(p) => jit_plan(source@) == Some((texts_view(p.fields@), p.code.view())),
            None => jit_plan(source@) is None,
        },
{
    let stmts = match parse(source) {
        Ok(s) => s,
        Err(_) => return None,
    };
    if stmts.len() != 1 {
        return None;
    }
    assert(crate::script::ast::stmts_view(stmts@)[0] == stmts@[0].view());
    let e = match &stmts[0] {
        Stmt::Expr(e) => e,
        _ => return None,
    };
    let mut fields: Vec<String> = Vec::new();
    assert(texts_view(fields@) =~= Seq::<Seq<char>>::empty());
    if !is_jitable(e, &mut fields) {
        return None;
    }
    match compile_expr(e, &fields) {
        Some(code) => Some(JitPlan { fields, code }),
        None => None,
    }
}

/// Whether no name occurs twice.
pub open spec fn distinct(f: Seq<Seq<char>>) -> bool {
    forall|i: int, j: int| 0 <= i < j < f.len() ==> #[trigger] f[i] != #[trigger] f[j]
}

/// Whether every field that the code reads is among the first `n`.
pub open spec fn reads_below(c: CodeV, n: int) -> bool
    decreases c,
{
    match c {
        CodeV::Const(_) => true,
        CodeV::Score => true,
        CodeV::Field(i) => 0 <= i < n,
        CodeV::Binary(a, _, b) => reads_below(*a, n) && reads_below(*b, n),
        CodeV::Neg(a) => reads_below(*a, n),
        CodeV::Call(_, a) => reads_below(*a, n),
        CodeV::Select(a, b, d) => reads_below(*a, n) && reads_below(*b, n) && reads_below(*d, n),
    }
}

proof fn lemma_field_from(fields: Seq<Seq<char>>, f: Seq<char>, i: int)
    requires
        0 <= i <= fields.len(),
    ensures
        i <= field_from(fields, f, i) <= fields.len(),
        forall|j: int| i <= j < field_from(fields, f, i) ==> #[trigger] fields[j] != f,
    decreases fields.len() - i,
{
    if i < fields.len() && fields[i] != f {
        lemma_field_from(fields, f, i + 1);
    }
}

proof fn lemma_fields_distinct(e: ExprV, acc: Seq<Seq<char>>)
    requires
        distinct(acc),
    ensures
        jit_fields(e, acc) matches Some(f) ==> distinct(f),
    decreases e, 1nat, 0nat,
{
    reveal(jit_fields);
    reveal(jit_fields_list);
    match e {
        ExprV::DocField(f) => {
            lemma_field_from(acc, f, 0);
        },
        ExprV::BinOp(l, _, r) => {
            lemma_fields_distinct(*l, acc);
            if let Some(a) = jit_fields(*l, acc) {
                lemma_fields_distinct(*r, a);
            }
        },
        ExprV::UnaryOp(_, x) => {
            lemma_fields_distinct(*x, acc);
        },
        ExprV::MathCall(_, args) => {
            lemma_fields_distinct_list(args, 0, acc);
        },
        ExprV::Ternary(x, y, z) => {
            lemma_fields_distinct(*x, acc);
            if let Some(a) = jit_fields(*x, acc) {
                lemma_fields_distinct(*y, a);
                if let Some(b) = jit_fields(*y, a) {
                    lemma_fields_distinct(*z, b);
                }
            }
        },
        ExprV::MethodCall(x, m, _) => {
            lemma_fields_distinct(*x, acc);
        },
        _ => {},
    }
}

proof fn lemma_fields_distinct_list(xs: Seq<ExprV>, i: int, acc: Seq<Seq<char>>)
    requires
        distinct(acc),
    ensures
        jit_fields_list(xs, i, acc) matches Some(f) ==> distinct(f),
    decreases xs, 0nat, xs.len() - i,
{
    reveal(jit_fields);
    reveal(jit_fields_list);
    if 0 <= i < xs.len() {
        lemma_fields_distinct(xs[i], acc);
        if let Some(a) = jit_fields(xs[i], acc) {
            lemma_fields_distinct_list(xs, i + 1, a);
        }
    }
}

proof fn lemma_reads_below(e: ExprV, fields: Seq<Seq<char>>)
    ensures
        lowered(e, fields) matches Some(c) ==> reads_below(c, fields.len() as int),
    decreases e,
{
    reveal(lowered);
    match e {
        ExprV::DocField(f) => {
            lemma_field_from(fields, f, 0);
        },
        ExprV::BinOp(l, _, r) => {
            lemma_reads_below(*l, fields);
            lemma_reads_below(*r, fields);
        },
        ExprV::UnaryOp(_, x) => {
            lemma_reads_below(*x, fields);
        },
        ExprV::MathCall(_, args) => {
            if args.len() > 0 {
                lemma_reads_below(args[0], fields);
            }
        },
        ExprV::Ternary(x, y, z) => {
            lemma_reads_below(*x, fields);
            lemma_reads_below(*y, fields);
            lemma_reads_below(*z, fields);
        },
        ExprV::MethodCall(x, m, _) => {
            lemma_reads_below(*x, fields);
        },
        _ => {},
    }
}

/// A script's fields are listed once each, and its code reads no field that is
/// not listed.
pub proof fn plan_reads_its_fields(source: Seq<char>)
    ensures
        jit_plan(source) matches Some((fields, code)) ==> distinct(fields) && reads_below(
            code,
            fields.len() as int,
        ),
{
    if let Ok(p) = program_of(source) {
        if p.len() == 1 && p[0] is Expr {
            let e = p[0]->Expr_0;
            lemma_fields_distinct(e, Seq::empty());
            if let Some(fields) = jit_fields(e, Seq::empty()) {
                lemma_reads_below(e, fields);
            }
        }
    }
}

/// Fields of a document and their values, which are bit patterns of doubles.
pub open spec fn known_view(v: Seq<(String, u64)>) -> Seq<(Seq<char>, u64)> {
    v.map_values(|p: (String, u64)| (p.0@, p.1))
}

/// The value that the instructions read for a field: zero where the document
/// has none.
pub open spec fn value_for(known: Seq<(Seq<char>, u64)>, f: Seq<char>) -> u64 {
    match lookup(known, f) {
        Some(b) => b,
        None => 0,
    }
}

impl JitPlan {
    /// The values of the fields that the instructions read, in their order.
    pub fn field_values(&self, known: &Vec<(String, u64)>) -> (r: Vec<u64>)
        ensures
            r@ == texts_view(self.fields@).map_values(
                |f: Seq<char>| value_for(known_view(known@), f),
            ),
    {
        let ghost kv = known_view(known@);
        let ghost fv = texts_view(self.fields@);
        let mut r: Vec<u64> = Vec::new();
        let mut i: usize = 0;
        while i < self.fields.len()
            invariant
                i <= self.fields@.len(),
                kv == known_view(known@),
                fv == texts_view(self.fields@),
                r@ =~= fv.subrange(0, i as int).map_values(|f: Seq<char>| value_for(kv, f)),
            decreases self.fields@.len() - i,
        {
            assert(fv[i as int] == self.fields@[i as int]@);
            let k = find_key::<u64, u64>(known, &self.fields[i], Ghost(kv));
            let b: u64 = if k < known.len() {
                known[k].1
            } else {
                0
            };
            assert(b == value_for(kv, fv[i as int]));
            r.push(b);
            i += 1;
        }
        assert(fv.subrange(0, i as int) =~= fv);
        r
    }
}

} // verus!
