//! Laws of compiled scripts: what the instructions compute, and from what.
use crate::double::DoubleV;
use crate::script::ast::{BinOp, ExprV, StmtV, UnaryOp};
use crate::script::jit::{field_from, jit_fields, jit_fields_list, jit_plan, lowered, CodeV};
use crate::script::parser::program_of;
use vstd::prelude::*;

verus! {

broadcast use vstd::string::group_string_axioms;

/// What the parts of a computation are worth: the fields of a document, the
/// score, the literals, the operators and the functions.
pub struct Worth {
    pub literal: spec_fn(DoubleV) -> int,
    pub field: spec_fn(Seq<char>) -> int,
    pub score: int,
    pub binary: spec_fn(BinOp, int, int) -> int,
    pub negative: spec_fn(int) -> int,
    pub call: spec_fn(Seq<char>, int) -> int,
}

impl Worth {
    /// Whether a number picks the first branch.
    pub open spec fn is_on(self, x: int) -> bool {
        x != (self.literal)(DoubleV::Int(0))
    }

    /// What an expression is worth.
    pub open spec fn of_script(self, e: ExprV) -> int
        decreases e,
    {
        match e {
            ExprV::IntLit(n) => (self.literal)(DoubleV::Int(n)),
            ExprV::FloatLit(d) => (self.literal)(d),
            ExprV::BoolLit(true) => (self.literal)(DoubleV::Int(1)),
            ExprV::BoolLit(false) => (self.literal)(DoubleV::Int(0)),
            ExprV::Var(_) => self.score,
            ExprV::DocField(f) => (self.field)(f),
            ExprV::MethodCall(x, _, _) => self.of_script(*x),
            ExprV::BinOp(l, op, r) => (self.binary)(op, self.of_script(*l), self.of_script(*r)),
            ExprV::UnaryOp(_, x) => (self.negative)(self.of_script(*x)),
            ExprV::MathCall(f, args) => if args.len() > 0 {
                (self.call)(f, self.of_script(args[0]))
            } else {
                0
            },
            ExprV::Ternary(x, y, z) => if self.is_on(self.of_script(*x)) {
                self.of_script(*y)
            } else {
                self.of_script(*z)
            },
            _ => 0,
        }
    }

    /// What the instructions compute that read the fields `fields`.
    pub open spec fn of_code(self, c: CodeV, fields: Seq<Seq<char>>) -> int
        decreases c,
    {
        match c {
            CodeV::Const(d) => (self.literal)(d),
            CodeV::Score => self.score,
            CodeV::Field(i) => (self.field)(fields[i]),
            CodeV::Binary(a, op, b) => (self.binary)(
                op,
                self.of_code(*a, fields),
                self.of_code(*b, fields),
            ),
            CodeV::Neg(a) => (self.negative)(self.of_code(*a, fields)),
            CodeV::Call(f, a) => (self.call)(f, self.of_code(*a, fields)),
            CodeV::Select(a, b, d) => if self.is_on(self.of_code(*a, fields)) {
                self.of_code(*b, fields)
            } else {
                self.of_code(*d, fields)
            },
        }
    }
}

/// The fields that an expression reads.
pub open spec fn reads(e: ExprV) -> Set<Seq<char>>
    decreases e,
{
    match e {
        ExprV::DocField(f) => Set::empty().insert(f),
        ExprV::MethodCall(x, _, _) => reads(*x),
        ExprV::BinOp(l, _, r) => reads(*l).union(reads(*r)),
        ExprV::UnaryOp(_, x) => reads(*x),
        ExprV::MathCall(_, args) => if args.len() > 0 {
            reads(args[0])
        } else {
            Set::empty()
        },
        ExprV::Ternary(x, y, z) => reads(*x).union(reads(*y)).union(reads(*z)),
        _ => Set::empty(),
    }
}

/// The functions of one number: logarithms, roots, angles and rounding.
pub open spec fn is_function(f: Seq<char>) -> bool {
    ||| f == "exp"@ || f == "log"@ || f == "log2"@ || f == "log10"@
    ||| f == "sqrt"@ || f == "cbrt"@
    ||| f == "sin"@ || f == "cos"@ || f == "tan"@ || f == "asin"@ || f == "acos"@ || f == "atan"@
    ||| f == "sinh"@ || f == "cosh"@ || f == "tanh"@
    ||| f == "abs"@ || f == "ceil"@ || f == "floor"@ || f == "round"@
}

/// A computation on numbers: literals, fields and the score, joined by
/// arithmetic, comparisons, choices and functions of one number.
pub open spec fn is_numeric(e: ExprV) -> bool
    decreases e,
{
    match e {
        ExprV::IntLit(_) | ExprV::FloatLit(_) | ExprV::BoolLit(_) | ExprV::DocField(_) => true,
        ExprV::Var(name) => name == "_score"@,
        ExprV::MethodCall(x, m, args) => m == "value"@ && args.len() == 0 && is_numeric(*x),
        ExprV::BinOp(l, op, r) => {
            &&& op == BinOp::Add || op == BinOp::Sub || op == BinOp::Mul || op == BinOp::Div || op
                == BinOp::Eq || op == BinOp::Neq || op == BinOp::Gt || op == BinOp::Lt || op
                == BinOp::Gte || op == BinOp::Lte
            &&& is_numeric(*l) && is_numeric(*r)
        },
        ExprV::UnaryOp(op, x) => op == UnaryOp::Neg && is_numeric(*x),
        ExprV::MathCall(f, args) => args.len() == 1 && is_function(f) && is_numeric(args[0]),
        ExprV::Ternary(x, y, z) => is_numeric(*x) && is_numeric(*y) && is_numeric(*z),
        _ => false,
    }
}

proof fn lemma_found(fields: Seq<Seq<char>>, f: Seq<char>, i: int)
    requires
        0 <= i <= fields.len(),
    ensures
        i <= field_from(fields, f, i) <= fields.len(),
        field_from(fields, f, i) < fields.len() ==> fields[field_from(fields, f, i)] == f,
        field_from(fields, f, i) == fields.len() ==> forall|j: int|
            i <= j < fields.len() ==> #[trigger] fields[j] != f,
    decreases fields.len() - i,
{
    if i < fields.len() && fields[i] != f {
        lemma_found(fields, f, i + 1);
    }
}

/// What the instructions of an expression compute is what the expression is
/// worth, whatever its fields, operators and functions are worth.
pub proof fn code_computes_its_script(w: Worth, e: ExprV, fields: Seq<Seq<char>>)
    ensures
        lowered(e, fields) matches Some(c) ==> w.of_code(c, fields) == w.of_script(e),
    decreases e,
{
    reveal(lowered);
    match e {
        ExprV::DocField(f) => {
            lemma_found(fields, f, 0);
        },
        ExprV::MethodCall(x, _, _) => {
            code_computes_its_script(w, *x, fields);
        },
        ExprV::BinOp(l, _, r) => {
            code_computes_its_script(w, *l, fields);
            code_computes_its_script(w, *r, fields);
        },
        ExprV::UnaryOp(_, x) => {
            code_computes_its_script(w, *x, fields);
        },
        ExprV::MathCall(_, args) => {
            if args.len() > 0 {
                code_computes_its_script(w, args[0], fields);
            }
        },
        ExprV::Ternary(x, y, z) => {
            code_computes_its_script(w, *x, fields);
            code_computes_its_script(w, *y, fields);
            code_computes_its_script(w, *z, fields);
        },
        _ => {},
    }
}

proof fn lemma_fields(e: ExprV, acc: Seq<Seq<char>>)
    requires
        is_numeric(e),
    ensures
        jit_fields(e, acc) matches Some(f) && f.to_set() =~= acc.to_set().union(reads(e)),
    decreases e,
{
    reveal(jit_fields);
    match e {
        ExprV::DocField(f) => {
            lemma_found(acc, f, 0);
            let r = jit_fields(e, acc)->0;
            if field_from(acc, f, 0) < acc.len() {
                assert(acc.contains(f));
            } else {
                assert(r == acc.push(f));
                assert(r[acc.len() as int] == f);
                assert forall|g: Seq<char>| acc.contains(g) implies r.contains(g) by {
                    let i = choose|i: int| 0 <= i < acc.len() && acc[i] == g;
                    assert(r[i] == g);
                }
            }
            assert(r.to_set() =~= acc.to_set().union(reads(e)));
        },
        ExprV::MethodCall(x, _, _) => {
            lemma_fields(*x, acc);
        },
        ExprV::BinOp(l, _, r) => {
            lemma_fields(*l, acc);
            lemma_fields(*r, jit_fields(*l, acc)->0);
        },
        ExprV::UnaryOp(_, x) => {
            lemma_fields(*x, acc);
        },
        ExprV::MathCall(_, args) => {
            reveal(jit_fields_list);
            lemma_fields(args[0], acc);
            let a = jit_fields(args[0], acc)->0;
            assert(jit_fields_list(args, 1, a) == Some(a));
            assert(jit_fields_list(args, 0, acc) == Some(a));
        },
        ExprV::Ternary(x, y, z) => {
            lemma_fields(*x, acc);
            let a = jit_fields(*x, acc)->0;
            lemma_fields(*y, a);
            lemma_fields(*z, jit_fields(*y, a)->0);
        },
        _ => {},
    }
}

proof fn lemma_has_code(e: ExprV, fields: Seq<Seq<char>>)
    requires
        is_numeric(e),
        reads(e).subset_of(fields.to_set()),
    ensures
        lowered(e, fields) is Some,
    decreases e,
{
    reveal(lowered);
    match e {
        ExprV::DocField(f) => {
            lemma_found(fields, f, 0);
            assert(reads(e).contains(f));
            assert(fields.contains(f));
        },
        ExprV::MethodCall(x, _, _) => {
            lemma_has_code(*x, fields);
        },
        ExprV::BinOp(l, _, r) => {
            lemma_has_code(*l, fields);
            lemma_has_code(*r, fields);
        },
        ExprV::UnaryOp(_, x) => {
            lemma_has_code(*x, fields);
        },
        ExprV::MathCall(_, args) => {
            lemma_has_code(args[0], fields);
        },
        ExprV::Ternary(x, y, z) => {
            lemma_has_code(*x, fields);
            lemma_has_code(*y, fields);
            lemma_has_code(*z, fields);
        },
        _ => {},
    }
}

/// A script that is one computation on numbers has instructions; the fields
/// that they are given are those that the script reads, and they compute what
/// the script is worth.
pub proof fn numeric_scripts_are_compiled(w: Worth, source: Seq<char>, e: ExprV)
    requires
        is_numeric(e),
        program_of(source) == Ok::<Seq<StmtV>, Seq<char>>(Seq::empty().push(StmtV::Expr(e))),
    ensures
        jit_plan(source) matches Some(p) && p.0.to_set() =~= reads(e) && w.of_code(p.1, p.0)
            == w.of_script(e),
{
    let none = Seq::<Seq<char>>::empty();
    lemma_fields(e, none);
    let fields = jit_fields(e, none)->0;
    assert(fields.to_set() =~= reads(e));
    lemma_has_code(e, fields);
    code_computes_its_script(w, e, fields);
}

/// Remainders, connectives of flags, negated flags, and variables other than
/// the score have no instructions.
pub proof fn other_scripts_are_not_compiled(
    source: Seq<char>,
    l: ExprV,
    op: BinOp,
    r: ExprV,
    name: Seq<char>,
)
    requires
        op == BinOp::Mod || op == BinOp::And || op == BinOp::Or,
    ensures
        program_of(source) == Ok::<Seq<StmtV>, Seq<char>>(
            Seq::empty().push(StmtV::Expr(ExprV::BinOp(Box::new(l), op, Box::new(r)))),
        ) ==> jit_plan(source) is None,
        program_of(source) == Ok::<Seq<StmtV>, Seq<char>>(
            Seq::empty().push(StmtV::Expr(ExprV::UnaryOp(UnaryOp::Not, Box::new(l)))),
        ) ==> jit_plan(source) is None,
        name != "_score"@ && program_of(source) == Ok::<Seq<StmtV>, Seq<char>>(
            Seq::empty().push(StmtV::Expr(ExprV::Var(name))),
        ) ==> jit_plan(source) is None,
        program_of(source) is Err ==> jit_plan(source) is None,
{
    reveal(jit_fields);
    reveal(lowered);
}

} // verus!
