//! Scripts as tokens and syntax trees.
use ferro_stash::double::Double;
use ferro_stash::script::ast::{BinOp, Expr, Stmt, UnaryOp};
use ferro_stash::script::parser::parse;
use ferro_stash::script::token::{tokenize, Token};

#[test]
fn test_tokenize_arithmetic() {
    let tokens = tokenize("1 + 2 * 3").unwrap();
    assert_eq!(tokens.len(), 6); // 1 + 2 * 3 EOF
}

#[test]
fn test_tokenize_string() {
    let tokens = tokenize("'hello'").unwrap();
    assert_eq!(tokens[0], Token::StringLit("hello".into()));
}

#[test]
fn test_parse_arithmetic() {
    let stmts = parse("1 + 2").unwrap();
    assert_eq!(stmts.len(), 1);
    match &stmts[0] {
        Stmt::Expr(Expr::BinOp(_, BinOp::Add, _)) => {}
        other => panic!("expected BinOp Add, got {other:?}"),
    }
}

#[test]
fn test_parse_doc_field() {
    let stmts = parse("doc['price'].value").unwrap();
    assert_eq!(stmts.len(), 1);
    match &stmts[0] {
        Stmt::Expr(Expr::DocField(f)) => assert_eq!(f, "price"),
        other => panic!("expected DocField, got {other:?}"),
    }
}

#[test]
fn test_parse_ternary() {
    let stmts = parse("true ? 1 : 0").unwrap();
    assert_eq!(stmts.len(), 1);
    match &stmts[0] {
        Stmt::Expr(Expr::Ternary(_, _, _)) => {}
        other => panic!("expected Ternary, got {other:?}"),
    }
}

#[test]
fn test_parse_if_else() {
    let stmts = parse("if (x > 0) { return 1; } else { return 0; }").unwrap();
    assert_eq!(stmts.len(), 1);
    match &stmts[0] {
        Stmt::Expr(Expr::IfElse(_, then_body, Some(else_body))) => {
            assert_eq!(then_body.len(), 1);
            assert_eq!(else_body.len(), 1);
        }
        other => panic!("expected IfElse, got {other:?}"),
    }
}

#[test]
fn test_parse_math_call() {
    let stmts = parse("Math.max(1, 2)").unwrap();
    match &stmts[0] {
        Stmt::Expr(Expr::MathCall(name, args)) => {
            assert_eq!(name, "max");
            assert_eq!(args.len(), 2);
        }
        other => panic!("expected MathCall, got {other:?}"),
    }
}

#[test]
fn test_parse_method_call() {
    let stmts = parse("'hello'.toUpperCase()").unwrap();
    match &stmts[0] {
        Stmt::Expr(Expr::MethodCall(_, method, args)) => {
            assert_eq!(method, "toUpperCase");
            assert!(args.is_empty());
        }
        other => panic!("expected MethodCall, got {other:?}"),
    }
}

#[test]
fn test_parse_for_loop() {
    let stmts = parse("for (int i = 0; i < 10; i = i + 1) { return i; }").unwrap();
    assert_eq!(stmts.len(), 1);
    match &stmts[0] {
        Stmt::Expr(Expr::For(_, _, _, body)) => {
            assert_eq!(body.len(), 1);
        }
        other => panic!("expected For, got {other:?}"),
    }
}

#[test]
fn test_parse_foreach_loop() {
    let stmts = parse("for (def item : items) { return item; }").unwrap();
    assert_eq!(stmts.len(), 1);
    match &stmts[0] {
        Stmt::Expr(Expr::ForEach(var, _, body)) => {
            assert_eq!(var, "item");
            assert_eq!(body.len(), 1);
        }
        other => panic!("expected ForEach, got {other:?}"),
    }
}

#[test]
fn test_parse_regex_find() {
    let stmts = parse("'hello' =~ /hell/").unwrap();
    match &stmts[0] {
        Stmt::Expr(Expr::RegexFind(_, _)) => {}
        other => panic!("expected RegexFind, got {other:?}"),
    }
}

#[test]
fn test_parse_regex_match() {
    let stmts = parse("'hello' ==~ /hello/").unwrap();
    match &stmts[0] {
        Stmt::Expr(Expr::RegexMatchOp(_, _)) => {}
        other => panic!("expected RegexMatchOp, got {other:?}"),
    }
}

#[test]
fn test_parse_type_cast() {
    let stmts = parse("(int) 3.14").unwrap();
    match &stmts[0] {
        Stmt::Expr(Expr::TypeCast(t, _)) => assert_eq!(t, "int"),
        other => panic!("expected TypeCast, got {other:?}"),
    }
}

#[test]
fn test_parse_static_call() {
    let stmts = parse("Integer.parseInt('42')").unwrap();
    match &stmts[0] {
        Stmt::Expr(Expr::StaticCall(cls, method, args)) => {
            assert_eq!(cls, "Integer");
            assert_eq!(method, "parseInt");
            assert_eq!(args.len(), 1);
        }
        other => panic!("expected StaticCall, got {other:?}"),
    }
}

#[test]
fn test_parse_array_literal() {
    let stmts = parse("[1, 2, 3]").unwrap();
    match &stmts[0] {
        Stmt::Expr(Expr::ArrayLit(elements)) => {
            assert_eq!(elements.len(), 3);
        }
        other => panic!("expected ArrayLit, got {other:?}"),
    }
}

#[test]
fn test_parse_var_decl() {
    let stmts = parse("def x = 42;").unwrap();
    match &stmts[0] {
        Stmt::VarDecl(name, _) => assert_eq!(name, "x"),
        other => panic!("expected VarDecl, got {other:?}"),
    }
}

#[test]
fn test_parse_index_access() {
    let stmts = parse("items[0]").unwrap();
    match &stmts[0] {
        Stmt::Expr(Expr::IndexAccess(_, _)) => {}
        other => panic!("expected IndexAccess, got {other:?}"),
    }
}

// ---- tokenizer: line comments ----

#[test]
fn test_tokenize_line_comment() {
    let tokens = tokenize("1 + 2 // this is a comment\n* 3").unwrap();
    // Should tokenize as: 1 + 2 * 3 EOF
    assert_eq!(tokens.len(), 6);
    assert_eq!(tokens[0], Token::IntLit(1));
    assert_eq!(tokens[3], Token::Star);
}

// ---- tokenizer: string escape sequences ----

#[test]
fn test_tokenize_string_escapes() {
    let tokens = tokenize(r"'hello\nworld\t!\\'").unwrap();
    match &tokens[0] {
        Token::StringLit(s) => assert_eq!(s, "hello\nworld\t!\\"),
        other => panic!("expected StringLit, got {other:?}"),
    }
}

#[test]
fn test_tokenize_double_quoted_string() {
    let tokens = tokenize(r#""hello""#).unwrap();
    assert_eq!(tokens[0], Token::StringLit("hello".into()));
}

// ---- tokenizer: error cases ----

#[test]
fn test_tokenize_unterminated_string() {
    let err = tokenize("'unterminated").unwrap_err();
    assert!(err.message().contains("unterminated string"));
}

#[test]
fn test_tokenize_unterminated_regex() {
    let err = tokenize("=~ /unterminated").unwrap_err();
    assert!(err.message().contains("unterminated regex"));
}

#[test]
fn test_tokenize_unexpected_char() {
    let err = tokenize("1 @ 2").unwrap_err();
    assert!(err.message().contains("unexpected character"));
}

// ---- tokenizer: float literals ----

#[test]
fn test_tokenize_float() {
    let tokens = tokenize("3.25").unwrap();
    match &tokens[0] {
        Token::FloatLit(Double::Text(s)) => assert_eq!(s.parse::<f64>().unwrap(), 3.25),
        other => panic!("expected FloatLit, got {other:?}"),
    }
}

// ---- tokenizer: new keyword ----

#[test]
fn test_tokenize_new_keyword() {
    let tokens = tokenize("new ArrayList()").unwrap();
    assert_eq!(tokens[0], Token::New);
}

// ---- tokenizer: regex after operator ----

#[test]
fn test_tokenize_regex_after_operator() {
    let tokens = tokenize("=~ /pattern/").unwrap();
    assert_eq!(tokens[0], Token::RegexFind);
    assert_eq!(tokens[1], Token::RegexLit("pattern".into()));
}

#[test]
fn test_tokenize_regex_escaped_slash() {
    let tokens = tokenize(r"/hello\/world/").unwrap();
    match &tokens[0] {
        Token::RegexLit(p) => assert_eq!(p, r"hello\/world"),
        other => panic!("expected RegexLit, got {other:?}"),
    }
}

// ---- tokenizer: division after value (not regex) ----

#[test]
fn test_tokenize_division_after_number() {
    let tokens = tokenize("10 / 2").unwrap();
    assert_eq!(tokens[0], Token::IntLit(10));
    assert_eq!(tokens[1], Token::Slash);
    assert_eq!(tokens[2], Token::IntLit(2));
}

// ---- parser: var decl without assignment ----

#[test]
fn test_parse_var_decl_no_assignment() {
    let stmts = parse("def x;").unwrap();
    match &stmts[0] {
        Stmt::VarDecl(name, expr) => {
            assert_eq!(name, "x");
            assert_eq!(*expr, Expr::NullLit);
        }
        other => panic!("expected VarDecl, got {other:?}"),
    }
}

// ---- parser: int var decl ----

#[test]
fn test_parse_int_var_decl() {
    let stmts = parse("int x = 10;").unwrap();
    match &stmts[0] {
        Stmt::VarDecl(name, _) => assert_eq!(name, "x"),
        other => panic!("expected VarDecl, got {other:?}"),
    }
}

// ---- parser: else if chain ----

#[test]
fn test_parse_else_if() {
    let stmts = parse("if (x > 0) { return 1; } else if (x < 0) { return -1; }").unwrap();
    match &stmts[0] {
        Stmt::Expr(Expr::IfElse(_, _, Some(else_body))) => match &else_body[0] {
            Stmt::Expr(Expr::IfElse(_, _, None)) => {}
            other => panic!("expected inner IfElse, got {other:?}"),
        },
        other => panic!("expected IfElse, got {other:?}"),
    }
}

// ---- parser: ctx._source bracket access ----

#[test]
fn test_parse_ctx_source_bracket() {
    let stmts = parse("ctx._source['field_name']").unwrap();
    match &stmts[0] {
        Stmt::Expr(Expr::SourceField(f)) => assert_eq!(f, "field_name"),
        other => panic!("expected SourceField, got {other:?}"),
    }
}

// ---- parser: ctx._source with method call ----

#[test]
fn test_parse_ctx_source_with_method() {
    let stmts = parse("ctx._source.remove('field')").unwrap();
    match &stmts[0] {
        Stmt::Expr(Expr::MethodCall(_, method, args)) => {
            assert_eq!(method, "remove");
            assert_eq!(args.len(), 1);
        }
        other => panic!("expected MethodCall, got {other:?}"),
    }
}

// ---- parser: ctx.field (no _source) ----

#[test]
fn test_parse_ctx_field_direct() {
    let stmts = parse("ctx.status").unwrap();
    match &stmts[0] {
        Stmt::Expr(Expr::SourceField(f)) => assert_eq!(f, "status"),
        other => panic!("expected SourceField, got {other:?}"),
    }
}

// ---- parser: ctx.field.subfield ----

#[test]
fn test_parse_ctx_field_nested() {
    let stmts = parse("ctx.task.ownerId").unwrap();
    match &stmts[0] {
        Stmt::Expr(Expr::SourceField(f)) => assert_eq!(f, "task.ownerId"),
        other => panic!("expected SourceField, got {other:?}"),
    }
}

// ---- parser: doc['field'] without .value ----

#[test]
fn test_parse_doc_access_no_value() {
    let stmts = parse("doc['price']").unwrap();
    match &stmts[0] {
        Stmt::Expr(Expr::DocField(f)) => assert_eq!(f, "price"),
        other => panic!("expected DocField, got {other:?}"),
    }
}

// ---- parser: unary neg ----

#[test]
fn test_parse_unary_neg() {
    let stmts = parse("-42").unwrap();
    match &stmts[0] {
        Stmt::Expr(Expr::UnaryOp(UnaryOp::Neg, _)) => {}
        other => panic!("expected UnaryOp Neg, got {other:?}"),
    }
}

// ---- parser: unary not ----

#[test]
fn test_parse_unary_not() {
    let stmts = parse("!true").unwrap();
    match &stmts[0] {
        Stmt::Expr(Expr::UnaryOp(UnaryOp::Not, _)) => {}
        other => panic!("expected UnaryOp Not, got {other:?}"),
    }
}

// ---- parser: type cast with Int token ----

#[test]
fn test_parse_type_cast_int_token() {
    let stmts = parse("(int) 3.14").unwrap();
    match &stmts[0] {
        Stmt::Expr(Expr::TypeCast(t, _)) => assert_eq!(t, "int"),
        other => panic!("expected TypeCast, got {other:?}"),
    }
}

// ---- parser: type cast with other types ----

#[test]
fn test_parse_type_cast_double() {
    let stmts = parse("(double) 42").unwrap();
    match &stmts[0] {
        Stmt::Expr(Expr::TypeCast(t, _)) => assert_eq!(t, "double"),
        other => panic!("expected TypeCast double, got {other:?}"),
    }
}

// ---- parser: static class as var ----

#[test]
fn test_parse_static_class_as_var() {
    let stmts = parse("Integer").unwrap();
    match &stmts[0] {
        Stmt::Expr(Expr::Var(name)) => assert_eq!(name, "Integer"),
        other => panic!("expected Var, got {other:?}"),
    }
}

// ---- parser: comparison operators ----

#[test]
fn test_parse_gte_lte() {
    let stmts = parse("a >= 1").unwrap();
    match &stmts[0] {
        Stmt::Expr(Expr::BinOp(_, BinOp::Gte, _)) => {}
        other => panic!("expected Gte, got {other:?}"),
    }
    let stmts = parse("a <= 1").unwrap();
    match &stmts[0] {
        Stmt::Expr(Expr::BinOp(_, BinOp::Lte, _)) => {}
        other => panic!("expected Lte, got {other:?}"),
    }
}

// ---- parser: multiplication ops ----

#[test]
fn test_parse_mul_div_mod() {
    let stmts = parse("a * b / c % d").unwrap();
    assert_eq!(stmts.len(), 1);
}

// ---- parser: or expression ----

#[test]
fn test_parse_or_expr() {
    let stmts = parse("a || b").unwrap();
    match &stmts[0] {
        Stmt::Expr(Expr::BinOp(_, BinOp::Or, _)) => {}
        other => panic!("expected Or, got {other:?}"),
    }
}

// ---- parser: and expression ----

#[test]
fn test_parse_and_expr() {
    let stmts = parse("a && b").unwrap();
    match &stmts[0] {
        Stmt::Expr(Expr::BinOp(_, BinOp::And, _)) => {}
        other => panic!("expected And, got {other:?}"),
    }
}

// ---- parser: neq expression ----

#[test]
fn test_parse_neq() {
    let stmts = parse("a != b").unwrap();
    match &stmts[0] {
        Stmt::Expr(Expr::BinOp(_, BinOp::Neq, _)) => {}
        other => panic!("expected Neq, got {other:?}"),
    }
}

// ---- parser: assignment to ctx._source.field ----

#[test]
fn test_parse_source_assign() {
    let stmts = parse("ctx._source.status = 'active'").unwrap();
    match &stmts[0] {
        Stmt::Expr(Expr::Assign(field, _)) => assert_eq!(field, "status"),
        other => panic!("expected Assign, got {other:?}"),
    }
}

// ---- parser: assignment to ctx._source nested field ----

#[test]
fn test_parse_source_assign_nested() {
    let stmts = parse("ctx._source.task.owner = 'bob'").unwrap();
    match &stmts[0] {
        Stmt::Expr(Expr::Assign(field, _)) => assert_eq!(field, "task.owner"),
        other => panic!("expected Assign, got {other:?}"),
    }
}

#[test]
fn test_parse_source_compound_assign() {
    let stmts = parse("ctx._source.count += 1").unwrap();
    match &stmts[0] {
        Stmt::Expr(Expr::CompoundAssign(field, BinOp::Add, _)) => assert_eq!(field, "count"),
        other => panic!("expected CompoundAssign, got {other:?}"),
    }
}

// ---- parser: variable assignment ----

#[test]
fn test_parse_var_assign() {
    let stmts = parse("x = 42").unwrap();
    match &stmts[0] {
        Stmt::Expr(Expr::VarDecl(name, _)) => assert_eq!(name, "x"),
        other => panic!("expected VarDecl (assign), got {other:?}"),
    }
}

#[test]
fn test_parse_var_compound_assign() {
    let stmts = parse("x *= 2").unwrap();
    match &stmts[0] {
        Stmt::Expr(Expr::VarCompoundAssign(name, BinOp::Mul, _)) => assert_eq!(name, "x"),
        other => panic!("expected VarCompoundAssign, got {other:?}"),
    }
}

// ---- parser: postfix field access (not method call) ----

#[test]
fn test_parse_postfix_field_access() {
    let stmts = parse("obj.field").unwrap();
    match &stmts[0] {
        Stmt::Expr(Expr::MethodCall(_, field, args)) => {
            assert_eq!(field, "field");
            assert!(args.is_empty());
        }
        other => panic!("expected MethodCall (field access), got {other:?}"),
    }
}

// ---- parser: empty array literal ----

#[test]
fn test_parse_empty_array() {
    let stmts = parse("[]").unwrap();
    match &stmts[0] {
        Stmt::Expr(Expr::ArrayLit(elems)) => assert!(elems.is_empty()),
        other => panic!("expected ArrayLit, got {other:?}"),
    }
}

// ---- parser: parenthesized expression (not cast) ----

#[test]
fn test_parse_paren_expr() {
    let stmts = parse("(1 + 2) * 3").unwrap();
    match &stmts[0] {
        Stmt::Expr(Expr::BinOp(_, BinOp::Mul, _)) => {}
        other => panic!("expected Mul, got {other:?}"),
    }
}

// ---- parser: ctx._source.field with method call ----

#[test]
fn test_parse_ctx_source_method_call() {
    let stmts = parse("ctx._source.toLowerCase()").unwrap();
    match &stmts[0] {
        Stmt::Expr(Expr::MethodCall(_, method, _)) => {
            assert_eq!(method, "toLowerCase");
        }
        other => panic!("expected MethodCall, got {other:?}"),
    }
}
