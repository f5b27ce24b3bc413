//! Scripts, from their text to their result.
use ferro_stash::double::{Answers, Double, DoubleAnswer, DoubleQuery};
use ferro_stash::json::Json;
use ferro_stash::script::context::{set_nested_value, ScriptContext};
use ferro_stash::script::evaluator::evaluate;
use ferro_stash::script::methods::Halt;
use ferro_stash::script::value::ScriptValue;

/// The library's value of a JSON value.
fn lib(v: serde_json::Value) -> Json {
    match v {
        serde_json::Value::Null => Json::Null,
        serde_json::Value::Bool(b) => Json::Bool(b),
        serde_json::Value::Number(n) => {
            if let Some(i) = n.as_i64() {
                Json::Int(i)
            } else if let Some(u) = n.as_u64() {
                Json::UInt(u)
            } else {
                Json::Float(Double::Bits(n.as_f64().unwrap().to_bits()))
            }
        }
        serde_json::Value::String(s) => Json::Str(s),
        serde_json::Value::Array(a) => Json::Array(a.into_iter().map(lib).collect()),
        serde_json::Value::Object(o) => {
            Json::Object(o.into_iter().map(|(k, x)| (k, lib(x))).collect())
        }
    }
}

/// The JSON value of a value of the library.
fn plain(j: &Json) -> serde_json::Value {
    match j {
        Json::Null => serde_json::Value::Null,
        Json::Bool(b) => serde_json::Value::from(*b),
        Json::Int(n) => serde_json::Value::from(*n),
        Json::UInt(n) => serde_json::Value::from(*n),
        Json::Float(d) => serde_json::Value::from(number(d)),
        Json::Str(s) => serde_json::Value::from(s.as_str()),
        Json::Array(a) => serde_json::Value::Array(a.iter().map(plain).collect()),
        Json::Object(o) => {
            serde_json::Value::Object(o.iter().map(|(k, x)| (k.clone(), plain(x))).collect())
        }
    }
}

/// A JSON value of a plain one.
fn val<T: Into<serde_json::Value>>(x: T) -> serde_json::Value {
    x.into()
}

/// A JSON value of its text.
fn js(text: &str) -> serde_json::Value {
    serde_json::from_str(text).unwrap()
}

/// The number that a double is.
fn number(d: &Double) -> f64 {
    match d {
        Double::Bits(b) => f64::from_bits(*b),
        Double::Text(s) => s.parse().unwrap(),
        Double::Int(n) => *n as f64,
    }
}

/// Computes what the library asks for.
fn answer(q: &DoubleQuery) -> DoubleAnswer {
    if q.name == "parse" {
        let Double::Text(s) = &q.args[0] else {
            panic!("a text is to be parsed");
        };
        return match s.parse::<f64>() {
            Ok(x) => DoubleAnswer::Bits(x.to_bits()),
            Err(_) => DoubleAnswer::Absent,
        };
    }
    if q.name == "single" {
        let Double::Int(n) = &q.args[0] else {
            panic!("a bit pattern is to be widened");
        };
        return DoubleAnswer::Bits(f64::from(f32::from_bits(*n as u32)).to_bits());
    }
    let x: Vec<f64> = q.args.iter().map(number).collect();
    let bits = |y: f64| DoubleAnswer::Bits(y.to_bits());
    let half = x.len() / 2;
    let pairs: Vec<(f64, f64)> =
        x[..half].iter().copied().zip(x[half..].iter().copied()).collect();
    match q.name.as_str() {
        "+" => bits(x[0] + x[1]),
        "-" => bits(x[0] - x[1]),
        "*" => bits(x[0] * x[1]),
        "/" => bits(x[0] / x[1]),
        "%" => bits(x[0] % x[1]),
        "neg" => bits(-x[0]),
        "abs" => bits(x[0].abs()),
        "max" => bits(x[0].max(x[1])),
        "min" => bits(x[0].min(x[1])),
        "pow" => bits(x[0].powf(x[1])),
        "atan2" => bits(x[0].atan2(x[1])),
        "hypot" => bits(x[0].hypot(x[1])),
        "log" => bits(x[0].ln()),
        "log10" => bits(x[0].log10()),
        "log2" => bits(x[0].log2()),
        "exp" => bits(x[0].exp()),
        "sqrt" => bits(x[0].sqrt()),
        "cbrt" => bits(x[0].cbrt()),
        "ceil" => bits(x[0].ceil()),
        "floor" => bits(x[0].floor()),
        "round" | "rint" => bits(x[0].round()),
        "sin" => bits(x[0].sin()),
        "cos" => bits(x[0].cos()),
        "tan" => bits(x[0].tan()),
        "asin" => bits(x[0].asin()),
        "acos" => bits(x[0].acos()),
        "atan" => bits(x[0].atan()),
        "sinh" => bits(x[0].sinh()),
        "cosh" => bits(x[0].cosh()),
        "tanh" => bits(x[0].tanh()),
        "signum" => bits(if x[0] > 0.0 {
            1.0
        } else if x[0] < 0.0 {
            -1.0
        } else {
            0.0
        }),
        "toRadians" => bits(x[0].to_radians()),
        "toDegrees" => bits(x[0].to_degrees()),
        "dotProduct" => bits(pairs.iter().map(|(a, b)| a * b).sum()),
        "cosineSimilarity" => {
            let dot: f64 = pairs.iter().map(|(a, b)| a * b).sum();
            let n: f64 = pairs.iter().map(|(a, _)| a * a).sum::<f64>().sqrt()
                * pairs.iter().map(|(_, b)| b * b).sum::<f64>().sqrt();
            bits(if n == 0.0 { 0.0 } else { dot / n })
        }
        "l1norm" => bits(pairs.iter().map(|(a, b)| (a - b).abs()).sum()),
        "l2norm" => bits(pairs.iter().map(|(a, b)| (a - b).powi(2)).sum::<f64>().sqrt()),
        "hamming" => {
            bits(pairs.iter().filter(|(a, b)| (a - b).abs() > f64::EPSILON).count() as f64)
        }
        "==" => DoubleAnswer::Flag(x[0] == x[1]),
        "<" => DoubleAnswer::Flag(x[0] < x[1]),
        ">" => DoubleAnswer::Flag(x[0] > x[1]),
        "<=" => DoubleAnswer::Flag(x[0] <= x[1]),
        ">=" => DoubleAnswer::Flag(x[0] >= x[1]),
        "nonzero" => DoubleAnswer::Flag(x[0] != 0.0),
        "finite" => DoubleAnswer::Flag(x[0].is_finite()),
        "int" => DoubleAnswer::Int(x[0] as i64),
        "display" => DoubleAnswer::Text(format!("{}", x[0])),
        "debug" => DoubleAnswer::Text(format!("{:?}", x[0])),
        "json" => DoubleAnswer::Text(serde_json::Value::from(x[0]).to_string()),
        "random" => bits(0.5),
        other => panic!("unknown computation: {other}"),
    }
}

fn eval(script: &str) -> serde_json::Value {
    let mut ctx = ScriptContext::new();
    run(script, &mut ctx).unwrap()
}

fn eval_with_ctx(script: &str, ctx: &mut ScriptContext) -> serde_json::Value {
    run(script, ctx).unwrap()
}

/// Runs a script, computing what it asks for.
fn run(script: &str, ctx: &mut ScriptContext) -> Result<serde_json::Value, String> {
    let mut answers = Answers::new();
    loop {
        match evaluate(script, ctx, &answers) {
            Ok(j) => return Ok(plain(&j)),
            Err(Halt::Error(e)) => return Err(e.message()),
            Err(Halt::Ask(q)) => {
                let a = answer(&q);
                answers.add(q, a);
            }
        }
    }
}

#[test]
fn test_integer_arithmetic() {
    assert_eq!(eval("1 + 2"), val(3));
    assert_eq!(eval("10 - 3"), val(7));
    assert_eq!(eval("4 * 5"), val(20));
    assert_eq!(eval("10 / 3"), val(3));
    assert_eq!(eval("10 % 3"), val(1));
}

#[test]
fn test_float_arithmetic() {
    assert_eq!(eval("1.5 + 2.5"), val(4.0));
    assert_eq!(eval("3.0 * 2.0"), val(6.0));
}

#[test]
fn test_comparison() {
    assert_eq!(eval("5 > 3"), val(true));
    assert_eq!(eval("3 > 5"), val(false));
    assert_eq!(eval("3 >= 3"), val(true));
    assert_eq!(eval("2 < 5"), val(true));
    assert_eq!(eval("5 <= 5"), val(true));
    assert_eq!(eval("5 == 5"), val(true));
    assert_eq!(eval("5 != 3"), val(true));
}

#[test]
fn test_logical_operators() {
    assert_eq!(eval("true && true"), val(true));
    assert_eq!(eval("true && false"), val(false));
    assert_eq!(eval("false || true"), val(true));
    assert_eq!(eval("false || false"), val(false));
    assert_eq!(eval("!false"), val(true));
}

#[test]
fn test_string_methods() {
    assert_eq!(eval("'hello'.toUpperCase()"), val("HELLO"));
    assert_eq!(eval("'HELLO'.toLowerCase()"), val("hello"));
    assert_eq!(eval("'hello'.length()"), val(5));
    assert_eq!(
        eval("'hello world'.contains('world')"),
        val(true)
    );
    assert_eq!(
        eval("'hello world'.contains('xyz')"),
        val(false)
    );
    assert_eq!(eval("'hello'.substring(1, 3)"), val("el"));
}

#[test]
fn test_string_concatenation() {
    assert_eq!(
        eval("'hello' + ' ' + 'world'"),
        val("hello world")
    );
    assert_eq!(eval("'count: ' + 42"), val("count: 42"));
}

#[test]
fn test_doc_field_access() {
    let mut ctx = ScriptContext::new();
    ctx.set_doc("price", lib(val(99.99)));
    let result = eval_with_ctx("doc['price'].value", &mut ctx);
    assert_eq!(result, val(99.99));
}

#[test]
fn test_source_field_access() {
    let mut ctx = ScriptContext::new();
    ctx.source = lib(js(r#"{"name": "test", "count": 5}"#));
    let result = eval_with_ctx("ctx._source.name", &mut ctx);
    assert_eq!(result, val("test"));
}

#[test]
fn test_source_bracket_access() {
    let mut ctx = ScriptContext::new();
    ctx.source = lib(js(r#"{"name": "test"}"#));
    let result = eval_with_ctx("ctx._source['name']", &mut ctx);
    assert_eq!(result, val("test"));
}

#[test]
fn test_params_access() {
    let mut ctx = ScriptContext::new();
    ctx.set_param("factor", lib(val(2)));
    let result = eval_with_ctx("params.factor", &mut ctx);
    assert_eq!(result, val(2));
}

#[test]
fn test_assignment() {
    let mut ctx = ScriptContext::new();
    ctx.source = lib(js(r#"{"count": 1}"#));
    eval_with_ctx("ctx._source.count = 42", &mut ctx);
    assert_eq!(plain(&ctx.source)["count"], val(42));
}

#[test]
fn test_ternary() {
    assert_eq!(eval("true ? 'yes' : 'no'"), val("yes"));
    assert_eq!(eval("false ? 'yes' : 'no'"), val("no"));
}

#[test]
fn test_if_else() {
    assert_eq!(
        eval("if (true) { return 'a'; } else { return 'b'; }"),
        val("a")
    );
    assert_eq!(
        eval("if (false) { return 'a'; } else { return 'b'; }"),
        val("b")
    );
}

#[test]
fn test_null_handling() {
    assert_eq!(eval("null"), serde_json::Value::Null);
    assert_eq!(eval("null == null"), val(true));
    assert_eq!(eval("null != 1"), val(true));
}

#[test]
fn test_math_functions() {
    assert_eq!(eval("Math.max(3, 7)"), val(7));
    assert_eq!(eval("Math.min(3, 7)"), val(3));
    assert_eq!(eval("Math.abs(-5)"), val(5));
    assert_eq!(eval("Math.abs(5)"), val(5));
}

#[test]
fn test_unary_negation() {
    assert_eq!(eval("-5"), val(-5));
    assert_eq!(eval("-3.125"), val(-3.125));
}

#[test]
fn test_complex_expression() {
    let mut ctx = ScriptContext::new();
    ctx.set_doc("price", lib(val(100)));
    ctx.set_param("discount", lib(val(20)));
    let result = eval_with_ctx("doc['price'].value - params.discount", &mut ctx);
    assert_eq!(result, val(80));
}

#[test]
fn test_division_by_zero() {
    let mut ctx = ScriptContext::new();
    let result = run("1 / 0", &mut ctx);
    assert!(result.is_err());
}

// ---- For loop tests ----

#[test]
fn test_for_loop_sum() {
    let mut ctx = ScriptContext::new();
    let result = eval_with_ctx(
        "def sum = 0; for (int i = 0; i < 5; i = i + 1) { sum = sum + i; }; return sum;",
        &mut ctx,
    );
    assert_eq!(result, val(10));
}

#[test]
fn test_foreach_loop() {
    let mut ctx = ScriptContext::new();
    ctx.source = lib(js(r#"{"items": [1, 2, 3]}"#));
    let result = eval_with_ctx(
        "def sum = 0; for (def item : ctx._source.items) { sum = sum + item; }; return sum;",
        &mut ctx,
    );
    assert_eq!(result, val(6));
}

// ---- Array/List operation tests ----

#[test]
fn test_array_add() {
    let mut ctx = ScriptContext::new();
    let result = eval_with_ctx(
        "def arr = [1, 2, 3]; arr = arr.add(4); return arr.size()",
        &mut ctx,
    );
    assert_eq!(result, val(4));
}

#[test]
fn test_array_remove() {
    let mut ctx = ScriptContext::new();
    let result = eval_with_ctx(
        "def arr = [1, 2, 3]; arr = arr.remove(0); return arr.size()",
        &mut ctx,
    );
    assert_eq!(result, val(2));
}

#[test]
fn test_array_contains() {
    assert_eq!(eval("[1, 2, 3].contains(2)"), val(true));
    assert_eq!(eval("[1, 2, 3].contains(5)"), val(false));
}

#[test]
fn test_array_indexof() {
    assert_eq!(eval("['a', 'b', 'c'].indexOf('b')"), val(1));
    assert_eq!(eval("['a', 'b', 'c'].indexOf('z')"), val(-1));
}

#[test]
fn test_array_index_access() {
    assert_eq!(eval("[10, 20, 30][1]"), val(20));
}

// ---- Map operation tests ----

#[test]
fn test_map_contains_key() {
    let mut ctx = ScriptContext::new();
    ctx.source = lib(js(r#"{"name": "test", "count": 5}"#));
    let result = eval_with_ctx("ctx._source.containsKey('name')", &mut ctx);
    // ctx._source is a SourceField, not a Map directly, so we use doc approach
    // For map operations, use directly created maps
    assert_eq!(result, val(true));
}

#[test]
fn test_map_key_set() {
    let mut ctx = ScriptContext::new();
    ctx.source = lib(js(r#"{"a": 1, "b": 2}"#));
    let result = eval_with_ctx("ctx._source.keySet().size()", &mut ctx);
    assert_eq!(result, val(2));
}

// ---- Regex tests ----

#[test]
fn test_regex_find() {
    assert_eq!(eval("'hello world' =~ /world/"), val(true));
    assert_eq!(eval("'hello world' =~ /xyz/"), val(false));
}

#[test]
fn test_regex_match() {
    assert_eq!(eval("'hello' ==~ /hello/"), val(true));
    assert_eq!(eval("'hello world' ==~ /hello/"), val(false));
    assert_eq!(eval("'hello world' ==~ /hello.*/"), val(true));
}

#[test]
fn test_regex_matcher() {
    assert_eq!(
        eval("/\\d+/.matcher('abc123').find()"),
        val(true)
    );
}

// ---- Type cast tests ----

#[test]
fn test_type_cast_int() {
    assert_eq!(eval("(int) 3.14"), val(3));
    assert_eq!(eval("(int) 42"), val(42));
}

#[test]
fn test_type_cast_double() {
    assert_eq!(eval("(double) 42"), val(42.0));
}

// ---- Static call tests ----

#[test]
fn test_integer_parse_int() {
    assert_eq!(eval("Integer.parseInt('42')"), val(42));
}

#[test]
fn test_string_value_of() {
    assert_eq!(eval("String.valueOf(42)"), val("42"));
}

// ---- Variable tests ----

#[test]
fn test_variable_declaration() {
    let mut ctx = ScriptContext::new();
    let result = eval_with_ctx("def x = 10; return x;", &mut ctx);
    assert_eq!(result, val(10));
}

#[test]
fn test_variable_reassignment() {
    let mut ctx = ScriptContext::new();
    let result = eval_with_ctx("def x = 10; x = 20; return x;", &mut ctx);
    assert_eq!(result, val(20));
}

#[test]
fn test_nested_source_field_read() {
    let mut ctx = ScriptContext::new();
    ctx.source = lib(js(r#"{"task": {"status": "idle", "ownerId": null}}"#));
    let result = eval_with_ctx("ctx._source.task.status", &mut ctx);
    assert_eq!(result, val("idle"));
}

#[test]
fn test_nested_source_field_assign() {
    let mut ctx = ScriptContext::new();
    ctx.source = lib(js(r#"{"task": {"status": "idle", "ownerId": null}}"#));
    eval_with_ctx("ctx._source.task.status = 'claiming'", &mut ctx);
    assert_eq!(plain(&ctx.source)["task"]["status"], val("claiming"));
    // ownerId should be unchanged
    assert_eq!(plain(&ctx.source)["task"]["ownerId"], serde_json::Value::Null);
}

#[test]
fn test_nested_assign_with_params() {
    let mut ctx = ScriptContext::new();
    ctx.source = lib(js(r#"{"task": {"status": "idle", "ownerId": null}}"#));
    ctx.set_param("status", lib(val("claiming")));
    ctx.set_param("ownerId", lib(val("node-1")));
    eval_with_ctx(
        "ctx._source.task.status = params.status; ctx._source.task.ownerId = params.ownerId",
        &mut ctx,
    );
    assert_eq!(plain(&ctx.source)["task"]["status"], val("claiming"));
    assert_eq!(plain(&ctx.source)["task"]["ownerId"], val("node-1"));
}

#[test]
fn test_nested_assign_creates_intermediate() {
    let mut ctx = ScriptContext::new();
    ctx.source = lib(js(r#"{}"#));
    eval_with_ctx("ctx._source.task.status = 'new'", &mut ctx);
    assert_eq!(plain(&ctx.source)["task"]["status"], val("new"));
}

// ---- Additional coverage tests ----

// String methods: startsWith, endsWith, replace, trim, split, indexOf, charAt
#[test]
fn test_string_starts_with() {
    assert_eq!(
        eval("'hello world'.startsWith('hello')"),
        val(true)
    );
    assert_eq!(
        eval("'hello world'.startsWith('world')"),
        val(false)
    );
}

#[test]
fn test_string_ends_with() {
    assert_eq!(
        eval("'hello world'.endsWith('world')"),
        val(true)
    );
    assert_eq!(
        eval("'hello world'.endsWith('hello')"),
        val(false)
    );
}

#[test]
fn test_string_replace() {
    assert_eq!(
        eval("'hello world'.replace('world', 'rust')"),
        val("hello rust")
    );
}

#[test]
fn test_string_trim() {
    assert_eq!(eval("'  hello  '.trim()"), val("hello"));
}

#[test]
fn test_string_split() {
    assert_eq!(
        eval("'a,b,c'.split(',')"),
        js(r#"["a", "b", "c"]"#)
    );
}

#[test]
fn test_string_indexof() {
    assert_eq!(eval("'hello'.indexOf('ll')"), val(2));
    assert_eq!(eval("'hello'.indexOf('xyz')"), val(-1));
}

#[test]
fn test_string_charat() {
    assert_eq!(eval("'hello'.charAt(1)"), val("e"));
}

#[test]
fn test_string_charat_out_of_bounds() {
    assert_eq!(eval("'hello'.charAt(99)"), serde_json::Value::Null);
}

#[test]
fn test_string_substring_one_arg() {
    assert_eq!(eval("'hello'.substring(2)"), val("llo"));
}

// Math with float args
#[test]
fn test_math_max_float() {
    assert_eq!(eval("Math.max(3.5, 7.2)"), val(7.2));
}

#[test]
fn test_math_min_float() {
    assert_eq!(eval("Math.min(3.5, 7.2)"), val(3.5));
}

#[test]
fn test_math_abs_float() {
    assert_eq!(eval("Math.abs(-3.5)"), val(3.5));
}

// Modulo by zero
#[test]
fn test_modulo_by_zero() {
    let mut ctx = ScriptContext::new();
    let result = run("5 % 0", &mut ctx);
    assert!(result.is_err());
}

// Mixed int/float arithmetic
#[test]
fn test_mixed_int_float_arithmetic() {
    assert_eq!(eval("3 + 1.5"), val(4.5));
    assert_eq!(eval("10 - 2.5"), val(7.5));
    assert_eq!(eval("4 * 2.5"), val(10.0));
    assert_eq!(eval("7 / 2.0"), val(3.5));
    assert_eq!(eval("7.0 % 3"), val(1.0));
}

// String + non-string concatenation (non-string + string path)
#[test]
fn test_string_concat_non_string_left() {
    assert_eq!(eval("42 + ' items'"), val("42 items"));
}

// Comparison operators with floats
#[test]
fn test_comparison_float() {
    assert_eq!(eval("3.5 > 2.1"), val(true));
    assert_eq!(eval("1.0 < 2.0"), val(true));
    assert_eq!(eval("2.5 >= 2.5"), val(true));
    assert_eq!(eval("3.0 <= 2.0"), val(false));
}

// Equality on different types
#[test]
fn test_equality_strings() {
    assert_eq!(eval("'abc' == 'abc'"), val(true));
    assert_eq!(eval("'abc' != 'def'"), val(true));
    assert_eq!(eval("'abc' == 'def'"), val(false));
}

// Logical operators with non-bool operands
#[test]
fn test_logical_with_non_bool() {
    assert_eq!(eval("1 && 1"), val(true));
    assert_eq!(eval("0 || 1"), val(true));
    assert_eq!(eval("0 && 1"), val(false));
    assert_eq!(eval("0 || 0"), val(false));
}

// Unary not on non-bool
#[test]
fn test_unary_not_non_bool() {
    assert_eq!(eval("!0"), val(true));
    assert_eq!(eval("!1"), val(false));
    assert_eq!(eval("!''"), val(true));
    assert_eq!(eval("!'hello'"), val(false));
}

// Ternary with non-bool conditions
#[test]
fn test_ternary_truthy_conditions() {
    assert_eq!(eval("1 ? 'yes' : 'no'"), val("yes"));
    assert_eq!(eval("0 ? 'yes' : 'no'"), val("no"));
    assert_eq!(eval("'' ? 'yes' : 'no'"), val("no"));
    assert_eq!(eval("'x' ? 'yes' : 'no'"), val("yes"));
}

// If without else
#[test]
fn test_if_without_else_true() {
    assert_eq!(eval("if (true) { return 'a'; }"), val("a"));
}

#[test]
fn test_if_without_else_false() {
    assert_eq!(eval("if (false) { return 'a'; }"), serde_json::Value::Null);
}

// Variable: undefined var returns null
#[test]
fn test_undefined_var_is_null() {
    let mut ctx = ScriptContext::new();
    let result = eval_with_ctx("return undefined_var;", &mut ctx);
    assert_eq!(result, serde_json::Value::Null);
}

// _source as variable
#[test]
fn test_source_var_access() {
    let mut ctx = ScriptContext::new();
    ctx.source = lib(js(r#"{"name": "test"}"#));
    let result = eval_with_ctx("_source", &mut ctx);
    assert_eq!(result, js(r#"{"name": "test"}"#));
}

// Doc field missing returns null
#[test]
fn test_doc_missing_field() {
    let mut ctx = ScriptContext::new();
    let result = eval_with_ctx("doc['nonexistent'].value", &mut ctx);
    assert_eq!(result, serde_json::Value::Null);
}

// Params missing field returns null
#[test]
fn test_params_missing_field() {
    let mut ctx = ScriptContext::new();
    let result = eval_with_ctx("params.nonexistent", &mut ctx);
    assert_eq!(result, serde_json::Value::Null);
}

// Nested source missing field
#[test]
fn test_nested_source_missing_field() {
    let mut ctx = ScriptContext::new();
    ctx.source = lib(js(r#"{"a": 1}"#));
    let result = eval_with_ctx("ctx._source.b.c", &mut ctx);
    assert_eq!(result, serde_json::Value::Null);
}

// set_nested_value single level
#[test]
fn test_set_nested_value_single_level() {
    let mut source = lib(js(r#"{"a": 1}"#));
    set_nested_value(&mut source, "b", lib(val(2)));
    assert_eq!(plain(&source), js(r#"{"a": 1, "b": 2}"#));
}

// Array methods: isEmpty, get, join, length
#[test]
fn test_array_is_empty() {
    let mut ctx = ScriptContext::new();
    let result = eval_with_ctx("def arr = []; return arr.isEmpty()", &mut ctx);
    assert_eq!(result, val(true));
    let result2 = eval_with_ctx("def arr = [1]; return arr.isEmpty()", &mut ctx);
    assert_eq!(result2, val(false));
}

#[test]
fn test_array_get() {
    let mut ctx = ScriptContext::new();
    let result = eval_with_ctx("def arr = [10, 20, 30]; return arr.get(1)", &mut ctx);
    assert_eq!(result, val(20));
}

#[test]
fn test_array_get_out_of_bounds() {
    let mut ctx = ScriptContext::new();
    let result = eval_with_ctx("def arr = [10]; return arr.get(5)", &mut ctx);
    assert_eq!(result, serde_json::Value::Null);
}

#[test]
fn test_array_join() {
    let mut ctx = ScriptContext::new();
    let result = eval_with_ctx("def arr = ['a', 'b', 'c']; return arr.join('-')", &mut ctx);
    assert_eq!(result, val("a-b-c"));
}

#[test]
fn test_array_join_default_sep() {
    let mut ctx = ScriptContext::new();
    let result = eval_with_ctx("def arr = ['a', 'b', 'c']; return arr.join()", &mut ctx);
    assert_eq!(result, val("a,b,c"));
}

#[test]
fn test_array_length_method() {
    assert_eq!(eval("[1, 2, 3].length()"), val(3));
}

// Map methods
#[test]
fn test_map_get() {
    let mut ctx = ScriptContext::new();
    ctx.source = lib(js(r#"{"name": "alice"}"#));
    let result = eval_with_ctx("ctx._source.get('name')", &mut ctx);
    assert_eq!(result, val("alice"));
}

#[test]
fn test_map_get_missing() {
    let mut ctx = ScriptContext::new();
    ctx.source = lib(js(r#"{"name": "alice"}"#));
    let result = eval_with_ctx("ctx._source.get('missing')", &mut ctx);
    assert_eq!(result, serde_json::Value::Null);
}

#[test]
fn test_map_put() {
    let mut ctx = ScriptContext::new();
    ctx.source = lib(js(r#"{"a": 1}"#));
    let result = eval_with_ctx("ctx._source.put('b', 2)", &mut ctx);
    let map: serde_json::Value = result;
    assert_eq!(map["b"], val(2));
}

#[test]
fn test_map_remove() {
    let mut ctx = ScriptContext::new();
    ctx.source = lib(js(r#"{"a": 1, "b": 2}"#));
    let result = eval_with_ctx("ctx._source.remove('a')", &mut ctx);
    let map: serde_json::Value = result;
    assert_eq!(map.get("a"), None);
}

#[test]
fn test_map_values() {
    let mut ctx = ScriptContext::new();
    ctx.source = lib(js(r#"{"a": 1}"#));
    let result = eval_with_ctx("ctx._source.values().size()", &mut ctx);
    assert_eq!(result, val(1));
}

#[test]
fn test_map_size() {
    let mut ctx = ScriptContext::new();
    ctx.source = lib(js(r#"{"a": 1, "b": 2}"#));
    let result = eval_with_ctx("ctx._source.size()", &mut ctx);
    assert_eq!(result, val(2));
}

#[test]
fn test_map_is_empty() {
    let mut ctx = ScriptContext::new();
    ctx.source = lib(js(r#"{}"#));
    let result = eval_with_ctx("ctx._source.isEmpty()", &mut ctx);
    assert_eq!(result, val(true));
}

#[test]
fn test_map_contains_value() {
    let mut ctx = ScriptContext::new();
    ctx.source = lib(js(r#"{"a": 1, "b": 2}"#));
    let result = eval_with_ctx("ctx._source.containsValue(1)", &mut ctx);
    assert_eq!(result, val(true));
    let result2 = eval_with_ctx("ctx._source.containsValue(99)", &mut ctx);
    assert_eq!(result2, val(false));
}

// Map index access (bracket on map)
#[test]
fn test_map_index_access() {
    let mut ctx = ScriptContext::new();
    ctx.source = lib(js(r#"{"name": "bob"}"#));
    let result = eval_with_ctx("ctx._source['name']", &mut ctx);
    assert_eq!(result, val("bob"));
}

// Array index out of bounds returns null
#[test]
fn test_array_index_out_of_bounds() {
    assert_eq!(eval("[1, 2][99]"), serde_json::Value::Null);
}

// Type cast tests
#[test]
fn test_type_cast_int_from_string() {
    assert_eq!(eval("(int) '42'"), val(42));
}

#[test]
fn test_type_cast_int_from_bool() {
    assert_eq!(eval("(int) true"), val(1));
    assert_eq!(eval("(int) false"), val(0));
}

#[test]
fn test_type_cast_int_from_null() {
    assert_eq!(eval("(int) null"), val(0));
}

#[test]
fn test_type_cast_double_from_string() {
    assert_eq!(eval("(double) '4.56'"), val(4.56));
}

#[test]
fn test_type_cast_double_from_double() {
    assert_eq!(eval("(double) 2.5"), val(2.5));
}

#[test]
fn test_type_cast_double_from_null() {
    assert_eq!(eval("(double) null"), val(0.0));
}

#[test]
fn test_type_cast_string() {
    assert_eq!(eval("(String) 42"), val("42"));
    assert_eq!(eval("(String) true"), val("true"));
}

#[test]
fn test_type_cast_boolean() {
    assert_eq!(eval("(boolean) 1"), val(true));
    assert_eq!(eval("(boolean) 0"), val(false));
    assert_eq!(eval("(boolean) 'hello'"), val(true));
    assert_eq!(eval("(boolean) ''"), val(false));
}

#[test]
fn test_type_cast_unknown_type() {
    // Unknown type cast returns value unchanged
    assert_eq!(eval("(UnknownType) 42"), val(42));
}

#[test]
fn test_type_cast_long() {
    assert_eq!(eval("(long) 3.9"), val(3));
}

#[test]
fn test_type_cast_float() {
    assert_eq!(eval("(float) 42"), val(42.0));
}

// Static calls
#[test]
fn test_long_parse_long() {
    assert_eq!(eval("Long.parseLong('100')"), val(100));
}

#[test]
fn test_integer_parse_int_passthrough() {
    assert_eq!(eval("Integer.parseInt(42)"), val(42));
}

#[test]
fn test_double_parse_double() {
    assert_eq!(eval("Double.parseDouble('4.56')"), val(4.56));
}

#[test]
fn test_float_parse_float() {
    assert_eq!(eval("Float.parseFloat('2.5')"), val(2.5));
}

#[test]
fn test_double_parse_double_passthrough() {
    assert_eq!(eval("Double.parseDouble(2.5)"), val(2.5));
}

#[test]
fn test_integer_value_of_string() {
    assert_eq!(eval("Integer.valueOf('99')"), val(99));
}

#[test]
fn test_integer_value_of_int() {
    assert_eq!(eval("Integer.valueOf(99)"), val(99));
}

#[test]
fn test_long_value_of() {
    assert_eq!(eval("Long.valueOf('55')"), val(55));
}

#[test]
fn test_boolean_parse_boolean_true() {
    assert_eq!(
        eval("Boolean.parseBoolean('true')"),
        val(true)
    );
    assert_eq!(
        eval("Boolean.parseBoolean('TRUE')"),
        val(true)
    );
}

#[test]
fn test_boolean_parse_boolean_false() {
    assert_eq!(
        eval("Boolean.parseBoolean('false')"),
        val(false)
    );
    assert_eq!(
        eval("Boolean.parseBoolean('xyz')"),
        val(false)
    );
}

#[test]
fn test_boolean_value_of_bool() {
    assert_eq!(eval("Boolean.valueOf(true)"), val(true));
    assert_eq!(eval("Boolean.valueOf(false)"), val(false));
}

#[test]
fn test_boolean_value_of_default() {
    assert_eq!(eval("Boolean.valueOf(42)"), val(false));
}

#[test]
fn test_string_value_of_no_args() {
    assert_eq!(eval("String.valueOf()"), val(""));
}

// Static call error cases
#[test]
fn test_unknown_static_method() {
    let mut ctx = ScriptContext::new();
    let result = run("Unknown.method()", &mut ctx);
    assert!(result.is_err());
}

#[test]
fn test_integer_parse_int_bad_arg() {
    let mut ctx = ScriptContext::new();
    let result = run("Integer.parseInt(true)", &mut ctx);
    assert!(result.is_err());
}

#[test]
fn test_double_parse_double_bad_arg() {
    let mut ctx = ScriptContext::new();
    let result = run("Double.parseDouble(true)", &mut ctx);
    assert!(result.is_err());
}

#[test]
fn test_integer_value_of_bad_arg() {
    let mut ctx = ScriptContext::new();
    let result = run("Integer.valueOf(true)", &mut ctx);
    assert!(result.is_err());
}

// Unknown math function
#[test]
fn test_unknown_math_function() {
    let mut ctx = ScriptContext::new();
    let result = run("Math.nonexistent(1.0)", &mut ctx);
    assert!(result.is_err());
}

// Math functions (26 functions + 2 constants)
#[test]
fn test_math_trig_functions() {
    let mut ctx = ScriptContext::new();
    // sin/cos/tan
    let r = run("Math.sin(0.0)", &mut ctx).unwrap();
    assert_eq!(r.as_f64().unwrap(), 0.0);
    let r = run("Math.cos(0.0)", &mut ctx).unwrap();
    assert_eq!(r.as_f64().unwrap(), 1.0);
    let r = run("Math.tan(0.0)", &mut ctx).unwrap();
    assert_eq!(r.as_f64().unwrap(), 0.0);
    // asin/acos/atan
    let r = run("Math.asin(0.0)", &mut ctx).unwrap();
    assert_eq!(r.as_f64().unwrap(), 0.0);
    let r = run("Math.acos(1.0)", &mut ctx).unwrap();
    assert_eq!(r.as_f64().unwrap(), 0.0);
    let r = run("Math.atan(0.0)", &mut ctx).unwrap();
    assert_eq!(r.as_f64().unwrap(), 0.0);
    // sinh/cosh/tanh
    let r = run("Math.sinh(0.0)", &mut ctx).unwrap();
    assert_eq!(r.as_f64().unwrap(), 0.0);
    let r = run("Math.cosh(0.0)", &mut ctx).unwrap();
    assert_eq!(r.as_f64().unwrap(), 1.0);
    let r = run("Math.tanh(0.0)", &mut ctx).unwrap();
    assert_eq!(r.as_f64().unwrap(), 0.0);
}

#[test]
fn test_math_log_exp_functions() {
    let mut ctx = ScriptContext::new();
    let r = run("Math.log(1.0)", &mut ctx).unwrap();
    assert_eq!(r.as_f64().unwrap(), 0.0); // ln(1) = 0
    let r = run("Math.log10(100.0)", &mut ctx).unwrap();
    assert_eq!(r.as_f64().unwrap(), 2.0);
    let r = run("Math.log2(8.0)", &mut ctx).unwrap();
    assert_eq!(r.as_f64().unwrap(), 3.0);
    let r = run("Math.exp(0.0)", &mut ctx).unwrap();
    assert_eq!(r.as_f64().unwrap(), 1.0);
}

#[test]
fn test_math_power_root_functions() {
    let mut ctx = ScriptContext::new();
    let r = run("Math.pow(2.0, 10.0)", &mut ctx).unwrap();
    assert_eq!(r.as_f64().unwrap(), 1024.0);
    let r = run("Math.sqrt(9.0)", &mut ctx).unwrap();
    assert_eq!(r.as_f64().unwrap(), 3.0);
    let r = run("Math.cbrt(27.0)", &mut ctx).unwrap();
    assert_eq!(r.as_f64().unwrap(), 3.0);
}

#[test]
fn test_math_rounding_functions() {
    let mut ctx = ScriptContext::new();
    let r = run("Math.ceil(2.3)", &mut ctx).unwrap();
    assert_eq!(r.as_f64().unwrap(), 3.0);
    let r = run("Math.floor(2.7)", &mut ctx).unwrap();
    assert_eq!(r.as_f64().unwrap(), 2.0);
    let r = run("Math.round(2.5)", &mut ctx).unwrap();
    assert_eq!(r.as_f64().unwrap(), 3.0);
    let r = run("Math.rint(2.5)", &mut ctx).unwrap();
    assert_eq!(r.as_f64().unwrap(), 3.0);
}

#[test]
fn test_math_misc_functions() {
    let mut ctx = ScriptContext::new();
    let r = run("Math.signum(-5.0)", &mut ctx).unwrap();
    assert_eq!(r.as_f64().unwrap(), -1.0);
    let r = run("Math.signum(5.0)", &mut ctx).unwrap();
    assert_eq!(r.as_f64().unwrap(), 1.0);
    let r = run("Math.signum(0.0)", &mut ctx).unwrap();
    assert_eq!(r.as_f64().unwrap(), 0.0);
    let r = run("Math.toRadians(180.0)", &mut ctx).unwrap();
    assert!((r.as_f64().unwrap() - std::f64::consts::PI).abs() < 1e-10);
    let r = run("Math.toDegrees(3.141592653589793)", &mut ctx).unwrap();
    assert!((r.as_f64().unwrap() - 180.0).abs() < 1e-10);
    let r = run("Math.atan2(1.0, 1.0)", &mut ctx).unwrap();
    assert!((r.as_f64().unwrap() - std::f64::consts::FRAC_PI_4).abs() < 1e-10);
    // random returns a value in [0, 1)
    let r = run("Math.random()", &mut ctx).unwrap();
    let v = r.as_f64().unwrap();
    assert!((0.0..1.0).contains(&v));
}

#[test]
fn test_math_constants() {
    let mut ctx = ScriptContext::new();
    let r = run("Math.PI", &mut ctx).unwrap();
    assert!((r.as_f64().unwrap() - std::f64::consts::PI).abs() < 1e-10);
    let r = run("Math.E", &mut ctx).unwrap();
    assert!((r.as_f64().unwrap() - std::f64::consts::E).abs() < 1e-10);
}

#[test]
fn test_math_in_expression() {
    let mut ctx = ScriptContext::new();
    // Math.log(1 + x) * _score — typical script_score pattern
    ctx.set_local("_score", ScriptValue::Float(Double::Bits(2.0_f64.to_bits())));
    let r = run("Math.log(1 + 99) * _score", &mut ctx).unwrap();
    let v = r.as_f64().unwrap();
    assert!((v - 2.0 * (100.0_f64).ln()).abs() < 1e-10);
}

// ── Date/Time methods ──

#[test]
fn test_date_getters_from_string() {
    let mut ctx = ScriptContext::new();
    ctx.set_doc("date", lib(val("2025-03-15T10:30:45Z")));
    let r = run("doc['date'].value.getYear()", &mut ctx).unwrap();
    assert_eq!(r, val(2025));
    let r = run("doc['date'].value.getMonthValue()", &mut ctx).unwrap();
    assert_eq!(r, val(3));
    let r = run("doc['date'].value.getDayOfMonth()", &mut ctx).unwrap();
    assert_eq!(r, val(15));
    let r = run("doc['date'].value.getHour()", &mut ctx).unwrap();
    assert_eq!(r, val(10));
    let r = run("doc['date'].value.getMinute()", &mut ctx).unwrap();
    assert_eq!(r, val(30));
    let r = run("doc['date'].value.getSecond()", &mut ctx).unwrap();
    assert_eq!(r, val(45));
}

#[test]
fn test_date_epoch_millis() {
    let mut ctx = ScriptContext::new();
    // 2025-01-01T00:00:00Z = 1735689600000
    ctx.set_doc("ts", lib(val(1735689600000_i64)));
    let r = run("doc['ts'].value.getYear()", &mut ctx).unwrap();
    assert_eq!(r, val(2025));
    let r = run("doc['ts'].value.getMonthValue()", &mut ctx).unwrap();
    assert_eq!(r, val(1));
    let r = run("doc['ts'].value.getDayOfMonth()", &mut ctx).unwrap();
    assert_eq!(r, val(1));
    let r = run("doc['ts'].value.toEpochMilli()", &mut ctx).unwrap();
    assert_eq!(r, val(1735689600000_i64));
}


#[test]
fn substring_multibyte_does_not_panic() {
    // Byte index 2 falls inside the 3-byte '€' — a raw slice would panic.
    let mut ctx = ScriptContext::new();
    ctx.set_doc("f", lib(val("€abc")));
    let r = run("doc['f'].value.substring(0, 2)", &mut ctx);
    assert!(
        r.is_err(),
        "multibyte substring should error, not panic: {r:?}"
    );
}

#[test]
fn substring_reversed_args_does_not_panic() {
    let mut ctx = ScriptContext::new();
    ctx.set_doc("f", lib(val("hello")));
    let r = run("doc['f'].value.substring(3, 1)", &mut ctx);
    assert!(
        r.is_err(),
        "start>end substring should error, not panic: {r:?}"
    );
}

#[test]
fn substring_ascii_still_works() {
    let mut ctx = ScriptContext::new();
    ctx.set_doc("f", lib(val("hello")));
    let r = run("doc['f'].value.substring(1, 3)", &mut ctx).unwrap();
    assert_eq!(r, val("el"));
}

#[test]
fn date_method_multibyte_string_does_not_panic() {
    // Non-ASCII value ≥10 bytes: byte slices like s[0..4] would split a char.
    let mut ctx = ScriptContext::new();
    ctx.set_doc("d", lib(val("€€€€abcdef")));
    let r = run("doc['d'].value.getYear()", &mut ctx);
    assert!(r.is_err(), "multibyte date should error, not panic: {r:?}");
}

#[test]
fn get_day_of_year_invalid_month_does_not_panic() {
    // month=99 → days_in_months[..98] would be out of bounds.
    let mut ctx = ScriptContext::new();
    ctx.set_doc("d", lib(val("2025-99-15T00:00:00Z")));
    let r = run("doc['d'].value.getDayOfYear()", &mut ctx);
    assert!(r.is_err(), "invalid month should error, not panic: {r:?}");
}

#[test]
fn get_day_of_year_zero_month_does_not_panic() {
    // month=00 → (month as usize - 1) would underflow.
    let mut ctx = ScriptContext::new();
    ctx.set_doc("d", lib(val("2025-00-15T00:00:00Z")));
    let r = run("doc['d'].value.getDayOfYear()", &mut ctx);
    assert!(r.is_err(), "zero month should error, not panic: {r:?}");
}

#[test]
fn get_day_of_year_valid_still_works() {
    let mut ctx = ScriptContext::new();
    ctx.set_doc("d", lib(val("2025-03-15T00:00:00Z")));
    let r = run("doc['d'].value.getDayOfYear()", &mut ctx).unwrap();
    assert_eq!(r, val(74)); // Jan(31)+Feb(28)+15
}

#[test]
fn test_date_arithmetic() {
    let mut ctx = ScriptContext::new();
    ctx.set_doc("ts", lib(val(1735689600000_i64)));
    let r = run("doc['ts'].value.plusDays(1)", &mut ctx).unwrap();
    assert_eq!(r, val(1735689600000_i64 + 86_400_000));
    let r = run("doc['ts'].value.minusHours(2)", &mut ctx).unwrap();
    assert_eq!(r, val(1735689600000_i64 - 7_200_000));
}

// Regex matcher .matches()
#[test]
fn test_regex_matcher_matches() {
    assert_eq!(
        eval("/^hello$/.matcher('hello').matches()"),
        val(true)
    );
    assert_eq!(
        eval("/^hello$/.matcher('hello world').matches()"),
        val(false)
    );
}

// ForEach on non-array errors
#[test]
fn test_foreach_non_array_error() {
    let mut ctx = ScriptContext::new();
    ctx.source = lib(js(r#"{"items": "not_an_array"}"#));
    let result = run(
        "for (def item : ctx._source.items) { return item; }",
        &mut ctx,
    );
    assert!(result.is_err());
}

// .value method is no-op
#[test]
fn test_value_method_noop() {
    let mut ctx = ScriptContext::new();
    ctx.set_doc("x", lib(val(42)));
    let result = eval_with_ctx("doc['x'].value", &mut ctx);
    assert_eq!(result, val(42));
}

// Unknown method error
#[test]
fn test_unknown_method_error() {
    let mut ctx = ScriptContext::new();
    let result = run("'hello'.unknownMethod()", &mut ctx);
    assert!(result.is_err());
}

// Unary negation error on non-number
#[test]
fn test_unary_neg_non_number_error() {
    let mut ctx = ScriptContext::new();
    let result = run("-'hello'", &mut ctx);
    assert!(result.is_err());
}

// Arithmetic on non-numeric types errors
#[test]
fn test_arithmetic_non_numeric_error() {
    let mut ctx = ScriptContext::new();
    let result = run("true + false", &mut ctx);
    assert!(result.is_err());
}

// Array literal
#[test]
fn test_array_literal() {
    assert_eq!(eval("[1, 2, 3]"), js(r#"[1, 2, 3]"#));
    assert_eq!(eval("[]"), js(r#"[]"#));
}

// Return statement
#[test]
fn test_return_statement() {
    assert_eq!(eval("return 42;"), val(42));
    assert_eq!(
        eval("return 'early'; return 'late';"),
        val("early")
    );
}

// VarDecl expression
#[test]
fn test_var_decl_expression() {
    let mut ctx = ScriptContext::new();
    let result = eval_with_ctx("def x = 5; def y = 10; return x + y;", &mut ctx);
    assert_eq!(result, val(15));
}

// Boolean literal
#[test]
fn test_bool_literal() {
    assert_eq!(eval("true"), val(true));
    assert_eq!(eval("false"), val(false));
}

// String method error cases
#[test]
fn test_contains_non_string_arg_error() {
    let mut ctx = ScriptContext::new();
    let result = run("'hello'.contains(42)", &mut ctx);
    assert!(result.is_err());
}

#[test]
fn test_starts_with_non_string_arg_error() {
    let mut ctx = ScriptContext::new();
    let result = run("'hello'.startsWith(42)", &mut ctx);
    assert!(result.is_err());
}

#[test]
fn test_ends_with_non_string_arg_error() {
    let mut ctx = ScriptContext::new();
    let result = run("'hello'.endsWith(42)", &mut ctx);
    assert!(result.is_err());
}

#[test]
fn test_replace_non_string_arg_error() {
    let mut ctx = ScriptContext::new();
    let result = run("'hello'.replace(42, 'x')", &mut ctx);
    assert!(result.is_err());
}

#[test]
fn test_split_non_string_arg_error() {
    let mut ctx = ScriptContext::new();
    let result = run("'hello'.split(42)", &mut ctx);
    assert!(result.is_err());
}

#[test]
fn test_indexof_non_string_arg_error() {
    let mut ctx = ScriptContext::new();
    let result = run("'hello'.indexOf(42)", &mut ctx);
    assert!(result.is_err());
}

#[test]
fn test_charat_non_int_arg_error() {
    let mut ctx = ScriptContext::new();
    let result = run("'hello'.charAt('x')", &mut ctx);
    assert!(result.is_err());
}

#[test]
fn test_substring_non_int_arg_error() {
    let mut ctx = ScriptContext::new();
    let result = run("'hello'.substring('x')", &mut ctx);
    assert!(result.is_err());
}

#[test]
fn test_substring_non_int_second_arg_error() {
    let mut ctx = ScriptContext::new();
    let result = run("'hello'.substring(0, 'x')", &mut ctx);
    assert!(result.is_err());
}

// Array method error cases
#[test]
fn test_array_contains_no_arg_error() {
    let mut ctx = ScriptContext::new();
    let result = run("[1,2].contains()", &mut ctx);
    assert!(result.is_err());
}

#[test]
fn test_array_indexof_no_arg_error() {
    let mut ctx = ScriptContext::new();
    let result = run("[1,2].indexOf()", &mut ctx);
    assert!(result.is_err());
}

#[test]
fn test_array_add_no_arg_error() {
    let mut ctx = ScriptContext::new();
    let result = run("[1,2].add()", &mut ctx);
    assert!(result.is_err());
}

#[test]
fn test_array_remove_non_int_error() {
    let mut ctx = ScriptContext::new();
    let result = run("[1,2].remove('x')", &mut ctx);
    assert!(result.is_err());
}

#[test]
fn test_array_get_non_int_error() {
    let mut ctx = ScriptContext::new();
    let result = run("[1,2].get('x')", &mut ctx);
    assert!(result.is_err());
}

// Map method error cases
#[test]
fn test_map_contains_key_non_string_error() {
    let mut ctx = ScriptContext::new();
    ctx.source = lib(js(r#"{"a": 1}"#));
    let result = run("ctx._source.containsKey(42)", &mut ctx);
    assert!(result.is_err());
}

#[test]
fn test_map_get_non_string_error() {
    let mut ctx = ScriptContext::new();
    ctx.source = lib(js(r#"{"a": 1}"#));
    let result = run("ctx._source.get(42)", &mut ctx);
    assert!(result.is_err());
}

#[test]
fn test_map_put_bad_args_error() {
    let mut ctx = ScriptContext::new();
    ctx.source = lib(js(r#"{"a": 1}"#));
    let result = run("ctx._source.put(42, 'x')", &mut ctx);
    assert!(result.is_err());
}

#[test]
fn test_map_remove_non_string_error() {
    let mut ctx = ScriptContext::new();
    ctx.source = lib(js(r#"{"a": 1}"#));
    let result = run("ctx._source.remove(42)", &mut ctx);
    assert!(result.is_err());
}

#[test]
fn test_map_contains_value_no_arg_error() {
    let mut ctx = ScriptContext::new();
    ctx.source = lib(js(r#"{"a": 1}"#));
    let result = run("ctx._source.containsValue()", &mut ctx);
    assert!(result.is_err());
}

// Regex error cases
#[test]
fn test_regex_find_non_string_error() {
    let mut ctx = ScriptContext::new();
    let result = run("42 =~ /pattern/", &mut ctx);
    assert!(result.is_err());
}

#[test]
fn test_regex_match_non_string_error() {
    let mut ctx = ScriptContext::new();
    let result = run("42 ==~ /pattern/", &mut ctx);
    assert!(result.is_err());
}

// Math.abs non-number error
#[test]
fn test_math_abs_non_number_error() {
    let mut ctx = ScriptContext::new();
    let result = run("Math.abs('hello')", &mut ctx);
    assert!(result.is_err());
}

// ScriptContext default
#[test]
fn test_script_context_default() {
    let ctx = ScriptContext::default();
    assert!(ctx.doc.is_empty());
    assert!(ctx.params.is_empty());
    assert!(ctx.locals.is_empty());
}

// Integer division
#[test]
fn test_integer_division() {
    assert_eq!(eval("10 / 2"), val(5));
    assert_eq!(eval("7 / 2"), val(3));
}

// Integer modulo
#[test]
fn test_integer_modulo() {
    assert_eq!(eval("10 % 3"), val(1));
    assert_eq!(eval("9 % 3"), val(0));
}

// For loop with return inside body
#[test]
fn test_for_loop_early_return() {
    let mut ctx = ScriptContext::new();
    let result = eval_with_ctx(
        "def sum = 0; for (int i = 1; i < 4; i = i + 1) { sum = sum + i; }; return sum;",
        &mut ctx,
    );
    assert_eq!(result, val(6));
}

// ForEach collecting values
#[test]
fn test_foreach_collect() {
    let mut ctx = ScriptContext::new();
    ctx.source = lib(js(r#"{"items": [10, 20, 30]}"#));
    let result = eval_with_ctx(
        "def total = 0; for (def item : ctx._source.items) { total = total + item; }; return total;",
        &mut ctx,
    );
    assert_eq!(result, val(60));
}

// Type cast error: bad string to int
#[test]
fn test_type_cast_bad_string_to_int() {
    let mut ctx = ScriptContext::new();
    let result = run("(int) 'not_a_number'", &mut ctx);
    assert!(result.is_err());
}

// Type cast error: bad string to double
#[test]
fn test_type_cast_bad_string_to_double() {
    let mut ctx = ScriptContext::new();
    let result = run("(double) 'not_a_number'", &mut ctx);
    assert!(result.is_err());
}

// Integer.parseInt bad string
#[test]
fn test_integer_parse_int_bad_string() {
    let mut ctx = ScriptContext::new();
    let result = run("Integer.parseInt('abc')", &mut ctx);
    assert!(result.is_err());
}

// Double.parseDouble bad string
#[test]
fn test_double_parse_double_bad_string() {
    let mut ctx = ScriptContext::new();
    let result = run("Double.parseDouble('abc')", &mut ctx);
    assert!(result.is_err());
}

// Integer.valueOf bad string
#[test]
fn test_integer_value_of_bad_string() {
    let mut ctx = ScriptContext::new();
    let result = run("Integer.valueOf('abc')", &mut ctx);
    assert!(result.is_err());
}

// Regex matcher on non-string arg
#[test]
fn test_regex_matcher_non_string_arg_error() {
    let mut ctx = ScriptContext::new();
    let result = run("/\\d+/.matcher(42)", &mut ctx);
    assert!(result.is_err());
}

// Assignment to source and read back
#[test]
fn test_assign_and_read_source() {
    let mut ctx = ScriptContext::new();
    ctx.source = lib(js(r#"{"count": 0}"#));
    eval_with_ctx("ctx._source.count = 42", &mut ctx);
    let result = eval_with_ctx("ctx._source.count", &mut ctx);
    assert_eq!(result, val(42));
}

#[test]
fn test_source_compound_assign() {
    let mut ctx = ScriptContext::new();
    ctx.source = lib(js(r#"{"count": 2}"#));
    let result = eval_with_ctx("ctx._source.count += 3", &mut ctx);
    assert_eq!(result, val(5));
    assert_eq!(plain(&ctx.source)["count"], val(5));
}

#[test]
fn test_var_compound_assign() {
    let mut ctx = ScriptContext::new();
    let result = eval_with_ctx("def x = 4; x *= 3; return x;", &mut ctx);
    assert_eq!(result, val(12));
}

// Complex: conditional assignment
#[test]
fn test_conditional_assignment() {
    let mut ctx = ScriptContext::new();
    ctx.source = lib(js(r#"{"status": "pending"}"#));
    ctx.set_param("new_status", lib(val("done")));
    eval_with_ctx(
        "if (ctx._source.status == 'pending') { ctx._source.status = params.new_status; }",
        &mut ctx,
    );
    assert_eq!(plain(&ctx.source)["status"], val("done"));
}

// Nested ternary
#[test]
fn test_nested_ternary() {
    assert_eq!(
        eval("true ? (false ? 'a' : 'b') : 'c'"),
        val("b")
    );
}

// Multiple statements returning last value
#[test]
fn test_multiple_stmts_last_value() {
    let mut ctx = ScriptContext::new();
    let result = eval_with_ctx("def x = 1; def y = 2; x + y", &mut ctx);
    assert_eq!(result, val(3));
}

// Source with array field
#[test]
fn test_source_array_field() {
    let mut ctx = ScriptContext::new();
    ctx.source = lib(js(r#"{"tags": ["a", "b", "c"]}"#));
    let result = eval_with_ctx("ctx._source.tags", &mut ctx);
    assert_eq!(result, js(r#"["a", "b", "c"]"#));
}

// ── Vector similarity built-ins ──

fn ctx_with_vector(field: &str, vec: serde_json::Value) -> ScriptContext {
    let mut ctx = ScriptContext::new();
    ctx.set_doc(field, lib(vec.clone()));
    ctx.source = lib(serde_json::Value::Object([(field.to_string(), vec)].into_iter().collect()));
    ctx
}

fn approx(a: f64, b: f64) {
    assert!((a - b).abs() < 1e-9, "expected {b}, got {a}");
}

fn as_f64(v: &serde_json::Value) -> f64 {
    v.as_f64().expect("number")
}

#[test]
fn test_dot_product_basic() {
    let mut ctx = ctx_with_vector("v", js(r#"[1.0, 2.0, 3.0]"#));
    ctx.set_param("q", lib(js(r#"[4.0, 5.0, 6.0]"#)));
    let r = eval_with_ctx("dotProduct(params.q, 'v')", &mut ctx);
    approx(as_f64(&r), 32.0);
}

#[test]
fn test_dot_product_zero_vector() {
    let mut ctx = ctx_with_vector("v", js(r#"[0.0, 0.0, 0.0]"#));
    ctx.set_param("q", lib(js(r#"[1.0, 2.0, 3.0]"#)));
    let r = eval_with_ctx("dotProduct(params.q, 'v')", &mut ctx);
    approx(as_f64(&r), 0.0);
}

#[test]
fn test_dot_product_negatives() {
    let mut ctx = ctx_with_vector("v", js(r#"[-1.0, -2.0, -3.0]"#));
    ctx.set_param("q", lib(js(r#"[1.0, 2.0, 3.0]"#)));
    let r = eval_with_ctx("dotProduct(params.q, 'v')", &mut ctx);
    approx(as_f64(&r), -14.0);
}

#[test]
fn test_dot_product_with_score_offset() {
    let mut ctx = ctx_with_vector("v", js(r#"[1.0, 1.0, 1.0]"#));
    ctx.set_param("q", lib(js(r#"[2.0, 2.0, 2.0]"#)));
    let r = eval_with_ctx("dotProduct(params.q, 'v') + 1.0", &mut ctx);
    approx(as_f64(&r), 7.0);
}

#[test]
fn test_dot_product_int_vector() {
    let mut ctx = ctx_with_vector("v", js(r#"[1, 2, 3]"#));
    ctx.set_param("q", lib(js(r#"[1, 1, 1]"#)));
    let r = eval_with_ctx("dotProduct(params.q, 'v')", &mut ctx);
    approx(as_f64(&r), 6.0);
}

#[test]
fn test_dot_product_dimension_mismatch() {
    let mut ctx = ctx_with_vector("v", js(r#"[1.0, 2.0]"#));
    ctx.set_param("q", lib(js(r#"[1.0, 2.0, 3.0]"#)));
    let err = run("dotProduct(params.q, 'v')", &mut ctx);
    assert!(err.is_err(), "expected dimension mismatch error");
}

#[test]
fn test_cosine_similarity_identical() {
    let mut ctx = ctx_with_vector("v", js(r#"[1.0, 2.0, 3.0]"#));
    ctx.set_param("q", lib(js(r#"[1.0, 2.0, 3.0]"#)));
    let r = eval_with_ctx("cosineSimilarity(params.q, 'v')", &mut ctx);
    approx(as_f64(&r), 1.0);
}

#[test]
fn test_cosine_similarity_orthogonal() {
    let mut ctx = ctx_with_vector("v", js(r#"[1.0, 0.0]"#));
    ctx.set_param("q", lib(js(r#"[0.0, 1.0]"#)));
    let r = eval_with_ctx("cosineSimilarity(params.q, 'v')", &mut ctx);
    approx(as_f64(&r), 0.0);
}

#[test]
fn test_cosine_similarity_opposite() {
    let mut ctx = ctx_with_vector("v", js(r#"[1.0, 2.0, 3.0]"#));
    ctx.set_param("q", lib(js(r#"[-1.0, -2.0, -3.0]"#)));
    let r = eval_with_ctx("cosineSimilarity(params.q, 'v')", &mut ctx);
    approx(as_f64(&r), -1.0);
}

#[test]
fn test_cosine_similarity_scaled_equiv() {
    let mut ctx = ctx_with_vector("v", js(r#"[2.0, 4.0, 6.0]"#));
    ctx.set_param("q", lib(js(r#"[1.0, 2.0, 3.0]"#)));
    let r = eval_with_ctx("cosineSimilarity(params.q, 'v')", &mut ctx);
    approx(as_f64(&r), 1.0);
}

#[test]
fn test_cosine_similarity_zero_norm() {
    let mut ctx = ctx_with_vector("v", js(r#"[0.0, 0.0]"#));
    ctx.set_param("q", lib(js(r#"[1.0, 2.0]"#)));
    let r = eval_with_ctx("cosineSimilarity(params.q, 'v')", &mut ctx);
    approx(as_f64(&r), 0.0);
}

#[test]
fn test_cosine_similarity_known_value() {
    // [1,0,0] vs [1,1,0] = 1 / sqrt(2)
    let mut ctx = ctx_with_vector("v", js(r#"[1.0, 1.0, 0.0]"#));
    ctx.set_param("q", lib(js(r#"[1.0, 0.0, 0.0]"#)));
    let r = eval_with_ctx("cosineSimilarity(params.q, 'v')", &mut ctx);
    approx(as_f64(&r), 1.0 / 2.0_f64.sqrt());
}

#[test]
fn test_l1norm() {
    let mut ctx = ctx_with_vector("v", js(r#"[1.0, 2.0, 3.0]"#));
    ctx.set_param("q", lib(js(r#"[4.0, 6.0, 8.0]"#)));
    let r = eval_with_ctx("l1norm(params.q, 'v')", &mut ctx);
    approx(as_f64(&r), 12.0);
}

#[test]
fn test_l1norm_zero() {
    let mut ctx = ctx_with_vector("v", js(r#"[1.0, 2.0, 3.0]"#));
    ctx.set_param("q", lib(js(r#"[1.0, 2.0, 3.0]"#)));
    let r = eval_with_ctx("l1norm(params.q, 'v')", &mut ctx);
    approx(as_f64(&r), 0.0);
}

#[test]
fn test_l2norm() {
    let mut ctx = ctx_with_vector("v", js(r#"[0.0, 0.0]"#));
    ctx.set_param("q", lib(js(r#"[3.0, 4.0]"#)));
    let r = eval_with_ctx("l2norm(params.q, 'v')", &mut ctx);
    approx(as_f64(&r), 5.0);
}

#[test]
fn test_hamming_distance() {
    let mut ctx = ctx_with_vector("v", js(r#"[1.0, 2.0, 3.0, 4.0]"#));
    ctx.set_param("q", lib(js(r#"[1.0, 0.0, 3.0, 0.0]"#)));
    let r = eval_with_ctx("hamming(params.q, 'v')", &mut ctx);
    approx(as_f64(&r), 2.0);
}

#[test]
fn test_vector_function_via_source() {
    // Field present only in _source (no doc-values map) should still resolve.
    let mut ctx = ScriptContext::new();
    ctx.source = lib(js(r#"{"v": [1.0, 1.0, 1.0]}"#));
    ctx.set_param("q", lib(js(r#"[2.0, 3.0, 4.0]"#)));
    let r = eval_with_ctx("dotProduct(params.q, 'v')", &mut ctx);
    approx(as_f64(&r), 9.0);
}

#[test]
fn test_vector_function_literal_arg() {
    // Allow passing an explicit array as the second argument.
    let mut ctx = ScriptContext::new();
    let r = eval_with_ctx("dotProduct([1.0, 2.0], [3.0, 4.0])", &mut ctx);
    approx(as_f64(&r), 11.0);
}

#[test]
fn test_unknown_function_errors() {
    let mut ctx = ScriptContext::new();
    let err = run("frobnicate(1, 2)", &mut ctx);
    assert!(err.is_err());
}

#[test]
fn test_vector_function_wrong_arity() {
    let mut ctx = ctx_with_vector("v", js(r#"[1.0]"#));
    let err = run("dotProduct(params.q)", &mut ctx);
    assert!(err.is_err());
}

#[test]
fn test_cosine_in_expression() {
    // Common kNN pattern: "cosineSimilarity(...) + 1.0"
    let mut ctx = ctx_with_vector("v", js(r#"[1.0, 0.0]"#));
    ctx.set_param("q", lib(js(r#"[1.0, 0.0]"#)));
    let r = eval_with_ctx("cosineSimilarity(params.q, 'v') + 1.0", &mut ctx);
    approx(as_f64(&r), 2.0);
}
