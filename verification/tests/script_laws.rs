//! What holds of scripts, on values.
use ferro_stash::double::{Answers, Double, DoubleAnswer};
use ferro_stash::error::FerroError;
use ferro_stash::json::Json;
use ferro_stash::script::context::{get_nested_value, set_nested_value, ScriptContext};
use ferro_stash::script::evaluator::{evaluate, evaluate_parsed};
use ferro_stash::script::methods::{to_vector, Halt};
use ferro_stash::script::parser::parse;
use ferro_stash::script::random::{next_state, SEED};
use ferro_stash::script::token::{tokenize, Token};
use ferro_stash::script::value::ScriptValue;
use ferro_stash::whole::whole;

fn object(members: Vec<(&str, Json)>) -> Json {
    Json::Object(members.into_iter().map(|(k, v)| (k.to_string(), v)).collect())
}

fn run(script: &str) -> Result<Json, Halt> {
    evaluate(script, &mut ScriptContext::new(), &Answers::new())
}

fn message(script: &str) -> String {
    match run(script) {
        Err(Halt::Error(e)) => e.message(),
        other => panic!("expected an error, got {other:?}"),
    }
}

#[test]
fn tokens_end_with_one_end() {
    for script in ["", "1", "x = [1, 'a']; // done"] {
        let tokens = tokenize(script).unwrap();
        assert_eq!(tokens.last(), Some(&Token::Eof));
        assert_eq!(tokens.iter().filter(|t| **t == Token::Eof).count(), 1);
    }
}

#[test]
fn nested_values_read_as_they_were_set() {
    let mut source = object(vec![("a", object(vec![("x", Json::Int(1))])), ("b", Json::Int(2))]);
    set_nested_value(&mut source, "a.y.z", Json::Int(3));
    assert_eq!(get_nested_value(&source, "a.y.z"), Json::Int(3));
    assert_eq!(get_nested_value(&source, "a.x"), Json::Int(1));
    assert_eq!(get_nested_value(&source, "b"), Json::Int(2));
    assert_eq!(get_nested_value(&source, "a.none.z"), Json::Null);
    let mut number = Json::Int(1);
    set_nested_value(&mut number, "a", Json::Int(2));
    assert_eq!(number, Json::Int(1));
}

#[test]
fn script_values_survive_json() {
    let j = object(vec![
        ("n", Json::Null),
        ("l", Json::Array(vec![Json::Int(1), Json::Str("x".into()), Json::Bool(false)])),
        ("f", Json::Float(Double::Bits(0.5_f64.to_bits()))),
    ]);
    assert_eq!(ScriptValue::from(&j).to_json(&Answers::new()).unwrap(), j);
    let nan = ScriptValue::Float(Double::Bits(f64::NAN.to_bits()));
    assert_eq!(nan.to_json(&Answers::new()).unwrap(), Json::Null);
}

#[test]
fn empty_scripts_give_null() {
    assert_eq!(run(""), Ok(Json::Null));
    assert_eq!(
        evaluate_parsed(&parse("").unwrap(), &mut ScriptContext::new(), &Answers::new()),
        Ok(Json::Null)
    );
}

#[test]
fn errors_say_what_was_found() {
    assert_eq!(message("doc[1]"), "script parse error: expected string in doc access, got IntLit(1)");
    assert_eq!(message(")"), "script parse error: unexpected token: RParen");
    assert_eq!(
        message("(1 'a\"b'"),
        "script parse error: expected RParen, got StringLit(\"a\\\"b\")"
    );
    assert_eq!(
        message("def i = 0; for (def k = 0; k < 1000000; k = k + 0) { i = 1; }"),
        "script runtime error: for loop iteration limit exceeded"
    );
    assert_eq!(
        parse("1 +"),
        Err(FerroError::QueryParseError("unexpected token: Eof".to_string()))
    );
}

#[test]
fn a_computation_with_doubles_is_asked_for() {
    let mut ctx = ScriptContext::new();
    ctx.source = object(vec![("n", Json::Int(1))]);
    let script = "ctx._source.n = 5; return 1.5 + 2;";
    let mut answers = Answers::new();
    let Err(Halt::Ask(q)) = evaluate(script, &mut ctx, &answers) else {
        panic!("expected a question");
    };
    assert_eq!(q.name, "+");
    assert_eq!(q.args, vec![Double::Text("1.5".to_string()), Double::Int(2)]);
    // Nothing has changed yet.
    assert_eq!(ctx.source, object(vec![("n", Json::Int(1))]));
    answers.add(q, DoubleAnswer::Bits(3.5_f64.to_bits()));
    assert_eq!(
        evaluate(script, &mut ctx, &answers),
        Ok(Json::Float(Double::Bits(3.5_f64.to_bits())))
    );
    assert_eq!(ctx.source, object(vec![("n", Json::Int(5))]));
}

#[test]
fn integers_wrap_and_division_is_guarded() {
    assert_eq!(run("9223372036854775807 + 1"), Ok(Json::Int(i64::MIN)));
    assert!(message("1 % 0").contains("by zero"));
    assert!(message("(0 - 9223372036854775807) / (0 - 1)").contains("integer overflow"));
}

#[test]
fn random_states_follow_each_other() {
    let x: u64 = SEED;
    let mut y = x ^ (x << 13);
    y ^= y >> 7;
    y ^= y << 17;
    assert_eq!(next_state(SEED), y);
    assert_ne!(next_state(1), 0);
    assert_eq!(next_state(0), 0);
}

#[test]
fn integers_among_doubles() {
    assert_eq!(whole(1024.0_f64.to_bits()), Some(1024));
    assert_eq!(whole((-1.0_f64).to_bits()), Some(-1));
    assert_eq!(whole(0.1_f64.to_bits()), None);
    assert_eq!(whole(9_223_372_036_854_775_808.0_f64.to_bits()), None);
    assert_eq!(whole(f64::NAN.to_bits()), None);
}

#[test]
fn the_first_answer_stays() {
    let mut answers = Answers::new();
    let Err(Halt::Ask(q)) = evaluate("0.5 < 1", &mut ScriptContext::new(), &answers) else {
        panic!("expected a question");
    };
    let Err(Halt::Ask(again)) = evaluate("0.5 < 1", &mut ScriptContext::new(), &answers) else {
        panic!("expected a question");
    };
    answers.add(q, DoubleAnswer::Flag(true));
    answers.add(again, DoubleAnswer::Flag(false));
    assert_eq!(
        evaluate("0.5 < 1", &mut ScriptContext::new(), &answers),
        Ok(Json::Bool(true))
    );
}

#[test]
fn small_integers_are_exact() {
    assert_eq!(run("9007199254740991 + 0"), Ok(Json::Int(9_007_199_254_740_991)));
    assert_eq!(run("9007199254740992 + 0"), Ok(Json::Int(9_007_199_254_740_992)));
    assert_eq!(run("0 - 9007199254740991"), Ok(Json::Int(-9_007_199_254_740_991)));
    // Above, integers are rounded to doubles before they are added.
    assert_eq!(run("9007199254740993 + 0"), Ok(Json::Int(9_007_199_254_740_992)));
}

#[test]
fn scripts_write_only_source_and_locals() {
    let mut ctx = ScriptContext::new();
    ctx.set_doc("price", Json::Int(3));
    ctx.set_param("k", Json::Int(2));
    ctx.set_metadata("@type", "order");
    let script = "def x = 1; def x = doc['price'].value * params.k; \
                  for (def i = 0; i < 3; i = i + 1) { x += i; } ctx._source.total = x; return x;";
    assert_eq!(evaluate(script, &mut ctx, &Answers::new()), Ok(Json::Int(9)));
    assert_eq!(ctx.doc, vec![("price".to_string(), Json::Int(3))]);
    assert_eq!(ctx.params, vec![("k".to_string(), Json::Int(2))]);
    assert_eq!(ctx.metadata, vec![("@type".to_string(), "order".to_string())]);
    assert_eq!(ctx.source, object(vec![("total", Json::Int(9))]));
    assert_eq!(ctx.locals.iter().filter(|(k, _)| k == "x").count(), 1);
}

#[test]
fn more_answers_change_no_result() {
    let script = "if (1.5 < 2) { return true; } else { return 0; }";
    let mut answers = Answers::new();
    let Err(Halt::Ask(q)) = evaluate(script, &mut ScriptContext::new(), &answers) else {
        panic!("expected a question");
    };
    answers.add(q, DoubleAnswer::Flag(true));
    let first = evaluate(script, &mut ScriptContext::new(), &answers);
    assert_eq!(first, Ok(Json::Bool(true)));
    let Err(Halt::Ask(other)) = evaluate("2.5 * 3", &mut ScriptContext::new(), &answers) else {
        panic!("expected a question");
    };
    answers.add(other, DoubleAnswer::Bits(7.5_f64.to_bits()));
    assert_eq!(evaluate(script, &mut ScriptContext::new(), &answers), first);
}

#[test]
fn dates_before_1970() {
    assert_eq!(run("'1969-12-28'.getDayOfWeek()"), Ok(Json::Int(7)));
    assert_eq!(run("'1969-12-29'.getDayOfWeek()"), Ok(Json::Int(1)));
    assert_eq!(run("'1970-01-01'.getDayOfWeek()"), Ok(Json::Int(4)));
    assert_eq!(run("(0 - 1000).getHour()"), Ok(Json::Int(23)));
    assert_eq!(run("(0 - 1000).getSecond()"), Ok(Json::Int(59)));
    assert_eq!(run("(0 - 1000).getDayOfMonth()"), Ok(Json::Int(31)));
    assert_eq!(run("(0 - 1000).getYear()"), Ok(Json::Int(1969)));
}

#[test]
fn the_whole_source_is_an_expression() {
    let mut ctx = ScriptContext::new();
    ctx.source = object(vec![("a", Json::Int(1))]);
    let mut eval = |script: &str| evaluate(script, &mut ctx, &Answers::new());
    assert_eq!(eval("ctx._source"), Ok(object(vec![("a", Json::Int(1))])));
    assert_eq!(eval("def s = ctx._source; return s.size();"), Ok(Json::Int(1)));
    assert_eq!(eval("return ctx._source == _source;"), Ok(Json::Bool(true)));
    assert!(matches!(eval("ctx"), Err(Halt::Error(_))));
    assert!(matches!(eval("ctx._source[1]"), Err(Halt::Error(_))));
    assert_eq!(message("ctx 1"), "script parse error: expected Dot, got IntLit(1)");
}

#[test]
fn vectors_of_lists_and_booleans() {
    let list = |v: Vec<ScriptValue>| ScriptValue::Array(v);
    let ints = |a: i64, b: i64| list(vec![ScriptValue::Int(a), ScriptValue::Int(b)]);
    let pair = Ok(vec![Double::Int(1), Double::Int(2)]);
    assert_eq!(to_vector(&ints(1, 2)), pair);
    assert_eq!(to_vector(&list(vec![ints(1, 2)])), pair);
    assert_eq!(to_vector(&list(vec![ints(1, 2), ints(3, 4)])), pair);
    assert_eq!(
        to_vector(&list(vec![ScriptValue::Bool(true), ScriptValue::Bool(false)])),
        Ok(vec![Double::Int(1), Double::Int(0)])
    );
    assert_eq!(to_vector(&ScriptValue::Null), Ok(vec![]));
    assert!(to_vector(&list(vec![ScriptValue::Str("1".into())])).is_err());
    assert!(to_vector(&list(vec![ScriptValue::Int(1), ints(1, 2)])).is_err());
    assert!(to_vector(&ScriptValue::Int(1)).is_err());
}
