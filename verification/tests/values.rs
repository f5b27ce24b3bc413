//! Script values, and scripts as machine code.
use ferro_stash::double::{Answers, Double};
use ferro_stash::json::Json;
use ferro_stash::script::ast::BinOp;
use ferro_stash::script::jit::{try_jit_compile, Code, JitPlan};
use ferro_stash::script::value::ScriptValue;
use std::collections::HashMap;

fn number(d: &Double) -> f64 {
    match d {
        Double::Bits(b) => f64::from_bits(*b),
        Double::Text(s) => s.parse().unwrap(),
        Double::Int(n) => *n as f64,
    }
}

#[test]
fn types_test_json_roundtrip() {
    let json = Json::Object(vec![
        ("name".to_string(), Json::Str("test".to_string())),
        ("value".to_string(), Json::Int(42)),
        ("active".to_string(), Json::Bool(true)),
    ]);
    let sv = ScriptValue::from(&json);
    let back = sv.to_json(&Answers::new()).unwrap();
    assert_eq!(json, back);
}

fn truthy(v: ScriptValue) -> bool {
    v.is_truthy(&Answers::new()).unwrap()
}

#[test]
fn test_truthiness() {
    assert!(!truthy(ScriptValue::Null));
    assert!(!truthy(ScriptValue::Bool(false)));
    assert!(truthy(ScriptValue::Bool(true)));
    assert!(!truthy(ScriptValue::Int(0)));
    assert!(truthy(ScriptValue::Int(1)));
    assert!(truthy(ScriptValue::Str("hello".into())));
    assert!(!truthy(ScriptValue::Str(String::new())));
}

fn as_number(v: ScriptValue) -> Option<f64> {
    v.as_f64().map(|d| number(&d))
}

#[test]
fn test_as_f64() {
    assert_eq!(as_number(ScriptValue::Int(5)), Some(5.0));
    assert_eq!(
        as_number(ScriptValue::Float(Double::Bits(3.125_f64.to_bits()))),
        Some(3.125)
    );
    assert_eq!(as_number(ScriptValue::Str("x".into())), None);
}

/// Runs the instructions.
fn compute(code: &Code, score: f64, fields: &[f64]) -> f64 {
    let flag = |b: bool| if b { 1.0 } else { 0.0 };
    match code {
        Code::Const(d) => number(d),
        Code::Score => score,
        Code::Field(i) => fields[*i],
        Code::Binary(l, op, r) => {
            let a = compute(l, score, fields);
            let b = compute(r, score, fields);
            match op {
                BinOp::Add => a + b,
                BinOp::Sub => a - b,
                BinOp::Mul => a * b,
                BinOp::Div => a / b,
                BinOp::Gt => flag(a > b),
                BinOp::Lt => flag(a < b),
                BinOp::Gte => flag(a >= b),
                BinOp::Lte => flag(a <= b),
                BinOp::Eq => flag(a == b),
                BinOp::Neq => flag(a != b),
                other => panic!("no instruction for {other:?}"),
            }
        }
        Code::Neg(a) => -compute(a, score, fields),
        Code::Call(f, a) => {
            let x = compute(a, score, fields);
            match f.as_str() {
                "log" => x.ln(),
                "sin" => x.sin(),
                "cos" => x.cos(),
                other => panic!("not needed here: {other}"),
            }
        }
        Code::Select(c, a, b) => {
            if compute(c, score, fields) != 0.0 {
                compute(a, score, fields)
            } else {
                compute(b, score, fields)
            }
        }
    }
}

fn execute_jit(source: &str, score: f64, fields: &HashMap<String, f64>) -> Option<f64> {
    let plan: JitPlan = try_jit_compile(source)?;
    let known: Vec<(String, u64)> = fields.iter().map(|(k, v)| (k.clone(), v.to_bits())).collect();
    let values: Vec<f64> = plan.field_values(&known).into_iter().map(f64::from_bits).collect();
    Some(compute(&plan.code, score, &values))
}

#[test]
fn test_jit_simple_score() {
    let source = "_score * 2";
    assert!(try_jit_compile(source).is_some());

    let fields = HashMap::new();
    let result = execute_jit(source, 3.0, &fields).unwrap();
    assert!((result - 6.0).abs() < 1e-10);
}

#[test]
fn test_jit_math_log() {
    let source = "Math.log(1 + doc['price'].value) * _score";
    assert!(try_jit_compile(source).is_some());

    let mut fields = HashMap::new();
    fields.insert("price".to_string(), 99.0);
    let result = execute_jit(source, 2.0, &fields).unwrap();
    let expected = (100.0_f64).ln() * 2.0;
    assert!(
        (result - expected).abs() < 1e-10,
        "got {result}, expected {expected}"
    );
}

#[test]
fn test_jit_ternary() {
    let source = "doc['price'].value > 100 ? _score * 2 : _score";
    assert!(try_jit_compile(source).is_some());

    let mut fields = HashMap::new();
    fields.insert("price".to_string(), 200.0);
    assert!((execute_jit(source, 1.0, &fields).unwrap() - 2.0).abs() < 1e-10);

    fields.insert("price".to_string(), 50.0);
    assert!((execute_jit(source, 1.0, &fields).unwrap() - 1.0).abs() < 1e-10);
}

#[test]
fn test_jit_complex_trig() {
    let source = "Math.sin(doc['price'].value) + Math.cos(doc['rating'].value) > 0 ? _score * 2 : _score";
    assert!(try_jit_compile(source).is_some());

    let mut fields = HashMap::new();
    fields.insert("price".to_string(), 1.0);
    fields.insert("rating".to_string(), 0.0);
    // sin(1) + cos(0) is positive.
    let result = execute_jit(source, 1.5, &fields).unwrap();
    assert!((result - 3.0).abs() < 1e-10);
}

#[test]
fn test_jit_non_jitable_falls_back() {
    // Operations on texts are no numbers.
    let source = "ctx._source.name.toLowerCase()";
    assert!(try_jit_compile(source).is_none());
}

#[test]
fn fields_that_are_not_there_are_zero() {
    let plan = try_jit_compile("doc['a'].value + doc['b'].value").unwrap();
    assert_eq!(plan.fields, vec!["a".to_string(), "b".to_string()]);
    let values = plan.field_values(&vec![("b".to_string(), 2.5_f64.to_bits())]);
    assert_eq!(values, vec![0, 2.5_f64.to_bits()]);
}
