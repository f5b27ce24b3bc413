//! The expression language: tokens, syntax tree, parser, values, evaluation.
pub mod answered;
pub mod ast;
pub mod calendar_laws;
pub mod token;
pub mod token_laws;
pub mod grammar;
pub mod operator_laws;
pub mod parser;
pub mod printed;
pub mod statement_laws;
pub mod value;
pub mod date;
pub mod number;
pub mod random;
pub mod reading_laws;
pub mod regexes;
pub mod semantics;
pub mod methods;
pub mod method_laws;
pub mod context;
pub mod double_laws;
pub mod evaluator;
pub mod jit;
pub mod jit_laws;
pub mod laws;
