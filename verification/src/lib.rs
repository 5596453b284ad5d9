//! A small expression language: source text is lexed into tokens, parsed into
//! an abstract syntax tree, type checked, and evaluated to a value.
//!
//! Every stage is specified against a mathematical model of the language:
//! `lexer::spec_tokenize`, `parser::spec_parse_expression`,
//! `typecheck::spec_tc` and `eval::spec_eval` say exactly what the executable
//! pipeline returns, and `soundness` proves that a type-checked expression
//! never gets stuck when it is evaluated.

pub mod ast;
pub mod env;
pub mod lexer;
pub mod parser;
pub mod typecheck;
pub mod eval;
pub mod messages;
pub mod render;
pub mod roundtrip;
pub mod soundness;
