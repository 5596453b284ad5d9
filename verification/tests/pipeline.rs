use exprlang::ast::{Exp, Token};
use exprlang::env::{Env, TEnv, Value};
use exprlang::eval::{EvalErr, interp};
use exprlang::lexer::{LexErr, tokenize};
use exprlang::parser::{ParseErr, parse_expression};
use exprlang::render::render_tokens;
use exprlang::typecheck::{TypeErr, tc};

fn parse(src: &str) -> Exp {
    let tokens = tokenize(src).expect("lexes");
    parse_expression(&tokens).expect("parses")
}

fn type_of(src: &str) -> String {
    let e = parse(src);
    tc(&e, &TEnv::new()).expect("type checks").render()
}

fn value_of(src: &str) -> String {
    let e = parse(src);
    interp(&e, &Env::new()).expect("evaluates").render()
}

fn type_err_of(src: &str) -> TypeErr {
    let e = parse(src);
    tc(&e, &TEnv::new()).expect_err("type check fails")
}

fn eval_err_of(src: &str) -> EvalErr {
    let e = parse(src);
    interp(&e, &Env::new()).expect_err("evaluation fails")
}

#[test]
fn scenario_addition() {
    assert_eq!(type_of("3 + 4"), "int");
    assert_eq!(value_of("3 + 4"), "7");
}

#[test]
fn scenario_concat() {
    assert_eq!(type_of("\"ab\" ++ \"cd\""), "str");
    assert_eq!(value_of("\"ab\" ++ \"cd\""), "abcd");
}

#[test]
fn scenario_conditional() {
    assert_eq!(type_of("if 1 < 2 { 10 } else { 20 }"), "int");
    assert_eq!(value_of("if 1 < 2 { 10 } else { 20 }"), "10");
}

#[test]
fn scenario_let_bool() {
    assert_eq!(value_of("let x = true { if x { 1 } else { 2 } }"), "1");
}

#[test]
fn scenario_apply_lambda() {
    assert_eq!(type_of("(fn (x: int) { x + 1 })(5)"), "int");
    assert_eq!(value_of("(fn (x: int) { x + 1 })(5)"), "6");
}

#[test]
fn scenario_ill_typed_addition() {
    assert!(matches!(type_err_of("1 + true"), TypeErr::AddOperands));
    assert!(matches!(eval_err_of("1 + true"), EvalErr::AddOperands { .. }));
}

#[test]
fn lexical_scoping_captures_definition_site() {
    let src = "let x = 1 { let f = fn(y: int){ x + y } { let x = 2 { f(3) } } }";
    assert_eq!(value_of(src), "4");
}

#[test]
fn left_associative_operator_chain() {
    let e = parse("1 + 2 + 3");
    assert_eq!(e.render(), "(+ (+ 1 2) 3)");
    assert_eq!(value_of("1 + 2 + 3"), "6");
}

#[test]
fn left_associative_application_chain() {
    let e = parse("f(1)(2)");
    assert_eq!(e.render(), "((f 1) 2)");
}

#[test]
fn flat_operator_layer_has_no_precedence() {
    assert_eq!(parse("1 + 2 < 4").render(), "(< (+ 1 2) 4)");
    assert_eq!(value_of("1 + 2 < 4"), "true");
}

#[test]
fn tokens_round_trip_through_rendering() {
    let src = "let x_1 = -5 { if x_1 < 0 { \"a b\" ++ \"c\" } else { \"d\" } }";
    let first = tokenize(src).expect("lexes");
    let rendered = render_tokens(&first);
    let second = tokenize(&rendered).expect("relexes");
    assert_eq!(first.len(), second.len());
    assert_eq!(render_tokens(&first), render_tokens(&second));
}

#[test]
fn tokens_round_trip_covers_every_token_kind() {
    let src = "-> ( ) { } : = < + ++ if else let fn int bool str true false ident 7 -7 \"s\"";
    let first = tokenize(src).expect("lexes");
    let rendered = render_tokens(&first);
    assert_eq!(rendered, src);
    let second = tokenize(&rendered).expect("relexes");
    assert_eq!(render_tokens(&second), src);
}

#[test]
fn evaluation_is_deterministic() {
    let src = "(fn (x: int) { x + 20 })(22)";
    let e = parse(src);
    let v1 = interp(&e, &Env::new()).expect("evaluates").render();
    let v2 = interp(&e, &Env::new()).expect("evaluates").render();
    assert_eq!(v1, v2);
    assert_eq!(v1, "42");
}

#[test]
fn short_circuit_skips_untaken_branch() {
    assert_eq!(value_of("if true { 42 } else { 1 + true }"), "42");
    assert_eq!(value_of("if false { 1 + true } else { 7 }"), "7");
}

#[test]
fn lexer_skips_whitespace() {
    assert_eq!(value_of("  1\n+\t2  "), "3");
}

#[test]
fn lexer_negative_and_max_literals() {
    let ts = tokenize("9223372036854775807").expect("lexes");
    assert!(matches!(ts[0], Token::Int(9223372036854775807)));
    let ts = tokenize("-9223372036854775808").expect("lexes");
    assert!(matches!(ts[0], Token::Int(-9223372036854775808)));
}

#[test]
fn lexer_rejects_overflowing_literals() {
    assert!(matches!(
        tokenize("99999999999999999999"),
        Err(LexErr::InvalidInt(_))
    ));
    assert!(matches!(
        tokenize("-99999999999999999999"),
        Err(LexErr::InvalidInt(_))
    ));
}

#[test]
fn lexer_rejects_bare_minus() {
    match tokenize("- ") {
        Err(LexErr::InvalidInt(s)) => assert_eq!(s, "-"),
        other => panic!("expected an invalid-integer error, got {:?}", other),
    }
}

#[test]
fn lexer_rejects_unterminated_string() {
    assert!(matches!(tokenize("\"abc"), Err(LexErr::UnterminatedString)));
}

#[test]
fn lexer_rejects_unexpected_character() {
    assert!(matches!(tokenize("#"), Err(LexErr::UnexpectedChar('#'))));
}

#[test]
fn lexer_digit_followed_by_angle_is_not_an_arrow() {
    assert!(matches!(tokenize("5>"), Err(LexErr::UnexpectedChar('>'))));
}

#[test]
fn lexer_classifies_keywords_and_identifiers() {
    let ts = tokenize("if else let fn true false int bool str iffy").expect("lexes");
    assert!(matches!(ts[0], Token::If));
    assert!(matches!(ts[1], Token::Else));
    assert!(matches!(ts[2], Token::Let));
    assert!(matches!(ts[3], Token::Fn));
    assert!(matches!(ts[4], Token::Bool(true)));
    assert!(matches!(ts[5], Token::Bool(false)));
    assert!(matches!(ts[6], Token::IntType));
    assert!(matches!(ts[7], Token::BoolType));
    assert!(matches!(ts[8], Token::StrType));
    match &ts[9] {
        Token::Symbol(s) => assert_eq!(s, "iffy"),
        other => panic!("expected a symbol, got {:?}", other),
    }
}

#[test]
fn lexer_string_takes_characters_literally() {
    let ts = tokenize("\"a + b { } \"").expect("lexes");
    assert_eq!(ts.len(), 1);
    match &ts[0] {
        Token::Str(s) => assert_eq!(s, "a + b { } "),
        other => panic!("expected a string token, got {:?}", other),
    }
}

#[test]
fn parser_rejects_trailing_input() {
    let ts = tokenize("1 2").expect("lexes");
    assert!(matches!(
        parse_expression(&ts),
        Err(ParseErr::TrailingInput)
    ));
}

#[test]
fn parser_rejects_empty_input() {
    let ts = tokenize("").expect("lexes");
    assert!(matches!(parse_expression(&ts), Err(ParseErr::ExpectedFactor)));
}

#[test]
fn parser_requires_else() {
    let ts = tokenize("if true { 1 }").expect("lexes");
    assert!(matches!(
        parse_expression(&ts),
        Err(ParseErr::ExpectedToken(Token::Else))
    ));
}

#[test]
fn parser_requires_identifier_binder() {
    let ts = tokenize("let 1 = 2 { 3 }").expect("lexes");
    assert!(matches!(
        parse_expression(&ts),
        Err(ParseErr::ExpectedIdentifier)
    ));
}

#[test]
fn parser_requires_type_annotation() {
    let ts = tokenize("fn (x: wat) { x }").expect("lexes");
    assert!(matches!(parse_expression(&ts), Err(ParseErr::ExpectedType)));
}

#[test]
fn parser_requires_closing_paren() {
    let ts = tokenize("(1").expect("lexes");
    assert!(matches!(
        parse_expression(&ts),
        Err(ParseErr::ExpectedToken(Token::RightParen))
    ));
}

#[test]
fn parser_function_type_annotation() {
    assert_eq!(type_of("fn (f: (int -> int)) { f(1) }"), "((int -> int) -> int)");
}

#[test]
fn type_errors_by_kind() {
    match type_err_of("x") {
        TypeErr::UnboundVar(s) => assert_eq!(s, "x"),
        other => panic!("expected an unbound variable, got {:?}", other),
    }
    assert!(matches!(type_err_of("1 ++ 2"), TypeErr::ConcatOperands));
    assert!(matches!(
        type_err_of("\"a\" < \"b\""),
        TypeErr::LessThanOperands
    ));
    assert!(matches!(
        type_err_of("if 1 { 2 } else { 3 }"),
        TypeErr::TestNotBool
    ));
    assert!(matches!(
        type_err_of("if true { 1 } else { \"a\" }"),
        TypeErr::BranchMismatch
    ));
    assert!(matches!(type_err_of("1(2)"), TypeErr::NotAFunction { .. }));
    assert!(matches!(
        type_err_of("(fn (x: int) { x })(true)"),
        TypeErr::ArgMismatch { .. }
    ));
}

#[test]
fn runtime_errors_by_kind() {
    match eval_err_of("x") {
        EvalErr::UnboundVar(s) => assert_eq!(s, "x"),
        other => panic!("expected an unbound variable, got {:?}", other),
    }
    assert!(matches!(
        eval_err_of("1 ++ 2"),
        EvalErr::ConcatOperands { .. }
    ));
    assert!(matches!(
        eval_err_of("\"a\" < \"b\""),
        EvalErr::LessThanOperands { .. }
    ));
    assert!(matches!(
        eval_err_of("if 1 { 2 } else { 3 }"),
        EvalErr::TestNotBool { .. }
    ));
    assert!(matches!(eval_err_of("1(2)"), EvalErr::NotAFunction { .. }));
}

#[test]
fn runtime_addition_overflow_is_reported() {
    assert!(matches!(
        eval_err_of("9223372036854775807 + 1"),
        EvalErr::AddOverflow
    ));
}

#[test]
fn evaluator_runs_without_type_checking() {
    assert!(matches!(type_err_of("if true { 1 } else { \"a\" }"), TypeErr::BranchMismatch));
    assert_eq!(value_of("if true { 1 } else { \"a\" }"), "1");
}

#[test]
fn let_shadowing_uses_newest_binding() {
    assert_eq!(value_of("let x = 1 { let x = 2 { x } }"), "2");
}

#[test]
fn closure_renders_with_environment_dump() {
    assert_eq!(
        value_of("let y = 1 { fn (x: int) { x + y } }"),
        "closure((fn (x: int) (+ x y)), {y=1})"
    );
}

#[test]
fn lambda_type_renders_parenthesized() {
    assert_eq!(type_of("fn (x: int) { x < 1 }"), "(int -> bool)");
}

#[test]
fn negative_values_render_with_sign() {
    assert_eq!(value_of("0 + -5"), "-5");
}

#[test]
fn environment_lookup_finds_newest_binding() {
    let nv = Env::new();
    let nv = nv.extend(String::from("x"), Value::Int(1));
    let nv = nv.extend(String::from("x"), Value::Int(2));
    match nv.lookup(&String::from("x")) {
        Some(Value::Int(n)) => assert_eq!(n, 2),
        other => panic!("expected the newest binding, got {:?}", other),
    }
    assert!(nv.lookup(&String::from("y")).is_none());
}

#[test]
fn expression_rendering_is_fully_parenthesized() {
    let src = "let a = 1 { if a < 2 { \"x\" ++ \"y\" } else { \"z\" } }";
    assert_eq!(
        parse(src).render(),
        "(let a 1 (if (< a 2) (++ \"x\" \"y\") \"z\"))"
    );
}

#[test]
fn lexer_error_messages() {
    assert_eq!(
        tokenize("- ").expect_err("fails").message(),
        "Invalid integer format: -"
    );
    assert_eq!(
        tokenize("\"oops").expect_err("fails").message(),
        "unterminated string"
    );
    assert_eq!(
        tokenize("#").expect_err("fails").message(),
        "Unexpected character: '#'"
    );
}

#[test]
fn parse_error_messages() {
    let ts = tokenize("if true { 1 }").expect("lexes");
    assert_eq!(
        parse_expression(&ts).expect_err("fails").message(),
        "Expected 'else' token"
    );
    let ts = tokenize("1 2").expect("lexes");
    assert_eq!(
        parse_expression(&ts).expect_err("fails").message(),
        "Expected to find end of input"
    );
}

#[test]
fn type_error_messages() {
    assert_eq!(type_err_of("x").message(), "no known type for x");
    assert_eq!(type_err_of("1 + true").message(), "not both integers");
    assert_eq!(
        type_err_of("(fn (x: int) { x })(true)").message(),
        "function argument type mismatch: expected int, got bool"
    );
    assert_eq!(
        type_err_of("1(2)").message(),
        "function expected, found int"
    );
}

#[test]
fn runtime_error_messages() {
    assert_eq!(eval_err_of("x").message(), "x not bound");
    assert_eq!(
        eval_err_of("1 + true").message(),
        "+ expects two integers, got 1 + true"
    );
    assert_eq!(
        eval_err_of("if 7 { 1 } else { 2 }").message(),
        "boolean expected, found 7"
    );
}

#[test]
fn application_of_curried_functions() {
    let src = "(fn (x: int) { fn (y: int) { x + y } })(30)(12)";
    assert_eq!(type_of(src), "int");
    assert_eq!(value_of(src), "42");
}
