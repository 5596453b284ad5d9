//! The recursive-descent parser: a token sequence in, one expression tree
//! out, consuming the entire input.
//!
//! Grammar, lowest precedence first; the binary operators form one flat
//! left-associative layer, application binds tighter, atoms tightest:
//!
//! ```text
//! expression  := term ( ('+' | '++' | '<') term )*
//! term        := factor ( '(' expression ')' )*
//! factor      := '(' expression ')' | conditional | let1 | lambda
//!              | INT | BOOL | STR | IDENT
//! conditional := 'if' expression '{' expression '}' 'else' '{' expression '}'
//! let1        := 'let' IDENT '=' expression '{' expression '}'
//! lambda      := 'fn' '(' IDENT ':' typeexp ')' '{' expression '}'
//! typeexp     := 'int' | 'bool' | 'str' | '(' typeexp '->' typeexp ')'
//! ```
//!
//! Each `spec_parse_*` function is the mathematical parser for one grammar
//! layer; the executable functions are proved to return exactly what it says.

use crate::ast::{Exp, SpecExp, SpecToken, SpecType, Token, Type, tokens_view};
use vstd::prelude::*;

verus! {

/// A parse error.
#[derive(Debug)]
pub enum ParseErr {
    /// A required token is absent or mismatched; the payload is the token
    /// that was expected.
    ExpectedToken(Token),
    /// An identifier was required (a `let` or lambda binder) but not found.
    ExpectedIdentifier,
    /// No factor starts at the current position.
    ExpectedFactor,
    /// No type expression starts at the current position.
    ExpectedType,
    /// Tokens remain after a complete top-level expression.
    TrailingInput,
}

/// The mathematical model of a parse error.
pub enum SpecParseErr {
    ExpectedToken(SpecToken),
    ExpectedIdentifier,
    ExpectedFactor,
    ExpectedType,
    TrailingInput,
}

impl View for ParseErr {
    type V = SpecParseErr;

    open spec fn view(&self) -> SpecParseErr {
        match self {
            ParseErr::ExpectedToken(t) => SpecParseErr::ExpectedToken(t@),
            ParseErr::ExpectedIdentifier => SpecParseErr::ExpectedIdentifier,
            ParseErr::ExpectedFactor => SpecParseErr::ExpectedFactor,
            ParseErr::ExpectedType => SpecParseErr::ExpectedType,
            ParseErr::TrailingInput => SpecParseErr::TrailingInput,
        }
    }
}

/// The position after a sub-parse that started at `start` and reported
/// `returned`.  A parse that succeeds always moves forward, so this is
/// `returned`; the guard only keeps the termination measure of the spec
/// parser decreasing on junk values that no parse actually produces.
pub open spec fn step_pos(start: int, returned: int) -> int {
    if returned > start {
        returned
    } else {
        start + 1
    }
}

/// `p` forced into `[lo, hi]`; the identity wherever a parse position is
/// used, for the same reason as in `step_pos`.
pub open spec fn clamp_pos(lo: int, hi: int, p: int) -> int {
    if p < lo {
        lo
    } else if p > hi {
        hi
    } else {
        p
    }
}

/// The type expression starting at `pos`, with the position just past it.
pub open spec fn spec_parse_typeexp(ts: Seq<SpecToken>, pos: int) -> Result<
    (SpecType, int),
    SpecParseErr,
>
    decreases ts.len() - pos, 0int,
{
    if pos < 0 || pos >= ts.len() {
        Err(SpecParseErr::ExpectedType)
    } else {
        match ts[pos] {
            SpecToken::IntType => Ok((SpecType::Int, pos + 1)),
            SpecToken::BoolType => Ok((SpecType::Bool, pos + 1)),
            SpecToken::StrType => Ok((SpecType::Str, pos + 1)),
            SpecToken::LeftParen => match spec_parse_typeexp(ts, pos + 1) {
                Err(e) => Err(e),
                Ok((param, p1)) => {
                    let q1 = step_pos(pos + 1, p1);
                    if q1 < ts.len() && ts[q1] is RightArrow {
                        match spec_parse_typeexp(ts, q1 + 1) {
                            Err(e) => Err(e),
                            Ok((result, p2)) => {
                                let q2 = step_pos(q1 + 1, p2);
                                if q2 < ts.len() && ts[q2] is RightParen {
                                    Ok(
                                        (
                                            SpecType::Fun {
                                                param: Box::new(param),
                                                result: Box::new(result),
                                            },
                                            q2 + 1,
                                        ),
                                    )
                                } else {
                                    Err(SpecParseErr::ExpectedToken(SpecToken::RightParen))
                                }
                            },
                        }
                    } else {
                        Err(SpecParseErr::ExpectedToken(SpecToken::RightArrow))
                    }
                },
            },
            _ => Err(SpecParseErr::ExpectedType),
        }
    }
}

/// The conditional starting at `pos`:
/// `if expression { expression } else { expression }`.
pub open spec fn spec_parse_conditional(ts: Seq<SpecToken>, pos: int) -> Result<
    (SpecExp, int),
    SpecParseErr,
>
    decreases ts.len() - pos, 0int,
{
    if !(0 <= pos < ts.len() && ts[pos] is If) {
        Err(SpecParseErr::ExpectedToken(SpecToken::If))
    } else {
        match spec_parse_expr(ts, pos + 1) {
            Err(e) => Err(e),
            Ok((tst, p1)) => {
                let q1 = step_pos(pos + 1, p1);
                if !(q1 < ts.len() && ts[q1] is LeftBrace) {
                    Err(SpecParseErr::ExpectedToken(SpecToken::LeftBrace))
                } else {
                    match spec_parse_expr(ts, q1 + 1) {
                        Err(e) => Err(e),
                        Ok((thn, p2)) => {
                            let q2 = step_pos(q1 + 1, p2);
                            if !(q2 < ts.len() && ts[q2] is RightBrace) {
                                Err(SpecParseErr::ExpectedToken(SpecToken::RightBrace))
                            } else if !(q2 + 1 < ts.len() && ts[q2 + 1] is Else) {
                                Err(SpecParseErr::ExpectedToken(SpecToken::Else))
                            } else if !(q2 + 2 < ts.len() && ts[q2 + 2] is LeftBrace) {
                                Err(SpecParseErr::ExpectedToken(SpecToken::LeftBrace))
                            } else {
                                match spec_parse_expr(ts, q2 + 3) {
                                    Err(e) => Err(e),
                                    Ok((els, p3)) => {
                                        let q3 = step_pos(q2 + 3, p3);
                                        if !(q3 < ts.len() && ts[q3] is RightBrace) {
                                            Err(
                                                SpecParseErr::ExpectedToken(SpecToken::RightBrace),
                                            )
                                        } else {
                                            Ok(
                                                (
                                                    SpecExp::Cnd {
                                                        tst: Box::new(tst),
                                                        thn: Box::new(thn),
                                                        els: Box::new(els),
                                                    },
                                                    q3 + 1,
                                                ),
                                            )
                                        }
                                    },
                                }
                            }
                        },
                    }
                }
            },
        }
    }
}

/// The single-binding let starting at `pos`:
/// `let IDENT = expression { expression }`.
pub open spec fn spec_parse_let1(ts: Seq<SpecToken>, pos: int) -> Result<
    (SpecExp, int),
    SpecParseErr,
>
    decreases ts.len() - pos, 0int,
{
    if !(0 <= pos < ts.len() && ts[pos] is Let) {
        Err(SpecParseErr::ExpectedToken(SpecToken::Let))
    } else if !(pos + 1 < ts.len() && ts[pos + 1] is Symbol) {
        Err(SpecParseErr::ExpectedIdentifier)
    } else {
        let var = ts[pos + 1]->Symbol_0;
        if !(pos + 2 < ts.len() && ts[pos + 2] is Equal) {
            Err(SpecParseErr::ExpectedToken(SpecToken::Equal))
        } else {
            match spec_parse_expr(ts, pos + 3) {
                Err(e) => Err(e),
                Ok((value, p1)) => {
                    let q1 = step_pos(pos + 3, p1);
                    if !(q1 < ts.len() && ts[q1] is LeftBrace) {
                        Err(SpecParseErr::ExpectedToken(SpecToken::LeftBrace))
                    } else {
                        match spec_parse_expr(ts, q1 + 1) {
                            Err(e) => Err(e),
                            Ok((body, p2)) => {
                                let q2 = step_pos(q1 + 1, p2);
                                if !(q2 < ts.len() && ts[q2] is RightBrace) {
                                    Err(SpecParseErr::ExpectedToken(SpecToken::RightBrace))
                                } else {
                                    Ok(
                                        (
                                            SpecExp::Let1 {
                                                var: var,
                                                value: Box::new(value),
                                                body: Box::new(body),
                                            },
                                            q2 + 1,
                                        ),
                                    )
                                }
                            },
                        }
                    }
                },
            }
        }
    }
}

/// The lambda starting at `pos`:
/// `fn ( IDENT : typeexp ) { expression }`.
pub open spec fn spec_parse_lambda(ts: Seq<SpecToken>, pos: int) -> Result<
    (SpecExp, int),
    SpecParseErr,
>
    decreases ts.len() - pos, 0int,
{
    if !(0 <= pos < ts.len() && ts[pos] is Fn) {
        Err(SpecParseErr::ExpectedToken(SpecToken::Fn))
    } else if !(pos + 1 < ts.len() && ts[pos + 1] is LeftParen) {
        Err(SpecParseErr::ExpectedToken(SpecToken::LeftParen))
    } else if !(pos + 2 < ts.len() && ts[pos + 2] is Symbol) {
        Err(SpecParseErr::ExpectedIdentifier)
    } else {
        let var = ts[pos + 2]->Symbol_0;
        if !(pos + 3 < ts.len() && ts[pos + 3] is Colon) {
            Err(SpecParseErr::ExpectedToken(SpecToken::Colon))
        } else {
            match spec_parse_typeexp(ts, pos + 4) {
                Err(e) => Err(e),
                Ok((var_type, p1)) => {
                    let q1 = step_pos(pos + 4, p1);
                    if !(q1 < ts.len() && ts[q1] is RightParen) {
                        Err(SpecParseErr::ExpectedToken(SpecToken::RightParen))
                    } else if !(q1 + 1 < ts.len() && ts[q1 + 1] is LeftBrace) {
                        Err(SpecParseErr::ExpectedToken(SpecToken::LeftBrace))
                    } else {
                        match spec_parse_expr(ts, q1 + 2) {
                            Err(e) => Err(e),
                            Ok((body, p2)) => {
                                let q2 = step_pos(q1 + 2, p2);
                                if !(q2 < ts.len() && ts[q2] is RightBrace) {
                                    Err(SpecParseErr::ExpectedToken(SpecToken::RightBrace))
                                } else {
                                    Ok(
                                        (
                                            SpecExp::Lam {
                                                var: var,
                                                var_type: var_type,
                                                body: Box::new(body),
                                            },
                                            q2 + 1,
                                        ),
                                    )
                                }
                            },
                        }
                    }
                },
            }
        }
    }
}

/// The factor starting at `pos`: a parenthesized expression, a conditional,
/// a let, a lambda, or one atom.
pub open spec fn spec_parse_factor(ts: Seq<SpecToken>, pos: int) -> Result<
    (SpecExp, int),
    SpecParseErr,
>
    decreases ts.len() - pos, 1int,
{
    if pos < 0 || pos >= ts.len() {
        Err(SpecParseErr::ExpectedFactor)
    } else {
        match ts[pos] {
            SpecToken::LeftParen => match spec_parse_expr(ts, pos + 1) {
                Err(e) => Err(e),
                Ok((e, p1)) => {
                    let q1 = step_pos(pos + 1, p1);
                    if q1 < ts.len() && ts[q1] is RightParen {
                        Ok((e, q1 + 1))
                    } else {
                        Err(SpecParseErr::ExpectedToken(SpecToken::RightParen))
                    }
                },
            },
            SpecToken::If => spec_parse_conditional(ts, pos),
            SpecToken::Let => spec_parse_let1(ts, pos),
            SpecToken::Fn => spec_parse_lambda(ts, pos),
            SpecToken::Int(n) => Ok((SpecExp::Int(n), pos + 1)),
            SpecToken::Bool(b) => Ok((SpecExp::Bool(b), pos + 1)),
            SpecToken::Str(s) => Ok((SpecExp::Str(s), pos + 1)),
            SpecToken::Symbol(s) => Ok((SpecExp::Var(s), pos + 1)),
            _ => Err(SpecParseErr::ExpectedFactor),
        }
    }
}

/// The left-associative application chain continuing `fun` at `pos`: as long
/// as a `(` follows, one more argument is applied.
pub open spec fn spec_parse_apps(ts: Seq<SpecToken>, pos: int, fun: SpecExp) -> Result<
    (SpecExp, int),
    SpecParseErr,
>
    decreases ts.len() - pos, 0int,
{
    if !(0 <= pos < ts.len() && ts[pos] is LeftParen) {
        Ok((fun, pos))
    } else {
        match spec_parse_expr(ts, pos + 1) {
            Err(e) => Err(e),
            Ok((arg, p1)) => {
                let q1 = step_pos(pos + 1, p1);
                if q1 < ts.len() && ts[q1] is RightParen {
                    spec_parse_apps(
                        ts,
                        q1 + 1,
                        SpecExp::App { fun: Box::new(fun), arg: Box::new(arg) },
                    )
                } else {
                    Err(SpecParseErr::ExpectedToken(SpecToken::RightParen))
                }
            },
        }
    }
}

/// The term starting at `pos`: a factor followed by any number of
/// parenthesized arguments.
pub open spec fn spec_parse_term(ts: Seq<SpecToken>, pos: int) -> Result<
    (SpecExp, int),
    SpecParseErr,
>
    decreases ts.len() - pos, 2int,
{
    if pos < 0 || pos >= ts.len() {
        Err(SpecParseErr::ExpectedFactor)
    } else {
        match spec_parse_factor(ts, pos) {
            Err(e) => Err(e),
            Ok((fac, p1)) => spec_parse_apps(ts, clamp_pos(pos, ts.len() as int, p1), fac),
        }
    }
}

/// The flat left-associative operator chain continuing `left` at `pos`: as
/// long as `+`, `++` or `<` follows, one more term is folded in on the left.
pub open spec fn spec_parse_ops(ts: Seq<SpecToken>, pos: int, left: SpecExp) -> Result<
    (SpecExp, int),
    SpecParseErr,
>
    decreases ts.len() - pos, 3int,
{
    if !(0 <= pos < ts.len() && (ts[pos] is Plus || ts[pos] is Concat || ts[pos] is LessThan)) {
        Ok((left, pos))
    } else {
        match spec_parse_term(ts, pos + 1) {
            Err(e) => Err(e),
            Ok((right, p1)) => {
                let q1 = clamp_pos(pos + 1, ts.len() as int, p1);
                let combined = if ts[pos] is Plus {
                    SpecExp::Plus { left: Box::new(left), right: Box::new(right) }
                } else if ts[pos] is Concat {
                    SpecExp::Concat { left: Box::new(left), right: Box::new(right) }
                } else {
                    SpecExp::LessThan { left: Box::new(left), right: Box::new(right) }
                };
                spec_parse_ops(ts, q1, combined)
            },
        }
    }
}

/// The expression starting at `pos`: a term followed by the flat operator
/// chain.
pub open spec fn spec_parse_expr(ts: Seq<SpecToken>, pos: int) -> Result<
    (SpecExp, int),
    SpecParseErr,
>
    decreases ts.len() - pos, 4int,
{
    if pos < 0 || pos >= ts.len() {
        Err(SpecParseErr::ExpectedFactor)
    } else {
        match spec_parse_term(ts, pos) {
            Err(e) => Err(e),
            Ok((left, p1)) => spec_parse_ops(ts, clamp_pos(pos, ts.len() as int, p1), left),
        }
    }
}

/// The one expression that a whole token sequence denotes: the expression at
/// position 0, with nothing allowed to follow it.
pub open spec fn spec_parse_expression(ts: Seq<SpecToken>) -> Result<SpecExp, SpecParseErr> {
    match spec_parse_expr(ts, 0) {
        Err(e) => Err(e),
        Ok((e, p)) => if p == ts.len() {
            Ok(e)
        } else {
            Err(SpecParseErr::TrailingInput)
        },
    }
}

/// The type expression starting at `pos`.
fn parse_typeexp(tokens: &Vec<Token>, pos: usize) -> (r: Result<(Type, usize), ParseErr>)
    requires
        pos <= tokens@.len(),
    ensures
        match r {
            Ok((t, p)) => spec_parse_typeexp(tokens_view(tokens@), pos as int) == Ok::<
                (SpecType, int),
                SpecParseErr,
            >((t@, p as int)) && pos < p <= tokens@.len(),
            Err(e) => spec_parse_typeexp(tokens_view(tokens@), pos as int) == Err::<
                (SpecType, int),
                SpecParseErr,
            >(e@),
        },
    decreases tokens@.len() - pos, 0int,
{
    let ghost ts = tokens_view(tokens@);
    if pos >= tokens.len() {
        return Err(ParseErr::ExpectedType);
    }
    proof {
        assert(ts[pos as int] == tokens@[pos as int]@);
    }
    match &tokens[pos] {
        Token::IntType => Ok((Type::Int, pos + 1)),
        Token::BoolType => Ok((Type::Bool, pos + 1)),
        Token::StrType => Ok((Type::Str, pos + 1)),
        Token::LeftParen => {
            let (param, p1) = match parse_typeexp(tokens, pos + 1) {
                Ok(x) => x,
                Err(e) => {
                    return Err(e);
                },
            };
            proof {
                assert(step_pos(pos as int + 1, p1 as int) == p1 as int);
            }
            if p1 < tokens.len() {
                proof {
                    assert(ts[p1 as int] == tokens@[p1 as int]@);
                }
                match &tokens[p1] {
                    Token::RightArrow => {
                        let (result, p2) = match parse_typeexp(tokens, p1 + 1) {
                            Ok(x) => x,
                            Err(e) => {
                                return Err(e);
                            },
                        };
                        proof {
                            assert(step_pos(p1 as int + 1, p2 as int) == p2 as int);
                        }
                        if p2 < tokens.len() {
                            proof {
                                assert(ts[p2 as int] == tokens@[p2 as int]@);
                            }
                            match &tokens[p2] {
                                Token::RightParen => Ok(
                                    (
                                        Type::Fun {
                                            param: Box::new(param),
                                            result: Box::new(result),
                                        },
                                        p2 + 1,
                                    ),
                                ),
                                _ => Err(ParseErr::ExpectedToken(Token::RightParen)),
                            }
                        } else {
                            Err(ParseErr::ExpectedToken(Token::RightParen))
                        }
                    },
                    _ => Err(ParseErr::ExpectedToken(Token::RightArrow)),
                }
            } else {
                Err(ParseErr::ExpectedToken(Token::RightArrow))
            }
        },
        _ => Err(ParseErr::ExpectedType),
    }
}

/// The conditional starting at `pos`.
fn parse_conditional(tokens: &Vec<Token>, pos: usize) -> (r: Result<(Exp, usize), ParseErr>)
    requires
        pos <= tokens@.len(),
    ensures
        match r {
            Ok((e, p)) => spec_parse_conditional(tokens_view(tokens@), pos as int) == Ok::<
                (SpecExp, int),
                SpecParseErr,
            >((e@, p as int)) && pos < p <= tokens@.len(),
            Err(e) => spec_parse_conditional(tokens_view(tokens@), pos as int) == Err::<
                (SpecExp, int),
                SpecParseErr,
            >(e@),
        },
    decreases tokens@.len() - pos, 0int,
{
    let ghost ts = tokens_view(tokens@);
    proof {
        if (pos as int) < ts.len() {
            assert(ts[pos as int] == tokens@[pos as int]@);
        }
    }
    if !(pos < tokens.len() && matches!(&tokens[pos], Token::If)) {
        return Err(ParseErr::ExpectedToken(Token::If));
    }
    let (tst, p1) = match parse_expr(tokens, pos + 1) {
        Ok(x) => x,
        Err(e) => {
            return Err(e);
        },
    };
    proof {
        assert(step_pos(pos as int + 1, p1 as int) == p1 as int);
        if (p1 as int) < ts.len() {
            assert(ts[p1 as int] == tokens@[p1 as int]@);
        }
    }
    if !(p1 < tokens.len() && matches!(&tokens[p1], Token::LeftBrace)) {
        return Err(ParseErr::ExpectedToken(Token::LeftBrace));
    }
    let (thn, p2) = match parse_expr(tokens, p1 + 1) {
        Ok(x) => x,
        Err(e) => {
            return Err(e);
        },
    };
    proof {
        assert(step_pos(p1 as int + 1, p2 as int) == p2 as int);
        if (p2 as int) < ts.len() {
            assert(ts[p2 as int] == tokens@[p2 as int]@);
        }
    }
    if !(p2 < tokens.len() && matches!(&tokens[p2], Token::RightBrace)) {
        return Err(ParseErr::ExpectedToken(Token::RightBrace));
    }
    proof {
        if p2 as int + 1 < ts.len() {
            assert(ts[p2 as int + 1] == tokens@[p2 as int + 1]@);
        }
    }
    if !(p2 + 1 < tokens.len() && matches!(&tokens[p2 + 1], Token::Else)) {
        return Err(ParseErr::ExpectedToken(Token::Else));
    }
    proof {
        if p2 as int + 2 < ts.len() {
            assert(ts[p2 as int + 2] == tokens@[p2 as int + 2]@);
        }
    }
    if !(p2 + 2 < tokens.len() && matches!(&tokens[p2 + 2], Token::LeftBrace)) {
        return Err(ParseErr::ExpectedToken(Token::LeftBrace));
    }
    let (els, p3) = match parse_expr(tokens, p2 + 3) {
        Ok(x) => x,
        Err(e) => {
            return Err(e);
        },
    };
    proof {
        assert(step_pos(p2 as int + 3, p3 as int) == p3 as int);
        if (p3 as int) < ts.len() {
            assert(ts[p3 as int] == tokens@[p3 as int]@);
        }
    }
    if !(p3 < tokens.len() && matches!(&tokens[p3], Token::RightBrace)) {
        return Err(ParseErr::ExpectedToken(Token::RightBrace));
    }
    Ok((Exp::Cnd { tst: Box::new(tst), thn: Box::new(thn), els: Box::new(els) }, p3 + 1))
}

/// The single-binding let starting at `pos`.
fn parse_let1(tokens: &Vec<Token>, pos: usize) -> (r: Result<(Exp, usize), ParseErr>)
    requires
        pos <= tokens@.len(),
    ensures
        match r {
            Ok((e, p)) => spec_parse_let1(tokens_view(tokens@), pos as int) == Ok::<
                (SpecExp, int),
                SpecParseErr,
            >((e@, p as int)) && pos < p <= tokens@.len(),
            Err(e) => spec_parse_let1(tokens_view(tokens@), pos as int) == Err::<
                (SpecExp, int),
                SpecParseErr,
            >(e@),
        },
    decreases tokens@.len() - pos, 0int,
{
    let ghost ts = tokens_view(tokens@);
    proof {
        if (pos as int) < ts.len() {
            assert(ts[pos as int] == tokens@[pos as int]@);
        }
        if pos as int + 1 < ts.len() {
            assert(ts[pos as int + 1] == tokens@[pos as int + 1]@);
        }
        if pos as int + 2 < ts.len() {
            assert(ts[pos as int + 2] == tokens@[pos as int + 2]@);
        }
    }
    if !(pos < tokens.len() && matches!(&tokens[pos], Token::Let)) {
        return Err(ParseErr::ExpectedToken(Token::Let));
    }
    let var: String = if pos + 1 < tokens.len() {
        match &tokens[pos + 1] {
            Token::Symbol(s) => s.clone(),
            _ => {
                return Err(ParseErr::ExpectedIdentifier);
            },
        }
    } else {
        return Err(ParseErr::ExpectedIdentifier);
    };
    if !(pos + 2 < tokens.len() && matches!(&tokens[pos + 2], Token::Equal)) {
        return Err(ParseErr::ExpectedToken(Token::Equal));
    }
    let (value, p1) = match parse_expr(tokens, pos + 3) {
        Ok(x) => x,
        Err(e) => {
            return Err(e);
        },
    };
    proof {
        assert(step_pos(pos as int + 3, p1 as int) == p1 as int);
        if (p1 as int) < ts.len() {
            assert(ts[p1 as int] == tokens@[p1 as int]@);
        }
    }
    if !(p1 < tokens.len() && matches!(&tokens[p1], Token::LeftBrace)) {
        return Err(ParseErr::ExpectedToken(Token::LeftBrace));
    }
    let (body, p2) = match parse_expr(tokens, p1 + 1) {
        Ok(x) => x,
        Err(e) => {
            return Err(e);
        },
    };
    proof {
        assert(step_pos(p1 as int + 1, p2 as int) == p2 as int);
        if (p2 as int) < ts.len() {
            assert(ts[p2 as int] == tokens@[p2 as int]@);
        }
    }
    if !(p2 < tokens.len() && matches!(&tokens[p2], Token::RightBrace)) {
        return Err(ParseErr::ExpectedToken(Token::RightBrace));
    }
    Ok((Exp::Let1 { var, value: Box::new(value), body: Box::new(body) }, p2 + 1))
}

/// The lambda starting at `pos`.
fn parse_lambda(tokens: &Vec<Token>, pos: usize) -> (r: Result<(Exp, usize), ParseErr>)
    requires
        pos <= tokens@.len(),
    ensures
        match r {
            Ok((e, p)) => spec_parse_lambda(tokens_view(tokens@), pos as int) == Ok::<
                (SpecExp, int),
                SpecParseErr,
            >((e@, p as int)) && pos < p <= tokens@.len(),
            Err(e) => spec_parse_lambda(tokens_view(tokens@), pos as int) == Err::<
                (SpecExp, int),
                SpecParseErr,
            >(e@),
        },
    decreases tokens@.len() - pos, 0int,
{
    let ghost ts = tokens_view(tokens@);
    proof {
        if (pos as int) < ts.len() {
            assert(ts[pos as int] == tokens@[pos as int]@);
        }
        if pos as int + 1 < ts.len() {
            assert(ts[pos as int + 1] == tokens@[pos as int + 1]@);
        }
        if pos as int + 2 < ts.len() {
            assert(ts[pos as int + 2] == tokens@[pos as int + 2]@);
        }
        if pos as int + 3 < ts.len() {
            assert(ts[pos as int + 3] == tokens@[pos as int + 3]@);
        }
    }
    if !(pos < tokens.len() && matches!(&tokens[pos], Token::Fn)) {
        return Err(ParseErr::ExpectedToken(Token::Fn));
    }
    if !(pos + 1 < tokens.len() && matches!(&tokens[pos + 1], Token::LeftParen)) {
        return Err(ParseErr::ExpectedToken(Token::LeftParen));
    }
    let var: String = if pos + 2 < tokens.len() {
        match &tokens[pos + 2] {
            Token::Symbol(s) => s.clone(),
            _ => {
                return Err(ParseErr::ExpectedIdentifier);
            },
        }
    } else {
        return Err(ParseErr::ExpectedIdentifier);
    };
    if !(pos + 3 < tokens.len() && matches!(&tokens[pos + 3], Token::Colon)) {
        return Err(ParseErr::ExpectedToken(Token::Colon));
    }
    let (var_type, p1) = match parse_typeexp(tokens, pos + 4) {
        Ok(x) => x,
        Err(e) => {
            return Err(e);
        },
    };
    proof {
        assert(step_pos(pos as int + 4, p1 as int) == p1 as int);
        if (p1 as int) < ts.len() {
            assert(ts[p1 as int] == tokens@[p1 as int]@);
        }
        if p1 as int + 1 < ts.len() {
            assert(ts[p1 as int + 1] == tokens@[p1 as int + 1]@);
        }
    }
    if !(p1 < tokens.len() && matches!(&tokens[p1], Token::RightParen)) {
        return Err(ParseErr::ExpectedToken(Token::RightParen));
    }
    if !(p1 + 1 < tokens.len() && matches!(&tokens[p1 + 1], Token::LeftBrace)) {
        return Err(ParseErr::ExpectedToken(Token::LeftBrace));
    }
    let (body, p2) = match parse_expr(tokens, p1 + 2) {
        Ok(x) => x,
        Err(e) => {
            return Err(e);
        },
    };
    proof {
        assert(step_pos(p1 as int + 2, p2 as int) == p2 as int);
        if (p2 as int) < ts.len() {
            assert(ts[p2 as int] == tokens@[p2 as int]@);
        }
    }
    if !(p2 < tokens.len() && matches!(&tokens[p2], Token::RightBrace)) {
        return Err(ParseErr::ExpectedToken(Token::RightBrace));
    }
    Ok((Exp::Lam { var, var_type, body: Box::new(body) }, p2 + 1))
}

/// The factor starting at `pos`.
fn parse_factor(tokens: &Vec<Token>, pos: usize) -> (r: Result<(Exp, usize), ParseErr>)
    requires
        pos <= tokens@.len(),
    ensures
        match r {
            Ok((e, p)) => spec_parse_factor(tokens_view(tokens@), pos as int) == Ok::<
                (SpecExp, int),
                SpecParseErr,
            >((e@, p as int)) && pos < p <= tokens@.len(),
            Err(e) => spec_parse_factor(tokens_view(tokens@), pos as int) == Err::<
                (SpecExp, int),
                SpecParseErr,
            >(e@),
        },
    decreases tokens@.len() - pos, 1int,
{
    let ghost ts = tokens_view(tokens@);
    if pos >= tokens.len() {
        return Err(ParseErr::ExpectedFactor);
    }
    proof {
        assert(ts[pos as int] == tokens@[pos as int]@);
    }
    match &tokens[pos] {
        Token::LeftParen => {
            let (e, p1) = match parse_expr(tokens, pos + 1) {
                Ok(x) => x,
                Err(e) => {
                    return Err(e);
                },
            };
            proof {
                assert(step_pos(pos as int + 1, p1 as int) == p1 as int);
                if (p1 as int) < ts.len() {
                    assert(ts[p1 as int] == tokens@[p1 as int]@);
                }
            }
            if p1 < tokens.len() && matches!(&tokens[p1], Token::RightParen) {
                Ok((e, p1 + 1))
            } else {
                Err(ParseErr::ExpectedToken(Token::RightParen))
            }
        },
        Token::If => parse_conditional(tokens, pos),
        Token::Let => parse_let1(tokens, pos),
        Token::Fn => parse_lambda(tokens, pos),
        Token::Int(n) => Ok((Exp::Int(*n), pos + 1)),
        Token::Bool(b) => Ok((Exp::Bool(*b), pos + 1)),
        Token::Str(s) => Ok((Exp::Str(s.clone()), pos + 1)),
        Token::Symbol(s) => Ok((Exp::Var(s.clone()), pos + 1)),
        _ => Err(ParseErr::ExpectedFactor),
    }
}

/// The left-associative application chain continuing `fun` at `pos`.
fn parse_apps(tokens: &Vec<Token>, pos: usize, fun: Exp) -> (r: Result<(Exp, usize), ParseErr>)
    requires
        pos <= tokens@.len(),
    ensures
        match r {
            Ok((e, p)) => spec_parse_apps(tokens_view(tokens@), pos as int, fun@) == Ok::<
                (SpecExp, int),
                SpecParseErr,
            >((e@, p as int)) && pos <= p <= tokens@.len(),
            Err(e) => spec_parse_apps(tokens_view(tokens@), pos as int, fun@) == Err::<
                (SpecExp, int),
                SpecParseErr,
            >(e@),
        },
    decreases tokens@.len() - pos, 0int,
{
    let ghost ts = tokens_view(tokens@);
    proof {
        if (pos as int) < ts.len() {
            assert(ts[pos as int] == tokens@[pos as int]@);
        }
    }
    if !(pos < tokens.len() && matches!(&tokens[pos], Token::LeftParen)) {
        return Ok((fun, pos));
    }
    let (arg, p1) = match parse_expr(tokens, pos + 1) {
        Ok(x) => x,
        Err(e) => {
            return Err(e);
        },
    };
    proof {
        assert(step_pos(pos as int + 1, p1 as int) == p1 as int);
        if (p1 as int) < ts.len() {
            assert(ts[p1 as int] == tokens@[p1 as int]@);
        }
    }
    if !(p1 < tokens.len() && matches!(&tokens[p1], Token::RightParen)) {
        return Err(ParseErr::ExpectedToken(Token::RightParen));
    }
    parse_apps(tokens, p1 + 1, Exp::App { fun: Box::new(fun), arg: Box::new(arg) })
}

/// The term starting at `pos`.
fn parse_term(tokens: &Vec<Token>, pos: usize) -> (r: Result<(Exp, usize), ParseErr>)
    requires
        pos <= tokens@.len(),
    ensures
        match r {
            Ok((e, p)) => spec_parse_term(tokens_view(tokens@), pos as int) == Ok::<
                (SpecExp, int),
                SpecParseErr,
            >((e@, p as int)) && pos < p <= tokens@.len(),
            Err(e) => spec_parse_term(tokens_view(tokens@), pos as int) == Err::<
                (SpecExp, int),
                SpecParseErr,
            >(e@),
        },
    decreases tokens@.len() - pos, 2int,
{
    let ghost ts = tokens_view(tokens@);
    if pos >= tokens.len() {
        return Err(ParseErr::ExpectedFactor);
    }
    let (fac, p1) = match parse_factor(tokens, pos) {
        Ok(x) => x,
        Err(e) => {
            return Err(e);
        },
    };
    proof {
        assert(clamp_pos(pos as int, ts.len() as int, p1 as int) == p1 as int);
    }
    parse_apps(tokens, p1, fac)
}

/// The flat left-associative operator chain continuing `left` at `pos`.
fn parse_ops(tokens: &Vec<Token>, pos: usize, left: Exp) -> (r: Result<(Exp, usize), ParseErr>)
    requires
        pos <= tokens@.len(),
    ensures
        match r {
            Ok((e, p)) => spec_parse_ops(tokens_view(tokens@), pos as int, left@) == Ok::<
                (SpecExp, int),
                SpecParseErr,
            >((e@, p as int)) && pos <= p <= tokens@.len(),
            Err(e) => spec_parse_ops(tokens_view(tokens@), pos as int, left@) == Err::<
                (SpecExp, int),
                SpecParseErr,
            >(e@),
        },
    decreases tokens@.len() - pos, 3int,
{
    let ghost ts = tokens_view(tokens@);
    proof {
        if (pos as int) < ts.len() {
            assert(ts[pos as int] == tokens@[pos as int]@);
        }
    }
    if !(pos < tokens.len() && (matches!(&tokens[pos], Token::Plus) || matches!(
        &tokens[pos],
        Token::Concat,
    ) || matches!(&tokens[pos], Token::LessThan))) {
        return Ok((left, pos));
    }
    let is_plus = matches!(&tokens[pos], Token::Plus);
    let is_concat = matches!(&tokens[pos], Token::Concat);
    let (right, p1) = match parse_term(tokens, pos + 1) {
        Ok(x) => x,
        Err(e) => {
            return Err(e);
        },
    };
    proof {
        assert(clamp_pos(pos as int + 1, ts.len() as int, p1 as int) == p1 as int);
    }
    let combined = if is_plus {
        Exp::Plus { left: Box::new(left), right: Box::new(right) }
    } else if is_concat {
        Exp::Concat { left: Box::new(left), right: Box::new(right) }
    } else {
        Exp::LessThan { left: Box::new(left), right: Box::new(right) }
    };
    parse_ops(tokens, p1, combined)
}

/// The expression starting at `pos`.
fn parse_expr(tokens: &Vec<Token>, pos: usize) -> (r: Result<(Exp, usize), ParseErr>)
    requires
        pos <= tokens@.len(),
    ensures
        match r {
            Ok((e, p)) => spec_parse_expr(tokens_view(tokens@), pos as int) == Ok::<
                (SpecExp, int),
                SpecParseErr,
            >((e@, p as int)) && pos < p <= tokens@.len(),
            Err(e) => spec_parse_expr(tokens_view(tokens@), pos as int) == Err::<
                (SpecExp, int),
                SpecParseErr,
            >(e@),
        },
    decreases tokens@.len() - pos, 4int,
{
    let ghost ts = tokens_view(tokens@);
    if pos >= tokens.len() {
        return Err(ParseErr::ExpectedFactor);
    }
    let (left, p1) = match parse_term(tokens, pos) {
        Ok(x) => x,
        Err(e) => {
            return Err(e);
        },
    };
    proof {
        assert(clamp_pos(pos as int, ts.len() as int, p1 as int) == p1 as int);
    }
    parse_ops(tokens, p1, left)
}

/// Parses one complete expression from the whole token sequence, exactly as
/// `spec_parse_expression` says; tokens left over after the expression are an
/// error.
pub fn parse_expression(tokens: &Vec<Token>) -> (r: Result<Exp, ParseErr>)
    ensures
        match r {
            Ok(e) => spec_parse_expression(tokens_view(tokens@)) == Ok::<SpecExp, SpecParseErr>(
                e@,
            ),
            Err(pe) => spec_parse_expression(tokens_view(tokens@)) == Err::<SpecExp, SpecParseErr>(
                pe@,
            ),
        },
{
    match parse_expr(tokens, 0) {
        Ok((e, p)) => if p == tokens.len() {
            Ok(e)
        } else {
            Err(ParseErr::TrailingInput)
        },
        Err(e) => Err(e),
    }
}

} // verus!
