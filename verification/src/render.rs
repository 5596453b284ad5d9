//! Canonical textual renderings of tokens, expressions, types and values,
//! used for diagnostics and echo.  Every compound form renders fully
//! parenthesized; a closure renders with a dump of its captured environment
//! and is not meant to be reparsed.

use crate::ast::{Exp, SpecExp, SpecToken, SpecType, Token, Type};
use crate::env::{Env, SpecEnv, SpecValue, Value};
use vstd::prelude::*;
use vstd::string::{StrSliceExecFns, StringExecFns};

verus! {

/// The character of one decimal digit.
pub open spec fn digit_char(d: int) -> char {
    if d == 0 {
        '0'
    } else if d == 1 {
        '1'
    } else if d == 2 {
        '2'
    } else if d == 3 {
        '3'
    } else if d == 4 {
        '4'
    } else if d == 5 {
        '5'
    } else if d == 6 {
        '6'
    } else if d == 7 {
        '7'
    } else if d == 8 {
        '8'
    } else {
        '9'
    }
}

/// The decimal rendering of a nonnegative number.
pub open spec fn spec_render_nat(n: int) -> Seq<char>
    decreases n,
{
    if n < 10 {
        seq![digit_char(n)]
    } else {
        spec_render_nat(n / 10) + seq![digit_char(n % 10)]
    }
}

/// The decimal rendering of an integer, with a leading minus sign when it is
/// negative.
pub open spec fn spec_render_int(n: int) -> Seq<char> {
    if n < 0 {
        seq!['-'] + spec_render_nat(-n)
    } else {
        spec_render_nat(n)
    }
}

/// The canonical rendering of one token: literals and identifiers as they
/// were written, every other token as its source spelling.
pub open spec fn spec_render_token(t: SpecToken) -> Seq<char> {
    match t {
        SpecToken::Int(n) => spec_render_int(n),
        SpecToken::Bool(b) => if b {
            seq!['t', 'r', 'u', 'e']
        } else {
            seq!['f', 'a', 'l', 's', 'e']
        },
        SpecToken::Str(s) => seq!['"'] + s + seq!['"'],
        SpecToken::Symbol(s) => s,
        SpecToken::Plus => seq!['+'],
        SpecToken::Concat => seq!['+', '+'],
        SpecToken::LessThan => seq!['<'],
        SpecToken::LeftParen => seq!['('],
        SpecToken::RightParen => seq![')'],
        SpecToken::LeftBrace => seq!['{'],
        SpecToken::RightBrace => seq!['}'],
        SpecToken::Colon => seq![':'],
        SpecToken::RightArrow => seq!['-', '>'],
        SpecToken::Equal => seq!['='],
        SpecToken::If => seq!['i', 'f'],
        SpecToken::Else => seq!['e', 'l', 's', 'e'],
        SpecToken::Let => seq!['l', 'e', 't'],
        SpecToken::Fn => seq!['f', 'n'],
        SpecToken::IntType => seq!['i', 'n', 't'],
        SpecToken::BoolType => seq!['b', 'o', 'o', 'l'],
        SpecToken::StrType => seq!['s', 't', 'r'],
    }
}

/// The canonical rendering of a token sequence: the tokens' renderings
/// separated by single spaces.
pub open spec fn spec_render_tokens(ts: Seq<SpecToken>) -> Seq<char>
    decreases ts.len(),
{
    if ts.len() == 0 {
        Seq::empty()
    } else if ts.len() == 1 {
        spec_render_token(ts[0])
    } else {
        spec_render_token(ts[0]) + seq![' '] + spec_render_tokens(ts.drop_first())
    }
}

/// The canonical rendering of a type: base types by name, function types
/// fully parenthesized.
pub open spec fn spec_render_type(t: SpecType) -> Seq<char>
    decreases t,
{
    match t {
        SpecType::Int => seq!['i', 'n', 't'],
        SpecType::Bool => seq!['b', 'o', 'o', 'l'],
        SpecType::Str => seq!['s', 't', 'r'],
        SpecType::Fun { param, result } => seq!['('] + spec_render_type(*param) + seq![
            ' ',
            '-',
            '>',
            ' ',
        ] + spec_render_type(*result) + seq![')'],
    }
}

/// The canonical rendering of an expression, fully parenthesized in prefix
/// form.
pub open spec fn spec_render_exp(e: SpecExp) -> Seq<char>
    decreases e,
{
    match e {
        SpecExp::Int(n) => spec_render_int(n),
        SpecExp::Bool(b) => if b {
            seq!['t', 'r', 'u', 'e']
        } else {
            seq!['f', 'a', 'l', 's', 'e']
        },
        SpecExp::Str(s) => seq!['"'] + s + seq!['"'],
        SpecExp::Var(v) => v,
        SpecExp::Plus { left, right } => seq!['(', '+', ' '] + spec_render_exp(*left) + seq![' ']
            + spec_render_exp(*right) + seq![')'],
        SpecExp::Concat { left, right } => seq!['(', '+', '+', ' '] + spec_render_exp(*left)
            + seq![' '] + spec_render_exp(*right) + seq![')'],
        SpecExp::LessThan { left, right } => seq!['(', '<', ' '] + spec_render_exp(*left) + seq![
            ' ',
        ] + spec_render_exp(*right) + seq![')'],
        SpecExp::Cnd { tst, thn, els } => seq!['(', 'i', 'f', ' '] + spec_render_exp(*tst) + seq![
            ' ',
        ] + spec_render_exp(*thn) + seq![' '] + spec_render_exp(*els) + seq![')'],
        SpecExp::Let1 { var, value, body } => seq!['(', 'l', 'e', 't', ' '] + var + seq![' ']
            + spec_render_exp(*value) + seq![' '] + spec_render_exp(*body) + seq![')'],
        SpecExp::Lam { var, var_type, body } => seq!['(', 'f', 'n', ' ', '('] + var + seq![
            ':',
            ' ',
        ] + spec_render_type(var_type) + seq![')', ' '] + spec_render_exp(*body) + seq![')'],
        SpecExp::App { fun, arg } => seq!['('] + spec_render_exp(*fun) + seq![' ']
            + spec_render_exp(*arg) + seq![')'],
    }
}

/// The rendering of a value: literals as they print, a closure as its lambda
/// together with a dump of its captured environment.
pub open spec fn spec_render_value(v: SpecValue) -> Seq<char>
    decreases v,
{
    match v {
        SpecValue::Int(n) => spec_render_int(n),
        SpecValue::Bool(b) => if b {
            seq!['t', 'r', 'u', 'e']
        } else {
            seq!['f', 'a', 'l', 's', 'e']
        },
        SpecValue::Str(s) => s,
        SpecValue::Fun { var, var_type, body, nv } => seq![
            'c',
            'l',
            'o',
            's',
            'u',
            'r',
            'e',
            '(',
        ] + seq!['(', 'f', 'n', ' ', '('] + var + seq![':', ' '] + spec_render_type(var_type)
            + seq![')', ' '] + spec_render_exp(*body) + seq![')'] + seq![',', ' '] + seq!['{']
            + spec_render_bindings(*nv) + seq!['}'] + seq![')'],
    }
}

/// The dump of an environment's bindings, newest first, comma-separated.
pub open spec fn spec_render_bindings(nv: SpecEnv) -> Seq<char>
    decreases nv,
{
    match nv {
        SpecEnv::Empty => Seq::empty(),
        SpecEnv::Bind { name, val, rest } => name + seq!['='] + spec_render_value(val) + (match (
        *rest) {
            SpecEnv::Empty => Seq::<char>::empty(),
            _ => seq![',', ' '] + spec_render_bindings(*rest),
        }),
    }
}

/// One decimal digit as source text.
fn render_digit(d: u64) -> (r: &'static str)
    requires
        d < 10,
    ensures
        r@ == seq![digit_char(d as int)],
{
    proof {
        reveal_strlit("0");
        reveal_strlit("1");
        reveal_strlit("2");
        reveal_strlit("3");
        reveal_strlit("4");
        reveal_strlit("5");
        reveal_strlit("6");
        reveal_strlit("7");
        reveal_strlit("8");
        reveal_strlit("9");
    }
    let r: &'static str = if d == 0 {
        "0"
    } else if d == 1 {
        "1"
    } else if d == 2 {
        "2"
    } else if d == 3 {
        "3"
    } else if d == 4 {
        "4"
    } else if d == 5 {
        "5"
    } else if d == 6 {
        "6"
    } else if d == 7 {
        "7"
    } else if d == 8 {
        "8"
    } else {
        "9"
    };
    proof {
        assert(r@ =~= seq![digit_char(d as int)]);
    }
    r
}

/// The decimal rendering of a nonnegative number.
fn render_nat(n: u64) -> (s: String)
    ensures
        s@ == spec_render_nat(n as int),
    decreases n,
{
    if n < 10 {
        render_digit(n).to_owned()
    } else {
        let mut s = render_nat(n / 10);
        s.append(render_digit(n % 10));
        proof {
            assert(s@ =~= spec_render_nat(n as int));
        }
        s
    }
}

/// The decimal rendering of a machine integer.
fn render_i64(n: i64) -> (s: String)
    ensures
        s@ == spec_render_int(n as int),
{
    if n >= 0 {
        render_nat(n as u64)
    } else {
        let mag: u64 = ((-(n + 1)) as u64) + 1;
        proof {
            assert(mag as int == -(n as int));
            reveal_strlit("-");
        }
        let mut s = "-".to_owned();
        proof {
            assert(s@ =~= seq!['-']);
        }
        let digits = render_nat(mag);
        s.append(digits.as_str());
        s
    }
}

impl Token {
    /// The canonical textual rendering of this token.
    pub fn render(&self) -> (s: String)
        ensures
            s@ == spec_render_token(self@),
    {
        match self {
            Token::Int(n) => render_i64(*n),
            Token::Bool(b) => if *b {
                lit_true()
            } else {
                lit_false()
            },
            Token::Str(inner) => {
                proof {
                    reveal_strlit("\"");
                }
                let mut s = "\"".to_owned();
                proof {
                    assert(s@ =~= seq!['"']);
                }
                s.append(inner.as_str());
                s.append("\"");
                s
            },
            Token::Symbol(inner) => inner.clone(),
            Token::Plus => {
                proof {
                    reveal_strlit("+");
                }
                let s = "+".to_owned();
                proof {
                    assert(s@ =~= seq!['+']);
                }
                s
            },
            Token::Concat => {
                proof {
                    reveal_strlit("++");
                }
                let s = "++".to_owned();
                proof {
                    assert(s@ =~= seq!['+', '+']);
                }
                s
            },
            Token::LessThan => {
                proof {
                    reveal_strlit("<");
                }
                let s = "<".to_owned();
                proof {
                    assert(s@ =~= seq!['<']);
                }
                s
            },
            Token::LeftParen => {
                proof {
                    reveal_strlit("(");
                }
                let s = "(".to_owned();
                proof {
                    assert(s@ =~= seq!['(']);
                }
                s
            },
            Token::RightParen => {
                proof {
                    reveal_strlit(")");
                }
                let s = ")".to_owned();
                proof {
                    assert(s@ =~= seq![')']);
                }
                s
            },
            Token::LeftBrace => {
                proof {
                    reveal_strlit("{");
                }
                let s = "{".to_owned();
                proof {
                    assert(s@ =~= seq!['{']);
                }
                s
            },
            Token::RightBrace => {
                proof {
                    reveal_strlit("}");
                }
                let s = "}".to_owned();
                proof {
                    assert(s@ =~= seq!['}']);
                }
                s
            },
            Token::Colon => {
                proof {
                    reveal_strlit(":");
                }
                let s = ":".to_owned();
                proof {
                    assert(s@ =~= seq![':']);
                }
                s
            },
            Token::RightArrow => {
                proof {
                    reveal_strlit("->");
                }
                let s = "->".to_owned();
                proof {
                    assert(s@ =~= seq!['-', '>']);
                }
                s
            },
            Token::Equal => {
                proof {
                    reveal_strlit("=");
                }
                let s = "=".to_owned();
                proof {
                    assert(s@ =~= seq!['=']);
                }
                s
            },
            Token::If => {
                proof {
                    reveal_strlit("if");
                }
                let s = "if".to_owned();
                proof {
                    assert(s@ =~= seq!['i', 'f']);
                }
                s
            },
            Token::Else => {
                proof {
                    reveal_strlit("else");
                }
                let s = "else".to_owned();
                proof {
                    assert(s@ =~= seq!['e', 'l', 's', 'e']);
                }
                s
            },
            Token::Let => {
                proof {
                    reveal_strlit("let");
                }
                let s = "let".to_owned();
                proof {
                    assert(s@ =~= seq!['l', 'e', 't']);
                }
                s
            },
            Token::Fn => {
                proof {
                    reveal_strlit("fn");
                }
                let s = "fn".to_owned();
                proof {
                    assert(s@ =~= seq!['f', 'n']);
                }
                s
            },
            Token::IntType => lit_int(),
            Token::BoolType => lit_bool(),
            Token::StrType => lit_str(),
        }
    }
}

fn lit_true() -> (s: String)
    ensures
        s@ == seq!['t', 'r', 'u', 'e'],
{
    proof {
        reveal_strlit("true");
    }
    let s = "true".to_owned();
    proof {
        assert(s@ =~= seq!['t', 'r', 'u', 'e']);
    }
    s
}

fn lit_false() -> (s: String)
    ensures
        s@ == seq!['f', 'a', 'l', 's', 'e'],
{
    proof {
        reveal_strlit("false");
    }
    let s = "false".to_owned();
    proof {
        assert(s@ =~= seq!['f', 'a', 'l', 's', 'e']);
    }
    s
}

fn lit_int() -> (s: String)
    ensures
        s@ == seq!['i', 'n', 't'],
{
    proof {
        reveal_strlit("int");
    }
    let s = "int".to_owned();
    proof {
        assert(s@ =~= seq!['i', 'n', 't']);
    }
    s
}

fn lit_bool() -> (s: String)
    ensures
        s@ == seq!['b', 'o', 'o', 'l'],
{
    proof {
        reveal_strlit("bool");
    }
    let s = "bool".to_owned();
    proof {
        assert(s@ =~= seq!['b', 'o', 'o', 'l']);
    }
    s
}

fn lit_str() -> (s: String)
    ensures
        s@ == seq!['s', 't', 'r'],
{
    proof {
        reveal_strlit("str");
    }
    let s = "str".to_owned();
    proof {
        assert(s@ =~= seq!['s', 't', 'r']);
    }
    s
}

/// The canonical rendering of a whole token sequence, space-separated.
pub fn render_tokens(ts: &Vec<Token>) -> (s: String)
    ensures
        s@ == spec_render_tokens(crate::ast::tokens_view(ts@)),
{
    let ghost tsv = crate::ast::tokens_view(ts@);
    let mut s = String::new();
    let mut i: usize = 0;
    if ts.len() == 0 {
        return s;
    }
    proof {
        reveal_strlit(" ");
        assert(tsv.subrange(0, tsv.len() as int) =~= tsv);
        assert(s@ + spec_render_tokens(tsv) =~= spec_render_tokens(tsv));
    }
    while i < ts.len()
        invariant
            0 <= i <= ts@.len(),
            tsv == crate::ast::tokens_view(ts@),
            " "@ == seq![' '],
            spec_render_tokens(tsv) == s@ + spec_render_tokens(tsv.subrange(i as int, tsv.len() as int)),
        decreases ts@.len() - i,
    {
        let ghost before = s@;
        let piece = ts[i].render();
        s.append(piece.as_str());
        if i + 1 < ts.len() {
            s.append(" ");
        }
        proof {
            let rest_old = tsv.subrange(i as int, tsv.len() as int);
            let rest_new = tsv.subrange(i as int + 1, tsv.len() as int);
            assert(rest_old.len() >= 1);
            assert(rest_old[0] == tsv[i as int]);
            assert(rest_old.drop_first() =~= rest_new);
            assert(ts@[i as int]@ == tsv[i as int]);
            if i + 1 < ts@.len() {
                assert(rest_old.len() >= 2);
                assert(spec_render_tokens(rest_old) == spec_render_token(tsv[i as int]) + seq![
                    ' ',
                ] + spec_render_tokens(rest_new));
                assert(s@ =~= before + spec_render_token(tsv[i as int]) + seq![' ']);
                assert(spec_render_tokens(tsv) =~= s@ + spec_render_tokens(rest_new));
            } else {
                assert(rest_old.len() == 1);
                assert(spec_render_tokens(rest_old) == spec_render_token(tsv[i as int]));
                assert(spec_render_tokens(tsv) =~= s@ + spec_render_tokens(rest_new));
            }
        }
        i = i + 1;
    }
    proof {
        assert(tsv.subrange(tsv.len() as int, tsv.len() as int) =~= Seq::<SpecToken>::empty());
        assert(spec_render_tokens(tsv) =~= s@);
    }
    s
}

impl Type {
    /// The canonical textual rendering of this type.
    pub fn render(&self) -> (s: String)
        ensures
            s@ == spec_render_type(self@),
        decreases self,
    {
        match self {
            Type::Int => lit_int(),
            Type::Bool => lit_bool(),
            Type::Str => lit_str(),
            Type::Fun { param, result } => {
                proof {
                    reveal_strlit("(");
                    reveal_strlit(" -> ");
                    reveal_strlit(")");
                }
                let mut s = "(".to_owned();
                proof {
                    assert(s@ =~= seq!['(']);
                    assert(" -> "@ =~= seq![' ', '-', '>', ' ']);
                }
                let p = param.render();
                s.append(p.as_str());
                s.append(" -> ");
                let r = result.render();
                s.append(r.as_str());
                s.append(")");
                s
            },
        }
    }
}

impl Exp {
    /// The canonical textual rendering of this expression, fully
    /// parenthesized in prefix form.
    pub fn render(&self) -> (s: String)
        ensures
            s@ == spec_render_exp(self@),
        decreases self,
    {
        proof {
            reveal_strlit("(+ ");
            reveal_strlit("(++ ");
            reveal_strlit("(< ");
            reveal_strlit("(if ");
            reveal_strlit("(let ");
            reveal_strlit("(fn (");
            reveal_strlit("(");
            reveal_strlit(")");
            reveal_strlit(" ");
            reveal_strlit(": ");
            reveal_strlit(") ");
            reveal_strlit("\"");
        }
        match self {
            Exp::Int(n) => render_i64(*n),
            Exp::Bool(b) => if *b {
                lit_true()
            } else {
                lit_false()
            },
            Exp::Str(inner) => {
                let mut s = "\"".to_owned();
                proof {
                    assert(s@ =~= seq!['"']);
                }
                s.append(inner.as_str());
                s.append("\"");
                s
            },
            Exp::Var(v) => v.clone(),
            Exp::Plus { left, right } => {
                let mut s = "(+ ".to_owned();
                proof {
                    assert(s@ =~= seq!['(', '+', ' ']);
                    assert(" "@ =~= seq![' ']);
                }
                let l = left.render();
                s.append(l.as_str());
                s.append(" ");
                let r = right.render();
                s.append(r.as_str());
                s.append(")");
                s
            },
            Exp::Concat { left, right } => {
                let mut s = "(++ ".to_owned();
                proof {
                    assert(s@ =~= seq!['(', '+', '+', ' ']);
                    assert(" "@ =~= seq![' ']);
                }
                let l = left.render();
                s.append(l.as_str());
                s.append(" ");
                let r = right.render();
                s.append(r.as_str());
                s.append(")");
                s
            },
            Exp::LessThan { left, right } => {
                let mut s = "(< ".to_owned();
                proof {
                    assert(s@ =~= seq!['(', '<', ' ']);
                    assert(" "@ =~= seq![' ']);
                }
                let l = left.render();
                s.append(l.as_str());
                s.append(" ");
                let r = right.render();
                s.append(r.as_str());
                s.append(")");
                s
            },
            Exp::Cnd { tst, thn, els } => {
                let mut s = "(if ".to_owned();
                proof {
                    assert(s@ =~= seq!['(', 'i', 'f', ' ']);
                    assert(" "@ =~= seq![' ']);
                }
                let t = tst.render();
                s.append(t.as_str());
                s.append(" ");
                let th = thn.render();
                s.append(th.as_str());
                s.append(" ");
                let el = els.render();
                s.append(el.as_str());
                s.append(")");
                s
            },
            Exp::Let1 { var, value, body } => {
                let mut s = "(let ".to_owned();
                proof {
                    assert(s@ =~= seq!['(', 'l', 'e', 't', ' ']);
                    assert(" "@ =~= seq![' ']);
                }
                s.append(var.as_str());
                s.append(" ");
                let v = value.render();
                s.append(v.as_str());
                s.append(" ");
                let b = body.render();
                s.append(b.as_str());
                s.append(")");
                s
            },
            Exp::Lam { var, var_type, body } => {
                let mut s = "(fn (".to_owned();
                proof {
                    assert(s@ =~= seq!['(', 'f', 'n', ' ', '(']);
                    assert(": "@ =~= seq![':', ' ']);
                    assert(") "@ =~= seq![')', ' ']);
                }
                s.append(var.as_str());
                s.append(": ");
                let t = var_type.render();
                s.append(t.as_str());
                s.append(") ");
                let b = body.render();
                s.append(b.as_str());
                s.append(")");
                s
            },
            Exp::App { fun, arg } => {
                let mut s = "(".to_owned();
                proof {
                    assert(s@ =~= seq!['(']);
                    assert(" "@ =~= seq![' ']);
                }
                let f = fun.render();
                s.append(f.as_str());
                s.append(" ");
                let a = arg.render();
                s.append(a.as_str());
                s.append(")");
                s
            },
        }
    }
}

impl Value {
    /// The textual rendering of this value; a closure renders with its
    /// lambda and a dump of its captured environment.
    pub fn render(&self) -> (s: String)
        ensures
            s@ == spec_render_value(self@),
        decreases self,
    {
        proof {
            reveal_strlit("closure(");
            reveal_strlit("(fn (");
            reveal_strlit(": ");
            reveal_strlit(") ");
            reveal_strlit(")");
            reveal_strlit(", ");
            reveal_strlit("{");
            reveal_strlit("}");
        }
        match self {
            Value::Int(n) => render_i64(*n),
            Value::Bool(b) => if *b {
                lit_true()
            } else {
                lit_false()
            },
            Value::Str(inner) => inner.clone(),
            Value::Fun { var, var_type, body, nv } => {
                let mut s = "closure(".to_owned();
                proof {
                    assert(s@ =~= seq!['c', 'l', 'o', 's', 'u', 'r', 'e', '(']);
                    assert("(fn ("@ =~= seq!['(', 'f', 'n', ' ', '(']);
                    assert(": "@ =~= seq![':', ' ']);
                    assert(") "@ =~= seq![')', ' ']);
                    assert(")"@ =~= seq![')']);
                    assert(", "@ =~= seq![',', ' ']);
                    assert("{"@ =~= seq!['{']);
                    assert("}"@ =~= seq!['}']);
                }
                s.append("(fn (");
                s.append(var.as_str());
                s.append(": ");
                let t = var_type.render();
                s.append(t.as_str());
                s.append(") ");
                let b = body.render();
                s.append(b.as_str());
                s.append(")");
                s.append(", ");
                s.append("{");
                let dump = nv.render_bindings();
                s.append(dump.as_str());
                s.append("}");
                s.append(")");
                s
            },
        }
    }
}

impl Env {
    /// The dump of this environment's bindings, newest first.
    pub fn render_bindings(&self) -> (s: String)
        ensures
            s@ == spec_render_bindings(self@),
        decreases self,
    {
        proof {
            reveal_strlit("=");
            reveal_strlit(", ");
        }
        match self {
            Env::Empty => {
                let s = String::new();
                proof {
                    assert(self@ == SpecEnv::Empty);
                    assert(spec_render_bindings(self@) == Seq::<char>::empty());
                    assert(s@ =~= spec_render_bindings(self@));
                }
                s
            },
            Env::Bind(node) => {
                let mut s = node.name.clone();
                proof {
                    assert("="@ =~= seq!['=']);
                    assert(", "@ =~= seq![',', ' ']);
                }
                s.append("=");
                let v = node.val.render();
                s.append(v.as_str());
                match &node.rest {
                    Env::Empty => {},
                    Env::Bind(_) => {
                        s.append(", ");
                        let rest = node.rest.render_bindings();
                        s.append(rest.as_str());
                    },
                }
                proof {
                    let sv = self@;
                    assert(sv is Bind);
                    assert(sv->Bind_name == node.name@);
                    assert(sv->Bind_val == node.val@);
                    assert(*sv->Bind_rest == node.rest@);
                    assert(s@ =~= spec_render_bindings(self@));
                }
                s
            },
        }
    }
}

} // verus!
