//! The shared data model of the language: tokens, types and expressions,
//! together with the mathematical model of each (`SpecToken`, `SpecType`,
//! `SpecExp`) that the contracts of every stage speak about.

use vstd::prelude::*;

verus! {

/// One lexical unit of the source language.
#[derive(Debug)]
pub enum Token {
    /// An integer literal, e.g. `42` or `-7`.
    Int(i64),
    /// A boolean literal, written `true` or `false`.
    Bool(bool),
    /// A string literal; the payload is the text between the quotes.
    Str(String),
    /// An identifier that is not a keyword.
    Symbol(String),
    /// `+`
    Plus,
    /// `++`
    Concat,
    /// `<`
    LessThan,
    /// `(`
    LeftParen,
    /// `)`
    RightParen,
    /// `{`
    LeftBrace,
    /// `}`
    RightBrace,
    /// `:`
    Colon,
    /// `->`, used only inside function-type syntax.
    RightArrow,
    /// `=`
    Equal,
    /// The keyword `if`.
    If,
    /// The keyword `else`.
    Else,
    /// The keyword `let`.
    Let,
    /// The keyword `fn`.
    Fn,
    /// The base type name `int`.
    IntType,
    /// The base type name `bool`.
    BoolType,
    /// The base type name `str`.
    StrType,
}

/// The mathematical model of a token: integers are unbounded and strings are
/// sequences of characters.
pub enum SpecToken {
    Int(int),
    Bool(bool),
    Str(Seq<char>),
    Symbol(Seq<char>),
    Plus,
    Concat,
    LessThan,
    LeftParen,
    RightParen,
    LeftBrace,
    RightBrace,
    Colon,
    RightArrow,
    Equal,
    If,
    Else,
    Let,
    Fn,
    IntType,
    BoolType,
    StrType,
}

impl View for Token {
    type V = SpecToken;

    open spec fn view(&self) -> SpecToken {
        match self {
            Token::Int(n) => SpecToken::Int(*n as int),
            Token::Bool(b) => SpecToken::Bool(*b),
            Token::Str(s) => SpecToken::Str(s@),
            Token::Symbol(s) => SpecToken::Symbol(s@),
            Token::Plus => SpecToken::Plus,
            Token::Concat => SpecToken::Concat,
            Token::LessThan => SpecToken::LessThan,
            Token::LeftParen => SpecToken::LeftParen,
            Token::RightParen => SpecToken::RightParen,
            Token::LeftBrace => SpecToken::LeftBrace,
            Token::RightBrace => SpecToken::RightBrace,
            Token::Colon => SpecToken::Colon,
            Token::RightArrow => SpecToken::RightArrow,
            Token::Equal => SpecToken::Equal,
            Token::If => SpecToken::If,
            Token::Else => SpecToken::Else,
            Token::Let => SpecToken::Let,
            Token::Fn => SpecToken::Fn,
            Token::IntType => SpecToken::IntType,
            Token::BoolType => SpecToken::BoolType,
            Token::StrType => SpecToken::StrType,
        }
    }
}

/// The model of a token sequence.
pub open spec fn tokens_view(ts: Seq<Token>) -> Seq<SpecToken> {
    ts.map_values(|t: Token| t@)
}

/// A static type of the language: the three base types and the function type,
/// recursively composed.
#[derive(Debug)]
pub enum Type {
    Int,
    Bool,
    Str,
    Fun { param: Box<Type>, result: Box<Type> },
}

/// The mathematical model of a `Type`; type equality in contracts is equality
/// of these values, which is structural.
pub enum SpecType {
    Int,
    Bool,
    Str,
    Fun { param: Box<SpecType>, result: Box<SpecType> },
}

/// The model of a `Type` value.
pub open spec fn type_view(t: Type) -> SpecType
    decreases t,
{
    match t {
        Type::Int => SpecType::Int,
        Type::Bool => SpecType::Bool,
        Type::Str => SpecType::Str,
        Type::Fun { param, result } => SpecType::Fun {
            param: Box::new(type_view(*param)),
            result: Box::new(type_view(*result)),
        },
    }
}

impl View for Type {
    type V = SpecType;

    open spec fn view(&self) -> SpecType {
        type_view(*self)
    }
}

impl Clone for Type {
    /// A clone of a type is the same type.
    fn clone(&self) -> (res: Self)
        ensures
            res@ == self@,
        decreases self,
    {
        match self {
            Type::Int => Type::Int,
            Type::Bool => Type::Bool,
            Type::Str => Type::Str,
            Type::Fun { param, result } => Type::Fun {
                param: Box::new((**param).clone()),
                result: Box::new((**result).clone()),
            },
        }
    }
}

/// Structural type equality: two types are equal exactly when their models
/// are; this is the sole type-compatibility rule of the language.
pub fn type_eq(a: &Type, b: &Type) -> (r: bool)
    ensures
        r == (a@ == b@),
    decreases a,
{
    match (a, b) {
        (Type::Int, Type::Int) => true,
        (Type::Bool, Type::Bool) => true,
        (Type::Str, Type::Str) => true,
        (
            Type::Fun { param: ap, result: ar },
            Type::Fun { param: bp, result: br },
        ) => type_eq(ap, bp) && type_eq(ar, br),
        _ => false,
    }
}

/// An expression of the language: an immutable tree built by the parser and
/// consumed by the type checker and the evaluator.
#[derive(Debug)]
pub enum Exp {
    /// An integer literal.
    Int(i64),
    /// A boolean literal.
    Bool(bool),
    /// A string literal.
    Str(String),
    /// A variable reference, by name.
    Var(String),
    /// Binary integer addition.
    Plus { left: Box<Exp>, right: Box<Exp> },
    /// String concatenation.
    Concat { left: Box<Exp>, right: Box<Exp> },
    /// Integer comparison.
    LessThan { left: Box<Exp>, right: Box<Exp> },
    /// A conditional: `if tst { thn } else { els }`.
    Cnd { tst: Box<Exp>, thn: Box<Exp>, els: Box<Exp> },
    /// A single-binding let: `let var = value { body }`.
    Let1 { var: String, value: Box<Exp>, body: Box<Exp> },
    /// A lambda with a mandatory parameter type annotation.
    Lam { var: String, var_type: Type, body: Box<Exp> },
    /// Application of a function expression to an argument expression.
    App { fun: Box<Exp>, arg: Box<Exp> },
}

/// The mathematical model of an expression.
pub enum SpecExp {
    Int(int),
    Bool(bool),
    Str(Seq<char>),
    Var(Seq<char>),
    Plus { left: Box<SpecExp>, right: Box<SpecExp> },
    Concat { left: Box<SpecExp>, right: Box<SpecExp> },
    LessThan { left: Box<SpecExp>, right: Box<SpecExp> },
    Cnd { tst: Box<SpecExp>, thn: Box<SpecExp>, els: Box<SpecExp> },
    Let1 { var: Seq<char>, value: Box<SpecExp>, body: Box<SpecExp> },
    Lam { var: Seq<char>, var_type: SpecType, body: Box<SpecExp> },
    App { fun: Box<SpecExp>, arg: Box<SpecExp> },
}

/// The model of an expression tree.
pub open spec fn exp_view(e: Exp) -> SpecExp
    decreases e,
{
    match e {
        Exp::Int(n) => SpecExp::Int(n as int),
        Exp::Bool(b) => SpecExp::Bool(b),
        Exp::Str(s) => SpecExp::Str(s@),
        Exp::Var(s) => SpecExp::Var(s@),
        Exp::Plus { left, right } => SpecExp::Plus {
            left: Box::new(exp_view(*left)),
            right: Box::new(exp_view(*right)),
        },
        Exp::Concat { left, right } => SpecExp::Concat {
            left: Box::new(exp_view(*left)),
            right: Box::new(exp_view(*right)),
        },
        Exp::LessThan { left, right } => SpecExp::LessThan {
            left: Box::new(exp_view(*left)),
            right: Box::new(exp_view(*right)),
        },
        Exp::Cnd { tst, thn, els } => SpecExp::Cnd {
            tst: Box::new(exp_view(*tst)),
            thn: Box::new(exp_view(*thn)),
            els: Box::new(exp_view(*els)),
        },
        Exp::Let1 { var, value, body } => SpecExp::Let1 {
            var: var@,
            value: Box::new(exp_view(*value)),
            body: Box::new(exp_view(*body)),
        },
        Exp::Lam { var, var_type, body } => SpecExp::Lam {
            var: var@,
            var_type: var_type@,
            body: Box::new(exp_view(*body)),
        },
        Exp::App { fun, arg } => SpecExp::App {
            fun: Box::new(exp_view(*fun)),
            arg: Box::new(exp_view(*arg)),
        },
    }
}

impl View for Exp {
    type V = SpecExp;

    open spec fn view(&self) -> SpecExp {
        exp_view(*self)
    }
}

impl Clone for Exp {
    /// A clone of an expression is the same expression tree.
    fn clone(&self) -> (res: Self)
        ensures
            res@ == self@,
        decreases self,
    {
        match self {
            Exp::Int(n) => Exp::Int(*n),
            Exp::Bool(b) => Exp::Bool(*b),
            Exp::Str(s) => Exp::Str(s.clone()),
            Exp::Var(s) => Exp::Var(s.clone()),
            Exp::Plus { left, right } => Exp::Plus {
                left: Box::new((**left).clone()),
                right: Box::new((**right).clone()),
            },
            Exp::Concat { left, right } => Exp::Concat {
                left: Box::new((**left).clone()),
                right: Box::new((**right).clone()),
            },
            Exp::LessThan { left, right } => Exp::LessThan {
                left: Box::new((**left).clone()),
                right: Box::new((**right).clone()),
            },
            Exp::Cnd { tst, thn, els } => Exp::Cnd {
                tst: Box::new((**tst).clone()),
                thn: Box::new((**thn).clone()),
                els: Box::new((**els).clone()),
            },
            Exp::Let1 { var, value, body } => Exp::Let1 {
                var: var.clone(),
                value: Box::new((**value).clone()),
                body: Box::new((**body).clone()),
            },
            Exp::Lam { var, var_type, body } => Exp::Lam {
                var: var.clone(),
                var_type: var_type.clone(),
                body: Box::new((**body).clone()),
            },
            Exp::App { fun, arg } => Exp::App {
                fun: Box::new((**fun).clone()),
                arg: Box::new((**arg).clone()),
            },
        }
    }
}

} // verus!
