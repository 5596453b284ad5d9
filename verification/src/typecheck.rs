//! The type checker: an expression and a type environment in, the
//! expression's static type or a type error out.  `spec_tc` is the
//! mathematical typing function; `tc` is proved to return exactly what it
//! says.

use crate::ast::{Exp, SpecExp, SpecType, Type, type_eq};
use crate::env::{SpecTEnv, TEnv, spec_tenv_lookup};
use vstd::prelude::*;

verus! {

/// A type error.
#[derive(Debug)]
pub enum TypeErr {
    /// A variable with no binding in the type environment.
    UnboundVar(String),
    /// An operand of `+` is not an integer.
    AddOperands,
    /// An operand of `++` is not a string.
    ConcatOperands,
    /// An operand of `<` is not an integer.
    LessThanOperands,
    /// The test of a conditional is not a boolean.
    TestNotBool,
    /// The two branches of a conditional have different types.
    BranchMismatch,
    /// The argument type does not equal the function's parameter type.
    ArgMismatch { expected: Type, actual: Type },
    /// Something other than a function stands in function position.
    NotAFunction { found: Type },
}

/// The mathematical model of a type error.
pub enum SpecTypeErr {
    UnboundVar(Seq<char>),
    AddOperands,
    ConcatOperands,
    LessThanOperands,
    TestNotBool,
    BranchMismatch,
    ArgMismatch { expected: SpecType, actual: SpecType },
    NotAFunction { found: SpecType },
}

impl View for TypeErr {
    type V = SpecTypeErr;

    open spec fn view(&self) -> SpecTypeErr {
        match self {
            TypeErr::UnboundVar(s) => SpecTypeErr::UnboundVar(s@),
            TypeErr::AddOperands => SpecTypeErr::AddOperands,
            TypeErr::ConcatOperands => SpecTypeErr::ConcatOperands,
            TypeErr::LessThanOperands => SpecTypeErr::LessThanOperands,
            TypeErr::TestNotBool => SpecTypeErr::TestNotBool,
            TypeErr::BranchMismatch => SpecTypeErr::BranchMismatch,
            TypeErr::ArgMismatch { expected, actual } => SpecTypeErr::ArgMismatch {
                expected: expected@,
                actual: actual@,
            },
            TypeErr::NotAFunction { found } => SpecTypeErr::NotAFunction { found: found@ },
        }
    }
}

/// The static type of `e` under `tnv`, or the first type error found.  Both
/// operands of a binary operator and both branches of a conditional are
/// checked left to right; environments are only ever extended, never
/// mutated, so sibling sub-expressions check under the same environment.
pub open spec fn spec_tc(e: SpecExp, tnv: SpecTEnv) -> Result<SpecType, SpecTypeErr>
    decreases e,
{
    match e {
        SpecExp::Int(_) => Ok(SpecType::Int),
        SpecExp::Bool(_) => Ok(SpecType::Bool),
        SpecExp::Str(_) => Ok(SpecType::Str),
        SpecExp::Var(x) => match spec_tenv_lookup(tnv, x) {
            Some(t) => Ok(t),
            None => Err(SpecTypeErr::UnboundVar(x)),
        },
        SpecExp::Plus { left, right } => match spec_tc(*left, tnv) {
            Err(e) => Err(e),
            Ok(lt) => match spec_tc(*right, tnv) {
                Err(e) => Err(e),
                Ok(rt) => if lt is Int && rt is Int {
                    Ok(SpecType::Int)
                } else {
                    Err(SpecTypeErr::AddOperands)
                },
            },
        },
        SpecExp::Concat { left, right } => match spec_tc(*left, tnv) {
            Err(e) => Err(e),
            Ok(lt) => match spec_tc(*right, tnv) {
                Err(e) => Err(e),
                Ok(rt) => if lt is Str && rt is Str {
                    Ok(SpecType::Str)
                } else {
                    Err(SpecTypeErr::ConcatOperands)
                },
            },
        },
        SpecExp::LessThan { left, right } => match spec_tc(*left, tnv) {
            Err(e) => Err(e),
            Ok(lt) => match spec_tc(*right, tnv) {
                Err(e) => Err(e),
                Ok(rt) => if lt is Int && rt is Int {
                    Ok(SpecType::Bool)
                } else {
                    Err(SpecTypeErr::LessThanOperands)
                },
            },
        },
        SpecExp::Cnd { tst, thn, els } => match spec_tc(*tst, tnv) {
            Err(e) => Err(e),
            Ok(tt) => if !(tt is Bool) {
                Err(SpecTypeErr::TestNotBool)
            } else {
                match spec_tc(*thn, tnv) {
                    Err(e) => Err(e),
                    Ok(t1) => match spec_tc(*els, tnv) {
                        Err(e) => Err(e),
                        Ok(t2) => if t1 == t2 {
                            Ok(t1)
                        } else {
                            Err(SpecTypeErr::BranchMismatch)
                        },
                    },
                }
            },
        },
        SpecExp::Let1 { var, value, body } => match spec_tc(*value, tnv) {
            Err(e) => Err(e),
            Ok(vt) => spec_tc(
                *body,
                SpecTEnv::Bind { name: var, ty: vt, rest: Box::new(tnv) },
            ),
        },
        SpecExp::Lam { var, var_type, body } => match spec_tc(
            *body,
            SpecTEnv::Bind { name: var, ty: var_type, rest: Box::new(tnv) },
        ) {
            Err(e) => Err(e),
            Ok(bt) => Ok(SpecType::Fun { param: Box::new(var_type), result: Box::new(bt) }),
        },
        SpecExp::App { fun, arg } => match spec_tc(*fun, tnv) {
            Err(e) => Err(e),
            Ok(ft) => match spec_tc(*arg, tnv) {
                Err(e) => Err(e),
                Ok(at) => match ft {
                    SpecType::Fun { param, result } => if *param == at {
                        Ok(*result)
                    } else {
                        Err(SpecTypeErr::ArgMismatch { expected: *param, actual: at })
                    },
                    _ => Err(SpecTypeErr::NotAFunction { found: ft }),
                },
            },
        },
    }
}

/// Computes the static type of `e` under `tnv`, or the first type error,
/// exactly as `spec_tc` says.  Pure: the environment is never mutated.
pub fn tc(e: &Exp, tnv: &TEnv) -> (r: Result<Type, TypeErr>)
    ensures
        match r {
            Ok(t) => spec_tc(e@, tnv@) == Ok::<SpecType, SpecTypeErr>(t@),
            Err(er) => spec_tc(e@, tnv@) == Err::<SpecType, SpecTypeErr>(er@),
        },
    decreases e,
{
    match e {
        Exp::Int(_) => Ok(Type::Int),
        Exp::Bool(_) => Ok(Type::Bool),
        Exp::Str(_) => Ok(Type::Str),
        Exp::Var(x) => match tnv.lookup(x) {
            Some(t) => Ok(t),
            None => Err(TypeErr::UnboundVar(x.clone())),
        },
        Exp::Plus { left, right } => {
            let lt = match tc(left, tnv) {
                Ok(t) => t,
                Err(e) => {
                    return Err(e);
                },
            };
            let rt = match tc(right, tnv) {
                Ok(t) => t,
                Err(e) => {
                    return Err(e);
                },
            };
            match (&lt, &rt) {
                (Type::Int, Type::Int) => Ok(Type::Int),
                _ => Err(TypeErr::AddOperands),
            }
        },
        Exp::Concat { left, right } => {
            let lt = match tc(left, tnv) {
                Ok(t) => t,
                Err(e) => {
                    return Err(e);
                },
            };
            let rt = match tc(right, tnv) {
                Ok(t) => t,
                Err(e) => {
                    return Err(e);
                },
            };
            match (&lt, &rt) {
                (Type::Str, Type::Str) => Ok(Type::Str),
                _ => Err(TypeErr::ConcatOperands),
            }
        },
        Exp::LessThan { left, right } => {
            let lt = match tc(left, tnv) {
                Ok(t) => t,
                Err(e) => {
                    return Err(e);
                },
            };
            let rt = match tc(right, tnv) {
                Ok(t) => t,
                Err(e) => {
                    return Err(e);
                },
            };
            match (&lt, &rt) {
                (Type::Int, Type::Int) => Ok(Type::Bool),
                _ => Err(TypeErr::LessThanOperands),
            }
        },
        Exp::Cnd { tst, thn, els } => {
            let tt = match tc(tst, tnv) {
                Ok(t) => t,
                Err(e) => {
                    return Err(e);
                },
            };
            match &tt {
                Type::Bool => {},
                _ => {
                    return Err(TypeErr::TestNotBool);
                },
            }
            let t1 = match tc(thn, tnv) {
                Ok(t) => t,
                Err(e) => {
                    return Err(e);
                },
            };
            let t2 = match tc(els, tnv) {
                Ok(t) => t,
                Err(e) => {
                    return Err(e);
                },
            };
            if type_eq(&t1, &t2) {
                Ok(t1)
            } else {
                Err(TypeErr::BranchMismatch)
            }
        },
        Exp::Let1 { var, value, body } => {
            let vt = match tc(value, tnv) {
                Ok(t) => t,
                Err(e) => {
                    return Err(e);
                },
            };
            let new_tnv = tnv.extend(var.clone(), vt);
            tc(body, &new_tnv)
        },
        Exp::Lam { var, var_type, body } => {
            let new_tnv = tnv.extend(var.clone(), var_type.clone());
            let bt = match tc(body, &new_tnv) {
                Ok(t) => t,
                Err(e) => {
                    return Err(e);
                },
            };
            Ok(Type::Fun { param: Box::new(var_type.clone()), result: Box::new(bt) })
        },
        Exp::App { fun, arg } => {
            let ft = match tc(fun, tnv) {
                Ok(t) => t,
                Err(e) => {
                    return Err(e);
                },
            };
            let at = match tc(arg, tnv) {
                Ok(t) => t,
                Err(e) => {
                    return Err(e);
                },
            };
            match ft {
                Type::Fun { param, result } => if type_eq(&param, &at) {
                    Ok(*result)
                } else {
                    Err(TypeErr::ArgMismatch { expected: *param, actual: at })
                },
                _ => Err(TypeErr::NotAFunction { found: ft }),
            }
        },
    }
}

} // verus!
