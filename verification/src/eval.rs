//! The evaluator: an expression and a value environment in, a runtime value
//! or a runtime error out.  `spec_eval` is the mathematical evaluation
//! function; `interp` is proved to return exactly what it says.
//!
//! The language has no loop or recursion construct, yet nested applications
//! can nest evaluation arbitrarily deep, so evaluation carries an explicit
//! depth bound that shrinks at every application of a closure.  `interp`
//! uses the largest expressible bound; exhausting it answers with
//! `DepthExceeded` instead of overrunning the call stack.

use crate::ast::{Exp, SpecExp};
use crate::env::{Env, SpecEnv, SpecValue, Value, spec_env_lookup};
use vstd::prelude::*;
use vstd::string::StringExecFns;

verus! {

/// A runtime error.
#[derive(Debug)]
pub enum EvalErr {
    /// A variable with no binding in the value environment.
    UnboundVar(String),
    /// An operand of `+` is not an integer; the payloads are the offending
    /// values.
    AddOperands { left: Value, right: Value },
    /// An operand of `++` is not a string.
    ConcatOperands { left: Value, right: Value },
    /// An operand of `<` is not an integer.
    LessThanOperands { left: Value, right: Value },
    /// The test of a conditional is not a boolean.
    TestNotBool { found: Value },
    /// Something other than a closure stands in function position.
    NotAFunction { found: Value },
    /// An addition whose exact result does not fit the machine integer.
    AddOverflow,
    /// The depth bound was exhausted by nested applications.
    DepthExceeded,
}

/// The mathematical model of a runtime error.
pub enum SpecEvalErr {
    UnboundVar(Seq<char>),
    AddOperands { left: SpecValue, right: SpecValue },
    ConcatOperands { left: SpecValue, right: SpecValue },
    LessThanOperands { left: SpecValue, right: SpecValue },
    TestNotBool { found: SpecValue },
    NotAFunction { found: SpecValue },
    AddOverflow,
    DepthExceeded,
}

impl View for EvalErr {
    type V = SpecEvalErr;

    open spec fn view(&self) -> SpecEvalErr {
        match self {
            EvalErr::UnboundVar(s) => SpecEvalErr::UnboundVar(s@),
            EvalErr::AddOperands { left, right } => SpecEvalErr::AddOperands {
                left: left@,
                right: right@,
            },
            EvalErr::ConcatOperands { left, right } => SpecEvalErr::ConcatOperands {
                left: left@,
                right: right@,
            },
            EvalErr::LessThanOperands { left, right } => SpecEvalErr::LessThanOperands {
                left: left@,
                right: right@,
            },
            EvalErr::TestNotBool { found } => SpecEvalErr::TestNotBool { found: found@ },
            EvalErr::NotAFunction { found } => SpecEvalErr::NotAFunction { found: found@ },
            EvalErr::AddOverflow => SpecEvalErr::AddOverflow,
            EvalErr::DepthExceeded => SpecEvalErr::DepthExceeded,
        }
    }
}

/// The value of `e` under `nv` with `depth` applications of closures still
/// allowed, or the first runtime error.  Operands are evaluated left to
/// right; only the taken branch of a conditional is evaluated; a lambda
/// captures the environment in effect where it stands; an application
/// evaluates the closure's body under the closure's captured environment
/// plus the argument binding, never under the call-site environment.
pub open spec fn spec_eval(depth: nat, e: SpecExp, nv: SpecEnv) -> Result<SpecValue, SpecEvalErr>
    decreases depth, e,
{
    match e {
        SpecExp::Int(n) => Ok(SpecValue::Int(n)),
        SpecExp::Bool(b) => Ok(SpecValue::Bool(b)),
        SpecExp::Str(s) => Ok(SpecValue::Str(s)),
        SpecExp::Var(x) => match spec_env_lookup(nv, x) {
            Some(v) => Ok(v),
            None => Err(SpecEvalErr::UnboundVar(x)),
        },
        SpecExp::Plus { left, right } => match spec_eval(depth, *left, nv) {
            Err(e) => Err(e),
            Ok(lv) => match spec_eval(depth, *right, nv) {
                Err(e) => Err(e),
                Ok(rv) => match (lv, rv) {
                    (SpecValue::Int(l), SpecValue::Int(r)) => if i64::MIN <= l + r <= i64::MAX {
                        Ok(SpecValue::Int(l + r))
                    } else {
                        Err(SpecEvalErr::AddOverflow)
                    },
                    (l, r) => Err(SpecEvalErr::AddOperands { left: l, right: r }),
                },
            },
        },
        SpecExp::Concat { left, right } => match spec_eval(depth, *left, nv) {
            Err(e) => Err(e),
            Ok(lv) => match spec_eval(depth, *right, nv) {
                Err(e) => Err(e),
                Ok(rv) => match (lv, rv) {
                    (SpecValue::Str(l), SpecValue::Str(r)) => Ok(SpecValue::Str(l + r)),
                    (l, r) => Err(SpecEvalErr::ConcatOperands { left: l, right: r }),
                },
            },
        },
        SpecExp::LessThan { left, right } => match spec_eval(depth, *left, nv) {
            Err(e) => Err(e),
            Ok(lv) => match spec_eval(depth, *right, nv) {
                Err(e) => Err(e),
                Ok(rv) => match (lv, rv) {
                    (SpecValue::Int(l), SpecValue::Int(r)) => Ok(SpecValue::Bool(l < r)),
                    (l, r) => Err(SpecEvalErr::LessThanOperands { left: l, right: r }),
                },
            },
        },
        SpecExp::Cnd { tst, thn, els } => match spec_eval(depth, *tst, nv) {
            Err(e) => Err(e),
            Ok(tv) => match tv {
                SpecValue::Bool(true) => spec_eval(depth, *thn, nv),
                SpecValue::Bool(false) => spec_eval(depth, *els, nv),
                v => Err(SpecEvalErr::TestNotBool { found: v }),
            },
        },
        SpecExp::Let1 { var, value, body } => match spec_eval(depth, *value, nv) {
            Err(e) => Err(e),
            Ok(v) => spec_eval(
                depth,
                *body,
                SpecEnv::Bind { name: var, val: v, rest: Box::new(nv) },
            ),
        },
        SpecExp::Lam { var, var_type, body } => Ok(
            SpecValue::Fun { var: var, var_type: var_type, body: body, nv: Box::new(nv) },
        ),
        SpecExp::App { fun, arg } => match spec_eval(depth, *fun, nv) {
            Err(e) => Err(e),
            Ok(fv) => match spec_eval(depth, *arg, nv) {
                Err(e) => Err(e),
                Ok(av) => match fv {
                    SpecValue::Fun { var, var_type: _, body, nv: cnv } => if depth == 0 {
                        Err(SpecEvalErr::DepthExceeded)
                    } else {
                        spec_eval(
                            (depth - 1) as nat,
                            *body,
                            SpecEnv::Bind { name: var, val: av, rest: cnv },
                        )
                    },
                    v => Err(SpecEvalErr::NotAFunction { found: v }),
                },
            },
        },
    }
}

/// Evaluates `e` under `nv` with an explicit depth bound, exactly as
/// `spec_eval` says.  Pure with respect to `nv`: the caller's environment is
/// never mutated, only extended into new snapshots.
pub fn interp_depth(e: &Exp, nv: &Env, depth: u64) -> (r: Result<Value, EvalErr>)
    ensures
        match r {
            Ok(v) => spec_eval(depth as nat, e@, nv@) == Ok::<SpecValue, SpecEvalErr>(v@),
            Err(er) => spec_eval(depth as nat, e@, nv@) == Err::<SpecValue, SpecEvalErr>(er@),
        },
    decreases depth, e,
{
    match e {
        Exp::Int(n) => Ok(Value::Int(*n)),
        Exp::Bool(b) => Ok(Value::Bool(*b)),
        Exp::Str(s) => Ok(Value::Str(s.clone())),
        Exp::Var(x) => match nv.lookup(x) {
            Some(v) => Ok(v),
            None => Err(EvalErr::UnboundVar(x.clone())),
        },
        Exp::Plus { left, right } => {
            let lv = match interp_depth(left, nv, depth) {
                Ok(v) => v,
                Err(e) => {
                    return Err(e);
                },
            };
            let rv = match interp_depth(right, nv, depth) {
                Ok(v) => v,
                Err(e) => {
                    return Err(e);
                },
            };
            match (lv, rv) {
                (Value::Int(l), Value::Int(r)) => {
                    if (r > 0 && l > i64::MAX - r) || (r < 0 && l < i64::MIN - r) {
                        Err(EvalErr::AddOverflow)
                    } else {
                        Ok(Value::Int(l + r))
                    }
                },
                (l, r) => Err(EvalErr::AddOperands { left: l, right: r }),
            }
        },
        Exp::Concat { left, right } => {
            let lv = match interp_depth(left, nv, depth) {
                Ok(v) => v,
                Err(e) => {
                    return Err(e);
                },
            };
            let rv = match interp_depth(right, nv, depth) {
                Ok(v) => v,
                Err(e) => {
                    return Err(e);
                },
            };
            match (lv, rv) {
                (Value::Str(l), Value::Str(r)) => Ok(Value::Str(l.concat(r.as_str()))),
                (l, r) => Err(EvalErr::ConcatOperands { left: l, right: r }),
            }
        },
        Exp::LessThan { left, right } => {
            let lv = match interp_depth(left, nv, depth) {
                Ok(v) => v,
                Err(e) => {
                    return Err(e);
                },
            };
            let rv = match interp_depth(right, nv, depth) {
                Ok(v) => v,
                Err(e) => {
                    return Err(e);
                },
            };
            match (lv, rv) {
                (Value::Int(l), Value::Int(r)) => Ok(Value::Bool(l < r)),
                (l, r) => Err(EvalErr::LessThanOperands { left: l, right: r }),
            }
        },
        Exp::Cnd { tst, thn, els } => {
            let tv = match interp_depth(tst, nv, depth) {
                Ok(v) => v,
                Err(e) => {
                    return Err(e);
                },
            };
            match tv {
                Value::Bool(true) => interp_depth(thn, nv, depth),
                Value::Bool(false) => interp_depth(els, nv, depth),
                v => Err(EvalErr::TestNotBool { found: v }),
            }
        },
        Exp::Let1 { var, value, body } => {
            let v = match interp_depth(value, nv, depth) {
                Ok(v) => v,
                Err(e) => {
                    return Err(e);
                },
            };
            let new_nv = nv.extend(var.clone(), v);
            interp_depth(body, &new_nv, depth)
        },
        Exp::Lam { var, var_type, body } => Ok(
            Value::Fun {
                var: var.clone(),
                var_type: var_type.clone(),
                body: Box::new((**body).clone()),
                nv: nv.clone(),
            },
        ),
        Exp::App { fun, arg } => {
            let fv = match interp_depth(fun, nv, depth) {
                Ok(v) => v,
                Err(e) => {
                    return Err(e);
                },
            };
            let av = match interp_depth(arg, nv, depth) {
                Ok(v) => v,
                Err(e) => {
                    return Err(e);
                },
            };
            match fv {
                Value::Fun { var, var_type: _, body, nv: cnv } => {
                    if depth == 0 {
                        Err(EvalErr::DepthExceeded)
                    } else {
                        let new_nv = cnv.extend(var, av);
                        interp_depth(&body, &new_nv, depth - 1)
                    }
                },
                v => Err(EvalErr::NotAFunction { found: v }),
            }
        },
    }
}

/// The depth bound that `interp` allows: deep enough that no input a machine
/// can hold ever reaches it.
pub const DEPTH_LIMIT: u64 = 0xffff_ffff_ffff_ffff;

/// Evaluates `e` under `nv`, exactly as `spec_eval` says at the depth bound
/// `DEPTH_LIMIT`.
pub fn interp(e: &Exp, nv: &Env) -> (r: Result<Value, EvalErr>)
    ensures
        match r {
            Ok(v) => spec_eval(DEPTH_LIMIT as nat, e@, nv@) == Ok::<SpecValue, SpecEvalErr>(v@),
            Err(er) => spec_eval(DEPTH_LIMIT as nat, e@, nv@) == Err::<SpecValue, SpecEvalErr>(
                er@,
            ),
        },
{
    interp_depth(e, nv, DEPTH_LIMIT)
}

} // verus!
