//! The laws that tie the type checker and the evaluator together: a
//! well-typed value relation, type soundness (a type-checked expression
//! never gets stuck), determinism of evaluation, and the short-circuit
//! behaviour of conditionals.

use crate::ast::{SpecExp, SpecType};
use crate::env::{SpecEnv, SpecTEnv, SpecValue, spec_env_lookup, spec_tenv_lookup};
use crate::eval::{SpecEvalErr, spec_eval};
use crate::typecheck::{SpecTypeErr, spec_tc};
use vstd::prelude::*;

verus! {

/// The canonical type of a runtime value, if it has one.  A literal has its
/// base type; a closure has a function type exactly when its captured
/// environment is well typed and its body checks under that typing plus the
/// parameter binding.
pub open spec fn ty_of(v: SpecValue) -> Option<SpecType>
    decreases v,
{
    match v {
        SpecValue::Int(_) => Some(SpecType::Int),
        SpecValue::Bool(_) => Some(SpecType::Bool),
        SpecValue::Str(_) => Some(SpecType::Str),
        SpecValue::Fun { var, var_type, body, nv } => match tenv_of(*nv) {
            None => None,
            Some(ctnv) => match spec_tc(
                *body,
                SpecTEnv::Bind { name: var, ty: var_type, rest: Box::new(ctnv) },
            ) {
                Ok(bt) => Some(
                    SpecType::Fun { param: Box::new(var_type), result: Box::new(bt) },
                ),
                Err(_) => None,
            },
        },
    }
}

/// The canonical typing of a value environment: each binding mapped to its
/// value's type, if every value has one.
pub open spec fn tenv_of(nv: SpecEnv) -> Option<SpecTEnv>
    decreases nv,
{
    match nv {
        SpecEnv::Empty => Some(SpecTEnv::Empty),
        SpecEnv::Bind { name, val, rest } => match (ty_of(val), tenv_of(*rest)) {
            (Some(t), Some(tr)) => Some(SpecTEnv::Bind { name, ty: t, rest: Box::new(tr) }),
            _ => None,
        },
    }
}

/// `v` is a well-typed inhabitant of `t`.
pub open spec fn val_ty(v: SpecValue, t: SpecType) -> bool {
    ty_of(v) == Some(t)
}

/// The value environment `nv` is well typed under the type environment
/// `tnv`: the two bind the same names in the same order, and each value
/// inhabits its type.
pub open spec fn env_ty(nv: SpecEnv, tnv: SpecTEnv) -> bool {
    tenv_of(nv) == Some(tnv)
}

/// In a well-typed environment, a name resolves to a value exactly when it
/// resolves to a type, and the value inhabits that type.
pub proof fn lemma_lookup_ty(nv: SpecEnv, tnv: SpecTEnv, x: Seq<char>)
    requires
        env_ty(nv, tnv),
    ensures
        match (spec_env_lookup(nv, x), spec_tenv_lookup(tnv, x)) {
            (Some(v), Some(t)) => val_ty(v, t),
            (None, None) => true,
            _ => false,
        },
    decreases nv,
{
    match nv {
        SpecEnv::Bind { name, val, rest } => {
            if name != x {
                lemma_lookup_ty(*rest, tenv_of(*rest)->Some_0, x);
            }
        },
        SpecEnv::Empty => {},
    }
}

/// Type soundness, as one induction: under a well-typed environment, an
/// expression that checks to `t` evaluates to a value inhabiting `t`, or
/// fails only by exhausting the depth bound or by integer overflow — never
/// with an unbound variable, an operand kind mismatch, a non-boolean test or
/// a non-function application.
pub proof fn lemma_type_soundness(depth: nat, e: SpecExp, nv: SpecEnv, tnv: SpecTEnv, t: SpecType)
    requires
        env_ty(nv, tnv),
        spec_tc(e, tnv) == Ok::<SpecType, SpecTypeErr>(t),
    ensures
        match spec_eval(depth, e, nv) {
            Ok(v) => val_ty(v, t),
            Err(er) => er == SpecEvalErr::DepthExceeded || er == SpecEvalErr::AddOverflow,
        },
    decreases depth, e,
{
    match e {
        SpecExp::Int(_) => {},
        SpecExp::Bool(_) => {},
        SpecExp::Str(_) => {},
        SpecExp::Var(x) => {
            lemma_lookup_ty(nv, tnv, x);
        },
        SpecExp::Plus { left, right } => {
            let lt = spec_tc(*left, tnv)->Ok_0;
            let rt = spec_tc(*right, tnv)->Ok_0;
            lemma_type_soundness(depth, *left, nv, tnv, lt);
            if spec_eval(depth, *left, nv) is Ok {
                lemma_type_soundness(depth, *right, nv, tnv, rt);
            }
        },
        SpecExp::Concat { left, right } => {
            let lt = spec_tc(*left, tnv)->Ok_0;
            let rt = spec_tc(*right, tnv)->Ok_0;
            lemma_type_soundness(depth, *left, nv, tnv, lt);
            if spec_eval(depth, *left, nv) is Ok {
                lemma_type_soundness(depth, *right, nv, tnv, rt);
            }
        },
        SpecExp::LessThan { left, right } => {
            let lt = spec_tc(*left, tnv)->Ok_0;
            let rt = spec_tc(*right, tnv)->Ok_0;
            lemma_type_soundness(depth, *left, nv, tnv, lt);
            if spec_eval(depth, *left, nv) is Ok {
                lemma_type_soundness(depth, *right, nv, tnv, rt);
            }
        },
        SpecExp::Cnd { tst, thn, els } => {
            lemma_type_soundness(depth, *tst, nv, tnv, SpecType::Bool);
            match spec_eval(depth, *tst, nv) {
                Ok(tv) => {
                    match tv {
                        SpecValue::Bool(true) => {
                            lemma_type_soundness(depth, *thn, nv, tnv, t);
                        },
                        SpecValue::Bool(false) => {
                            lemma_type_soundness(depth, *els, nv, tnv, t);
                        },
                        _ => {},
                    }
                },
                Err(_) => {},
            }
        },
        SpecExp::Let1 { var, value, body } => {
            let vt = spec_tc(*value, tnv)->Ok_0;
            lemma_type_soundness(depth, *value, nv, tnv, vt);
            match spec_eval(depth, *value, nv) {
                Ok(v) => {
                    let nv2 = SpecEnv::Bind { name: var, val: v, rest: Box::new(nv) };
                    let tnv2 = SpecTEnv::Bind { name: var, ty: vt, rest: Box::new(tnv) };
                    assert(env_ty(nv2, tnv2));
                    lemma_type_soundness(depth, *body, nv2, tnv2, t);
                },
                Err(_) => {},
            }
        },
        SpecExp::Lam { var, var_type, body } => {
            let cv = SpecValue::Fun {
                var: var,
                var_type: var_type,
                body: body,
                nv: Box::new(nv),
            };
            assert(ty_of(cv) == Some(t));
        },
        SpecExp::App { fun, arg } => {
            let ft = spec_tc(*fun, tnv)->Ok_0;
            let at = spec_tc(*arg, tnv)->Ok_0;
            lemma_type_soundness(depth, *fun, nv, tnv, ft);
            match spec_eval(depth, *fun, nv) {
                Ok(fv) => {
                    lemma_type_soundness(depth, *arg, nv, tnv, at);
                    match spec_eval(depth, *arg, nv) {
                        Ok(av) => {
                            match fv {
                                SpecValue::Fun { var, var_type, body, nv: cnv } => {
                                    if depth > 0 {
                                        let ctnv = tenv_of(*cnv)->Some_0;
                                        let nv2 = SpecEnv::Bind {
                                            name: var,
                                            val: av,
                                            rest: cnv,
                                        };
                                        let tnv2 = SpecTEnv::Bind {
                                            name: var,
                                            ty: at,
                                            rest: Box::new(ctnv),
                                        };
                                        assert(env_ty(nv2, tnv2));
                                        assert(spec_tc(*body, tnv2) == Ok::<
                                            SpecType,
                                            SpecTypeErr,
                                        >(*ft->Fun_result));
                                        lemma_type_soundness(
                                            (depth - 1) as nat,
                                            *body,
                                            nv2,
                                            tnv2,
                                            *ft->Fun_result,
                                        );
                                    }
                                },
                                _ => {},
                            }
                        },
                        Err(_) => {},
                    }
                },
                Err(_) => {},
            }
        },
    }
}

/// Progress from the top level: if an expression type checks in the empty
/// environment, evaluating it in the empty environment never reports an
/// unbound variable, an operand kind mismatch, a non-boolean test or a
/// non-function application; the only failures left are the depth bound and
/// integer overflow.
pub proof fn lemma_progress(depth: nat, e: SpecExp)
    requires
        spec_tc(e, SpecTEnv::Empty) is Ok,
    ensures
        match spec_eval(depth, e, SpecEnv::Empty) {
            Ok(_) => true,
            Err(er) => er == SpecEvalErr::DepthExceeded || er == SpecEvalErr::AddOverflow,
        },
{
    lemma_type_soundness(
        depth,
        e,
        SpecEnv::Empty,
        SpecTEnv::Empty,
        spec_tc(e, SpecTEnv::Empty)->Ok_0,
    );
}

/// Determinism: evaluation is a mathematical function of the expression,
/// the environment and the depth bound, so any two results of `interp` on
/// equal inputs — which its contract pins to `spec_eval` — are equal.
pub proof fn lemma_eval_deterministic(
    depth: nat,
    e: SpecExp,
    nv: SpecEnv,
    r1: Result<SpecValue, SpecEvalErr>,
    r2: Result<SpecValue, SpecEvalErr>,
)
    requires
        r1 == spec_eval(depth, e, nv),
        r2 == spec_eval(depth, e, nv),
    ensures
        r1 == r2,
{
}

/// Short-circuiting: a conditional whose test is a boolean literal has
/// exactly the outcome of the taken branch; the untaken branch is never
/// evaluated, whatever evaluating it would have done.
pub proof fn lemma_short_circuit(depth: nat, thn: SpecExp, els: SpecExp, nv: SpecEnv)
    ensures
        spec_eval(
            depth,
            SpecExp::Cnd {
                tst: Box::new(SpecExp::Bool(true)),
                thn: Box::new(thn),
                els: Box::new(els),
            },
            nv,
        ) == spec_eval(depth, thn, nv),
        spec_eval(
            depth,
            SpecExp::Cnd {
                tst: Box::new(SpecExp::Bool(false)),
                thn: Box::new(thn),
                els: Box::new(els),
            },
            nv,
        ) == spec_eval(depth, els, nv),
{
    assert(spec_eval(depth, SpecExp::Bool(true), nv) == Ok::<SpecValue, SpecEvalErr>(
        SpecValue::Bool(true),
    ));
    assert(spec_eval(depth, SpecExp::Bool(false), nv) == Ok::<SpecValue, SpecEvalErr>(
        SpecValue::Bool(false),
    ));
}

} // verus!


