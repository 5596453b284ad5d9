//! Runtime values and the two environments: a persistent name-to-value
//! mapping used by the evaluator and a name-to-type mapping used by the type
//! checker.  Extension never mutates an existing environment; it builds a new
//! frame whose tail is shared, so every closure keeps an unchanged snapshot of
//! its definition-site scope.

use crate::ast::{Exp, SpecExp, SpecType, Type, exp_view, type_view};
use std::rc::Rc;
use vstd::prelude::*;

verus! {

/// A runtime value: the three literal kinds and closures.
#[derive(Debug)]
pub enum Value {
    Int(i64),
    Bool(bool),
    Str(String),
    /// A closure: the parameter name, its declared type, the unevaluated body
    /// and the environment captured when the lambda was evaluated.
    Fun { var: String, var_type: Type, body: Box<Exp>, nv: Env },
}

/// One frame of a value environment: a binding in front of the rest of the
/// chain.
#[derive(Debug)]
pub struct EnvNode {
    pub name: String,
    pub val: Value,
    pub rest: Env,
}

/// A persistent mapping from variable names to values.  The empty mapping is
/// `Empty`; extension puts one shared frame in front.
#[derive(Debug)]
pub enum Env {
    Empty,
    Bind(Rc<EnvNode>),
}

/// The mathematical model of a `Value`.
pub enum SpecValue {
    Int(int),
    Bool(bool),
    Str(Seq<char>),
    Fun { var: Seq<char>, var_type: SpecType, body: Box<SpecExp>, nv: Box<SpecEnv> },
}

/// The mathematical model of a value environment: an ordered chain of
/// bindings, newest first.
pub enum SpecEnv {
    Empty,
    Bind { name: Seq<char>, val: SpecValue, rest: Box<SpecEnv> },
}

/// The model of a `Value`.
pub open spec fn value_view(v: Value) -> SpecValue
    decreases v,
{
    match v {
        Value::Int(n) => SpecValue::Int(n as int),
        Value::Bool(b) => SpecValue::Bool(b),
        Value::Str(s) => SpecValue::Str(s@),
        Value::Fun { var, var_type, body, nv } => SpecValue::Fun {
            var: var@,
            var_type: type_view(var_type),
            body: Box::new(exp_view(*body)),
            nv: Box::new(env_view(nv)),
        },
    }
}

/// The model of an `Env`.
pub open spec fn env_view(nv: Env) -> SpecEnv
    decreases nv,
{
    match nv {
        Env::Empty => SpecEnv::Empty,
        Env::Bind(node) => SpecEnv::Bind {
            name: (*node).name@,
            val: value_view((*node).val),
            rest: Box::new(env_view((*node).rest)),
        },
    }
}

impl View for Value {
    type V = SpecValue;

    open spec fn view(&self) -> SpecValue {
        value_view(*self)
    }
}

impl View for Env {
    type V = SpecEnv;

    open spec fn view(&self) -> SpecEnv {
        env_view(*self)
    }
}

/// What looking a name up in a value environment returns: the value of the
/// newest binding of that name, or `None` if the name is unbound.
pub open spec fn spec_env_lookup(nv: SpecEnv, name: Seq<char>) -> Option<SpecValue>
    decreases nv,
{
    match nv {
        SpecEnv::Empty => None,
        SpecEnv::Bind { name: n, val, rest } => if n == name {
            Some(val)
        } else {
            spec_env_lookup(*rest, name)
        },
    }
}

/// Relies on `Rc::clone` (std): the clone is a second handle to the same
/// shared value.
#[verifier::external_body]
fn rc_dup<T>(rc: &Rc<T>) -> (r: Rc<T>)
    ensures
        *r == **rc,
{
    Rc::clone(rc)
}

impl Clone for Env {
    /// A clone of an environment is the same mapping; only the head handle is
    /// copied, the frames are shared.
    fn clone(&self) -> (res: Self)
        ensures
            res@ == self@,
    {
        match self {
            Env::Empty => Env::Empty,
            Env::Bind(node) => Env::Bind(rc_dup(node)),
        }
    }
}

impl Clone for Value {
    /// A clone of a value is the same value.
    fn clone(&self) -> (res: Self)
        ensures
            res@ == self@,
    {
        match self {
            Value::Int(n) => Value::Int(*n),
            Value::Bool(b) => Value::Bool(*b),
            Value::Str(s) => Value::Str(s.clone()),
            Value::Fun { var, var_type, body, nv } => Value::Fun {
                var: var.clone(),
                var_type: var_type.clone(),
                body: Box::new((**body).clone()),
                nv: nv.clone(),
            },
        }
    }
}

impl Env {
    /// The empty environment, which binds nothing.
    pub fn new() -> (r: Env)
        ensures
            r@ == SpecEnv::Empty,
    {
        Env::Empty
    }

    /// A new environment equal to this one plus one binding; the newest
    /// binding of a name shadows the older ones.  `self` is unchanged.
    pub fn extend(&self, name: String, val: Value) -> (r: Env)
        ensures
            r@ == (SpecEnv::Bind { name: name@, val: val@, rest: Box::new(self@) }),
    {
        Env::Bind(Rc::new(EnvNode { name, val, rest: self.clone() }))
    }

    /// The value of the newest binding of `name`, or `None` if the name is
    /// unbound.
    pub fn lookup(&self, name: &String) -> (r: Option<Value>)
        ensures
            match r {
                Some(v) => spec_env_lookup(self@, name@) == Some(v@),
                None => spec_env_lookup(self@, name@) is None,
            },
        decreases self,
    {
        match self {
            Env::Empty => None,
            Env::Bind(node) => if node.name == *name {
                Some(node.val.clone())
            } else {
                node.rest.lookup(name)
            },
        }
    }
}

/// One frame of a type environment.
#[derive(Debug)]
pub struct TEnvNode {
    pub name: String,
    pub ty: Type,
    pub rest: TEnv,
}

/// A persistent mapping from variable names to types, built exactly as `Env`
/// is.
#[derive(Debug)]
pub enum TEnv {
    Empty,
    Bind(Rc<TEnvNode>),
}

/// The mathematical model of a type environment.
pub enum SpecTEnv {
    Empty,
    Bind { name: Seq<char>, ty: SpecType, rest: Box<SpecTEnv> },
}

/// The model of a `TEnv`.
pub open spec fn tenv_view(tnv: TEnv) -> SpecTEnv
    decreases tnv,
{
    match tnv {
        TEnv::Empty => SpecTEnv::Empty,
        TEnv::Bind(node) => SpecTEnv::Bind {
            name: (*node).name@,
            ty: type_view((*node).ty),
            rest: Box::new(tenv_view((*node).rest)),
        },
    }
}

impl View for TEnv {
    type V = SpecTEnv;

    open spec fn view(&self) -> SpecTEnv {
        tenv_view(*self)
    }
}

/// What looking a name up in a type environment returns.
pub open spec fn spec_tenv_lookup(tnv: SpecTEnv, name: Seq<char>) -> Option<SpecType>
    decreases tnv,
{
    match tnv {
        SpecTEnv::Empty => None,
        SpecTEnv::Bind { name: n, ty, rest } => if n == name {
            Some(ty)
        } else {
            spec_tenv_lookup(*rest, name)
        },
    }
}

impl Clone for TEnv {
    /// A clone of a type environment is the same mapping.
    fn clone(&self) -> (res: Self)
        ensures
            res@ == self@,
    {
        match self {
            TEnv::Empty => TEnv::Empty,
            TEnv::Bind(node) => TEnv::Bind(rc_dup(node)),
        }
    }
}

impl TEnv {
    /// The empty type environment.
    pub fn new() -> (r: TEnv)
        ensures
            r@ == SpecTEnv::Empty,
    {
        TEnv::Empty
    }

    /// A new type environment equal to this one plus one binding; `self` is
    /// unchanged.
    pub fn extend(&self, name: String, ty: Type) -> (r: TEnv)
        ensures
            r@ == (SpecTEnv::Bind { name: name@, ty: ty@, rest: Box::new(self@) }),
    {
        TEnv::Bind(Rc::new(TEnvNode { name, ty, rest: self.clone() }))
    }

    /// The type of the newest binding of `name`, or `None` if the name is
    /// unbound.
    pub fn lookup(&self, name: &String) -> (r: Option<Type>)
        ensures
            match r {
                Some(t) => spec_tenv_lookup(self@, name@) == Some(t@),
                None => spec_tenv_lookup(self@, name@) is None,
            },
        decreases self,
    {
        match self {
            TEnv::Empty => None,
            TEnv::Bind(node) => if node.name == *name {
                Some(node.ty.clone())
            } else {
                node.rest.lookup(name)
            },
        }
    }
}

} // verus!
