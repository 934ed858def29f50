use std::rc::Rc;
use vstd::prelude::*;

use crate::ast::{clone_expr, expr_view, Expr, SpecExpr};

verus! {

/// A runtime value. Closures hold the environment that was visible when
/// they were created.
#[derive(Debug)]
pub enum Value {
    Int(i32),
    Bool(bool),
    Closure { param: String, body: Box<Expr>, env: Rc<Env> },
    RecClosure { name: String, param: String, body: Box<Expr>, env: Rc<Env> },
    List(Rc<List>),
}

/// A list value: a chain of cons cells ending in `Nil`.
#[derive(Debug, Clone)]
pub enum List {
    Nil,
    Cons { head: Value, tail: Rc<List> },
}

/// The environment: a backwards linked list of frames, one binding each.
#[derive(Debug, Clone)]
pub enum Env {
    Empty,
    Frame { name: String, value: Value, parent: Rc<Env> },
}

#[derive(Debug, Clone, Copy, PartialEq, Eq, Structural)]
pub enum ValueType {
    Int,
    Bool,
    Function,
    List,
}

#[derive(Debug)]
pub enum EvalError {
    UnboundVar(String),
    MismatchedType { expected: ValueType, got: ValueType },
    DivideByZero { numerator: i32, denominator: i32 },
    NonExhaustive,
}

/// Model of a value. An environment is modelled as the map from each
/// visible name to the value of its innermost binding.
pub enum SpecValue {
    Int(i32),
    Bool(bool),
    Closure { param: Seq<char>, body: SpecExpr, env: Map<Seq<char>, SpecValue> },
    RecClosure { name: Seq<char>, param: Seq<char>, body: SpecExpr, env: Map<Seq<char>, SpecValue> },
    List(Seq<SpecValue>),
}

pub enum SpecError {
    UnboundVar(Seq<char>),
    MismatchedType { expected: ValueType, got: ValueType },
    DivideByZero { numerator: i32, denominator: i32 },
    NonExhaustive,
}

pub open spec fn value_view(v: Value) -> SpecValue
    decreases v,
{
    match v {
        Value::Int(n) => SpecValue::Int(n),
        Value::Bool(b) => SpecValue::Bool(b),
        Value::Closure { param, body, env } => SpecValue::Closure {
            param: param@,
            body: expr_view(*body),
            env: env_view(*env),
        },
        Value::RecClosure { name, param, body, env } => SpecValue::RecClosure {
            name: name@,
            param: param@,
            body: expr_view(*body),
            env: env_view(*env),
        },
        Value::List(l) => SpecValue::List(list_view(*l)),
    }
}

pub open spec fn list_view(l: List) -> Seq<SpecValue>
    decreases l,
{
    match l {
        List::Nil => Seq::empty(),
        List::Cons { head, tail } => seq![value_view(head)] + list_view(*tail),
    }
}

pub open spec fn env_view(e: Env) -> Map<Seq<char>, SpecValue>
    decreases e,
{
    match e {
        Env::Empty => Map::empty(),
        Env::Frame { name, value, parent } => env_view(*parent).insert(name@, value_view(value)),
    }
}

pub open spec fn error_view(e: EvalError) -> SpecError {
    match e {
        EvalError::UnboundVar(n) => SpecError::UnboundVar(n@),
        EvalError::MismatchedType { expected, got } => SpecError::MismatchedType { expected, got },
        EvalError::DivideByZero { numerator, denominator } => SpecError::DivideByZero {
            numerator,
            denominator,
        },
        EvalError::NonExhaustive => SpecError::NonExhaustive,
    }
}

impl View for Value {
    type V = SpecValue;

    open spec fn view(&self) -> SpecValue {
        value_view(*self)
    }
}

impl View for List {
    type V = Seq<SpecValue>;

    open spec fn view(&self) -> Seq<SpecValue> {
        list_view(*self)
    }
}

impl View for Env {
    type V = Map<Seq<char>, SpecValue>;

    open spec fn view(&self) -> Map<Seq<char>, SpecValue> {
        env_view(*self)
    }
}

impl View for EvalError {
    type V = SpecError;

    open spec fn view(&self) -> SpecError {
        error_view(*self)
    }
}


/// The type tag of a value model.
pub open spec fn type_of_spec(v: SpecValue) -> ValueType {
    match v {
        SpecValue::Int(_) => ValueType::Int,
        SpecValue::Bool(_) => ValueType::Bool,
        SpecValue::Closure { .. } => ValueType::Function,
        SpecValue::RecClosure { .. } => ValueType::Function,
        SpecValue::List(_) => ValueType::List,
    }
}

/// Shares the pointee of `r`: `Rc::clone` hands out another pointer to the
/// same allocation, so the new handle denotes the same value.
#[verifier::external_body]
pub(crate) fn share<T>(r: &Rc<T>) -> (s: Rc<T>)
    ensures
        s == *r,
{
    Rc::clone(r)
}

impl Value {
    /// The type of a value.
    pub fn type_of(&self) -> (t: ValueType)
        ensures
            t == type_of_spec(self@),
    {
        match self {
            Value::Int(_) => ValueType::Int,
            Value::Bool(_) => ValueType::Bool,
            Value::Closure { .. } => ValueType::Function,
            Value::RecClosure { .. } => ValueType::Function,
            Value::List(_) => ValueType::List,
        }
    }
}

impl Clone for Value {
    fn clone(&self) -> (r: Self)
        ensures
            r@ == self@,
    {
        match self {
            Value::Int(n) => Value::Int(*n),
            Value::Bool(b) => Value::Bool(*b),
            Value::Closure { param, body, env } => Value::Closure {
                param: param.clone(),
                body: Box::new(clone_expr(body)),
                env: share(env),
            },
            Value::RecClosure { name, param, body, env } => Value::RecClosure {
                name: name.clone(),
                param: param.clone(),
                body: Box::new(clone_expr(body)),
                env: share(env),
            },
            Value::List(l) => Value::List(share(l)),
        }
    }
}

impl Env {
    /// Finds the value of the innermost binding of `name`.
    pub fn lookup(&self, name: &str) -> (r: Option<Value>)
        ensures
            r is Some <==> self@.contains_key(name@),
            r matches Some(v) ==> v@ == self@[name@],
    {
        let key = name.to_owned();
        self.lookup_key(&key)
    }

    fn lookup_key(&self, key: &String) -> (r: Option<Value>)
        ensures
            r is Some <==> self@.contains_key(key@),
            r matches Some(v) ==> v@ == self@[key@],
        decreases self,
    {
        match self {
            Env::Empty => {
                assert(!Map::<Seq<char>, SpecValue>::empty().dom().contains(key@));
                None
            },
            Env::Frame { name, value, parent } => {
                if *key == *name {
                    Some(value.clone())
                } else {
                    parent.lookup_key(key)
                }
            },
        }
    }

    /// A new environment whose innermost frame binds `name` to `value`
    /// and whose parent is `self`.
    pub fn extend(self: Rc<Self>, name: String, value: Value) -> (r: Rc<Env>)
        ensures
            *r == (Env::Frame { name, value, parent: self }),
            r@ == self@.insert(name@, value@),
    {
        Rc::new(Env::Frame { name, value, parent: self })
    }

    /// A new empty environment.
    pub fn empty() -> (r: Rc<Env>)
        ensures
            r@ == Map::<Seq<char>, SpecValue>::empty(),
    {
        Rc::new(Env::Empty)
    }
}

} // verus!
