use vstd::prelude::*;

use crate::ast::{BinaryOpcode, SpecExpr, SpecPattern, UnaryOpcode};
use crate::value::{type_of_spec, EvalError, SpecError, SpecValue, Value, ValueType, error_view};

verus! {

/// The two ways in which an evaluation stops without a value or an error:
/// an integer operation that Rust refuses (overflow, remainder by zero),
/// and a nesting of evaluations deeper than the allotted depth.
#[derive(Debug, Clone, Copy, PartialEq, Eq, Structural)]
pub enum Crash {
    Arithmetic,
    TooDeep,
}

/// Model of an environment.
pub type SpecEnv = Map<Seq<char>, SpecValue>;

/// Model of what an evaluation gives back.
pub type SpecResult = Result<SpecValue, SpecError>;

/// Model of an evaluation's outcome: a result, or a crash.
pub type SpecOutcome = Result<SpecResult, Crash>;

pub open spec fn result_view(r: Result<Value, EvalError>) -> SpecResult {
    match r {
        Ok(v) => Ok(v@),
        Err(e) => Err(error_view(e)),
    }
}

pub open spec fn outcome_view(r: Result<Result<Value, EvalError>, Crash>) -> SpecOutcome {
    match r {
        Ok(res) => Ok(result_view(res)),
        Err(c) => Err(c),
    }
}

/// Model of a list of bindings produced by matching.
pub open spec fn bindings_view(bs: Seq<(String, Value)>) -> Seq<(Seq<char>, SpecValue)> {
    bs.map_values(|b: (String, Value)| (b.0@, b.1@))
}

pub open spec fn fits_i32(x: int) -> bool {
    i32::MIN <= x <= i32::MAX
}

pub open spec fn abs(x: int) -> int {
    if x < 0 { -x } else { x }
}

/// Division rounding toward zero, as Rust's `/` on integers.
pub open spec fn trunc_div(a: int, b: int) -> int {
    let q = abs(a) / abs(b);
    if (a < 0) == (b < 0) { q } else { -q }
}

/// The remainder that goes with `trunc_div`, as Rust's `%`.
pub open spec fn trunc_rem(a: int, b: int) -> int {
    a - b * trunc_div(a, b)
}

pub open spec fn mismatch(expected: ValueType, got: SpecValue) -> SpecError {
    SpecError::MismatchedType { expected, got: type_of_spec(got) }
}

/// A unary operator on a value; `None` where Rust's arithmetic panics.
pub open spec fn unop_spec(op: UnaryOpcode, v: SpecValue) -> Option<SpecResult> {
    match (op, v) {
        (UnaryOpcode::Neg, SpecValue::Int(n)) => if n == i32::MIN {
            None
        } else {
            Some(Ok(SpecValue::Int((-n) as i32)))
        },
        (UnaryOpcode::Not, SpecValue::Bool(b)) => Some(Ok(SpecValue::Bool(!b))),
        (UnaryOpcode::Neg, other) => Some(Err(mismatch(ValueType::Int, other))),
        (UnaryOpcode::Not, other) => Some(Err(mismatch(ValueType::Bool, other))),
    }
}

/// An arithmetic result that must fit in `i32`.
pub open spec fn int_result(x: int) -> Option<SpecResult> {
    if fits_i32(x) {
        Some(Ok(SpecValue::Int(x as i32)))
    } else {
        None
    }
}

/// A binary operator on two integers; `None` where Rust's arithmetic panics.
pub open spec fn int_binop_spec(op: BinaryOpcode, a: i32, b: i32) -> Option<SpecResult> {
    match op {
        BinaryOpcode::Add => int_result(a + b),
        BinaryOpcode::Sub => int_result(a - b),
        BinaryOpcode::Mul => int_result(a * b),
        BinaryOpcode::Div => if b == 0 {
            Some(Err(SpecError::DivideByZero { numerator: a, denominator: b }))
        } else {
            int_result(trunc_div(a as int, b as int))
        },
        BinaryOpcode::Mod => if b == 0 || (a == i32::MIN && b == -1) {
            None
        } else {
            int_result(trunc_rem(a as int, b as int))
        },
        BinaryOpcode::GT => Some(Ok(SpecValue::Bool(a > b))),
        BinaryOpcode::GTE => Some(Ok(SpecValue::Bool(a >= b))),
        BinaryOpcode::LT => Some(Ok(SpecValue::Bool(a < b))),
        BinaryOpcode::LTE => Some(Ok(SpecValue::Bool(a <= b))),
        BinaryOpcode::EE => Some(Ok(SpecValue::Bool(a == b))),
        BinaryOpcode::NE => Some(Ok(SpecValue::Bool(a != b))),
    }
}

pub open spec fn is_equality(op: BinaryOpcode) -> bool {
    op == BinaryOpcode::EE || op == BinaryOpcode::NE
}

/// A binary operator on two values; `None` where Rust's arithmetic panics.
/// Every operator takes two integers; `==` and `!=` also take two booleans.
/// Otherwise the error names the first operand of the wrong type.
pub open spec fn binop_spec(op: BinaryOpcode, l: SpecValue, r: SpecValue) -> Option<SpecResult> {
    match (l, r) {
        (SpecValue::Int(a), SpecValue::Int(b)) => int_binop_spec(op, a, b),
        (SpecValue::Int(_), other) => Some(Err(mismatch(ValueType::Int, other))),
        (SpecValue::Bool(a), SpecValue::Bool(b)) => if op == BinaryOpcode::EE {
            Some(Ok(SpecValue::Bool(a == b)))
        } else if op == BinaryOpcode::NE {
            Some(Ok(SpecValue::Bool(a != b)))
        } else {
            Some(Err(mismatch(ValueType::Int, l)))
        },
        (SpecValue::Bool(_), other) => if is_equality(op) {
            Some(Err(mismatch(ValueType::Bool, other)))
        } else {
            Some(Err(mismatch(ValueType::Int, l)))
        },
        (other, _) => Some(Err(mismatch(ValueType::Int, other))),
    }
}

/// Consing a value onto a list.
pub open spec fn cons_spec(l: SpecValue, r: SpecValue) -> SpecResult {
    match r {
        SpecValue::List(s) => Ok(SpecValue::List(seq![l] + s)),
        other => Err(mismatch(ValueType::List, other)),
    }
}

/// The bindings that matching `v` against `p` produces, left to right,
/// or `None` if `v` does not match.
pub open spec fn match_spec(v: SpecValue, p: SpecPattern) -> Option<Seq<(Seq<char>, SpecValue)>>
    decreases p,
{
    match p {
        SpecPattern::PWildcard => Some(Seq::empty()),
        SpecPattern::PVar(name) => Some(seq![(name, v)]),
        SpecPattern::PNum(n) => match v {
            SpecValue::Int(m) => if n == m { Some(Seq::empty()) } else { None },
            _ => None,
        },
        SpecPattern::PBool(b) => match v {
            SpecValue::Bool(c) => if b == c { Some(Seq::empty()) } else { None },
            _ => None,
        },
        SpecPattern::PNil => match v {
            SpecValue::List(s) => if s.len() == 0 { Some(Seq::empty()) } else { None },
            _ => None,
        },
        SpecPattern::PCons(ph, pt) => match v {
            SpecValue::List(s) => if s.len() == 0 {
                None
            } else {
                match (match_spec(s[0], *ph), match_spec(SpecValue::List(s.drop_first()), *pt)) {
                    (Some(bh), Some(bt)) => Some(bh + bt),
                    _ => None,
                }
            },
            _ => None,
        },
    }
}

/// The environment after adding the bindings in order (later ones shadow
/// earlier ones).
pub open spec fn bind_all(env: SpecEnv, bs: Seq<(Seq<char>, SpecValue)>) -> SpecEnv
    decreases bs.len(),
{
    if bs.len() == 0 {
        env
    } else {
        bind_all(env, bs.drop_last()).insert(bs.last().0, bs.last().1)
    }
}

/// The index of the first arm, at `start` or later, whose pattern matches `v`.
pub open spec fn first_arm_from(v: SpecValue, arms: Seq<(SpecPattern, SpecExpr)>, start: int) -> Option<int>
    decreases arms.len() - start,
{
    if start < 0 || start >= arms.len() {
        None
    } else if match_spec(v, arms[start].0) is Some {
        Some(start)
    } else {
        first_arm_from(v, arms, start + 1)
    }
}

/// The meaning of an expression in an environment, where at most `depth`
/// evaluations may be nested (each nested evaluation uses one level).
pub open spec fn eval_spec(e: SpecExpr, env: SpecEnv, depth: nat) -> SpecOutcome
    decreases depth,
{
    if depth == 0 {
        Err(Crash::TooDeep)
    } else {
        let d = (depth - 1) as nat;
        match e {
            SpecExpr::Num(n) => Ok(Ok(SpecValue::Int(n))),
            SpecExpr::Bool(b) => Ok(Ok(SpecValue::Bool(b))),
            SpecExpr::Var(name) => if env.contains_key(name) {
                Ok(Ok(env[name]))
            } else {
                Ok(Err(SpecError::UnboundVar(name)))
            },
            SpecExpr::UnaryOp(op, x) => match eval_spec(*x, env, d) {
                Ok(Ok(v)) => match unop_spec(op, v) {
                    Some(r) => Ok(r),
                    None => Err(Crash::Arithmetic),
                },
                other => other,
            },
            SpecExpr::BinaryOp(l, op, r) => {
                let lo = eval_spec(*l, env, d);
                let ro = eval_spec(*r, env, d);
                match (lo, ro) {
                    (Err(c), _) => Err(c),
                    (_, Err(c)) => Err(c),
                    (Ok(Err(err)), _) => Ok(Err(err)),
                    (Ok(Ok(_)), Ok(Err(err))) => Ok(Err(err)),
                    (Ok(Ok(lv)), Ok(Ok(rv))) => match binop_spec(op, lv, rv) {
                        Some(res) => Ok(res),
                        None => Err(Crash::Arithmetic),
                    },
                }
            },
            SpecExpr::If(c, t, f) => match eval_spec(*c, env, d) {
                Ok(Ok(SpecValue::Bool(true))) => eval_spec(*t, env, d),
                Ok(Ok(SpecValue::Bool(false))) => eval_spec(*f, env, d),
                Ok(Ok(other)) => Ok(Err(mismatch(ValueType::Bool, other))),
                other => other,
            },
            SpecExpr::Lambda { param, body } => Ok(Ok(SpecValue::Closure { param, body: *body, env })),
            SpecExpr::RecLambda { name, param, body } => Ok(
                Ok(SpecValue::RecClosure { name, param, body: *body, env }),
            ),
            SpecExpr::LetIn { name, value, body } => match eval_spec(*value, env, d) {
                Ok(Ok(v)) => eval_spec(*body, env.insert(name, v), d),
                other => other,
            },
            SpecExpr::App(func, arg) => match eval_spec(*func, env, d) {
                Ok(Ok(f)) => match eval_spec(*arg, env, d) {
                    Ok(Ok(a)) => match f {
                        SpecValue::Closure { param, body, env: cenv } => eval_spec(
                            body,
                            cenv.insert(param, a),
                            d,
                        ),
                        SpecValue::RecClosure { name, param, body, env: cenv } => eval_spec(
                            body,
                            cenv.insert(name, f).insert(param, a),
                            d,
                        ),
                        other => Ok(Err(mismatch(ValueType::Function, other))),
                    },
                    other => other,
                },
                other => other,
            },
            SpecExpr::Nil => Ok(Ok(SpecValue::List(Seq::empty()))),
            SpecExpr::Cons(h, t) => match eval_spec(*h, env, d) {
                Ok(Ok(hv)) => match eval_spec(*t, env, d) {
                    Ok(Ok(tv)) => Ok(cons_spec(hv, tv)),
                    other => other,
                },
                other => other,
            },
            SpecExpr::Match { scrutinee, arms } => match eval_spec(*scrutinee, env, d) {
                Ok(Ok(v)) => match first_arm_from(v, arms, 0) {
                    Some(i) => eval_spec(arms[i].1, bind_all(env, match_spec(v, arms[i].0).unwrap()), d),
                    None => Ok(Err(SpecError::NonExhaustive)),
                },
                other => other,
            },
        }
    }
}

} // verus!
