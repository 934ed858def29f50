use std::rc::Rc;
use vstd::prelude::*;

use crate::ast::{clone_expr, BinaryOpcode, Expr, Pattern, SpecExpr, UnaryOpcode};
use crate::semantics::{
    abs, bind_all, bindings_view, binop_spec, cons_spec, eval_spec, first_arm_from, fits_i32,
    int_binop_spec, match_spec, outcome_view, result_view, trunc_div, trunc_rem, unop_spec, Crash,
};
use crate::value::{share, Env, EvalError, List, SpecError, Value, ValueType};

verus! {

/// Integer division rounding toward zero.
fn div_toward_zero(a: i32, b: i32) -> (q: i32)
    requires
        b != 0,
        fits_i32(trunc_div(a as int, b as int)),
    ensures
        q == trunc_div(a as int, b as int),
{
    let aa: i64 = a as i64;
    let bb: i64 = b as i64;
    let ua: u64 = if aa < 0 { (-aa) as u64 } else { aa as u64 };
    let ub: u64 = if bb < 0 { (-bb) as u64 } else { bb as u64 };
    assert(ua == abs(a as int) && ub == abs(b as int));
    let uq: u64 = ua / ub;
    assert(uq == abs(a as int) / abs(b as int));
    assert(uq <= ua) by (nonlinear_arith)
        requires
            ub >= 1,
            uq == ua / ub,
    ;
    let q: i64 = if (a < 0) == (b < 0) { uq as i64 } else { -(uq as i64) };
    q as i32
}

/// A quotient rounding toward zero is at most the dividend in size, and it
/// fits in `i32` unless it is `i32::MIN / -1`.
pub(crate) proof fn lemma_trunc_div_fits(a: i32, b: i32)
    requires
        b != 0,
        !(a == i32::MIN && b == -1),
    ensures
        fits_i32(trunc_div(a as int, b as int)),
        abs(trunc_div(a as int, b as int)) <= abs(a as int),
{
    let ghost x = abs(a as int);
    let ghost y = abs(b as int);
    assert(x / y <= x) by (nonlinear_arith)
        requires
            x >= 0,
            y >= 1,
    ;
    if y == 1 {
        assert(x / y == x) by (nonlinear_arith)
            requires
                y == 1,
        ;
    } else {
        assert(x / y <= x / 2) by (nonlinear_arith)
            requires
                x >= 0,
                y >= 2,
        ;
    }
}

/// The remainder of a division rounding toward zero is smaller than the
/// divisor in size and has the sign of the dividend.
pub(crate) proof fn lemma_trunc_rem_bounds(a: i32, b: i32)
    requires
        b != 0,
    ensures
        abs(trunc_rem(a as int, b as int)) < abs(b as int),
        trunc_rem(a as int, b as int) == if a < 0 {
            -(abs(a as int) - abs(b as int) * (abs(a as int) / abs(b as int)))
        } else {
            abs(a as int) - abs(b as int) * (abs(a as int) / abs(b as int))
        },
{
    let x = abs(a as int);
    let y = abs(b as int);
    let uq = x / y;
    assert(0 <= x - y * uq < y) by (nonlinear_arith)
        requires
            x >= 0,
            y >= 1,
            uq == x / y,
    ;
    assert(trunc_rem(a as int, b as int) == if a < 0 { -(x - y * uq) } else { x - y * uq }) by (nonlinear_arith)
        requires
            x == abs(a as int),
            y == abs(b as int),
            uq == x / y,
            trunc_div(a as int, b as int) == if (a < 0) == (b < 0) { uq } else { -uq },
            trunc_rem(a as int, b as int) == a - b * trunc_div(a as int, b as int),
    ;
}

proof fn lemma_trunc_rem_fits(a: i32, b: i32)
    requires
        b != 0,
    ensures
        fits_i32(trunc_rem(a as int, b as int)),
{
    lemma_trunc_rem_bounds(a, b);
}

/// The remainder that goes with a quotient rounding toward zero.
fn rem_toward_zero(a: i32, b: i32) -> (r: i32)
    requires
        b != 0,
        !(a == i32::MIN && b == -1),
    ensures
        r == trunc_rem(a as int, b as int),
{
    proof {
        lemma_trunc_div_fits(a, b);
    }
    let q = div_toward_zero(a, b);
    proof {
        lemma_trunc_rem_bounds(a, b);
    }
    let p: i64 = (b as i64) * (q as i64);
    ((a as i64) - p) as i32
}

/// Whether applying the unary operator makes Rust's arithmetic panic.
fn unop_panics(op: &UnaryOpcode, v: &Value) -> (b: bool)
    ensures
        b == (unop_spec(*op, v@) is None),
{
    match (op, v) {
        (UnaryOpcode::Neg, Value::Int(n)) => *n == i32::MIN,
        _ => false,
    }
}

/// Whether applying the binary operator makes Rust's arithmetic panic.
fn binop_panics(op: &BinaryOpcode, l: &Value, r: &Value) -> (b: bool)
    ensures
        b == (binop_spec(*op, l@, r@) is None),
{
    match (l, r) {
        (Value::Int(a), Value::Int(b)) => {
            let x = *a as i64;
            let y = *b as i64;
            match op {
                BinaryOpcode::Add => x + y < i32::MIN as i64 || x + y > i32::MAX as i64,
                BinaryOpcode::Sub => x - y < i32::MIN as i64 || x - y > i32::MAX as i64,
                BinaryOpcode::Mul => {
                    assert(-4611686018427387904 <= x * y <= 4611686018427387904) by (nonlinear_arith)
                        requires
                            -2147483648 <= x <= 2147483647,
                            -2147483648 <= y <= 2147483647,
                    ;
                    let p = x * y;
                    p < i32::MIN as i64 || p > i32::MAX as i64
                },
                BinaryOpcode::Div => {
                    proof {
                        if *b != 0 && !(*a == i32::MIN && *b == -1) {
                            lemma_trunc_div_fits(*a, *b);
                        }
                        if *a == i32::MIN && *b == -1 {
                            assert(abs(*a as int) / abs(*b as int) == 2147483648) by (nonlinear_arith)
                                requires
                                    abs(*a as int) == 2147483648,
                                    abs(*b as int) == 1,
                            ;
                        }
                    }
                    y == -1 && x == i32::MIN as i64
                },
                BinaryOpcode::Mod => {
                    proof {
                        if *b != 0 && !(*a == i32::MIN && *b == -1) {
                            lemma_trunc_rem_fits(*a, *b);
                        }
                    }
                    y == 0 || (y == -1 && x == i32::MIN as i64)
                },
                _ => false,
            }
        },
        _ => false,
    }
}

/// Applies a unary operator to a value.
pub fn apply_unop(op: &UnaryOpcode, v: Value) -> (r: Result<Value, EvalError>)
    requires
        unop_spec(*op, v@) is Some,
    ensures
        unop_spec(*op, v@) == Some(result_view(r)),
{
    match (op, v) {
        (UnaryOpcode::Neg, Value::Int(n)) => Ok(Value::Int(-n)),
        (UnaryOpcode::Not, Value::Bool(b)) => Ok(Value::Bool(!b)),
        (UnaryOpcode::Neg, other) => Err(EvalError::MismatchedType { expected: ValueType::Int, got: other.type_of() }),
        (UnaryOpcode::Not, other) => Err(EvalError::MismatchedType { expected: ValueType::Bool, got: other.type_of() }),
    }
}

fn apply_int_binop(op: &BinaryOpcode, a: i32, b: i32) -> (r: Result<Value, EvalError>)
    requires
        int_binop_spec(*op, a, b) is Some,
    ensures
        int_binop_spec(*op, a, b) == Some(result_view(r)),
{
    match op {
        BinaryOpcode::Add => Ok(Value::Int(a + b)),
        BinaryOpcode::Sub => Ok(Value::Int(a - b)),
        BinaryOpcode::Mul => Ok(Value::Int(a * b)),
        BinaryOpcode::Div => if b == 0 {
            Err(EvalError::DivideByZero { numerator: a, denominator: b })
        } else {
            Ok(Value::Int(div_toward_zero(a, b)))
        },
        BinaryOpcode::Mod => Ok(Value::Int(rem_toward_zero(a, b))),
        BinaryOpcode::GT => Ok(Value::Bool(a > b)),
        BinaryOpcode::GTE => Ok(Value::Bool(a >= b)),
        BinaryOpcode::LT => Ok(Value::Bool(a < b)),
        BinaryOpcode::LTE => Ok(Value::Bool(a <= b)),
        BinaryOpcode::EE => Ok(Value::Bool(a == b)),
        BinaryOpcode::NE => Ok(Value::Bool(a != b)),
    }
}

/// Applies a binary operator to two values.
pub fn apply_binop(op: &BinaryOpcode, l: Value, r: Value) -> (res: Result<Value, EvalError>)
    requires
        binop_spec(*op, l@, r@) is Some,
    ensures
        binop_spec(*op, l@, r@) == Some(result_view(res)),
{
    match (&l, &r) {
        (Value::Int(a), Value::Int(b)) => apply_int_binop(op, *a, *b),
        (Value::Int(_), _) => Err(EvalError::MismatchedType { expected: ValueType::Int, got: r.type_of() }),
        (Value::Bool(a), Value::Bool(b)) => match op {
            BinaryOpcode::EE => Ok(Value::Bool(*a == *b)),
            BinaryOpcode::NE => Ok(Value::Bool(*a != *b)),
            _ => Err(EvalError::MismatchedType { expected: ValueType::Int, got: l.type_of() }),
        },
        (Value::Bool(_), _) => match op {
            BinaryOpcode::EE | BinaryOpcode::NE => Err(
                EvalError::MismatchedType { expected: ValueType::Bool, got: r.type_of() },
            ),
            _ => Err(EvalError::MismatchedType { expected: ValueType::Int, got: l.type_of() }),
        },
        _ => Err(EvalError::MismatchedType { expected: ValueType::Int, got: l.type_of() }),
    }
}

/// Puts a value in front of a list.
pub fn apply_cons(l: Value, r: Value) -> (res: Result<Value, EvalError>)
    ensures
        result_view(res) == cons_spec(l@, r@),
{
    match r {
        Value::List(tail_rc) => Ok(Value::List(Rc::new(List::Cons { head: l, tail: tail_rc }))),
        other => Err(EvalError::MismatchedType { expected: ValueType::List, got: other.type_of() }),
    }
}


/// Matches a value against a pattern; on success gives the bindings that
/// the pattern's variables receive, left to right.
pub fn try_match(value: &Value, pattern: &Pattern) -> (r: Option<Vec<(String, Value)>>)
    ensures
        match (r, match_spec(value@, pattern@)) {
            (Some(bs), Some(sb)) => bindings_view(bs@) == sb,
            (None, None) => true,
            _ => false,
        },
    decreases pattern,
{
    match (pattern, value) {
        (Pattern::PWildcard, _) => {
            let r: Vec<(String, Value)> = Vec::new();
            assert(bindings_view(r@) =~= Seq::empty());
            Some(r)
        },
        (Pattern::PVar(name), v) => {
            let r = vec![(name.clone(), v.clone())];
            assert(bindings_view(r@) =~= seq![(name@, v@)]);
            Some(r)
        },
        (Pattern::PNum(n), Value::Int(m)) => {
            if *n == *m {
                let r: Vec<(String, Value)> = Vec::new();
                assert(bindings_view(r@) =~= Seq::empty());
                Some(r)
            } else {
                None
            }
        },
        (Pattern::PBool(b), Value::Bool(c)) => {
            if *b == *c {
                let r: Vec<(String, Value)> = Vec::new();
                assert(bindings_view(r@) =~= Seq::empty());
                Some(r)
            } else {
                None
            }
        },
        (Pattern::PNil, Value::List(rc)) => match &**rc {
            List::Nil => {
                let r: Vec<(String, Value)> = Vec::new();
                assert(bindings_view(r@) =~= Seq::empty());
                Some(r)
            },
            List::Cons { .. } => None,
        },
        (Pattern::PCons(ph, pt), Value::List(rc)) => match &**rc {
            List::Nil => None,
            List::Cons { head, tail } => {
                let ghost s = value@->List_0;
                assert(s[0] == head@);
                assert(s.drop_first() =~= (**tail)@);
                let tail_value = Value::List(share(tail));
                let mut bs = try_match(head, ph)?;
                let mut bs_tail = try_match(&tail_value, pt)?;
                let ghost (b1, b2) = (bs@, bs_tail@);
                bs.append(&mut bs_tail);
                assert(bindings_view(bs@) =~= bindings_view(b1) + bindings_view(b2));
                Some(bs)
            },
        },
        _ => None,
    }
}


/// The nesting budget that `eval` gives an evaluation. It is never the
/// limit in practice: only an endless evaluation exhausts it.
pub const EVAL_DEPTH: u64 = 18446744073709551615;

/// Extends `env` with the bindings in order, so that later ones shadow
/// earlier ones.
fn bind_in_order(env: Rc<Env>, bs: Vec<(String, Value)>) -> (r: Rc<Env>)
    ensures
        r@ == bind_all(env@, bindings_view(bs@)),
{
    let ghost all = bindings_view(bs@);
    let mut rest = bs;
    let mut cur = env;
    let ghost mut k: int = 0;
    while rest.len() > 0
        invariant
            0 <= k <= all.len(),
            bindings_view(rest@) == all.skip(k),
            cur@ == bind_all(env@, all.take(k)),
        decreases rest.len(),
    {
        let ghost before = rest@;
        let (name, val) = rest.remove(0);
        proof {
            assert(bindings_view(before).len() == before.len());
            assert(bindings_view(before)[0] == (name@, val@));
            assert(all.skip(k)[0] == (name@, val@));
            assert(k < all.len());
            assert(rest@ =~= before.skip(1));
            assert(all.take(k + 1).drop_last() =~= all.take(k));
            assert(bindings_view(rest@) =~= bindings_view(before).skip(1));
            assert(all.skip(k).skip(1) =~= all.skip(k + 1));
            assert(bindings_view(rest@) =~= all.skip(k + 1));
            k = k + 1;
        }
        cur = cur.extend(name, val);
    }
    assert(all.take(k) =~= all);
    cur
}

/// Evaluates `expr` in `env`, letting at most `depth` evaluations nest.
/// Gives the value or the language error, or the crash that stops it.
pub fn eval_with_depth(expr: &Expr, env: Rc<Env>, depth: u64) -> (r: Result<Result<Value, EvalError>, Crash>)
    ensures
        outcome_view(r) == eval_spec(expr@, env@, depth as nat),
    decreases depth,
{
    if depth == 0 {
        return Err(Crash::TooDeep);
    }
    let d = depth - 1;
    match expr {
        Expr::Num(n) => Ok(Ok(Value::Int(*n))),
        Expr::Bool(b) => Ok(Ok(Value::Bool(*b))),
        Expr::Var(name) => match env.lookup(name.as_str()) {
            Some(val) => Ok(Ok(val)),
            None => Ok(Err(EvalError::UnboundVar(name.clone()))),
        },
        Expr::UnaryOp(op, e) => match eval_with_depth(e, env, d) {
            Ok(Ok(v)) => {
                if !unop_panics(op, &v) {
                    Ok(apply_unop(op, v))
                } else {
                    Err(Crash::Arithmetic)
                }
            },
            other => other,
        },
        Expr::BinaryOp(l, op, r) => {
            let lo = eval_with_depth(l, share(&env), d);
            let ro = eval_with_depth(r, env, d);
            match (lo, ro) {
                (Err(c), _) => Err(c),
                (_, Err(c)) => Err(c),
                (Ok(Err(e)), _) => Ok(Err(e)),
                (Ok(Ok(_)), Ok(Err(e))) => Ok(Err(e)),
                (Ok(Ok(lval)), Ok(Ok(rval))) => {
                    if binop_panics(op, &lval, &rval) {
                        Err(Crash::Arithmetic)
                    } else {
                        Ok(apply_binop(op, lval, rval))
                    }
                },
            }
        },
        Expr::If(cond, then_branch, else_branch) => match eval_with_depth(cond, share(&env), d) {
            Ok(Ok(Value::Bool(true))) => eval_with_depth(then_branch, env, d),
            Ok(Ok(Value::Bool(false))) => eval_with_depth(else_branch, env, d),
            Ok(Ok(other)) => Ok(
                Err(EvalError::MismatchedType { expected: ValueType::Bool, got: other.type_of() }),
            ),
            other => other,
        },
        Expr::Lambda { param, body } => Ok(
            Ok(Value::Closure { param: param.clone(), body: Box::new(clone_expr(body)), env }),
        ),
        Expr::RecLambda { name, param, body } => Ok(
            Ok(
                Value::RecClosure {
                    name: name.clone(),
                    param: param.clone(),
                    body: Box::new(clone_expr(body)),
                    env,
                },
            ),
        ),
        Expr::LetIn { name, value, body } => match eval_with_depth(value, share(&env), d) {
            Ok(Ok(v)) => {
                let new_env = env.extend(name.clone(), v);
                eval_with_depth(body, new_env, d)
            },
            other => other,
        },
        Expr::App(func, arg) => {
            let f = match eval_with_depth(func, share(&env), d) {
                Ok(Ok(f)) => f,
                other => {
                    return other;
                },
            };
            let a = match eval_with_depth(arg, env, d) {
                Ok(Ok(a)) => a,
                other => {
                    return other;
                },
            };
            match f {
                Value::Closure { param, body, env: cenv } => {
                    let new_env = cenv.extend(param, a);
                    eval_with_depth(&body, new_env, d)
                },
                Value::RecClosure { name, param, body, env: cenv } => {
                    let self_value = Value::RecClosure {
                        name: name.clone(),
                        param: param.clone(),
                        body: Box::new(clone_expr(&body)),
                        env: share(&cenv),
                    };
                    let extended = cenv.extend(name, self_value);
                    let extended = extended.extend(param, a);
                    eval_with_depth(&body, extended, d)
                },
                other => Ok(
                    Err(EvalError::MismatchedType { expected: ValueType::Function, got: other.type_of() }),
                ),
            }
        },
        Expr::Nil => Ok(Ok(Value::List(Rc::new(List::Nil)))),
        Expr::Cons(h, t) => {
            let hv = match eval_with_depth(h, share(&env), d) {
                Ok(Ok(v)) => v,
                other => {
                    return other;
                },
            };
            let tv = match eval_with_depth(t, env, d) {
                Ok(Ok(v)) => v,
                other => {
                    return other;
                },
            };
            Ok(apply_cons(hv, tv))
        },
        Expr::Match { scrutinee, arms } => {
            let v = match eval_with_depth(scrutinee, share(&env), d) {
                Ok(Ok(v)) => v,
                other => {
                    return other;
                },
            };
            let ghost sarms = match expr@ {
                SpecExpr::Match { arms, .. } => arms,
                _ => Seq::empty(),
            };
            let ghost outcome = eval_spec(expr@, env@, depth as nat);
            assert(outcome == match first_arm_from(v@, sarms, 0) {
                Some(k) => eval_spec(sarms[k].1, bind_all(env@, match_spec(v@, sarms[k].0).unwrap()), d as nat),
                None => Ok(Err(SpecError::NonExhaustive)),
            });
            let n = arms.len();
            let mut i: usize = 0;
            while i < n
                invariant
                    n == arms@.len(),
                    sarms.len() == n,
                    i <= n,
                    forall|j: int|
                        0 <= j < n ==> #[trigger] sarms[j] == (arms@[j].0@, (*arms@[j].1)@),
                    first_arm_from(v@, sarms, 0) == first_arm_from(v@, sarms, i as int),
                    d < depth,
                    outcome == eval_spec(expr@, env@, depth as nat),
                    outcome == match first_arm_from(v@, sarms, 0) {
                        Some(k) => eval_spec(sarms[k].1, bind_all(env@, match_spec(v@, sarms[k].0).unwrap()), d as nat),
                        None => Ok(Err(SpecError::NonExhaustive)),
                    },
                decreases n - i,
            {
                match try_match(&v, &arms[i].0) {
                    Some(bs) => {
                        assert(sarms[i as int] == (arms@[i as int].0@, (*arms@[i as int].1)@));
                        assert(first_arm_from(v@, sarms, i as int) == Some(i as int));
                        let arm_env = bind_in_order(share(&env), bs);
                        return eval_with_depth(&arms[i].1, arm_env, d);
                    },
                    None => {
                        i = i + 1;
                    },
                }
            }
            Ok(Err(EvalError::NonExhaustive))
        },
    }
}


/// Evaluates `expr` in `env`. The evaluation must end, and must not make
/// Rust's integer arithmetic panic.
pub fn eval(expr: &Expr, env: Rc<Env>) -> (r: Result<Value, EvalError>)
    requires
        eval_spec(expr@, env@, EVAL_DEPTH as nat) is Ok,
    ensures
        eval_spec(expr@, env@, EVAL_DEPTH as nat) == Ok::<_, Crash>(result_view(r)),
{
    match eval_with_depth(expr, env, EVAL_DEPTH) {
        Ok(r) => r,
        // Never taken: the precondition rules out every crash.
        Err(_) => Err(EvalError::NonExhaustive),
    }
}

} // verus!
