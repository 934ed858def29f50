use vstd::prelude::*;

use crate::ast::{BinaryOpcode, SpecExpr, SpecPattern, UnaryOpcode};
use crate::semantics::{
    abs, bind_all, binop_spec, cons_spec, eval_spec, first_arm_from, int_binop_spec, is_equality,
    match_spec, unop_spec, Crash, SpecEnv, fits_i32,
};
use crate::value::{SpecError, SpecValue};
use crate::text::{bool_text, digit_text, int_text, nat_text};

verus! {

/// An evaluation that finishes within some depth gives the same outcome
/// with any larger depth: the depth bound only ever cuts evaluations short.
pub proof fn lemma_eval_depth_monotone(e: SpecExpr, env: SpecEnv, d1: nat, d2: nat)
    requires
        d1 <= d2,
        eval_spec(e, env, d1) != Err::<Result<SpecValue, SpecError>, Crash>(Crash::TooDeep),
    ensures
        eval_spec(e, env, d2) == eval_spec(e, env, d1),
    decreases d1,
{
    if d1 > 0 {
        let a = (d1 - 1) as nat;
        let b = (d2 - 1) as nat;
        match e {
            SpecExpr::UnaryOp(op, x) => {
                lemma_eval_depth_monotone(*x, env, a, b);
            },
            SpecExpr::BinaryOp(l, op, r) => {
                if eval_spec(*l, env, a) != Err::<Result<SpecValue, SpecError>, Crash>(Crash::TooDeep) {
                    lemma_eval_depth_monotone(*l, env, a, b);
                }
                if eval_spec(*r, env, a) != Err::<Result<SpecValue, SpecError>, Crash>(Crash::TooDeep) {
                    lemma_eval_depth_monotone(*r, env, a, b);
                }
            },
            SpecExpr::If(c, t, f) => {
                lemma_eval_depth_monotone(*c, env, a, b);
                if eval_spec(*t, env, a) != Err::<Result<SpecValue, SpecError>, Crash>(Crash::TooDeep) {
                    lemma_eval_depth_monotone(*t, env, a, b);
                }
                if eval_spec(*f, env, a) != Err::<Result<SpecValue, SpecError>, Crash>(Crash::TooDeep) {
                    lemma_eval_depth_monotone(*f, env, a, b);
                }
            },
            SpecExpr::LetIn { name, value, body } => {
                lemma_eval_depth_monotone(*value, env, a, b);
                if let Ok(Ok(v)) = eval_spec(*value, env, a) {
                    lemma_eval_depth_monotone(*body, env.insert(name, v), a, b);
                }
            },
            SpecExpr::App(func, arg) => {
                lemma_eval_depth_monotone(*func, env, a, b);
                if let Ok(Ok(f)) = eval_spec(*func, env, a) {
                    lemma_eval_depth_monotone(*arg, env, a, b);
                    if let Ok(Ok(x)) = eval_spec(*arg, env, a) {
                        match f {
                            SpecValue::Closure { param, body, env: cenv } => {
                                lemma_eval_depth_monotone(body, cenv.insert(param, x), a, b);
                            },
                            SpecValue::RecClosure { name, param, body, env: cenv } => {
                                lemma_eval_depth_monotone(body, cenv.insert(name, f).insert(param, x), a, b);
                            },
                            _ => {},
                        }
                    }
                }
            },
            SpecExpr::Cons(h, t) => {
                lemma_eval_depth_monotone(*h, env, a, b);
                if let Ok(Ok(hv)) = eval_spec(*h, env, a) {
                    lemma_eval_depth_monotone(*t, env, a, b);
                }
            },
            SpecExpr::Match { scrutinee, arms } => {
                lemma_eval_depth_monotone(*scrutinee, env, a, b);
                if let Ok(Ok(v)) = eval_spec(*scrutinee, env, a) {
                    if let Some(i) = first_arm_from(v, arms, 0) {
                        lemma_eval_depth_monotone(
                            arms[i].1,
                            bind_all(env, match_spec(v, arms[i].0).unwrap()),
                            a,
                            b,
                        );
                    }
                }
            },
            _ => {},
        }
    }
}


/// `let x = v in b` means the same as applying `fun x -> b` to `v`.
pub proof fn lemma_let_is_application(
    name: Seq<char>,
    value: SpecExpr,
    body: SpecExpr,
    env: SpecEnv,
    depth: nat,
)
    ensures
        eval_spec(SpecExpr::LetIn { name, value: Box::new(value), body: Box::new(body) }, env, depth)
            == eval_spec(
            SpecExpr::App(
                Box::new(SpecExpr::Lambda { param: name, body: Box::new(body) }),
                Box::new(value),
            ),
            env,
            depth,
        ),
{
    if depth >= 2 {
        let d = (depth - 1) as nat;
        assert(eval_spec(SpecExpr::Lambda { param: name, body: Box::new(body) }, env, d) == Ok::<
            Result<SpecValue, SpecError>,
            Crash,
        >(Ok(SpecValue::Closure { param: name, body, env })));
    } else if depth == 1 {
        assert(eval_spec(value, env, 0) == Err::<Result<SpecValue, SpecError>, Crash>(Crash::TooDeep));
        assert(eval_spec(
            SpecExpr::Lambda { param: name, body: Box::new(body) },
            env,
            0,
        ) == Err::<Result<SpecValue, SpecError>, Crash>(Crash::TooDeep));
    }
}

/// Partial application: applying a two-parameter function to one argument
/// gives a function that, applied to a second argument, runs the body with
/// both parameters bound.
pub proof fn lemma_curried_application(
    x: Seq<char>,
    y: Seq<char>,
    body: SpecExpr,
    a: SpecExpr,
    b: SpecExpr,
    env: SpecEnv,
    depth: nat,
    av: SpecValue,
    bv: SpecValue,
)
    requires
        depth >= 3,
        eval_spec(a, env, (depth - 2) as nat) == Ok::<Result<SpecValue, SpecError>, Crash>(Ok(av)),
        eval_spec(b, env, (depth - 1) as nat) == Ok::<Result<SpecValue, SpecError>, Crash>(Ok(bv)),
    ensures
        eval_spec(
            SpecExpr::App(
                Box::new(
                    SpecExpr::App(
                        Box::new(
                            SpecExpr::Lambda {
                                param: x,
                                body: Box::new(SpecExpr::Lambda { param: y, body: Box::new(body) }),
                            },
                        ),
                        Box::new(a),
                    ),
                ),
                Box::new(b),
            ),
            env,
            depth,
        ) == eval_spec(body, env.insert(x, av).insert(y, bv), (depth - 1) as nat),
{
    let inner = SpecExpr::Lambda { param: y, body: Box::new(body) };
    let outer = SpecExpr::Lambda { param: x, body: Box::new(inner) };
    let d2 = (depth - 2) as nat;
    assert(eval_spec(outer, env, d2) == Ok::<Result<SpecValue, SpecError>, Crash>(
        Ok(SpecValue::Closure { param: x, body: inner, env }),
    ));
    assert(eval_spec(inner, env.insert(x, av), d2) == Ok::<Result<SpecValue, SpecError>, Crash>(
        Ok(SpecValue::Closure { param: y, body, env: env.insert(x, av) }),
    ));
    assert(eval_spec(SpecExpr::App(Box::new(outer), Box::new(a)), env, (depth - 1) as nat) == Ok::<
        Result<SpecValue, SpecError>,
        Crash,
    >(Ok(SpecValue::Closure { param: y, body, env: env.insert(x, av) })));
}

/// Applying a recursive function runs its body with the function's own name
/// bound to the function itself and its parameter bound to the argument.
pub proof fn lemma_recursive_application(
    name: Seq<char>,
    param: Seq<char>,
    body: SpecExpr,
    arg: SpecExpr,
    env: SpecEnv,
    depth: nat,
    av: SpecValue,
)
    requires
        depth >= 2,
        eval_spec(arg, env, (depth - 1) as nat) == Ok::<Result<SpecValue, SpecError>, Crash>(Ok(av)),
    ensures
        eval_spec(
            SpecExpr::App(Box::new(SpecExpr::RecLambda { name, param, body: Box::new(body) }), Box::new(arg)),
            env,
            depth,
        ) == eval_spec(
            body,
            env.insert(name, SpecValue::RecClosure { name, param, body, env }).insert(param, av),
            (depth - 1) as nat,
        ),
{
    let d = (depth - 1) as nat;
    assert(eval_spec(SpecExpr::RecLambda { name, param, body: Box::new(body) }, env, d) == Ok::<
        Result<SpecValue, SpecError>,
        Crash,
    >(Ok(SpecValue::RecClosure { name, param, body, env })));
}

/// The names that a pattern binds, left to right.
pub open spec fn pattern_vars(p: SpecPattern) -> Seq<Seq<char>>
    decreases p,
{
    match p {
        SpecPattern::PVar(name) => seq![name],
        SpecPattern::PCons(h, t) => pattern_vars(*h) + pattern_vars(*t),
        _ => Seq::empty(),
    }
}

/// A successful match binds exactly the pattern's variables, in order.
pub proof fn lemma_match_binds_pattern_vars(v: SpecValue, p: SpecPattern)
    ensures
        match_spec(v, p) matches Some(bs) ==> bs.map_values(|b: (Seq<char>, SpecValue)| b.0)
            == pattern_vars(p),
    decreases p,
{
    match p {
        SpecPattern::PVar(name) => {
            if let Some(bs) = match_spec(v, p) {
                assert(bs.map_values(|b: (Seq<char>, SpecValue)| b.0) =~= seq![name]);
            }
        },
        SpecPattern::PCons(h, t) => {
            if let SpecValue::List(s) = v {
                if s.len() > 0 {
                    lemma_match_binds_pattern_vars(s[0], *h);
                    lemma_match_binds_pattern_vars(SpecValue::List(s.drop_first()), *t);
                    if let Some(bs) = match_spec(v, p) {
                        let bh = match_spec(s[0], *h).unwrap();
                        let bt = match_spec(SpecValue::List(s.drop_first()), *t).unwrap();
                        assert(bs == bh + bt);
                        assert((bh + bt).map_values(|b: (Seq<char>, SpecValue)| b.0) =~= bh.map_values(
                            |b: (Seq<char>, SpecValue)| b.0,
                        ) + bt.map_values(|b: (Seq<char>, SpecValue)| b.0));
                    }
                }
            }
        },
        _ => {
            if let Some(bs) = match_spec(v, p) {
                assert(bs.map_values(|b: (Seq<char>, SpecValue)| b.0) =~= Seq::empty());
            }
        },
    }
}

/// Consing onto a list always succeeds, and a cons pattern of two variables
/// takes the list apart again: the head and the rest of the list.
pub proof fn lemma_cons_then_match(head: SpecValue, rest: Seq<SpecValue>, h: Seq<char>, t: Seq<char>)
    ensures
        cons_spec(head, SpecValue::List(rest)) == Ok::<SpecValue, SpecError>(
            SpecValue::List(seq![head] + rest),
        ),
        match_spec(
            SpecValue::List(seq![head] + rest),
            SpecPattern::PCons(Box::new(SpecPattern::PVar(h)), Box::new(SpecPattern::PVar(t))),
        ) == Some(seq![(h, head), (t, SpecValue::List(rest))]),
{
    let s = seq![head] + rest;
    assert(s[0] == head);
    assert(s.drop_first() =~= rest);
    assert(match_spec(s[0], SpecPattern::PVar(h)) == Some(seq![(h, head)]));
    assert(match_spec(SpecValue::List(s.drop_first()), SpecPattern::PVar(t)) == Some(
        seq![(t, SpecValue::List(rest))],
    ));
    assert(seq![(h, head)] + seq![(t, SpecValue::List(rest))] =~= seq![(h, head), (t, SpecValue::List(rest))]);
}

/// The empty-list pattern matches exactly the empty list, binding nothing.
pub proof fn lemma_nil_pattern(s: Seq<SpecValue>)
    ensures
        match_spec(SpecValue::List(s), SpecPattern::PNil) is Some <==> s.len() == 0,
        match_spec(SpecValue::List(s), SpecPattern::PNil) matches Some(bs) ==> bs.len() == 0,
{
}

/// Quotient and remainder fit together as in Rust: `a == b * q + r`, the
/// remainder is smaller than the divisor and has the dividend's sign.
pub proof fn lemma_div_mod(a: i32, b: i32, q: i32, r: i32)
    requires
        int_binop_spec(BinaryOpcode::Div, a, b) == Some(Ok::<SpecValue, SpecError>(SpecValue::Int(q))),
        int_binop_spec(BinaryOpcode::Mod, a, b) == Some(Ok::<SpecValue, SpecError>(SpecValue::Int(r))),
    ensures
        a == b * q + r,
        abs(r as int) < abs(b as int),
        r == 0 || ((r < 0) == (a < 0)),
{
    crate::interpreter::lemma_trunc_rem_bounds(a, b);
    let x = abs(a as int);
    let y = abs(b as int);
    assert(0 <= x - y * (x / y)) by (nonlinear_arith)
        requires
            x >= 0,
            y >= 1,
    ;
}

/// Binary operators are typed: they fail with a type mismatch exactly when
/// the operands are not two integers, nor two booleans under `==` or `!=`.
pub proof fn lemma_binop_type_errors(op: BinaryOpcode, l: SpecValue, r: SpecValue)
    ensures
        (binop_spec(op, l, r) matches Some(Err(SpecError::MismatchedType { .. }))) <==> !(
        (l is Int && r is Int) || (l is Bool && r is Bool && is_equality(op))),
{
}

/// Unary operators are typed: negation takes an integer and `not` a boolean.
pub proof fn lemma_unop_type_errors(op: UnaryOpcode, v: SpecValue)
    ensures
        (unop_spec(op, v) matches Some(Err(SpecError::MismatchedType { .. }))) <==> !(
        (op == UnaryOpcode::Neg && v is Int) || (op == UnaryOpcode::Not && v is Bool)),
{
}

/// `!=` is the negation of `==`, on every pair of operands.
pub proof fn lemma_ne_negates_ee(l: SpecValue, r: SpecValue)
    ensures
        binop_spec(BinaryOpcode::EE, l, r) matches Some(Ok(SpecValue::Bool(x))) ==> binop_spec(
            BinaryOpcode::NE,
            l,
            r,
        ) == Some(Ok::<SpecValue, SpecError>(SpecValue::Bool(!x))),
        binop_spec(BinaryOpcode::NE, l, r) matches Some(Ok(SpecValue::Bool(x))) ==> binop_spec(
            BinaryOpcode::EE,
            l,
            r,
        ) == Some(Ok::<SpecValue, SpecError>(SpecValue::Bool(!x))),
{
}

/// `a > b` and `b < a` agree, as do `a >= b` and `b <= a`.
pub proof fn lemma_comparisons_mirror(a: i32, b: i32)
    ensures
        int_binop_spec(BinaryOpcode::GT, a, b) == int_binop_spec(BinaryOpcode::LT, b, a),
        int_binop_spec(BinaryOpcode::GTE, a, b) == int_binop_spec(BinaryOpcode::LTE, b, a),
{
}

/// Extending an environment makes the new binding the one that a lookup of
/// its name finds, and leaves every other name as it was.
pub proof fn lemma_lookup_after_extend(env: SpecEnv, name: Seq<char>, value: SpecValue, other: Seq<char>)
    ensures
        env.insert(name, value).contains_key(name),
        env.insert(name, value)[name] == value,
        other != name ==> env.insert(name, value).contains_key(other) == env.contains_key(other),
        other != name && env.contains_key(other) ==> env.insert(name, value)[other] == env[other],
{
}

} // verus!

verus! {

/// Reads a sequence of decimal digits as a number.
pub open spec fn decimal_value(s: Seq<char>) -> int
    decreases s.len(),
{
    if s.len() == 0 {
        0
    } else {
        decimal_value(s.drop_last()) * 10 + (s.last() as int - '0' as int)
    }
}

/// Reads an optional `-` followed by decimal digits as an integer.
pub open spec fn signed_decimal_value(s: Seq<char>) -> int {
    if s.len() > 0 && s[0] == '-' {
        -decimal_value(s.drop_first())
    } else {
        decimal_value(s)
    }
}

pub open spec fn is_decimal_digit(c: char) -> bool {
    '0' as int <= c as int <= '9' as int
}

/// Each digit's text is the one character whose code is that of `0` plus the digit.
pub proof fn lemma_digit_text(d: int)
    requires
        0 <= d <= 9,
    ensures
        digit_text(d).len() == 1,
        digit_text(d)[0] as int == '0' as int + d,
{
    reveal_strlit("0");
    reveal_strlit("1");
    reveal_strlit("2");
    reveal_strlit("3");
    reveal_strlit("4");
    reveal_strlit("5");
    reveal_strlit("6");
    reveal_strlit("7");
    reveal_strlit("8");
    reveal_strlit("9");
}

/// The decimal text of a natural number is a non-empty run of digits that
/// reads back as the number.
pub proof fn lemma_nat_text_reads_back(n: nat)
    ensures
        nat_text(n).len() >= 1,
        forall|i: int| 0 <= i < nat_text(n).len() ==> is_decimal_digit(#[trigger] nat_text(n)[i]),
        decimal_value(nat_text(n)) == n,
    decreases n,
{
    if n < 10 {
        lemma_digit_text(n as int);
        let t = nat_text(n);
        assert(t.drop_last() =~= Seq::<char>::empty());
        assert(decimal_value(t.drop_last()) == 0);
    } else {
        let q = n / 10;
        let r = n % 10;
        lemma_nat_text_reads_back(q);
        lemma_digit_text(r as int);
        let t = nat_text(n);
        assert(t == nat_text(q) + digit_text(r as int));
        assert(t.drop_last() =~= nat_text(q));
        assert(t.last() == digit_text(r as int)[0]);
        assert(n == q * 10 + r) by (nonlinear_arith)
            requires
                q == n / 10,
                r == n % 10,
        ;
        assert forall|i: int| 0 <= i < t.len() implies is_decimal_digit(#[trigger] t[i]) by {
            if i < nat_text(q).len() {
                assert(t[i] == nat_text(q)[i]);
            }
        }
    }
}

/// The decimal text of an integer reads back as that integer, so distinct
/// integers have distinct texts.
pub proof fn lemma_int_text_reads_back(n: int)
    ensures
        signed_decimal_value(int_text(n)) == n,
{
    reveal_strlit("-");
    if n < 0 {
        let m = (-n) as nat;
        lemma_nat_text_reads_back(m);
        let t = int_text(n);
        assert(t[0] == '-');
        assert(t.drop_first() =~= nat_text(m));
    } else {
        lemma_nat_text_reads_back(n as nat);
        assert(is_decimal_digit(nat_text(n as nat)[0]));
    }
}

/// A literal pattern matches exactly the equal literal, binding nothing.
pub proof fn lemma_literal_patterns(v: SpecValue, n: i32, b: bool)
    ensures
        match_spec(v, SpecPattern::PNum(n)) is Some <==> v == SpecValue::Int(n),
        match_spec(v, SpecPattern::PBool(b)) is Some <==> v == SpecValue::Bool(b),
        match_spec(v, SpecPattern::PNum(n)) matches Some(bs) ==> bs.len() == 0,
        match_spec(v, SpecPattern::PBool(b)) matches Some(bs) ==> bs.len() == 0,
{
}

/// Addition, subtraction and multiplication of integers give the
/// mathematical result whenever it fits in `i32`, and nothing else.
pub proof fn lemma_integer_arithmetic(a: i32, b: i32)
    ensures
        fits_i32(a + b) ==> int_binop_spec(BinaryOpcode::Add, a, b) == Some(
            Ok::<SpecValue, SpecError>(SpecValue::Int((a + b) as i32)),
        ),
        fits_i32(a - b) ==> int_binop_spec(BinaryOpcode::Sub, a, b) == Some(
            Ok::<SpecValue, SpecError>(SpecValue::Int((a - b) as i32)),
        ),
        fits_i32(a * b) ==> int_binop_spec(BinaryOpcode::Mul, a, b) == Some(
            Ok::<SpecValue, SpecError>(SpecValue::Int((a * b) as i32)),
        ),
        int_binop_spec(BinaryOpcode::Add, a, b) matches Some(Ok(SpecValue::Int(c))) ==> c == a + b,
        int_binop_spec(BinaryOpcode::Sub, a, b) matches Some(Ok(SpecValue::Int(c))) ==> c == a - b,
        int_binop_spec(BinaryOpcode::Mul, a, b) matches Some(Ok(SpecValue::Int(c))) ==> c == a * b,
        int_binop_spec(BinaryOpcode::Add, a, b) == int_binop_spec(BinaryOpcode::Add, b, a),
        int_binop_spec(BinaryOpcode::Mul, a, b) == int_binop_spec(BinaryOpcode::Mul, b, a),
{
    assert(a * b == b * a) by (nonlinear_arith);
}

/// Negation gives the additive inverse, and negating twice gives back the
/// number.
pub proof fn lemma_negation(n: i32)
    ensures
        unop_spec(UnaryOpcode::Neg, SpecValue::Int(n)) matches Some(Ok(SpecValue::Int(c))) ==> c + n == 0,
        n != i32::MIN ==> unop_spec(UnaryOpcode::Neg, SpecValue::Int(n)) is Some,
        n != i32::MIN ==> match unop_spec(UnaryOpcode::Neg, SpecValue::Int(n)) {
            Some(Ok(SpecValue::Int(c))) => unop_spec(UnaryOpcode::Neg, SpecValue::Int(c)) == Some(
                Ok::<SpecValue, SpecError>(SpecValue::Int(n)),
            ),
            _ => false,
        },
        n == i32::MIN ==> unop_spec(UnaryOpcode::Neg, SpecValue::Int(n)) is None,
{
}

/// After binding a list of names in order, each name bound by the list has
/// the value of its last binding, whatever the environment bound before, and
/// every other name keeps its old binding.
pub proof fn lemma_bind_all_shadows(env: SpecEnv, bs: Seq<(Seq<char>, SpecValue)>, k: Seq<char>)
    ensures
        bs.len() > 0 ==> bind_all(env, bs).contains_key(bs.last().0) && bind_all(env, bs)[bs.last().0]
            == bs.last().1,
        (forall|i: int| 0 <= i < bs.len() ==> (#[trigger] bs[i]).0 != k) ==> (bind_all(
            env,
            bs,
        ).contains_key(k) == env.contains_key(k) && (env.contains_key(k) ==> bind_all(env, bs)[k]
            == env[k])),
        (exists|i: int| 0 <= i < bs.len() && (#[trigger] bs[i]).0 == k) ==> bind_all(env, bs).contains_key(
            k,
        ),
    decreases bs.len(),
{
    if bs.len() > 0 {
        let init = bs.drop_last();
        lemma_bind_all_shadows(env, init, k);
        if forall|i: int| 0 <= i < bs.len() ==> (#[trigger] bs[i]).0 != k {
            assert forall|i: int| 0 <= i < init.len() implies (#[trigger] init[i]).0 != k by {
                assert(init[i] == bs[i]);
            }
        }
        if exists|i: int| 0 <= i < bs.len() && (#[trigger] bs[i]).0 == k {
            let i = choose|i: int| 0 <= i < bs.len() && (#[trigger] bs[i]).0 == k;
            if i < bs.len() - 1 {
                assert(init[i] == bs[i]);
            }
        }
    }
}

/// A match arm whose pattern is a variable binds the scrutinee's value to
/// it, shadowing any outer binding of that name.
pub proof fn lemma_variable_arm_sees_the_scrutinee(n: i32, x: Seq<char>, env: SpecEnv, depth: nat)
    requires
        depth >= 2,
    ensures
        eval_spec(
            SpecExpr::Match {
                scrutinee: Box::new(SpecExpr::Num(n)),
                arms: seq![(SpecPattern::PVar(x), SpecExpr::Var(x))],
            },
            env,
            depth,
        ) == Ok::<Result<SpecValue, SpecError>, Crash>(Ok(SpecValue::Int(n))),
{
    let arms = seq![(SpecPattern::PVar(x), SpecExpr::Var(x))];
    let d = (depth - 1) as nat;
    assert(eval_spec(SpecExpr::Num(n), env, d) == Ok::<Result<SpecValue, SpecError>, Crash>(
        Ok(SpecValue::Int(n)),
    ));
    assert(match_spec(SpecValue::Int(n), arms[0].0) == Some(seq![(x, SpecValue::Int(n))]));
    assert(first_arm_from(SpecValue::Int(n), arms, 0) == Some(0int));
    let bs = seq![(x, SpecValue::Int(n))];
    lemma_bind_all_shadows(env, bs, x);
    assert(bs.last() == (x, SpecValue::Int(n)));
    let benv = bind_all(env, bs);
    assert(benv.contains_key(x) && benv[x] == SpecValue::Int(n));
    assert(arms[0].1 == SpecExpr::Var(x));
    assert(eval_spec(SpecExpr::Var(x), benv, d) == Ok::<Result<SpecValue, SpecError>, Crash>(
        Ok(SpecValue::Int(n)),
    ));
}

/// Comparisons and equality of integers give the truth of the relation.
pub proof fn lemma_integer_comparisons(a: i32, b: i32)
    ensures
        int_binop_spec(BinaryOpcode::LT, a, b) == Some(Ok::<SpecValue, SpecError>(SpecValue::Bool(a < b))),
        int_binop_spec(BinaryOpcode::LTE, a, b) == Some(Ok::<SpecValue, SpecError>(SpecValue::Bool(a <= b))),
        int_binop_spec(BinaryOpcode::GT, a, b) == Some(Ok::<SpecValue, SpecError>(SpecValue::Bool(b < a))),
        int_binop_spec(BinaryOpcode::GTE, a, b) == Some(Ok::<SpecValue, SpecError>(SpecValue::Bool(b <= a))),
        int_binop_spec(BinaryOpcode::EE, a, b) == Some(Ok::<SpecValue, SpecError>(SpecValue::Bool(a == b))),
        int_binop_spec(BinaryOpcode::NE, a, b) == Some(Ok::<SpecValue, SpecError>(SpecValue::Bool(a != b))),
{
}

/// Equality of booleans gives the truth of the relation, and `not` flips a
/// boolean, so applying it twice gives the boolean back.
pub proof fn lemma_boolean_operators(a: bool, b: bool)
    ensures
        binop_spec(BinaryOpcode::EE, SpecValue::Bool(a), SpecValue::Bool(b)) == Some(
            Ok::<SpecValue, SpecError>(SpecValue::Bool(a == b)),
        ),
        binop_spec(BinaryOpcode::NE, SpecValue::Bool(a), SpecValue::Bool(b)) == Some(
            Ok::<SpecValue, SpecError>(SpecValue::Bool(a != b)),
        ),
        unop_spec(UnaryOpcode::Not, SpecValue::Bool(a)) matches Some(Ok(SpecValue::Bool(c))) && c != a,
        unop_spec(UnaryOpcode::Not, SpecValue::Bool(a)) matches Some(Ok(SpecValue::Bool(c))) && unop_spec(
            UnaryOpcode::Not,
            SpecValue::Bool(c),
        ) == Some(Ok::<SpecValue, SpecError>(SpecValue::Bool(a))),
{
}

/// Division and remainder are defined on every divisor other than zero,
/// except `i32::MIN / -1`; division by zero is an error that names both
/// operands.
pub proof fn lemma_division_defined(a: i32, b: i32)
    ensures
        b != 0 && !(a == i32::MIN && b == -1) ==> (int_binop_spec(BinaryOpcode::Div, a, b) matches Some(
            Ok(SpecValue::Int(_)),
        )) && (int_binop_spec(BinaryOpcode::Mod, a, b) matches Some(Ok(SpecValue::Int(_)))),
        b == 0 ==> int_binop_spec(BinaryOpcode::Div, a, b) == Some(
            Err::<SpecValue, SpecError>(SpecError::DivideByZero { numerator: a, denominator: b }),
        ),
{
    if b != 0 && !(a == i32::MIN && b == -1) {
        crate::interpreter::lemma_trunc_div_fits(a, b);
        crate::interpreter::lemma_trunc_rem_bounds(a, b);
    }
}

/// A wildcard matches every value binding nothing; a variable matches every
/// value and binds it.
pub proof fn lemma_irrefutable_patterns(v: SpecValue, x: Seq<char>)
    ensures
        match_spec(v, SpecPattern::PWildcard) == Some(Seq::<(Seq<char>, SpecValue)>::empty()),
        match_spec(v, SpecPattern::PVar(x)) == Some(seq![(x, v)]),
{
}

/// A variable evaluates to its innermost binding, and an unbound variable is
/// an error that names it.
pub proof fn lemma_variable_lookup(x: Seq<char>, env: SpecEnv, depth: nat)
    requires
        depth >= 1,
    ensures
        env.contains_key(x) ==> eval_spec(SpecExpr::Var(x), env, depth) == Ok::<
            Result<SpecValue, SpecError>,
            Crash,
        >(Ok(env[x])),
        !env.contains_key(x) ==> eval_spec(SpecExpr::Var(x), env, depth) == Ok::<
            Result<SpecValue, SpecError>,
            Crash,
        >(Err(SpecError::UnboundVar(x))),
{
}

/// A conditional whose condition gives a boolean evaluates the branch that
/// the boolean selects, in the same environment.
pub proof fn lemma_conditional(c: SpecExpr, t: SpecExpr, f: SpecExpr, env: SpecEnv, depth: nat, b: bool)
    requires
        depth >= 1,
        eval_spec(c, env, (depth - 1) as nat) == Ok::<Result<SpecValue, SpecError>, Crash>(
            Ok(SpecValue::Bool(b)),
        ),
    ensures
        eval_spec(SpecExpr::If(Box::new(c), Box::new(t), Box::new(f)), env, depth) == if b {
            eval_spec(t, env, (depth - 1) as nat)
        } else {
            eval_spec(f, env, (depth - 1) as nat)
        },
{
}

/// When the first arm of a match matches the scrutinee's value, the match
/// evaluates that arm's body, whatever the later arms are.
pub proof fn lemma_first_arm_wins(
    s: SpecExpr,
    p: SpecPattern,
    body: SpecExpr,
    rest: Seq<(SpecPattern, SpecExpr)>,
    env: SpecEnv,
    depth: nat,
    v: SpecValue,
)
    requires
        depth >= 1,
        eval_spec(s, env, (depth - 1) as nat) == Ok::<Result<SpecValue, SpecError>, Crash>(Ok(v)),
        match_spec(v, p) is Some,
    ensures
        eval_spec(SpecExpr::Match { scrutinee: Box::new(s), arms: seq![(p, body)] + rest }, env, depth)
            == eval_spec(body, bind_all(env, match_spec(v, p).unwrap()), (depth - 1) as nat),
{
    let arms = seq![(p, body)] + rest;
    assert(arms[0] == (p, body));
    assert(first_arm_from(v, arms, 0) == Some(0int));
}

/// Consing evaluates the head, then the tail, and puts the head's value in
/// front of the tail's list.
pub proof fn lemma_cons_expression(h: SpecExpr, t: SpecExpr, env: SpecEnv, depth: nat, hv: SpecValue, tv: Seq<SpecValue>)
    requires
        depth >= 1,
        eval_spec(h, env, (depth - 1) as nat) == Ok::<Result<SpecValue, SpecError>, Crash>(Ok(hv)),
        eval_spec(t, env, (depth - 1) as nat) == Ok::<Result<SpecValue, SpecError>, Crash>(
            Ok(SpecValue::List(tv)),
        ),
    ensures
        eval_spec(SpecExpr::Cons(Box::new(h), Box::new(t)), env, depth) == Ok::<
            Result<SpecValue, SpecError>,
            Crash,
        >(Ok(SpecValue::List(seq![hv] + tv))),
{
}

/// Booleans are written as the words `true` and `false`.
pub proof fn lemma_bool_text()
    ensures
        bool_text(true) == seq!['t', 'r', 'u', 'e'],
        bool_text(false) == seq!['f', 'a', 'l', 's', 'e'],
{
    reveal_strlit("true");
    reveal_strlit("false");
    assert("true"@ =~= seq!['t', 'r', 'u', 'e']);
    assert("false"@ =~= seq!['f', 'a', 'l', 's', 'e']);
}

} // verus!
