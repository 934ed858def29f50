use std::rc::Rc;

use funclang_interpreter::ast::{clone_expr, BinaryOpcode, Expr, Pattern, UnaryOpcode};
use funclang_interpreter::interpreter::{eval, eval_with_depth, EVAL_DEPTH};
use funclang_interpreter::semantics::Crash;
use funclang_interpreter::value::{Env, EvalError, Value, ValueType};

fn num(n: i32) -> Box<Expr> {
    Box::new(Expr::Num(n))
}

fn boolean(b: bool) -> Box<Expr> {
    Box::new(Expr::Bool(b))
}

fn var(name: &str) -> Box<Expr> {
    Box::new(Expr::Var(name.to_string()))
}

fn bin(l: Box<Expr>, op: BinaryOpcode, r: Box<Expr>) -> Box<Expr> {
    Box::new(Expr::BinaryOp(l, op, r))
}

fn app(f: Box<Expr>, a: Box<Expr>) -> Box<Expr> {
    Box::new(Expr::App(f, a))
}

fn lambda(param: &str, body: Box<Expr>) -> Box<Expr> {
    Box::new(Expr::Lambda { param: param.to_string(), body })
}

fn rec_lambda(name: &str, param: &str, body: Box<Expr>) -> Box<Expr> {
    Box::new(Expr::RecLambda { name: name.to_string(), param: param.to_string(), body })
}

fn let_in(name: &str, value: Box<Expr>, body: Box<Expr>) -> Box<Expr> {
    Box::new(Expr::LetIn { name: name.to_string(), value, body })
}

fn if_then_else(c: Box<Expr>, t: Box<Expr>, f: Box<Expr>) -> Box<Expr> {
    Box::new(Expr::If(c, t, f))
}

fn cons(h: Box<Expr>, t: Box<Expr>) -> Box<Expr> {
    Box::new(Expr::Cons(h, t))
}

fn list(items: Vec<i32>) -> Box<Expr> {
    let mut e = Box::new(Expr::Nil);
    for n in items.into_iter().rev() {
        e = cons(num(n), e);
    }
    e
}

fn pvar(name: &str) -> Pattern {
    Pattern::PVar(name.to_string())
}

fn run(e: &Expr) -> Result<Value, EvalError> {
    eval(e, Env::empty())
}

fn int_of(r: Result<Value, EvalError>) -> i32 {
    match r {
        Ok(Value::Int(n)) => n,
        other => panic!("expected an integer, got {:?}", other),
    }
}

// let rec sum l = match l with [] -> 0 | h :: t -> h + sum t
fn sum_function() -> Box<Expr> {
    rec_lambda(
        "sum",
        "l",
        Box::new(Expr::Match {
            scrutinee: var("l"),
            arms: vec![
                (Pattern::PNil, num(0)),
                (
                    Pattern::PCons(Box::new(pvar("h")), Box::new(pvar("t"))),
                    bin(var("h"), BinaryOpcode::Add, app(var("sum"), var("t"))),
                ),
            ],
        }),
    )
}

#[test]
fn arithmetic_on_integers() {
    assert_eq!(int_of(run(&bin(num(2), BinaryOpcode::Mul, num(21)))), 42);
    assert_eq!(int_of(run(&bin(num(7), BinaryOpcode::Sub, num(10)))), -3);
    assert_eq!(int_of(run(&bin(num(7), BinaryOpcode::Div, num(-2)))), -3);
    assert_eq!(int_of(run(&bin(num(-7), BinaryOpcode::Mod, num(2)))), -1);
    assert_eq!(int_of(run(&Expr::UnaryOp(UnaryOpcode::Neg, num(5)))), -5);
}

#[test]
fn comparisons_give_booleans() {
    assert!(matches!(run(&bin(num(3), BinaryOpcode::GT, num(2))), Ok(Value::Bool(true))));
    assert!(matches!(run(&bin(num(3), BinaryOpcode::LTE, num(2))), Ok(Value::Bool(false))));
    assert!(matches!(run(&bin(boolean(true), BinaryOpcode::EE, boolean(false))), Ok(Value::Bool(false))));
    assert!(matches!(run(&bin(boolean(true), BinaryOpcode::NE, boolean(false))), Ok(Value::Bool(true))));
    assert!(matches!(run(&Expr::UnaryOp(UnaryOpcode::Not, boolean(true))), Ok(Value::Bool(false))));
}

#[test]
fn divide_by_zero_is_an_error() {
    let r = run(&bin(num(7), BinaryOpcode::Div, num(0)));
    assert!(matches!(r, Err(EvalError::DivideByZero { numerator: 7, denominator: 0 })));
}

#[test]
fn mismatched_operands_name_the_offending_type() {
    let r = run(&bin(num(1), BinaryOpcode::Add, boolean(true)));
    assert!(matches!(r, Err(EvalError::MismatchedType { expected: ValueType::Int, got: ValueType::Bool })));
    let r = run(&bin(boolean(true), BinaryOpcode::Add, num(1)));
    assert!(matches!(r, Err(EvalError::MismatchedType { expected: ValueType::Int, got: ValueType::Bool })));
    let r = run(&bin(boolean(true), BinaryOpcode::EE, num(1)));
    assert!(matches!(r, Err(EvalError::MismatchedType { expected: ValueType::Bool, got: ValueType::Int })));
    let r = run(&bin(lambda("x", var("x")), BinaryOpcode::EE, num(1)));
    assert!(matches!(r, Err(EvalError::MismatchedType { expected: ValueType::Int, got: ValueType::Function })));
    let r = run(&if_then_else(num(1), num(2), num(3)));
    assert!(matches!(r, Err(EvalError::MismatchedType { expected: ValueType::Bool, got: ValueType::Int })));
    let r = run(&app(num(1), num(2)));
    assert!(matches!(r, Err(EvalError::MismatchedType { expected: ValueType::Function, got: ValueType::Int })));
    let r = run(&cons(num(1), num(2)));
    assert!(matches!(r, Err(EvalError::MismatchedType { expected: ValueType::List, got: ValueType::Int })));
    let r = run(&Expr::UnaryOp(UnaryOpcode::Neg, boolean(true)));
    assert!(matches!(r, Err(EvalError::MismatchedType { expected: ValueType::Int, got: ValueType::Bool })));
}

#[test]
fn unbound_variable_is_an_error() {
    let r = run(&var("x"));
    match r {
        Err(EvalError::UnboundVar(name)) => assert_eq!(name, "x"),
        other => panic!("unexpected {:?}", other),
    }
}

#[test]
fn let_binds_a_variable() {
    let e = let_in("x", num(5), bin(var("x"), BinaryOpcode::Mul, var("x")));
    assert_eq!(int_of(run(&e)), 25);
}

#[test]
fn recursive_function_computes_factorial() {
    // let fact = rec fact n -> if n <= 1 then 1 else n * fact (n - 1) in fact 5
    let body = if_then_else(
        bin(var("n"), BinaryOpcode::LTE, num(1)),
        num(1),
        bin(var("n"), BinaryOpcode::Mul, app(var("fact"), bin(var("n"), BinaryOpcode::Sub, num(1)))),
    );
    let e = let_in("fact", rec_lambda("fact", "n", body), app(var("fact"), num(5)));
    assert_eq!(int_of(run(&e)), 120);
}

#[test]
fn partial_application() {
    // let add = fun x -> fun y -> x + y in let inc = add 1 in inc 41
    let add = lambda("x", lambda("y", bin(var("x"), BinaryOpcode::Add, var("y"))));
    let e = let_in("add", add, let_in("inc", app(var("add"), num(1)), app(var("inc"), num(41))));
    assert_eq!(int_of(run(&e)), 42);
}

#[test]
fn closures_capture_their_environment() {
    // let x = 1 in let f = fun y -> x + y in let x = 100 in f 1
    let e = let_in(
        "x",
        num(1),
        let_in("f", lambda("y", bin(var("x"), BinaryOpcode::Add, var("y"))), let_in("x", num(100), app(var("f"), num(1)))),
    );
    assert_eq!(int_of(run(&e)), 2);
}

#[test]
fn pattern_matching_sums_a_list() {
    let e = let_in("sum", sum_function(), app(var("sum"), list(vec![1, 2, 3])));
    assert_eq!(int_of(run(&e)), 6);
}

#[test]
fn match_takes_the_first_matching_arm() {
    let e = Expr::Match {
        scrutinee: num(3),
        arms: vec![(Pattern::PNum(4), num(0)), (Pattern::PWildcard, num(1)), (pvar("x"), num(2))],
    };
    assert_eq!(int_of(run(&e)), 1);
}

#[test]
fn match_without_matching_arm_is_non_exhaustive() {
    let e = Expr::Match { scrutinee: num(3), arms: vec![(Pattern::PNum(4), num(0)), (Pattern::PNil, num(1))] };
    assert!(matches!(run(&e), Err(EvalError::NonExhaustive)));
}

#[test]
fn later_bindings_of_a_pattern_shadow_earlier_ones() {
    // match [1; 2] with x :: [x'] ... using the same name twice: the tail binding wins
    let pat = Pattern::PCons(Box::new(pvar("x")), Box::new(Pattern::PCons(Box::new(pvar("x")), Box::new(Pattern::PNil))));
    let e = Expr::Match { scrutinee: list(vec![1, 2]), arms: vec![(pat, var("x"))] };
    assert_eq!(int_of(run(&e)), 2);
}

#[test]
fn lambdas_evaluate_to_closures() {
    assert!(matches!(run(&lambda("x", var("x"))), Ok(Value::Closure { .. })));
    match run(&rec_lambda("f", "x", var("x"))) {
        Ok(Value::RecClosure { name, param, .. }) => {
            assert_eq!(name, "f");
            assert_eq!(param, "x");
        },
        other => panic!("unexpected {:?}", other),
    }
}

#[test]
fn endless_recursion_runs_out_of_depth() {
    // let rec f x = f x in f 0
    let e = app(rec_lambda("f", "x", app(var("f"), var("x"))), num(0));
    assert!(matches!(eval_with_depth(&e, Env::empty(), 200), Err(Crash::TooDeep)));
}

#[test]
fn overflow_crashes() {
    let e = bin(num(i32::MAX), BinaryOpcode::Add, num(1));
    assert!(matches!(eval_with_depth(&e, Env::empty(), EVAL_DEPTH), Err(Crash::Arithmetic)));
    let e = Expr::UnaryOp(UnaryOpcode::Neg, num(i32::MIN));
    assert!(matches!(eval_with_depth(&e, Env::empty(), EVAL_DEPTH), Err(Crash::Arithmetic)));
    let e = bin(num(i32::MIN), BinaryOpcode::Div, num(-1));
    assert!(matches!(eval_with_depth(&e, Env::empty(), EVAL_DEPTH), Err(Crash::Arithmetic)));
    let e = bin(num(5), BinaryOpcode::Mod, num(0));
    assert!(matches!(eval_with_depth(&e, Env::empty(), EVAL_DEPTH), Err(Crash::Arithmetic)));
    let e = bin(num(i32::MIN), BinaryOpcode::Mod, num(-1));
    assert!(matches!(eval_with_depth(&e, Env::empty(), EVAL_DEPTH), Err(Crash::Arithmetic)));
}

#[test]
fn both_operands_are_evaluated_before_errors_are_reported() {
    // (1 + true) + (i32::MAX + 1): the right operand's overflow stops the program
    let e = bin(
        bin(num(1), BinaryOpcode::Add, boolean(true)),
        BinaryOpcode::Add,
        bin(num(i32::MAX), BinaryOpcode::Add, num(1)),
    );
    assert!(matches!(eval_with_depth(&e, Env::empty(), EVAL_DEPTH), Err(Crash::Arithmetic)));
}

#[test]
fn evaluation_in_a_given_environment() {
    let env = Env::empty().extend("x".to_string(), Value::Int(10));
    let r = eval(&bin(var("x"), BinaryOpcode::Add, num(1)), env);
    assert_eq!(int_of(r), 11);
}

#[test]
fn results_do_not_depend_on_spare_depth() {
    let e = let_in("sum", sum_function(), app(var("sum"), list(vec![4, 5, 6])));
    let small = eval_with_depth(&e, Env::empty(), 60);
    let large = eval_with_depth(&e, Env::empty(), EVAL_DEPTH);
    assert!(matches!(small, Ok(Ok(Value::Int(15)))));
    assert!(matches!(large, Ok(Ok(Value::Int(15)))));
}

#[test]
fn let_means_the_same_as_applying_a_lambda() {
    let body = bin(var("x"), BinaryOpcode::Mul, num(3));
    let via_let = let_in("x", num(7), Box::new(clone_expr(&body)));
    let via_app = app(lambda("x", body), num(7));
    assert_eq!(int_of(run(&via_let)), 21);
    assert_eq!(int_of(run(&via_app)), 21);
}

#[test]
fn deep_recursion_within_the_depth_limit() {
    let items: Vec<i32> = (1..=300).collect();
    let e = let_in("sum", sum_function(), app(var("sum"), list(items)));
    assert_eq!(int_of(run(&e)), 45150);
}


#[test]
fn the_budget_of_eval_is_not_a_practical_limit() {
    // Summing 400 elements nests well over a thousand evaluations.
    let items: Vec<i32> = (1..=400).collect();
    let e = let_in("sum", sum_function(), app(var("sum"), list(items)));
    assert!(matches!(eval_with_depth(&e, Env::empty(), 1000), Err(Crash::TooDeep)));
    assert_eq!(int_of(eval_with_depth(&e, Env::empty(), EVAL_DEPTH).unwrap()), 80200);
}

#[test]
fn expressions_and_patterns_clone() {
    let e = Expr::Match { scrutinee: num(1), arms: vec![(Pattern::PNum(1), boolean(true))] };
    let c = e.clone();
    assert_eq!(c.tree_string(), e.tree_string());
    let p = Pattern::PCons(Box::new(pvar("h")), Box::new(Pattern::PNil));
    assert!(matches!(p.clone(), Pattern::PCons(h, t) if matches!(*h, Pattern::PVar(ref n) if n == "h") && matches!(*t, Pattern::PNil)));
}

#[test]
fn extend_puts_one_frame_on_top() {
    let parent = Env::empty().extend("a".to_string(), Value::Int(1));
    let child = Rc::clone(&parent).extend("b".to_string(), Value::Int(2));
    match &*child {
        Env::Frame { name, value: Value::Int(2), parent: p } => {
            assert_eq!(name, "b");
            assert!(Rc::ptr_eq(p, &parent));
        },
        other => panic!("unexpected {:?}", other),
    }
}
