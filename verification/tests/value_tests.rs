use std::rc::Rc;

use funclang_interpreter::ast::{clone_expr, clone_pattern, Expr, Pattern};
use funclang_interpreter::interpreter::{apply_binop, apply_cons, apply_unop};
use funclang_interpreter::ast::{BinaryOpcode, UnaryOpcode};
use funclang_interpreter::value::{Env, EvalError, List, Value, ValueType};

#[test]
fn type_of_each_kind_of_value() {
    assert_eq!(Value::Int(1).type_of(), ValueType::Int);
    assert_eq!(Value::Bool(true).type_of(), ValueType::Bool);
    let body = Box::new(Expr::Num(0));
    assert_eq!(
        Value::Closure { param: "x".to_string(), body, env: Env::empty() }.type_of(),
        ValueType::Function
    );
    let body = Box::new(Expr::Num(0));
    assert_eq!(
        Value::RecClosure { name: "f".to_string(), param: "x".to_string(), body, env: Env::empty() }.type_of(),
        ValueType::Function
    );
    assert_eq!(Value::List(Rc::new(List::Nil)).type_of(), ValueType::List);
}

#[test]
fn lookup_finds_the_innermost_binding() {
    let env = Env::empty();
    assert!(env.lookup("x").is_none());
    let env = env.extend("x".to_string(), Value::Int(1));
    let env = env.extend("y".to_string(), Value::Bool(true));
    let env = env.extend("x".to_string(), Value::Int(2));
    assert!(matches!(env.lookup("x"), Some(Value::Int(2))));
    assert!(matches!(env.lookup("y"), Some(Value::Bool(true))));
    assert!(env.lookup("z").is_none());
}

#[test]
fn extending_leaves_the_parent_unchanged() {
    let parent = Env::empty().extend("a".to_string(), Value::Int(7));
    let child = Rc::clone(&parent).extend("a".to_string(), Value::Int(8));
    assert!(matches!(parent.lookup("a"), Some(Value::Int(7))));
    assert!(matches!(child.lookup("a"), Some(Value::Int(8))));
}

#[test]
fn lookup_gives_a_copy_of_a_closure() {
    let env = Env::empty().extend("k".to_string(), Value::Int(3));
    let closure = Value::Closure { param: "p".to_string(), body: Box::new(Expr::Var("k".to_string())), env };
    let env = Env::empty().extend("f".to_string(), closure);
    match env.lookup("f") {
        Some(Value::Closure { param, body, env: captured }) => {
            assert_eq!(param, "p");
            assert!(matches!(*body, Expr::Var(ref n) if n == "k"));
            assert!(matches!(captured.lookup("k"), Some(Value::Int(3))));
        },
        other => panic!("unexpected {:?}", other),
    }
}

#[test]
fn cloning_keeps_values() {
    let l = Value::List(Rc::new(List::Cons { head: Value::Int(1), tail: Rc::new(List::Nil) }));
    match l.clone() {
        Value::List(rc) => match &*rc {
            List::Cons { head: Value::Int(1), tail } => assert!(matches!(**tail, List::Nil)),
            other => panic!("unexpected {:?}", other),
        },
        other => panic!("unexpected {:?}", other),
    }
    let p = Pattern::PCons(Box::new(Pattern::PNum(4)), Box::new(Pattern::PNil));
    assert!(matches!(clone_pattern(&p), Pattern::PCons(h, t) if matches!(*h, Pattern::PNum(4)) && matches!(*t, Pattern::PNil)));
    let e = Expr::Match { scrutinee: Box::new(Expr::Num(1)), arms: vec![(Pattern::PWildcard, Box::new(Expr::Bool(true)))] };
    match clone_expr(&e) {
        Expr::Match { scrutinee, arms } => {
            assert!(matches!(*scrutinee, Expr::Num(1)));
            assert_eq!(arms.len(), 1);
            assert!(matches!(arms[0].0, Pattern::PWildcard));
            assert!(matches!(*arms[0].1, Expr::Bool(true)));
        },
        other => panic!("unexpected {:?}", other),
    }
}

#[test]
fn unary_operators() {
    assert!(matches!(apply_unop(&UnaryOpcode::Neg, Value::Int(5)), Ok(Value::Int(-5))));
    assert!(matches!(apply_unop(&UnaryOpcode::Not, Value::Bool(true)), Ok(Value::Bool(false))));
    assert!(matches!(
        apply_unop(&UnaryOpcode::Neg, Value::Bool(true)),
        Err(EvalError::MismatchedType { expected: ValueType::Int, got: ValueType::Bool })
    ));
    assert!(matches!(
        apply_unop(&UnaryOpcode::Not, Value::Int(1)),
        Err(EvalError::MismatchedType { expected: ValueType::Bool, got: ValueType::Int })
    ));
}

#[test]
fn binary_operators() {
    assert!(matches!(apply_binop(&BinaryOpcode::Add, Value::Int(2), Value::Int(3)), Ok(Value::Int(5))));
    assert!(matches!(apply_binop(&BinaryOpcode::Sub, Value::Int(2), Value::Int(3)), Ok(Value::Int(-1))));
    assert!(matches!(apply_binop(&BinaryOpcode::Mul, Value::Int(-4), Value::Int(3)), Ok(Value::Int(-12))));
    assert!(matches!(apply_binop(&BinaryOpcode::Div, Value::Int(-7), Value::Int(2)), Ok(Value::Int(-3))));
    assert!(matches!(apply_binop(&BinaryOpcode::Div, Value::Int(i32::MIN), Value::Int(1)), Ok(Value::Int(i32::MIN))));
    assert!(matches!(apply_binop(&BinaryOpcode::Mod, Value::Int(7), Value::Int(-2)), Ok(Value::Int(1))));
    assert!(matches!(apply_binop(&BinaryOpcode::Mod, Value::Int(i32::MIN), Value::Int(3)), Ok(Value::Int(-2))));
    assert!(matches!(apply_binop(&BinaryOpcode::GTE, Value::Int(3), Value::Int(3)), Ok(Value::Bool(true))));
    assert!(matches!(apply_binop(&BinaryOpcode::LT, Value::Int(3), Value::Int(3)), Ok(Value::Bool(false))));
    assert!(matches!(apply_binop(&BinaryOpcode::EE, Value::Int(3), Value::Int(3)), Ok(Value::Bool(true))));
    assert!(matches!(apply_binop(&BinaryOpcode::NE, Value::Int(3), Value::Int(3)), Ok(Value::Bool(false))));
    assert!(matches!(
        apply_binop(&BinaryOpcode::Div, Value::Int(3), Value::Int(0)),
        Err(EvalError::DivideByZero { numerator: 3, denominator: 0 })
    ));
    assert!(matches!(
        apply_binop(&BinaryOpcode::LT, Value::Bool(true), Value::Bool(false)),
        Err(EvalError::MismatchedType { expected: ValueType::Int, got: ValueType::Bool })
    ));
    assert!(matches!(
        apply_binop(&BinaryOpcode::NE, Value::Bool(true), Value::List(Rc::new(List::Nil))),
        Err(EvalError::MismatchedType { expected: ValueType::Bool, got: ValueType::List })
    ));
    assert!(matches!(
        apply_binop(&BinaryOpcode::EE, Value::List(Rc::new(List::Nil)), Value::Int(1)),
        Err(EvalError::MismatchedType { expected: ValueType::Int, got: ValueType::List })
    ));
}

#[test]
fn cons_onto_lists_only() {
    match apply_cons(Value::Int(1), Value::List(Rc::new(List::Nil))) {
        Ok(Value::List(rc)) => match &*rc {
            List::Cons { head: Value::Int(1), tail } => assert!(matches!(**tail, List::Nil)),
            other => panic!("unexpected {:?}", other),
        },
        other => panic!("unexpected {:?}", other),
    }
    assert!(matches!(
        apply_cons(Value::Int(1), Value::Bool(false)),
        Err(EvalError::MismatchedType { expected: ValueType::List, got: ValueType::Bool })
    ));
}
