use std::rc::Rc;

use funclang_interpreter::ast::{BinaryOpcode, Expr, Pattern, UnaryOpcode};
use funclang_interpreter::pretty::{print_arm, print_pattern, print_tree};
use funclang_interpreter::value::{Env, List, Value};

fn num(n: i32) -> Box<Expr> {
    Box::new(Expr::Num(n))
}

fn var(name: &str) -> Box<Expr> {
    Box::new(Expr::Var(name.to_string()))
}

#[test]
fn binary_operation_tree() {
    let e = Expr::BinaryOp(num(1), BinaryOpcode::Add, num(2));
    assert_eq!(e.tree_string(), "Expr\n└── BinaryOp(Add)\n    ├── Num(1)\n    └── Num(2)\n");
}

#[test]
fn match_tree_draws_arms() {
    let e = Expr::Match {
        scrutinee: var("l"),
        arms: vec![
            (Pattern::PNil, num(0)),
            (
                Pattern::PCons(Box::new(Pattern::PVar("h".to_string())), Box::new(Pattern::PVar("t".to_string()))),
                var("h"),
            ),
        ],
    };
    let expected = "Expr\n\
└── Match\n    \
├── Var(l)\n    \
├── Arm\n    \
│   ├── PNil\n    \
│   └── Num(0)\n    \
└── Arm\n        \
├── PCons\n        \
│   ├── PVar(h)\n        \
│   └── PVar(t)\n        \
└── Var(h)\n";
    assert_eq!(e.tree_string(), expected);
}

#[test]
fn match_without_arms_draws_scrutinee_last() {
    let e = Expr::Match { scrutinee: num(1), arms: vec![] };
    assert_eq!(e.tree_string(), "Expr\n└── Match\n    └── Num(1)\n");
}

#[test]
fn labels_of_every_node() {
    let e = Expr::LetIn {
        name: "f".to_string(),
        value: Box::new(Expr::RecLambda {
            name: "f".to_string(),
            param: "x".to_string(),
            body: Box::new(Expr::If(
                Box::new(Expr::Bool(true)),
                Box::new(Expr::Cons(num(-5), Box::new(Expr::Nil))),
                Box::new(Expr::UnaryOp(UnaryOpcode::Not, Box::new(Expr::Bool(false)))),
            )),
        }),
        body: Box::new(Expr::App(
            Box::new(Expr::Lambda { param: "y".to_string(), body: var("y") }),
            num(2147483647),
        )),
    };
    let expected = "Expr\n\
└── Let f\n    \
├── RecLambda(f, x)\n    \
│   └── If\n    \
│       ├── Bool(true)\n    \
│       ├── Cons\n    \
│       │   ├── Num(-5)\n    \
│       │   └── Nil\n    \
│       └── UnaryOp(Not)\n    \
│           └── Bool(false)\n    \
└── App\n        \
├── Lambda(y)\n        \
│   └── Var(y)\n        \
└── Num(2147483647)\n";
    assert_eq!(e.tree_string(), expected);
}

#[test]
fn opcode_names_in_labels() {
    let ops = [
        (BinaryOpcode::Mul, "Mul"),
        (BinaryOpcode::Div, "Div"),
        (BinaryOpcode::Sub, "Sub"),
        (BinaryOpcode::Mod, "Mod"),
        (BinaryOpcode::GT, "GT"),
        (BinaryOpcode::GTE, "GTE"),
        (BinaryOpcode::LT, "LT"),
        (BinaryOpcode::LTE, "LTE"),
        (BinaryOpcode::EE, "EE"),
        (BinaryOpcode::NE, "NE"),
    ];
    for (op, name) in ops {
        let e = Expr::BinaryOp(num(0), op, num(i32::MIN));
        let expected = format!("Expr\n└── BinaryOp({})\n    ├── Num(0)\n    └── Num(-2147483648)\n", name);
        assert_eq!(e.tree_string(), expected);
    }
    let e = Expr::UnaryOp(UnaryOpcode::Neg, num(10));
    assert_eq!(e.tree_string(), "Expr\n└── UnaryOp(Neg)\n    └── Num(10)\n");
}

#[test]
fn drawing_with_a_prefix() {
    let mut out = String::new();
    print_tree(&Expr::Nil, &mut out, "ab", false);
    assert_eq!(out, "ab├── Nil\n");
    let mut out = String::new();
    print_pattern(&Pattern::PWildcard, &mut out, "", true);
    print_pattern(&Pattern::PNum(3), &mut out, "", true);
    print_pattern(&Pattern::PBool(false), &mut out, "", false);
    assert_eq!(out, "└── PWildcard\n└── PNum(3)\n├── PBool(false)\n");
    let mut out = String::from("x");
    print_arm(&Pattern::PVar("v".to_string()), &Expr::Num(1), &mut out, "", true);
    assert_eq!(out, "x└── Arm\n    ├── PVar(v)\n    └── Num(1)\n");
}

#[test]
fn values_as_shown_to_the_user() {
    assert_eq!(Value::Int(42).display_string(), "<int> 42");
    assert_eq!(Value::Int(-17).display_string(), "<int> -17");
    assert_eq!(Value::Int(0).display_string(), "<int> 0");
    assert_eq!(Value::Bool(true).display_string(), "<bool> true");
    assert_eq!(Value::Bool(false).display_string(), "<bool> false");
    let closure = Value::Closure { param: "x".to_string(), body: var("x"), env: Env::empty() };
    assert_eq!(closure.display_string(), "<fun>");
    let rec = Value::RecClosure { name: "fact".to_string(), param: "n".to_string(), body: var("n"), env: Env::empty() };
    assert_eq!(rec.display_string(), "<rec fun> fact");
    assert_eq!(Value::List(Rc::new(List::Nil)).display_string(), "<list>");
}
