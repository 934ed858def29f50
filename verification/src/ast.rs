use vstd::prelude::*;

verus! {

/// An expression of the language: the whole program is one expression.
#[derive(Debug)]
pub enum Expr {
    Lambda { param: String, body: Box<Expr> },
    RecLambda { name: String, param: String, body: Box<Expr> },
    LetIn { name: String, value: Box<Expr>, body: Box<Expr> },
    App(Box<Expr>, Box<Expr>),
    Num(i32),
    Bool(bool),
    Var(String),
    BinaryOp(Box<Expr>, BinaryOpcode, Box<Expr>),
    UnaryOp(UnaryOpcode, Box<Expr>),
    If(Box<Expr>, Box<Expr>, Box<Expr>),
    Nil,
    Cons(Box<Expr>, Box<Expr>),
    Match { scrutinee: Box<Expr>, arms: Vec<(Pattern, Box<Expr>)> },
}

#[derive(Debug)]
pub enum Pattern {
    PVar(String),
    PWildcard,
    PNum(i32),
    PBool(bool),
    PNil,
    PCons(Box<Pattern>, Box<Pattern>),
}

#[derive(Debug, Clone, Copy, PartialEq, Eq, Structural)]
pub enum BinaryOpcode {
    Mul,
    Div,
    Add,
    Sub,
    Mod,
    GT,
    GTE,
    LT,
    LTE,
    EE,
    NE,
}

#[derive(Debug, Clone, Copy, PartialEq, Eq, Structural)]
pub enum UnaryOpcode {
    Neg,
    Not,
}

/// Mathematical model of an expression: names are character sequences.
pub enum SpecExpr {
    Lambda { param: Seq<char>, body: Box<SpecExpr> },
    RecLambda { name: Seq<char>, param: Seq<char>, body: Box<SpecExpr> },
    LetIn { name: Seq<char>, value: Box<SpecExpr>, body: Box<SpecExpr> },
    App(Box<SpecExpr>, Box<SpecExpr>),
    Num(i32),
    Bool(bool),
    Var(Seq<char>),
    BinaryOp(Box<SpecExpr>, BinaryOpcode, Box<SpecExpr>),
    UnaryOp(UnaryOpcode, Box<SpecExpr>),
    If(Box<SpecExpr>, Box<SpecExpr>, Box<SpecExpr>),
    Nil,
    Cons(Box<SpecExpr>, Box<SpecExpr>),
    Match { scrutinee: Box<SpecExpr>, arms: Seq<(SpecPattern, SpecExpr)> },
}

pub enum SpecPattern {
    PVar(Seq<char>),
    PWildcard,
    PNum(i32),
    PBool(bool),
    PNil,
    PCons(Box<SpecPattern>, Box<SpecPattern>),
}

pub open spec fn pattern_view(p: Pattern) -> SpecPattern
    decreases p,
{
    match p {
        Pattern::PVar(n) => SpecPattern::PVar(n@),
        Pattern::PWildcard => SpecPattern::PWildcard,
        Pattern::PNum(n) => SpecPattern::PNum(n),
        Pattern::PBool(b) => SpecPattern::PBool(b),
        Pattern::PNil => SpecPattern::PNil,
        Pattern::PCons(h, t) => SpecPattern::PCons(
            Box::new(pattern_view(*h)),
            Box::new(pattern_view(*t)),
        ),
    }
}

pub open spec fn expr_view(e: Expr) -> SpecExpr
    decreases e,
{
    match e {
        Expr::Lambda { param, body } => SpecExpr::Lambda { param: param@, body: Box::new(expr_view(*body)) },
        Expr::RecLambda { name, param, body } => SpecExpr::RecLambda {
            name: name@,
            param: param@,
            body: Box::new(expr_view(*body)),
        },
        Expr::LetIn { name, value, body } => SpecExpr::LetIn {
            name: name@,
            value: Box::new(expr_view(*value)),
            body: Box::new(expr_view(*body)),
        },
        Expr::App(f, a) => SpecExpr::App(Box::new(expr_view(*f)), Box::new(expr_view(*a))),
        Expr::Num(n) => SpecExpr::Num(n),
        Expr::Bool(b) => SpecExpr::Bool(b),
        Expr::Var(n) => SpecExpr::Var(n@),
        Expr::BinaryOp(l, op, r) => SpecExpr::BinaryOp(Box::new(expr_view(*l)), op, Box::new(expr_view(*r))),
        Expr::UnaryOp(op, x) => SpecExpr::UnaryOp(op, Box::new(expr_view(*x))),
        Expr::If(c, t, f) => SpecExpr::If(
            Box::new(expr_view(*c)),
            Box::new(expr_view(*t)),
            Box::new(expr_view(*f)),
        ),
        Expr::Nil => SpecExpr::Nil,
        Expr::Cons(h, t) => SpecExpr::Cons(Box::new(expr_view(*h)), Box::new(expr_view(*t))),
        Expr::Match { scrutinee, arms } => SpecExpr::Match {
            scrutinee: Box::new(expr_view(*scrutinee)),
            arms: Seq::new(
                arms@.len(),
                |i: int|
                    if 0 <= i < arms@.len() {
                        (pattern_view(arms@[i].0), expr_view(*arms@[i].1))
                    } else {
                        (SpecPattern::PWildcard, SpecExpr::Nil)
                    },
            ),
        },
    }
}

impl View for Expr {
    type V = SpecExpr;

    open spec fn view(&self) -> SpecExpr {
        expr_view(*self)
    }
}

impl View for Pattern {
    type V = SpecPattern;

    open spec fn view(&self) -> SpecPattern {
        pattern_view(*self)
    }
}


/// Copies a pattern; the copy has the same model.
pub fn clone_pattern(p: &Pattern) -> (r: Pattern)
    ensures
        r@ == p@,
    decreases p,
{
    match p {
        Pattern::PVar(n) => Pattern::PVar(n.clone()),
        Pattern::PWildcard => Pattern::PWildcard,
        Pattern::PNum(n) => Pattern::PNum(*n),
        Pattern::PBool(b) => Pattern::PBool(*b),
        Pattern::PNil => Pattern::PNil,
        Pattern::PCons(h, t) => Pattern::PCons(
            Box::new(clone_pattern(h)),
            Box::new(clone_pattern(t)),
        ),
    }
}

/// Copies an expression; the copy has the same model.
pub fn clone_expr(e: &Expr) -> (r: Expr)
    ensures
        r@ == e@,
    decreases e,
{
    match e {
        Expr::Lambda { param, body } => Expr::Lambda { param: param.clone(), body: Box::new(clone_expr(body)) },
        Expr::RecLambda { name, param, body } => Expr::RecLambda {
            name: name.clone(),
            param: param.clone(),
            body: Box::new(clone_expr(body)),
        },
        Expr::LetIn { name, value, body } => Expr::LetIn {
            name: name.clone(),
            value: Box::new(clone_expr(value)),
            body: Box::new(clone_expr(body)),
        },
        Expr::App(f, a) => Expr::App(Box::new(clone_expr(f)), Box::new(clone_expr(a))),
        Expr::Num(n) => Expr::Num(*n),
        Expr::Bool(b) => Expr::Bool(*b),
        Expr::Var(n) => Expr::Var(n.clone()),
        Expr::BinaryOp(l, op, r) => Expr::BinaryOp(Box::new(clone_expr(l)), *op, Box::new(clone_expr(r))),
        Expr::UnaryOp(op, x) => Expr::UnaryOp(*op, Box::new(clone_expr(x))),
        Expr::If(c, t, f) => Expr::If(
            Box::new(clone_expr(c)),
            Box::new(clone_expr(t)),
            Box::new(clone_expr(f)),
        ),
        Expr::Nil => Expr::Nil,
        Expr::Cons(h, t) => Expr::Cons(Box::new(clone_expr(h)), Box::new(clone_expr(t))),
        Expr::Match { scrutinee, arms } => {
            let mut copied: Vec<(Pattern, Box<Expr>)> = Vec::new();
            let n = arms.len();
            for i in 0..n
                invariant
                    n == arms@.len(),
                    *e is Match,
                    e->arms == *arms,
                    copied@.len() == i,
                    forall|j: int|
                        0 <= j < i ==> (#[trigger] copied@[j]).0@ == arms@[j].0@ && (*copied@[j].1)@
                            == (*arms@[j].1)@,
            {
                assert(decreases_to!(*arms => arms@));
                assert(decreases_to!(arms@ => arms@[i as int]));
                assert(decreases_to!(arms@[i as int] => arms@[i as int].1));
                assert(decreases_to!(*e => e->arms));
                assert(decreases_to!(*e => arms@[i as int].1));
                let pat = clone_pattern(&arms[i].0);
                let body = clone_expr(&arms[i].1);
                copied.push((pat, Box::new(body)));
            }
            let r = Expr::Match { scrutinee: Box::new(clone_expr(scrutinee)), arms: copied };
            proof {
                assert(match (r@, e@) {
                    (SpecExpr::Match { arms: x, .. }, SpecExpr::Match { arms: y, .. }) => x =~= y,
                    _ => false,
                });
            }
            r
        },
    }
}


impl Clone for Expr {
    fn clone(&self) -> (r: Self)
        ensures
            r@ == self@,
    {
        clone_expr(self)
    }
}

impl Clone for Pattern {
    fn clone(&self) -> (r: Self)
        ensures
            r@ == self@,
    {
        clone_pattern(self)
    }
}

} // verus!
