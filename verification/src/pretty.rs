use vstd::prelude::*;

use crate::ast::{BinaryOpcode, Expr, Pattern, SpecExpr, SpecPattern, UnaryOpcode};
use crate::text::{bool_text, int_text, write_bool, write_int};
use crate::value::{SpecValue, Value};

verus! {

pub open spec fn binop_name(op: BinaryOpcode) -> Seq<char> {
    match op {
        BinaryOpcode::Mul => "Mul"@,
        BinaryOpcode::Div => "Div"@,
        BinaryOpcode::Add => "Add"@,
        BinaryOpcode::Sub => "Sub"@,
        BinaryOpcode::Mod => "Mod"@,
        BinaryOpcode::GT => "GT"@,
        BinaryOpcode::GTE => "GTE"@,
        BinaryOpcode::LT => "LT"@,
        BinaryOpcode::LTE => "LTE"@,
        BinaryOpcode::EE => "EE"@,
        BinaryOpcode::NE => "NE"@,
    }
}

pub open spec fn unop_name(op: UnaryOpcode) -> Seq<char> {
    match op {
        UnaryOpcode::Neg => "Neg"@,
        UnaryOpcode::Not => "Not"@,
    }
}

pub open spec fn connector(last: bool) -> Seq<char> {
    if last {
        "└── "@
    } else {
        "├── "@
    }
}

/// The prefix under which the children of a node are drawn.
pub open spec fn child_prefix(prefix: Seq<char>, last: bool) -> Seq<char> {
    prefix + if last {
        "    "@
    } else {
        "│   "@
    }
}

/// One line of the drawing: the prefix, the branch and the label.
pub open spec fn tree_line(prefix: Seq<char>, last: bool, label: Seq<char>) -> Seq<char> {
    prefix + connector(last) + label + "\n"@
}

/// The drawing of a pattern as a tree, one node per line.
pub open spec fn pattern_tree(p: SpecPattern, prefix: Seq<char>, last: bool) -> Seq<char>
    decreases p,
{
    let child = child_prefix(prefix, last);
    match p {
        SpecPattern::PVar(name) => tree_line(prefix, last, "PVar("@ + name + ")"@),
        SpecPattern::PWildcard => tree_line(prefix, last, "PWildcard"@),
        SpecPattern::PNum(n) => tree_line(prefix, last, "PNum("@ + int_text(n as int) + ")"@),
        SpecPattern::PBool(b) => tree_line(prefix, last, "PBool("@ + bool_text(b) + ")"@),
        SpecPattern::PNil => tree_line(prefix, last, "PNil"@),
        SpecPattern::PCons(h, t) => tree_line(prefix, last, "PCons"@) + pattern_tree(*h, child, false)
            + pattern_tree(*t, child, true),
    }
}

/// The label that a node of the expression tree carries.
pub open spec fn node_label(e: SpecExpr) -> Seq<char> {
    match e {
        SpecExpr::Num(n) => "Num("@ + int_text(n as int) + ")"@,
        SpecExpr::Bool(b) => "Bool("@ + bool_text(b) + ")"@,
        SpecExpr::Var(v) => "Var("@ + v + ")"@,
        SpecExpr::UnaryOp(op, _) => "UnaryOp("@ + unop_name(op) + ")"@,
        SpecExpr::BinaryOp(_, op, _) => "BinaryOp("@ + binop_name(op) + ")"@,
        SpecExpr::If(..) => "If"@,
        SpecExpr::Lambda { param, .. } => "Lambda("@ + param + ")"@,
        SpecExpr::RecLambda { name, param, .. } => "RecLambda("@ + name + ", "@ + param + ")"@,
        SpecExpr::App(..) => "App"@,
        SpecExpr::LetIn { name, .. } => "Let "@ + name,
        SpecExpr::Nil => "Nil"@,
        SpecExpr::Cons(..) => "Cons"@,
        SpecExpr::Match { .. } => "Match"@,
    }
}

/// The drawing of an expression as a tree, one node per line: the node's
/// line, then its children one level deeper.
pub open spec fn expr_tree(e: SpecExpr, prefix: Seq<char>, last: bool) -> Seq<char>
    decreases e, 3int,
{
    tree_line(prefix, last, node_label(e)) + children_tree(e, child_prefix(prefix, last))
}

/// The drawings of the children of a node, of which only the final one is
/// drawn as the last child.
pub open spec fn children_tree(e: SpecExpr, child: Seq<char>) -> Seq<char>
    decreases e, 2int,
{
    match e {
        SpecExpr::UnaryOp(_, x) => expr_tree(*x, child, true),
        SpecExpr::BinaryOp(l, _, r) => expr_tree(*l, child, false) + expr_tree(*r, child, true),
        SpecExpr::If(c, t, f) => expr_tree(*c, child, false) + expr_tree(*t, child, false) + expr_tree(
            *f,
            child,
            true,
        ),
        SpecExpr::Lambda { body, .. } => expr_tree(*body, child, true),
        SpecExpr::RecLambda { body, .. } => expr_tree(*body, child, true),
        SpecExpr::App(f, a) => expr_tree(*f, child, false) + expr_tree(*a, child, true),
        SpecExpr::LetIn { value, body, .. } => expr_tree(*value, child, false) + expr_tree(*body, child, true),
        SpecExpr::Cons(h, t) => expr_tree(*h, child, false) + expr_tree(*t, child, true),
        SpecExpr::Match { scrutinee, arms } => expr_tree(*scrutinee, child, arms.len() == 0) + arms_tree(
            arms,
            child,
            0,
        ),
        _ => Seq::empty(),
    }
}

/// The drawings of the arms from index `i` on; only the final arm is drawn
/// as the last child.
pub open spec fn arms_tree(arms: Seq<(SpecPattern, SpecExpr)>, prefix: Seq<char>, i: int) -> Seq<char>
    decreases arms, arms.len() - i,
{
    if 0 <= i < arms.len() {
        arm_tree(arms[i].0, arms[i].1, prefix, i == arms.len() - 1) + arms_tree(arms, prefix, i + 1)
    } else {
        Seq::empty()
    }
}

/// The drawing of one arm: its pattern, then its body.
pub open spec fn arm_tree(p: SpecPattern, body: SpecExpr, prefix: Seq<char>, last: bool) -> Seq<char>
    decreases body, 4int,
{
    let child = child_prefix(prefix, last);
    tree_line(prefix, last, "Arm"@) + pattern_tree(p, child, false) + expr_tree(body, child, true)
}

fn write_line_start(out: &mut String, prefix: &str, last: bool)
    ensures
        final(out)@ == old(out)@ + prefix@ + connector(last),
{
    out.append(prefix);
    if last {
        out.append("└── ");
    } else {
        out.append("├── ");
    }
}

fn make_child_prefix(prefix: &str, last: bool) -> (r: String)
    ensures
        r@ == child_prefix(prefix@, last),
{
    let mut child = prefix.to_owned();
    if last {
        child.append("    ");
    } else {
        child.append("│   ");
    }
    child
}

fn write_binop_name(out: &mut String, op: BinaryOpcode)
    ensures
        final(out)@ == old(out)@ + binop_name(op),
{
    match op {
        BinaryOpcode::Mul => out.append("Mul"),
        BinaryOpcode::Div => out.append("Div"),
        BinaryOpcode::Add => out.append("Add"),
        BinaryOpcode::Sub => out.append("Sub"),
        BinaryOpcode::Mod => out.append("Mod"),
        BinaryOpcode::GT => out.append("GT"),
        BinaryOpcode::GTE => out.append("GTE"),
        BinaryOpcode::LT => out.append("LT"),
        BinaryOpcode::LTE => out.append("LTE"),
        BinaryOpcode::EE => out.append("EE"),
        BinaryOpcode::NE => out.append("NE"),
    }
}

fn write_unop_name(out: &mut String, op: UnaryOpcode)
    ensures
        final(out)@ == old(out)@ + unop_name(op),
{
    match op {
        UnaryOpcode::Neg => out.append("Neg"),
        UnaryOpcode::Not => out.append("Not"),
    }
}

/// Appends the drawing of a pattern.
pub fn print_pattern(pat: &Pattern, out: &mut String, prefix: &str, last: bool)
    ensures
        final(out)@ == old(out)@ + pattern_tree(pat@, prefix@, last),
    decreases pat,
{
    let ghost start = out@;
    write_line_start(out, prefix, last);
    match pat {
        Pattern::PVar(name) => {
            out.append("PVar(");
            out.append(name.as_str());
            out.append(")");
            out.append("\n");
        },
        Pattern::PWildcard => {
            out.append("PWildcard");
            out.append("\n");
        },
        Pattern::PNum(n) => {
            out.append("PNum(");
            write_int(out, *n);
            out.append(")");
            out.append("\n");
        },
        Pattern::PBool(b) => {
            out.append("PBool(");
            write_bool(out, *b);
            out.append(")");
            out.append("\n");
        },
        Pattern::PNil => {
            out.append("PNil");
            out.append("\n");
        },
        Pattern::PCons(h, t) => {
            out.append("PCons");
            out.append("\n");
            let ghost mid = out@;
            let child = make_child_prefix(prefix, last);
            print_pattern(h, out, child.as_str(), false);
            print_pattern(t, out, child.as_str(), true);
            assert(out@ =~= mid + pattern_tree((**h)@, child@, false) + pattern_tree((**t)@, child@, true));
        },
    }
    assert(out@ =~= start + pattern_tree(pat@, prefix@, last));
}

fn write_label(expr: &Expr, out: &mut String)
    ensures
        final(out)@ == old(out)@ + node_label(expr@),
{
    let ghost start = out@;
    match expr {
        Expr::Num(n) => {
            out.append("Num(");
            write_int(out, *n);
            out.append(")");
        },
        Expr::Bool(b) => {
            out.append("Bool(");
            write_bool(out, *b);
            out.append(")");
        },
        Expr::Var(v) => {
            out.append("Var(");
            out.append(v.as_str());
            out.append(")");
        },
        Expr::UnaryOp(op, _) => {
            out.append("UnaryOp(");
            write_unop_name(out, *op);
            out.append(")");
        },
        Expr::BinaryOp(_, op, _) => {
            out.append("BinaryOp(");
            write_binop_name(out, *op);
            out.append(")");
        },
        Expr::If(..) => out.append("If"),
        Expr::Lambda { param, .. } => {
            out.append("Lambda(");
            out.append(param.as_str());
            out.append(")");
        },
        Expr::RecLambda { name, param, .. } => {
            out.append("RecLambda(");
            out.append(name.as_str());
            out.append(", ");
            out.append(param.as_str());
            out.append(")");
        },
        Expr::App(..) => out.append("App"),
        Expr::LetIn { name, .. } => {
            out.append("Let ");
            out.append(name.as_str());
        },
        Expr::Nil => out.append("Nil"),
        Expr::Cons(..) => out.append("Cons"),
        Expr::Match { .. } => out.append("Match"),
    }
    assert(out@ =~= start + node_label(expr@));
}

/// Appends the drawing of an expression.
pub fn print_tree(expr: &Expr, out: &mut String, prefix: &str, last: bool)
    ensures
        final(out)@ == old(out)@ + expr_tree(expr@, prefix@, last),
    decreases expr, 3int,
{
    let ghost start = out@;
    write_line_start(out, prefix, last);
    write_label(expr, out);
    out.append("\n");
    let ghost mid = out@;
    let child = make_child_prefix(prefix, last);
    print_children(expr, out, child.as_str());
    assert(out@ =~= start + expr_tree(expr@, prefix@, last));
}

fn print_children(expr: &Expr, out: &mut String, child: &str)
    ensures
        final(out)@ == old(out)@ + children_tree(expr@, child@),
    decreases expr, 2int,
{
    let ghost start = out@;
    let ghost c = child@;
    match expr {
        Expr::UnaryOp(_, e) => {
            print_tree(e, out, child, true);
        },
        Expr::BinaryOp(l, _, r) => {
            print_tree(l, out, child, false);
            print_tree(r, out, child, true);
        },
        Expr::If(cond, then_branch, else_branch) => {
            print_tree(cond, out, child, false);
            print_tree(then_branch, out, child, false);
            print_tree(else_branch, out, child, true);
        },
        Expr::Lambda { body, .. } => {
            print_tree(body, out, child, true);
        },
        Expr::RecLambda { body, .. } => {
            print_tree(body, out, child, true);
        },
        Expr::App(func, arg) => {
            print_tree(func, out, child, false);
            print_tree(arg, out, child, true);
        },
        Expr::LetIn { value, body, .. } => {
            print_tree(value, out, child, false);
            print_tree(body, out, child, true);
        },
        Expr::Cons(h, t) => {
            print_tree(h, out, child, false);
            print_tree(t, out, child, true);
        },
        Expr::Match { .. } => {
            print_match_children(expr, out, child);
        },
        _ => {},
    }
    assert(out@ =~= start + children_tree(expr@, c));
}

fn print_match_children(expr: &Expr, out: &mut String, child: &str)
    requires
        *expr is Match,
    ensures
        final(out)@ == old(out)@ + children_tree(expr@, child@),
    decreases expr, 1int,
{
    let ghost c = child@;
    let ghost mid = out@;
    let ghost sarms = match expr@ {
        SpecExpr::Match { arms, .. } => arms,
        _ => Seq::empty(),
    };
    match expr {
        Expr::Match { scrutinee, arms } => {
            let n = arms.len();
            print_tree(scrutinee, out, child, n == 0);
            let ghost after_scrutinee = out@;
            let mut i: usize = 0;
            while i < n
                invariant
                    n == arms@.len(),
                    sarms.len() == n,
                    i <= n,
                    *expr is Match,
                    expr->arms == *arms,
                    forall|j: int|
                        0 <= j < n ==> #[trigger] sarms[j] == (arms@[j].0@, (*arms@[j].1)@),
                    out@ + arms_tree(sarms, c, i as int) == after_scrutinee + arms_tree(sarms, c, 0),
                    child@ == c,
                decreases n - i,
            {
                assert(decreases_to!(*arms => arms@));
                assert(decreases_to!(arms@ => arms@[i as int]));
                assert(decreases_to!(arms@[i as int] => arms@[i as int].1));
                assert(decreases_to!(*expr => expr->arms));
                assert(decreases_to!(*expr => arms@[i as int].1));
                let ghost before = out@;
                print_arm(&arms[i].0, &arms[i].1, out, child, i + 1 == n);
                assert(sarms[i as int] == (arms@[i as int].0@, (*arms@[i as int].1)@));
                assert(arms_tree(sarms, c, i as int) == arm_tree(sarms[i as int].0, sarms[i as int].1, c, i == n - 1)
                    + arms_tree(sarms, c, i + 1));
                assert(out@ + arms_tree(sarms, c, i + 1) =~= before + arms_tree(sarms, c, i as int));
                i = i + 1;
            }
            assert(arms_tree(sarms, c, n as int) == Seq::<char>::empty());
            assert(out@ =~= after_scrutinee + arms_tree(sarms, c, 0));
            assert(out@ =~= mid + children_tree(expr@, c));
        },
        _ => {},
    }
}

/// Appends the drawing of one match arm.
pub fn print_arm(pat: &Pattern, body: &Expr, out: &mut String, prefix: &str, last: bool)
    ensures
        final(out)@ == old(out)@ + arm_tree(pat@, body@, prefix@, last),
    decreases body, 4int,
{
    let ghost start = out@;
    write_line_start(out, prefix, last);
    out.append("Arm");
    out.append("\n");
    let child = make_child_prefix(prefix, last);
    print_pattern(pat, out, child.as_str(), false);
    print_tree(body, out, child.as_str(), true);
    assert(out@ =~= start + arm_tree(pat@, body@, prefix@, last));
}


/// How a value is shown to the user.
pub open spec fn value_text(v: SpecValue) -> Seq<char> {
    match v {
        SpecValue::Int(n) => "<int> "@ + int_text(n as int),
        SpecValue::Bool(b) => "<bool> "@ + bool_text(b),
        SpecValue::Closure { .. } => "<fun>"@,
        SpecValue::RecClosure { name, .. } => "<rec fun> "@ + name,
        SpecValue::List(_) => "<list>"@,
    }
}

impl Expr {
    /// The expression drawn as a tree under a heading line `Expr`.
    pub fn tree_string(&self) -> (s: String)
        ensures
            s@ == "Expr"@ + "\n"@ + expr_tree(self@, ""@, true),
    {
        let mut out = String::new();
        out.append("Expr");
        out.append("\n");
        print_tree(self, &mut out, "", true);
        assert(out@ =~= "Expr"@ + "\n"@ + expr_tree(self@, ""@, true));
        out
    }
}

impl Value {
    /// The value as it is shown to the user.
    pub fn display_string(&self) -> (s: String)
        ensures
            s@ == value_text(self@),
    {
        let mut out = String::new();
        match self {
            Value::Int(n) => {
                out.append("<int> ");
                write_int(&mut out, *n);
            },
            Value::Bool(b) => {
                out.append("<bool> ");
                write_bool(&mut out, *b);
            },
            Value::Closure { .. } => out.append("<fun>"),
            Value::RecClosure { name, .. } => {
                out.append("<rec fun> ");
                out.append(name.as_str());
            },
            Value::List(_) => out.append("<list>"),
        }
        assert(out@ =~= value_text(self@));
        out
    }
}

} // verus!
