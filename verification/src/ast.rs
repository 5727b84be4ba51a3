//! A small expression tree for integer computations: named inputs,
//! constants, the three arithmetic connectives, and named outputs. The
//! lowering pass turns it into a dataflow graph.

use vstd::prelude::*;

verus! {

/// An arithmetic expression over named input ports.
#[derive(Debug)]
pub enum Expr {
    Input { name: String, width: u32 },
    Const { value: i32, width: u32 },
    Add(Box<Expr>, Box<Expr>),
    Sub(Box<Expr>, Box<Expr>),
    Mul(Box<Expr>, Box<Expr>),
    Output { name: String, expr: Box<Expr> },
}

/// An input port reference.
pub fn input(name: &str, width: u32) -> (r: Expr)
    ensures
        r matches Expr::Input { name: n, width: w } && n@ == name@ && w == width,
{
    Expr::Input { name: String::from_str(name), width }
}

/// A constant.
pub fn const_val(value: i32, width: u32) -> (r: Expr)
    ensures
        r == (Expr::Const { value, width }),
{
    Expr::Const { value, width }
}

/// A sum.
pub fn add(lhs: Expr, rhs: Expr) -> (r: Expr)
    ensures
        r matches Expr::Add(l, rr) && *l == lhs && *rr == rhs,
{
    Expr::Add(Box::new(lhs), Box::new(rhs))
}

/// A difference.
pub fn sub(lhs: Expr, rhs: Expr) -> (r: Expr)
    ensures
        r matches Expr::Sub(l, rr) && *l == lhs && *rr == rhs,
{
    Expr::Sub(Box::new(lhs), Box::new(rhs))
}

/// A product.
pub fn mul(lhs: Expr, rhs: Expr) -> (r: Expr)
    ensures
        r matches Expr::Mul(l, rr) && *l == lhs && *rr == rhs,
{
    Expr::Mul(Box::new(lhs), Box::new(rhs))
}

/// A named output driven by an expression.
pub fn output(name: &str, expr: Expr) -> (r: Expr)
    ensures
        r matches Expr::Output { name: n, expr: e } && n@ == name@ && *e == expr,
{
    Expr::Output { name: String::from_str(name), expr: Box::new(expr) }
}

} // verus!
