//! Columns, selectors and the tagged expression tree of gate polynomials.
//!
//! A gate is a polynomial over cells named by `(column, rotation)` pairs,
//! written as an explicit tree so that the same expression can be inspected
//! during shape analysis and evaluated by the satisfaction checker.

use vstd::prelude::*;
use crate::field::Felt;

verus! {

/// The kind of a column: advice columns carry the private witness, fixed
/// columns carry constants, instance columns carry public inputs.
#[derive(Clone, Copy, Debug, PartialEq, Eq, Structural)]
pub enum ColumnKind {
    Advice,
    Fixed,
    Instance,
}

/// A column handle: an identity allocated once at configuration time.
#[derive(Clone, Copy, Debug, PartialEq, Eq, Structural)]
pub struct Column {
    pub index: usize,
    pub kind: ColumnKind,
}

/// A selector handle: a boolean column toggling a gate on or off per row.
#[derive(Clone, Copy, Debug, PartialEq, Eq, Structural)]
pub struct Selector {
    pub index: usize,
}

/// A gate polynomial: a constant, an advice cell queried at a row rotation,
/// a selector, or a negation, sum or product of polynomials.
#[derive(Debug)]
pub enum Expr {
    /// A constant field element.
    Const(Felt),
    /// The advice cell of the given column, `rotation` rows below the row
    /// its gate is applied at (wrapping around the bottom of the table).
    Query(Column, u64),
    /// The governing selector: `1` where enabled, `0` elsewhere.
    Sel(Selector),
    /// Additive inverse.
    Neg(Box<Expr>),
    /// Sum of two polynomials.
    Sum(Box<Expr>, Box<Expr>),
    /// Product of two polynomials.
    Prod(Box<Expr>, Box<Expr>),
}

/// Structural validity of an expression against a constraint system with
/// `num_advice` advice columns and `num_selectors` selectors: every query
/// names an existing advice column, every selector exists, and every
/// constant is a reduced field element.
pub open spec fn expr_wf(e: Expr, num_advice: nat, num_selectors: nat) -> bool
    decreases e,
{
    match e {
        Expr::Const(f) => f.wf(),
        Expr::Query(col, _rot) => col.kind == ColumnKind::Advice && col.index < num_advice,
        Expr::Sel(s) => s.index < num_selectors,
        Expr::Neg(inner) => expr_wf(*inner, num_advice, num_selectors),
        Expr::Sum(x, y) => expr_wf(*x, num_advice, num_selectors) && expr_wf(
            *y,
            num_advice,
            num_selectors,
        ),
        Expr::Prod(x, y) => expr_wf(*x, num_advice, num_selectors) && expr_wf(
            *y,
            num_advice,
            num_selectors,
        ),
    }
}

/// Checks [`expr_wf`] executably; used when a gate is registered.
pub fn check_expr(e: &Expr, num_advice: usize, num_selectors: usize) -> (b: bool)
    ensures
        b == expr_wf(*e, num_advice as nat, num_selectors as nat),
    decreases *e,
{
    match e {
        Expr::Const(f) => f.v < crate::field::MODULUS,
        Expr::Query(col, _rot) => matches!(col.kind, ColumnKind::Advice) && col.index < num_advice,
        Expr::Sel(s) => s.index < num_selectors,
        Expr::Neg(inner) => check_expr(&**inner, num_advice, num_selectors),
        Expr::Sum(x, y) => check_expr(&**x, num_advice, num_selectors) && check_expr(
            &**y,
            num_advice,
            num_selectors,
        ),
        Expr::Prod(x, y) => check_expr(&**x, num_advice, num_selectors) && check_expr(
            &**y,
            num_advice,
            num_selectors,
        ),
    }
}

} // verus!
