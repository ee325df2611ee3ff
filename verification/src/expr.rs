use crate::literal::{Literal, LiteralV};
use crate::token::{Token, TokenV};
use vstd::prelude::*;

verus! {

/// An expression node. The tree is acyclic, built bottom-up by the parser,
/// and never mutated after construction; each non-leaf node exclusively owns
/// its children.
#[derive(Debug)]
pub enum Expr {
    Binary(BinaryData),
    Unary(UnaryData),
    Literal(Literal),
    Grouping(GroupingData),
}

#[derive(Debug)]
pub struct BinaryData {
    pub left: Box<Expr>,
    pub right: Box<Expr>,
    pub operator: Token,
}

#[derive(Debug)]
pub struct UnaryData {
    pub right: Box<Expr>,
    pub operator: Token,
}

#[derive(Debug)]
pub struct GroupingData {
    pub expression: Box<Expr>,
}

/// The mathematical value of an expression tree.
pub enum ExprV {
    Binary { left: Box<ExprV>, operator: TokenV, right: Box<ExprV> },
    Unary { operator: TokenV, right: Box<ExprV> },
    Literal { value: LiteralV },
    Grouping { inner: Box<ExprV> },
}

/// The mathematical value of an expression tree.
pub open spec fn expr_view(e: Expr) -> ExprV
    decreases e,
{
    match e {
        Expr::Binary(d) => ExprV::Binary {
            left: Box::new(expr_view(*d.left)),
            operator: d.operator@,
            right: Box::new(expr_view(*d.right)),
        },
        Expr::Unary(d) => ExprV::Unary {
            operator: d.operator@,
            right: Box::new(expr_view(*d.right)),
        },
        Expr::Literal(l) => ExprV::Literal { value: l@ },
        Expr::Grouping(d) => ExprV::Grouping { inner: Box::new(expr_view(*d.expression)) },
    }
}

impl View for Expr {
    type V = ExprV;

    open spec fn view(&self) -> ExprV {
        expr_view(*self)
    }
}

} // verus!
