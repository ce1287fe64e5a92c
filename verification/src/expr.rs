//! The expression tree: tagged nodes, each owning its sub-expressions
//! exclusively. Trees are built bottom-up by the parser and folded once by
//! the evaluator; no node is ever mutated.

use vstd::prelude::*;
use crate::literal::{lit_valid, Literal, LiteralModel};
use crate::token::{Token, TokenModel};

verus! {

/// An expression node.
#[derive(Debug)]
pub enum Expr {
    /// A binary operation: `left operator right`.
    Binary { left: Box<Expr>, operator: Token, right: Box<Expr> },
    /// A parenthesized expression.
    Grouping { expr: Box<Expr> },
    /// A prefix operation: `operator right`.
    Unary { operator: Token, right: Box<Expr> },
    /// A literal value.
    Literal(Literal),
}

/// The mathematical model of an expression tree.
pub ghost enum ExprModel {
    Binary { left: Box<ExprModel>, operator: TokenModel, right: Box<ExprModel> },
    Grouping { expr: Box<ExprModel> },
    Unary { operator: TokenModel, right: Box<ExprModel> },
    Literal(LiteralModel),
}

/// The model of an expression tree.
pub open spec fn expr_model(e: Expr) -> ExprModel
    decreases e,
{
    match e {
        Expr::Binary { left, operator, right } => ExprModel::Binary {
            left: Box::new(expr_model(*left)),
            operator: operator@,
            right: Box::new(expr_model(*right)),
        },
        Expr::Grouping { expr } => ExprModel::Grouping { expr: Box::new(expr_model(*expr)) },
        Expr::Unary { operator, right } => ExprModel::Unary {
            operator: operator@,
            right: Box::new(expr_model(*right)),
        },
        Expr::Literal(l) => ExprModel::Literal(l@),
    }
}

/// Every literal leaf of the tree fits the executable value model.
pub open spec fn expr_valid(e: ExprModel) -> bool
    decreases e,
{
    match e {
        ExprModel::Binary { left, operator, right } => expr_valid(*left) && expr_valid(*right),
        ExprModel::Grouping { expr } => expr_valid(*expr),
        ExprModel::Unary { operator, right } => expr_valid(*right),
        ExprModel::Literal(l) => lit_valid(l),
    }
}

/// The number of nodes of the tree; the measure evaluation descends on.
pub open spec fn expr_size(e: Expr) -> nat
    decreases e,
{
    match e {
        Expr::Binary { left, operator, right } => 1 + expr_size(*left) + expr_size(*right),
        Expr::Grouping { expr } => 1 + expr_size(*expr),
        Expr::Unary { operator, right } => 1 + expr_size(*right),
        Expr::Literal(l) => 1,
    }
}

} // verus!
