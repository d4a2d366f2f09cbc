use vstd::prelude::*;

use crate::environment::Object;
use crate::token::Token;

verus! {

/// An expression node, as handed over by the parser collaborator.
/// The evaluator walks these depth-first; it never re-derives them
/// from source text.
#[derive(Debug, PartialEq)]
pub enum Expr {
    /// An embedded constant value.
    Literal { value: Object },
    /// Parentheses: precedence was already resolved by parsing, so this
    /// evaluates to the inner expression's value unchanged.
    Grouping { expression: Box<Expr> },
    /// A variable read, resolved through the environment chain.
    Variable { name: Token },
    /// An assignment expression: writes the evaluated right-hand side to
    /// an existing binding and yields the assigned value.
    Assign { name: Token, value: Box<Expr> },
    /// Short-circuiting `and` / `or`.
    Logical { left: Box<Expr>, operator: Token, right: Box<Expr> },
    /// Unary `!` or `-`.
    Unary { operator: Token, right: Box<Expr> },
    /// A binary operator applied to two evaluated operands.
    Binary { left: Box<Expr>, operator: Token, right: Box<Expr> },
    /// A call: callee expression, the closing-paren token for error
    /// reporting, and the argument expressions in order.
    Call { callee: Box<Expr>, paren: Token, arguments: Vec<Expr> },
}

} // verus!
