use std::rc::Rc;
use vstd::prelude::*;

use crate::expression::Expr;
use crate::token::Token;

verus! {

/// A statement node, as handed over by the parser collaborator.
#[derive(Debug, PartialEq)]
pub enum Stmt {
    /// Evaluate for side effect, discard the result.
    Expression { expression: Expr },
    /// Evaluate and write the value's rendering to the output channel.
    Print { expression: Expr },
    /// Declare a binding in the current scope. The grammar guarantees an
    /// initializer, defaulting to an uninitialized-sentinel literal.
    Var { name: Token, initializer: Expr },
    /// Run the statements in a fresh scope enclosing the current one.
    Block { statements: Vec<Stmt> },
    /// Conditional on truthiness of the condition.
    If { condition: Expr, then_branch: Box<Stmt>, else_branch: Option<Box<Stmt>> },
    /// Loop while the condition is truthy.
    While { condition: Expr, body: Box<Stmt> },
    /// Declare a function: captures the current environment by reference.
    /// Parameter names and body are shared so that the closure value can
    /// hold them without copying the tree.
    Function { name: Token, params: Rc<Vec<String>>, body: Rc<Vec<Stmt>> },
    /// Return from the innermost function call, with the given value.
    Return { keyword: Token, value: Expr },
}

} // verus!
