//! Expression trees: what an expression is once it has been parsed.

use crate::api::calculate::numeral::Numeral;
use vstd::prelude::*;

verus! {

/// An operator that stands between two operands.
#[derive(Debug, Clone, Copy, PartialEq, Eq, Structural)]
pub enum Operation {
    /// `+`
    Add,
    /// `-`
    Subtract,
    /// `*`
    Multiply,
    /// `/`
    Divide,
    /// `%`
    Remainder,
    /// `^`
    Power,
}

/// A function that is applied to one argument.
#[derive(Debug, Clone, Copy, PartialEq, Eq, Structural)]
pub enum Function {
    /// Written `log`: ten raised to the power of the argument.
    Log,
    /// Written `ln`: the natural logarithm of the argument.
    Ln,
}

/// A named constant.
#[derive(Debug, Clone, Copy, PartialEq, Eq, Structural)]
pub enum Constant {
    /// Euler's number, written `e`.
    E,
    /// The circle constant, written `pi` or `PI`.
    Pi,
}

/// The mathematical value of an [`Expr`]: the same tree, with each numeral
/// as the sequence of its characters.
pub enum Tree {
    Number(Seq<char>),
    Constant(Constant),
    Zero,
    Negate(Box<Tree>),
    Binary(Operation, Box<Tree>, Box<Tree>),
    Factorial(Box<Tree>),
    Call(Function, Box<Tree>),
}

/// A parsed expression.
#[derive(Debug, PartialEq, Eq)]
pub enum Expr {
    /// A numeric literal.
    Number(Numeral),
    /// A named constant.
    Constant(Constant),
    /// The value zero, which stands wherever no operand could be read.
    Zero,
    /// The operand with its sign changed.
    Negate(Box<Expr>),
    /// An operator applied to a left and a right operand.
    Binary(Operation, Box<Expr>, Box<Expr>),
    /// The factorial of the operand.
    Factorial(Box<Expr>),
    /// A function applied to its argument.
    Call(Function, Box<Expr>),
}

/// The tree that `expr` stands for.
pub open spec fn tree_of(expr: Expr) -> Tree
    decreases expr,
{
    match expr {
        Expr::Number(numeral) => Tree::Number(numeral@),
        Expr::Constant(constant) => Tree::Constant(constant),
        Expr::Zero => Tree::Zero,
        Expr::Negate(operand) => Tree::Negate(Box::new(tree_of(*operand))),
        Expr::Binary(operation, left, right) => Tree::Binary(
            operation,
            Box::new(tree_of(*left)),
            Box::new(tree_of(*right)),
        ),
        Expr::Factorial(operand) => Tree::Factorial(Box::new(tree_of(*operand))),
        Expr::Call(function, argument) => Tree::Call(function, Box::new(tree_of(*argument))),
    }
}

impl View for Expr {
    type V = Tree;

    open spec fn view(&self) -> Tree {
        tree_of(*self)
    }
}

} // verus!
