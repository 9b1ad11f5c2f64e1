//! The grammar of expressions, as functions from lexemes to trees.
//!
//! ```text
//! expression := term (('+' | '-') term)*
//! term       := factor (('*' | '/' | '%') factor)*
//! factor     := base ('^' factor | '!')*
//! base       := Number | '-' base | '(' expression ')' | Function base | Constant
//! ```
//!
//! Each level reads as far as it can from a position and says what it read
//! and how many lexemes it used. Nothing is ever refused: where no operand
//! can be read, the operand is zero.

use crate::api::calculate::token::Lexeme;
use crate::api::calculate::tree::{Constant, Function, Operation, Tree};
use vstd::prelude::*;

verus! {

/// What one level of the grammar read: the tree, and the number of lexemes
/// that it used.
pub struct Reading {
    pub tree: Tree,
    pub used: nat,
}

/// The distance from position `at` to the end of the lexemes.
pub open spec fn left(tokens: Seq<Lexeme>, at: int) -> nat {
    if at <= tokens.len() {
        (tokens.len() - at) as nat
    } else {
        0
    }
}

/// Whether the lexeme at `at` exists and is the operator `symbol`.
pub open spec fn is_symbol(tokens: Seq<Lexeme>, at: int, symbol: char) -> bool {
    symbol_at(tokens, at) == Some(symbol)
}

/// The operator at `at`, if a lexeme stands there and is one.
pub open spec fn symbol_at(tokens: Seq<Lexeme>, at: int) -> Option<char> {
    if 0 <= at < tokens.len() {
        match tokens[at] {
            Lexeme::Operator(symbol) => Some(symbol),
            _ => None,
        }
    } else {
        None
    }
}

/// The operation that `symbol` stands for between two terms.
pub open spec fn additive(symbol: char) -> Option<Operation> {
    if symbol == '+' {
        Some(Operation::Add)
    } else if symbol == '-' {
        Some(Operation::Subtract)
    } else {
        None
    }
}

/// The operation that `symbol` stands for between two factors.
pub open spec fn multiplicative(symbol: char) -> Option<Operation> {
    if symbol == '*' {
        Some(Operation::Multiply)
    } else if symbol == '/' {
        Some(Operation::Divide)
    } else if symbol == '%' {
        Some(Operation::Remainder)
    } else {
        None
    }
}

/// The operation that joins two terms at `at`, if one stands there.
pub open spec fn additive_at(tokens: Seq<Lexeme>, at: int) -> Option<Operation> {
    match symbol_at(tokens, at) {
        Some(symbol) => additive(symbol),
        None => None,
    }
}

/// The operation that joins two factors at `at`, if one stands there.
pub open spec fn multiplicative_at(tokens: Seq<Lexeme>, at: int) -> Option<Operation> {
    match symbol_at(tokens, at) {
        Some(symbol) => multiplicative(symbol),
        None => None,
    }
}

/// The function that is called `name`, if there is one.
pub open spec fn function_named(name: Seq<char>) -> Option<Function> {
    if name == "log"@ {
        Some(Function::Log)
    } else if name == "ln"@ {
        Some(Function::Ln)
    } else {
        None
    }
}

/// The constant that is called `name`, if there is one.
pub open spec fn constant_named(name: Seq<char>) -> Option<Constant> {
    if name == "e"@ {
        Some(Constant::E)
    } else if name == "pi"@ || name == "PI"@ {
        Some(Constant::Pi)
    } else {
        None
    }
}

/// A base at `at`: a number, a negated base, an expression in parentheses,
/// a function applied to a base, or a constant.
///
/// An expression in parentheses that no `)` follows is zero, and the lexeme
/// that stands in place of the `)` is used up all the same. An unknown
/// function is zero and takes no argument. Anything else, and the end of the
/// lexemes, is zero.
pub open spec fn base(tokens: Seq<Lexeme>, at: int) -> Reading
    decreases left(tokens, at), 0nat,
{
    if 0 <= at < tokens.len() {
        match tokens[at] {
            Lexeme::Number(text) => Reading { tree: Tree::Number(text), used: 1 },
            Lexeme::Operator(symbol) => {
                if symbol == '-' {
                    let operand = base(tokens, at + 1);
                    Reading {
                        tree: Tree::Negate(Box::new(operand.tree)),
                        used: operand.used + 1,
                    }
                } else if symbol == '(' {
                    let inner = expression(tokens, at + 1);
                    let close = at + 1 + inner.used;
                    if is_symbol(tokens, close, ')') {
                        Reading { tree: inner.tree, used: inner.used + 2 }
                    } else if close < tokens.len() {
                        Reading { tree: Tree::Zero, used: inner.used + 2 }
                    } else {
                        Reading { tree: Tree::Zero, used: inner.used + 1 }
                    }
                } else {
                    Reading { tree: Tree::Zero, used: 1 }
                }
            },
            Lexeme::Function(name) => {
                match function_named(name) {
                    Some(function) => {
                        let argument = base(tokens, at + 1);
                        Reading {
                            tree: Tree::Call(function, Box::new(argument.tree)),
                            used: argument.used + 1,
                        }
                    },
                    None => Reading { tree: Tree::Zero, used: 1 },
                }
            },
            Lexeme::Constant(name) => {
                match constant_named(name) {
                    Some(constant) => Reading { tree: Tree::Constant(constant), used: 1 },
                    None => Reading { tree: Tree::Zero, used: 1 },
                }
            },
        }
    } else {
        Reading { tree: Tree::Zero, used: 0 }
    }
}

/// What follows a factor whose value so far is `so_far`: any number of `!`,
/// each applied to what stands before it, and of `^` with a factor as the
/// exponent.
pub open spec fn factor_rest(tokens: Seq<Lexeme>, so_far: Tree, at: int) -> Reading
    decreases left(tokens, at), 0nat,
{
    if is_symbol(tokens, at, '^') {
        let exponent = factor(tokens, at + 1);
        let power = Tree::Binary(Operation::Power, Box::new(so_far), Box::new(exponent.tree));
        let rest = factor_rest(tokens, power, at + 1 + exponent.used);
        Reading { tree: rest.tree, used: exponent.used + 1 + rest.used }
    } else if is_symbol(tokens, at, '!') {
        let rest = factor_rest(tokens, Tree::Factorial(Box::new(so_far)), at + 1);
        Reading { tree: rest.tree, used: rest.used + 1 }
    } else {
        Reading { tree: so_far, used: 0 }
    }
}

/// A factor at `at`: a base with its exponents and factorials.
pub open spec fn factor(tokens: Seq<Lexeme>, at: int) -> Reading
    decreases left(tokens, at), 1nat,
{
    let first = base(tokens, at);
    let rest = factor_rest(tokens, first.tree, at + first.used);
    Reading { tree: rest.tree, used: first.used + rest.used }
}

/// What follows a term whose value so far is `so_far`: factors joined on
/// with `*`, `/` and `%`, each to all that stands to its left.
pub open spec fn term_rest(tokens: Seq<Lexeme>, so_far: Tree, at: int) -> Reading
    decreases left(tokens, at), 0nat,
{
    match multiplicative_at(tokens, at) {
        Some(operation) => {
            let right = factor(tokens, at + 1);
            let joined = Tree::Binary(operation, Box::new(so_far), Box::new(right.tree));
            let rest = term_rest(tokens, joined, at + 1 + right.used);
            Reading { tree: rest.tree, used: right.used + 1 + rest.used }
        },
        None => Reading { tree: so_far, used: 0 },
    }
}

/// A term at `at`: factors joined with `*`, `/` and `%`, from the left.
pub open spec fn term(tokens: Seq<Lexeme>, at: int) -> Reading
    decreases left(tokens, at), 2nat,
{
    let first = factor(tokens, at);
    let rest = term_rest(tokens, first.tree, at + first.used);
    Reading { tree: rest.tree, used: first.used + rest.used }
}

/// What follows an expression whose value so far is `so_far`: terms joined
/// on with `+` and `-`, each to all that stands to its left.
pub open spec fn expression_rest(tokens: Seq<Lexeme>, so_far: Tree, at: int) -> Reading
    decreases left(tokens, at), 0nat,
{
    match additive_at(tokens, at) {
        Some(operation) => {
            let right = term(tokens, at + 1);
            let joined = Tree::Binary(operation, Box::new(so_far), Box::new(right.tree));
            let rest = expression_rest(tokens, joined, at + 1 + right.used);
            Reading { tree: rest.tree, used: right.used + 1 + rest.used }
        },
        None => Reading { tree: so_far, used: 0 },
    }
}

/// An expression at `at`: terms joined with `+` and `-`, from the left.
pub open spec fn expression(tokens: Seq<Lexeme>, at: int) -> Reading
    decreases left(tokens, at), 3nat,
{
    let first = term(tokens, at);
    let rest = expression_rest(tokens, first.tree, at + first.used);
    Reading { tree: rest.tree, used: first.used + rest.used }
}

} // verus!
