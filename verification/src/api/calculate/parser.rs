//! The parser: one function for each level of the grammar.
//!
//! Every function reads from a position in the tokens and gives the
//! expression it read together with the position at which it stopped. A
//! position at or beyond the end of the tokens reads as zero and stays where
//! it is.

use crate::api::calculate::grammar::{
    additive_at, base, constant_named, expression, expression_rest, factor, factor_rest,
    function_named, is_symbol, left, multiplicative_at, symbol_at, term, term_rest,
};
use crate::api::calculate::token::{lexemes, Token};
use crate::api::calculate::tree::{Constant, Expr, Function, Operation};
use vstd::prelude::*;

verus! {

/// Tells whether `name` is spelled `word`.
fn spelled(name: &String, word: &str) -> (yes: bool)
    ensures
        yes == (name@ == word@),
{
    let other = word.to_owned();
    *name == other
}

/// Looks up a function by its name.
pub fn function_of(name: &String) -> (found: Option<Function>)
    ensures
        found == function_named(name@),
{
    if spelled(name, "log") {
        Some(Function::Log)
    } else if spelled(name, "ln") {
        Some(Function::Ln)
    } else {
        None
    }
}

/// Looks up a constant by its name.
pub fn constant_of(name: &String) -> (found: Option<Constant>)
    ensures
        found == constant_named(name@),
{
    if spelled(name, "e") {
        Some(Constant::E)
    } else if spelled(name, "pi") || spelled(name, "PI") {
        Some(Constant::Pi)
    } else {
        None
    }
}

/// The operator at `at`, if a token stands there and is one.
pub fn operator_at(tokens: &Vec<Token>, at: usize) -> (found: Option<char>)
    ensures
        found == symbol_at(lexemes(tokens@), at as int),
{
    if at < tokens.len() {
        match &tokens[at] {
            Token::Operator(symbol) => Some(*symbol),
            _ => None,
        }
    } else {
        None
    }
}

/// Tells whether the token at `at` is the operator `symbol`.
fn symbol_is(tokens: &Vec<Token>, at: usize, symbol: char) -> (yes: bool)
    ensures
        yes == is_symbol(lexemes(tokens@), at as int, symbol),
{
    match operator_at(tokens, at) {
        Some(found) => found == symbol,
        None => false,
    }
}

/// The operation that joins two terms at `at`, if one stands there.
fn additive_operation(tokens: &Vec<Token>, at: usize) -> (found: Option<Operation>)
    ensures
        found == additive_at(lexemes(tokens@), at as int),
{
    match operator_at(tokens, at) {
        Some(symbol) => {
            if symbol == '+' {
                Some(Operation::Add)
            } else if symbol == '-' {
                Some(Operation::Subtract)
            } else {
                None
            }
        },
        None => None,
    }
}

/// The operation that joins two factors at `at`, if one stands there.
fn multiplicative_operation(tokens: &Vec<Token>, at: usize) -> (found: Option<Operation>)
    ensures
        found == multiplicative_at(lexemes(tokens@), at as int),
{
    match operator_at(tokens, at) {
        Some(symbol) => {
            if symbol == '*' {
                Some(Operation::Multiply)
            } else if symbol == '/' {
                Some(Operation::Divide)
            } else if symbol == '%' {
                Some(Operation::Remainder)
            } else {
                None
            }
        },
        None => None,
    }
}

/// Reads a base at `at`.
pub fn parse_base(tokens: &Vec<Token>, at: usize) -> (read: (Expr, usize))
    ensures
        read.0@ == base(lexemes(tokens@), at as int).tree,
        read.1 == at + base(lexemes(tokens@), at as int).used,
        at <= tokens.len() ==> read.1 <= tokens.len(),
    decreases left(lexemes(tokens@), at as int), 0nat,
{
    if at >= tokens.len() {
        return (Expr::Zero, at);
    }
    match &tokens[at] {
        Token::Number(numeral) => (Expr::Number(numeral.clone()), at + 1),
        Token::Operator(symbol) => {
            if *symbol == '-' {
                let (operand, end) = parse_base(tokens, at + 1);
                (Expr::Negate(Box::new(operand)), end)
            } else if *symbol == '(' {
                let (inner, close) = parse_expression(tokens, at + 1);
                if symbol_is(tokens, close, ')') {
                    (inner, close + 1)
                } else if close < tokens.len() {
                    (Expr::Zero, close + 1)
                } else {
                    (Expr::Zero, close)
                }
            } else {
                (Expr::Zero, at + 1)
            }
        },
        Token::Function(name) => {
            match function_of(name) {
                Some(function) => {
                    let (argument, end) = parse_base(tokens, at + 1);
                    (Expr::Call(function, Box::new(argument)), end)
                },
                None => (Expr::Zero, at + 1),
            }
        },
        Token::Constant(name) => {
            match constant_of(name) {
                Some(constant) => (Expr::Constant(constant), at + 1),
                None => (Expr::Zero, at + 1),
            }
        },
    }
}

/// Reads a factor at `at`: a base, then its exponents and factorials. The
/// exponent of `^` is itself a factor, so that powers group from the right.
pub fn parse_factor(tokens: &Vec<Token>, at: usize) -> (read: (Expr, usize))
    ensures
        read.0@ == factor(lexemes(tokens@), at as int).tree,
        read.1 == at + factor(lexemes(tokens@), at as int).used,
        at <= tokens.len() ==> read.1 <= tokens.len(),
    decreases left(lexemes(tokens@), at as int), 1nat,
{
    let (first, start) = parse_base(tokens, at);
    let mut tree = first;
    let mut end = start;
    loop
        invariant
            at <= end,
            at <= tokens.len() ==> end <= tokens.len(),
            factor(lexemes(tokens@), at as int).tree == factor_rest(
                lexemes(tokens@),
                tree@,
                end as int,
            ).tree,
            at + factor(lexemes(tokens@), at as int).used == end + factor_rest(
                lexemes(tokens@),
                tree@,
                end as int,
            ).used,
        decreases left(lexemes(tokens@), end as int),
    {
        if symbol_is(tokens, end, '^') {
            let (exponent, after) = parse_factor(tokens, end + 1);
            tree = Expr::Binary(Operation::Power, Box::new(tree), Box::new(exponent));
            end = after;
        } else if symbol_is(tokens, end, '!') {
            tree = Expr::Factorial(Box::new(tree));
            end = end + 1;
        } else {
            return (tree, end);
        }
    }
}

/// Reads a term at `at`: factors joined with `*`, `/` and `%`, from the left.
pub fn parse_term(tokens: &Vec<Token>, at: usize) -> (read: (Expr, usize))
    ensures
        read.0@ == term(lexemes(tokens@), at as int).tree,
        read.1 == at + term(lexemes(tokens@), at as int).used,
        at <= tokens.len() ==> read.1 <= tokens.len(),
    decreases left(lexemes(tokens@), at as int), 2nat,
{
    let (first, start) = parse_factor(tokens, at);
    let mut tree = first;
    let mut end = start;
    loop
        invariant
            at <= end,
            at <= tokens.len() ==> end <= tokens.len(),
            term(lexemes(tokens@), at as int).tree == term_rest(
                lexemes(tokens@),
                tree@,
                end as int,
            ).tree,
            at + term(lexemes(tokens@), at as int).used == end + term_rest(
                lexemes(tokens@),
                tree@,
                end as int,
            ).used,
        decreases left(lexemes(tokens@), end as int),
    {
        match multiplicative_operation(tokens, end) {
            Some(operation) => {
                let (right, after) = parse_factor(tokens, end + 1);
                tree = Expr::Binary(operation, Box::new(tree), Box::new(right));
                end = after;
            },
            None => {
                return (tree, end);
            },
        }
    }
}

/// Reads an expression at `at`: terms joined with `+` and `-`, from the
/// left.
pub fn parse_expression(tokens: &Vec<Token>, at: usize) -> (read: (Expr, usize))
    ensures
        read.0@ == expression(lexemes(tokens@), at as int).tree,
        read.1 == at + expression(lexemes(tokens@), at as int).used,
        at <= tokens.len() ==> read.1 <= tokens.len(),
    decreases left(lexemes(tokens@), at as int), 3nat,
{
    let (first, start) = parse_term(tokens, at);
    let mut tree = first;
    let mut end = start;
    loop
        invariant
            at <= end,
            at <= tokens.len() ==> end <= tokens.len(),
            expression(lexemes(tokens@), at as int).tree == expression_rest(
                lexemes(tokens@),
                tree@,
                end as int,
            ).tree,
            at + expression(lexemes(tokens@), at as int).used == end + expression_rest(
                lexemes(tokens@),
                tree@,
                end as int,
            ).used,
        decreases left(lexemes(tokens@), end as int),
    {
        match additive_operation(tokens, end) {
            Some(operation) => {
                let (right, after) = parse_term(tokens, end + 1);
                tree = Expr::Binary(operation, Box::new(tree), Box::new(right));
                end = after;
            },
            None => {
                return (tree, end);
            },
        }
    }
}

} // verus!
