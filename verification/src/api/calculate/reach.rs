//! How far each level of the grammar reads: never beyond the end of the
//! lexemes, and always as far as it can.

use crate::api::calculate::grammar::{
    additive_at, base, expression, expression_rest, factor, factor_rest, is_symbol, left,
    multiplicative_at, symbol_at, term, term_rest, Reading,
};
use crate::api::calculate::token::Lexeme;
use crate::api::calculate::tree::{Operation, Tree};
use crate::api::calculate::writing::{expression_ends, factor_ends, term_ends};
use vstd::prelude::*;

verus! {

/// A base stays within the lexemes, and uses at least one if there is one.
pub proof fn lemma_base_reach(tokens: Seq<Lexeme>, at: int)
    requires
        0 <= at,
    ensures
        base(tokens, at).used <= left(tokens, at),
        at < tokens.len() ==> base(tokens, at).used >= 1,
    decreases left(tokens, at), 0nat,
{
    if at < tokens.len() {
        match tokens[at] {
            Lexeme::Operator(symbol) => {
                if symbol == '-' {
                    lemma_base_reach(tokens, at + 1);
                } else if symbol == '(' {
                    lemma_expression_reach(tokens, at + 1);
                }
            },
            Lexeme::Function(_) => {
                lemma_base_reach(tokens, at + 1);
            },
            _ => {},
        }
    }
}

/// What follows a factor stays within the lexemes and ends where neither
/// `^` nor `!` stands.
pub proof fn lemma_factor_rest_reach(tokens: Seq<Lexeme>, so_far: Tree, at: int)
    requires
        0 <= at,
    ensures
        factor_rest(tokens, so_far, at).used <= left(tokens, at),
        factor_ends(tokens, at + factor_rest(tokens, so_far, at).used),
    decreases left(tokens, at), 0nat,
{
    let symbol = symbol_at(tokens, at);
    if symbol == Some('^') {
        lemma_factor_reach(tokens, at + 1);
        let exponent = factor(tokens, at + 1);
        let power = Tree::Binary(
            Operation::Power,
            Box::new(so_far),
            Box::new(exponent.tree),
        );
        lemma_factor_rest_reach(tokens, power, at + 1 + exponent.used);
    } else if symbol == Some('!') {
        lemma_factor_rest_reach(tokens, Tree::Factorial(Box::new(so_far)), at + 1);
    }
}

/// A factor stays within the lexemes, uses at least one if there is one,
/// and ends where neither `^` nor `!` stands.
pub proof fn lemma_factor_reach(tokens: Seq<Lexeme>, at: int)
    requires
        0 <= at,
    ensures
        factor(tokens, at).used <= left(tokens, at),
        at < tokens.len() ==> factor(tokens, at).used >= 1,
        factor_ends(tokens, at + factor(tokens, at).used),
    decreases left(tokens, at), 1nat,
{
    lemma_base_reach(tokens, at);
    let first = base(tokens, at);
    lemma_factor_rest_reach(tokens, first.tree, at + first.used);
}

/// What follows a term stays within the lexemes and ends where a term ends.
pub proof fn lemma_term_rest_reach(tokens: Seq<Lexeme>, so_far: Tree, at: int)
    requires
        0 <= at,
        factor_ends(tokens, at),
    ensures
        term_rest(tokens, so_far, at).used <= left(tokens, at),
        term_ends(tokens, at + term_rest(tokens, so_far, at).used),
    decreases left(tokens, at), 0nat,
{
    match multiplicative_at(tokens, at) {
        Some(operation) => {
            lemma_factor_reach(tokens, at + 1);
            let right = factor(tokens, at + 1);
            let joined = Tree::Binary(operation, Box::new(so_far), Box::new(right.tree));
            lemma_term_rest_reach(tokens, joined, at + 1 + right.used);
        },
        None => {},
    }
}

/// A term stays within the lexemes, uses at least one if there is one, and
/// ends where none of `^ ! * / %` stands.
pub proof fn lemma_term_reach(tokens: Seq<Lexeme>, at: int)
    requires
        0 <= at,
    ensures
        term(tokens, at).used <= left(tokens, at),
        at < tokens.len() ==> term(tokens, at).used >= 1,
        term_ends(tokens, at + term(tokens, at).used),
    decreases left(tokens, at), 2nat,
{
    lemma_factor_reach(tokens, at);
    let first = factor(tokens, at);
    lemma_term_rest_reach(tokens, first.tree, at + first.used);
}

/// What follows an expression stays within the lexemes and ends where an
/// expression ends.
pub proof fn lemma_expression_rest_reach(tokens: Seq<Lexeme>, so_far: Tree, at: int)
    requires
        0 <= at,
        term_ends(tokens, at),
    ensures
        expression_rest(tokens, so_far, at).used <= left(tokens, at),
        expression_ends(tokens, at + expression_rest(tokens, so_far, at).used),
    decreases left(tokens, at), 0nat,
{
    match additive_at(tokens, at) {
        Some(operation) => {
            lemma_term_reach(tokens, at + 1);
            let right = term(tokens, at + 1);
            let joined = Tree::Binary(operation, Box::new(so_far), Box::new(right.tree));
            lemma_expression_rest_reach(tokens, joined, at + 1 + right.used);
        },
        None => {},
    }
}

/// An expression stays within the lexemes, uses at least one if there is
/// one, and ends where none of `^ ! * / % + -` stands: it is read as far as
/// it goes.
pub proof fn lemma_expression_reach(tokens: Seq<Lexeme>, at: int)
    requires
        0 <= at,
    ensures
        expression(tokens, at).used <= left(tokens, at),
        at < tokens.len() ==> expression(tokens, at).used >= 1,
        expression_ends(tokens, at + expression(tokens, at).used),
    decreases left(tokens, at), 3nat,
{
    lemma_term_reach(tokens, at);
    let first = term(tokens, at);
    lemma_expression_rest_reach(tokens, first.tree, at + first.used);
}

/// Powers group from the right: where `^` follows a base, the power is that
/// base raised to the whole factor behind the `^`, and the factor ends with
/// it.
pub proof fn lemma_power_groups_right(tokens: Seq<Lexeme>, at: int)
    requires
        0 <= at,
        is_symbol(tokens, at + base(tokens, at).used, '^'),
    ensures
        factor(tokens, at).tree == Tree::Binary(
            Operation::Power,
            Box::new(base(tokens, at).tree),
            Box::new(factor(tokens, at + base(tokens, at).used + 1).tree),
        ),
        factor(tokens, at).used == base(tokens, at).used + 1 + factor(
            tokens,
            at + base(tokens, at).used + 1,
        ).used,
{
    let first = base(tokens, at);
    let middle = at + first.used;
    lemma_factor_reach(tokens, middle + 1);
    let exponent = factor(tokens, middle + 1);
    let power = Tree::Binary(
        Operation::Power,
        Box::new(first.tree),
        Box::new(exponent.tree),
    );
    assert(factor_rest(tokens, power, middle + 1 + exponent.used) == (Reading {
        tree: power,
        used: 0,
    }));
}

} // verus!
