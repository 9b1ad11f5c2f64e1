//! Arithmetic expressions: numerals, tokens and expression trees.
//!
//! An expression is first split into tokens and then parsed, by recursive
//! descent, into a tree. Parsing never fails: whatever cannot be read counts
//! as zero. The only failure is a numeral that is not well formed.

pub mod grammar;
pub mod numeral;
pub mod parser;
pub mod reach;
pub mod spelling;
pub mod token;
pub mod tree;
pub mod whole;
pub mod writing;

use crate::api::calculate::grammar::expression;
use crate::api::calculate::numeral::{well_formed, MalformedNumeral};
use crate::api::calculate::parser::parse_expression;
use crate::api::calculate::spelling::{blank, lemma_scan_spelled, plain, separated, spelled};
use crate::api::calculate::token::{
    first_malformed, is_malformed, lemma_first_malformed_after, scan, tokenize, Lexeme,
};
use crate::api::calculate::tree::{Expr, Tree};
use crate::api::calculate::writing::{
    bare, left_rank, lemma_round_trip, name_of_function, proper, rank, right_rank, symbol_of,
    written,
};
use vstd::prelude::*;

verus! {

/// The tree that the text of an expression stands for: its lexemes, read as
/// one expression from the first on. Lexemes that are left over when the
/// expression has been read do not count.
pub open spec fn meaning(text: Seq<char>) -> Tree {
    expression(scan(text, 0), 0).tree
}

/// Whether `parsed` is what parsing `text` comes to: the tree that the text
/// stands for, unless one of its numerals is malformed, and else the first
/// such numeral.
pub open spec fn is_parse_of(text: Seq<char>, parsed: Result<Expr, MalformedNumeral>) -> bool {
    match parsed {
        Ok(expr) => first_malformed(scan(text, 0)) is None && expr@ == meaning(text),
        Err(error) => first_malformed(scan(text, 0)) == Some(error.text@),
    }
}

/// Parses an expression.
///
/// Gives the tree that the text stands for, unless one of its numerals is
/// malformed: then the first such numeral is reported.
pub fn parse(expression: &str) -> (parsed: Result<Expr, MalformedNumeral>)
    ensures
        is_parse_of(expression@, parsed),
{
    match tokenize(expression) {
        Ok(tokens) => {
            let (expr, _) = parse_expression(&tokens, 0);
            Ok(expr)
        },
        Err(error) => Err(error),
    }
}

/// Parsing depends on the text alone: whenever the same text is parsed
/// twice, both times fail with the same numeral or both give the same tree.
pub proof fn lemma_parse_is_determined(
    text: Seq<char>,
    first: Result<Expr, MalformedNumeral>,
    second: Result<Expr, MalformedNumeral>,
)
    requires
        is_parse_of(text, first),
        is_parse_of(text, second),
    ensures
        match (first, second) {
            (Ok(one), Ok(other)) => one@ == other@,
            (Err(one), Err(other)) => one.text@ == other.text@,
            _ => false,
        },
{
}

/// Whether a tree is made of well-formed numerals, constants, signs,
/// operations, factorials and calls only.
pub open spec fn sound(tree: Tree) -> bool
    decreases tree,
{
    match tree {
        Tree::Number(text) => well_formed(text),
        Tree::Constant(_) => true,
        Tree::Zero => false,
        Tree::Negate(operand) => sound(*operand),
        Tree::Binary(_, left, right) => sound(*left) && sound(*right),
        Tree::Factorial(operand) => sound(*operand),
        Tree::Call(_, argument) => sound(*argument),
    }
}

/// Whether every one of `lexemes` is plain, none is malformed, and no two
/// numbers stand next to each other.
pub open spec fn legible(lexemes: Seq<Lexeme>) -> bool {
    &&& forall|i: int|
        0 <= i < lexemes.len() ==> plain(#[trigger] lexemes[i]) && !is_malformed(lexemes[i])
    &&& separated(lexemes)
}

/// Legible lexemes stay legible when they are joined by a lexeme that is
/// plain and no number.
pub proof fn lemma_joined_legibly(before: Seq<Lexeme>, joint: Lexeme, after: Seq<Lexeme>)
    requires
        legible(before),
        legible(after),
        plain(joint),
        !(joint is Number),
    ensures
        legible(before + seq![joint] + after),
{
    let whole = before + seq![joint] + after;
    assert forall|i: int| 0 <= i < whole.len() implies plain(#[trigger] whole[i]) && !is_malformed(
        whole[i],
    ) by {
        if i < before.len() {
            assert(whole[i] == before[i]);
        } else if i > before.len() {
            assert(whole[i] == after[i - before.len() - 1]);
        }
    }
    assert forall|i: int| 0 <= i < whole.len() - 1 implies !(#[trigger] whole[i] is Number
        && whole[i + 1] is Number) by {
        if i + 1 < before.len() {
            assert(whole[i] == before[i] && whole[i + 1] == before[i + 1]);
        } else if i > before.len() {
            let k = i - before.len() - 1;
            assert(whole[i] == after[k] && whole[i + 1] == after[k + 1]);
        } else {
            assert(whole[before.len() as int] == joint);
        }
    }
}

/// A sound tree is written with legible lexemes, and is proper.
pub proof fn lemma_written_legibly(tree: Tree, needed: nat)
    requires
        sound(tree),
    ensures
        proper(tree),
        legible(bare(tree)),
        legible(written(tree, needed)),
    decreases tree,
{
    let none = Seq::<Lexeme>::empty();
    reveal_strlit("log");
    reveal_strlit("ln");
    match tree {
        Tree::Number(text) => {},
        Tree::Constant(_) => {},
        Tree::Zero => {},
        Tree::Negate(operand) => {
            lemma_written_legibly(*operand, 4);
            let sign = Lexeme::Operator('-');
            lemma_joined_legibly(none, sign, written(*operand, 4));
            assert(none + seq![sign] + written(*operand, 4) =~= bare(tree));
        },
        Tree::Binary(operation, left, right) => {
            lemma_written_legibly(*left, left_rank(operation));
            lemma_written_legibly(*right, right_rank(operation));
            lemma_joined_legibly(
                written(*left, left_rank(operation)),
                Lexeme::Operator(symbol_of(operation)),
                written(*right, right_rank(operation)),
            );
        },
        Tree::Factorial(operand) => {
            lemma_written_legibly(*operand, 3);
            let mark = Lexeme::Operator('!');
            lemma_joined_legibly(written(*operand, 3), mark, none);
            assert(written(*operand, 3) + seq![mark] + none =~= bare(tree));
        },
        Tree::Call(function, argument) => {
            lemma_written_legibly(*argument, 4);
            let name = Lexeme::Function(name_of_function(function));
            lemma_joined_legibly(none, name, written(*argument, 4));
            assert(none + seq![name] + written(*argument, 4) =~= bare(tree));
        },
    }
    if rank(tree) < needed {
        let open = Lexeme::Operator('(');
        let close = Lexeme::Operator(')');
        lemma_joined_legibly(none, open, bare(tree));
        assert(none + seq![open] + bare(tree) =~= seq![open] + bare(tree));
        lemma_joined_legibly(seq![open] + bare(tree), close, none);
        assert(seq![open] + bare(tree) + seq![close] + none =~= written(tree, needed));
    }
}

/// Parsing reads back what was written: the text that spells out a sound
/// tree, with nothing or with blank characters between its lexemes, holds no
/// malformed numeral, and its meaning is that tree. So [`parse`] gives the
/// tree back from this text: sums, products and powers group as they were
/// written, and parentheses stand exactly where the grouping needs them.
pub proof fn lemma_parse_reads_back(tree: Tree, gap: Seq<char>)
    requires
        sound(tree),
        forall|i: int| 0 <= i < gap.len() ==> blank(#[trigger] gap[i]),
    ensures
        first_malformed(scan(spelled(written(tree, 0), gap), 0)) is None,
        meaning(spelled(written(tree, 0), gap)) == tree,
{
    let lexemes = written(tree, 0);
    lemma_written_legibly(tree, 0);
    lemma_scan_spelled(lexemes, gap);
    lemma_round_trip(tree);
    lemma_first_malformed_after(lexemes, Seq::empty());
    assert(lexemes + Seq::<Lexeme>::empty() =~= lexemes);
}

} // verus!
