//! Writing a tree down as lexemes, and the proof that the grammar reads back
//! what was written.
//!
//! A tree is written with as few parentheses as the grammar allows: an
//! operand is put in parentheses only where it binds less tightly than the
//! place it stands in asks for.

use crate::api::calculate::grammar::{
    additive_at, base, constant_named, expression, expression_rest, factor, factor_rest,
    function_named, is_symbol, multiplicative_at, symbol_at, term, term_rest, Reading,
};
use crate::api::calculate::token::Lexeme;
use crate::api::calculate::tree::{Constant, Function, Operation, Tree};
use vstd::prelude::*;

verus! {

/// The character that an operation is written with.
pub open spec fn symbol_of(operation: Operation) -> char {
    match operation {
        Operation::Add => '+',
        Operation::Subtract => '-',
        Operation::Multiply => '*',
        Operation::Divide => '/',
        Operation::Remainder => '%',
        Operation::Power => '^',
    }
}

/// The name that a function is written with.
pub open spec fn name_of_function(function: Function) -> Seq<char> {
    match function {
        Function::Log => "log"@,
        Function::Ln => "ln"@,
    }
}

/// The name that a constant is written with.
pub open spec fn name_of_constant(constant: Constant) -> Seq<char> {
    match constant {
        Constant::E => "e"@,
        Constant::Pi => "pi"@,
    }
}

/// How tightly an operation binds: sums 0, products 1, powers 2.
pub open spec fn strength(operation: Operation) -> nat {
    match operation {
        Operation::Add | Operation::Subtract => 0,
        Operation::Multiply | Operation::Divide | Operation::Remainder => 1,
        Operation::Power => 2,
    }
}

/// How tightly a tree holds together: sums 0, products 1, powers 2,
/// factorials 3, and everything that is a base by itself 4.
pub open spec fn rank(tree: Tree) -> nat {
    match tree {
        Tree::Binary(operation, _, _) => strength(operation),
        Tree::Factorial(_) => 3,
        _ => 4,
    }
}

/// The rank that the left operand of an operation must have to stand
/// without parentheses. Sums and products group from the left, so their
/// left operand may be of their own kind; the base of a power may carry
/// factorials only.
pub open spec fn left_rank(operation: Operation) -> nat {
    match operation {
        Operation::Power => 3,
        _ => strength(operation),
    }
}

/// The rank that the right operand of an operation must have to stand
/// without parentheses. Powers group from the right, so an exponent may be
/// a power itself; the right operand of a sum or a product must bind more
/// tightly than the operation.
pub open spec fn right_rank(operation: Operation) -> nat {
    match operation {
        Operation::Power => 2,
        _ => strength(operation) + 1,
    }
}

/// Whether a tree holds no zero that stands for something unreadable.
pub open spec fn proper(tree: Tree) -> bool
    decreases tree,
{
    match tree {
        Tree::Number(_) => true,
        Tree::Constant(_) => true,
        Tree::Zero => false,
        Tree::Negate(operand) => proper(*operand),
        Tree::Binary(_, left, right) => proper(*left) && proper(*right),
        Tree::Factorial(operand) => proper(*operand),
        Tree::Call(_, argument) => proper(*argument),
    }
}

/// A tree written down without parentheses around the whole.
pub open spec fn bare(tree: Tree) -> Seq<Lexeme>
    decreases tree, 0nat,
{
    match tree {
        Tree::Number(text) => seq![Lexeme::Number(text)],
        Tree::Constant(constant) => seq![Lexeme::Constant(name_of_constant(constant))],
        Tree::Zero => Seq::empty(),
        Tree::Negate(operand) => seq![Lexeme::Operator('-')] + written(*operand, 4),
        Tree::Binary(operation, left, right) => written(*left, left_rank(operation))
            + seq![Lexeme::Operator(symbol_of(operation))] + written(
            *right,
            right_rank(operation),
        ),
        Tree::Factorial(operand) => written(*operand, 3) + seq![Lexeme::Operator('!')],
        Tree::Call(function, argument) => seq![Lexeme::Function(name_of_function(function))]
            + written(*argument, 4),
    }
}

/// A tree written down for a place that asks for rank `needed`: in
/// parentheses if its own rank is less.
pub open spec fn written(tree: Tree, needed: nat) -> Seq<Lexeme>
    decreases tree, 1nat,
{
    if rank(tree) < needed {
        seq![Lexeme::Operator('(')] + bare(tree) + seq![Lexeme::Operator(')')]
    } else {
        bare(tree)
    }
}

/// Whether the lexemes `text` stand in `tokens` from position `at` on.
pub open spec fn spells(tokens: Seq<Lexeme>, at: int, text: Seq<Lexeme>) -> bool {
    &&& 0 <= at
    &&& at + text.len() <= tokens.len()
    &&& tokens.subrange(at, at + text.len()) == text
}

/// Whether no `^` and no `!` stands at `at`: a factor that ends there goes
/// no further.
pub open spec fn factor_ends(tokens: Seq<Lexeme>, at: int) -> bool {
    !is_symbol(tokens, at, '^') && !is_symbol(tokens, at, '!')
}

/// Whether a term that ends at `at` goes no further.
pub open spec fn term_ends(tokens: Seq<Lexeme>, at: int) -> bool {
    factor_ends(tokens, at) && multiplicative_at(tokens, at) is None
}

/// Whether an expression that ends at `at` goes no further.
pub open spec fn expression_ends(tokens: Seq<Lexeme>, at: int) -> bool {
    term_ends(tokens, at) && additive_at(tokens, at) is None
}

/// A reading that began `before` lexemes earlier.
pub open spec fn later(before: nat, reading: Reading) -> Reading {
    Reading { tree: reading.tree, used: before + reading.used }
}

/// What it means that `tree`, written over `length` lexemes from `at` on,
/// is read back at a place that asks for rank `needed`.
///
/// A base is read whole. So is a factor that stands where a power is allowed,
/// since nothing that could continue it follows. A factor that may carry
/// more factorials, a term and an expression are read up to their end, and
/// whatever follows is joined on to them as to any other left operand.
pub open spec fn reads_back(
    tokens: Seq<Lexeme>,
    at: int,
    tree: Tree,
    needed: nat,
    length: nat,
) -> bool {
    let end = at + length;
    if needed >= 4 {
        base(tokens, at) == (Reading { tree, used: length })
    } else if needed == 3 {
        factor(tokens, at) == later(length, factor_rest(tokens, tree, end))
    } else if needed == 2 {
        factor(tokens, at) == (Reading { tree, used: length })
    } else if needed == 1 {
        term(tokens, at) == later(length, term_rest(tokens, tree, end))
    } else {
        expression(tokens, at) == later(length, expression_rest(tokens, tree, end))
    }
}

/// What may follow a tree that was written for rank `needed`: no `^` and no
/// `!` behind an exponent, a product or a sum, and no `*`, `/` or `%` behind
/// a sum.
pub open spec fn may_follow(tokens: Seq<Lexeme>, end: int, needed: nat) -> bool {
    &&& needed <= 2 ==> factor_ends(tokens, end)
    &&& needed == 0 ==> multiplicative_at(tokens, end) is None
}

/// The parts of a text that stands in the lexemes stand there too, one
/// behind the other.
pub proof fn lemma_spells_parts(
    tokens: Seq<Lexeme>,
    at: int,
    first: Seq<Lexeme>,
    second: Seq<Lexeme>,
)
    requires
        spells(tokens, at, first + second),
    ensures
        spells(tokens, at, first),
        spells(tokens, at + first.len(), second),
{
    let whole = first + second;
    let stretch = tokens.subrange(at, at + whole.len());
    assert forall|i: int| 0 <= i < first.len() implies tokens.subrange(at, at + first.len())[i]
        == first[i] by {
        assert(stretch[i] == whole[i]);
    }
    assert(tokens.subrange(at, at + first.len()) =~= first);
    assert forall|i: int| 0 <= i < second.len() implies tokens.subrange(
        at + first.len(),
        at + first.len() + second.len(),
    )[i] == second[i] by {
        assert(stretch[first.len() + i] == whole[first.len() + i]);
    }
    assert(tokens.subrange(at + first.len(), at + first.len() + second.len()) =~= second);
}

/// A single lexeme that stands in the lexemes is the one at its position.
pub proof fn lemma_spells_one(tokens: Seq<Lexeme>, at: int, lexeme: Lexeme)
    requires
        spells(tokens, at, seq![lexeme]),
    ensures
        0 <= at < tokens.len(),
        tokens[at] == lexeme,
{
    assert(tokens.subrange(at, at + 1)[0] == seq![lexeme][0]);
}

/// Every function and every constant is found again by the name it is
/// written with.
pub proof fn lemma_names(function: Function, constant: Constant)
    ensures
        function_named(name_of_function(function)) == Some(function),
        constant_named(name_of_constant(constant)) == Some(constant),
{
    reveal_strlit("log");
    reveal_strlit("ln");
    reveal_strlit("e");
    reveal_strlit("pi");
    assert("ln"@.len() != "log"@.len());
    assert("pi"@.len() != "e"@.len());
}

/// What is read back for one rank is read back for every lower rank that
/// the lexemes behind it allow.
pub proof fn lemma_lower(
    tokens: Seq<Lexeme>,
    at: int,
    tree: Tree,
    from: nat,
    to: nat,
    length: nat,
)
    requires
        to <= from <= 4,
        reads_back(tokens, at, tree, from, length),
        may_follow(tokens, at + length, to),
    ensures
        reads_back(tokens, at, tree, to, length),
    decreases from - to,
{
    if to < from {
        let end = at + length;
        let next = (from - 1) as nat;
        if from == 4 {
            assert(factor(tokens, at) == later(length, factor_rest(tokens, tree, end)));
        } else if from == 3 {
            assert(factor_rest(tokens, tree, end) == (Reading { tree, used: 0 }));
        } else if from == 2 {
            assert(term(tokens, at) == later(length, term_rest(tokens, tree, end)));
        } else {
            assert(term_rest(tokens, tree, end) == (Reading { tree, used: 0 }));
            assert(expression(tokens, at) == later(length, expression_rest(tokens, tree, end)));
        }
        assert(reads_back(tokens, at, tree, next, length));
        lemma_lower(tokens, at, tree, next, to, length);
    }
}

/// A sign before a base that is read back makes a negated base that is read
/// back.
proof fn lemma_negated(tokens: Seq<Lexeme>, at: int, operand: Tree, length: nat)
    requires
        is_symbol(tokens, at, '-'),
        reads_back(tokens, at + 1, operand, 4, length),
    ensures
        reads_back(tokens, at, Tree::Negate(Box::new(operand)), 4, length + 1),
{
}

/// A function's name before a base that is read back makes a call that is
/// read back.
proof fn lemma_called(
    tokens: Seq<Lexeme>,
    at: int,
    function: Function,
    argument: Tree,
    length: nat,
)
    requires
        0 <= at < tokens.len(),
        tokens[at] == Lexeme::Function(name_of_function(function)),
        reads_back(tokens, at + 1, argument, 4, length),
    ensures
        reads_back(tokens, at, Tree::Call(function, Box::new(argument)), 4, length + 1),
{
    lemma_names(function, Constant::E);
}

/// A `!` behind a factor that is read back makes a factorial that is read
/// back.
proof fn lemma_marked(tokens: Seq<Lexeme>, at: int, operand: Tree, length: nat)
    requires
        reads_back(tokens, at, operand, 3, length),
        is_symbol(tokens, at + length, '!'),
    ensures
        reads_back(tokens, at, Tree::Factorial(Box::new(operand)), 3, length + 1),
{
    let middle = at + length;
    let tree = Tree::Factorial(Box::new(operand));
    assert(factor_rest(tokens, operand, middle) == later(
        1,
        factor_rest(tokens, tree, middle + 1),
    ));
}

/// A base and an exponent that are read back, with `^` between them, make a
/// power that is read back.
proof fn lemma_raised(
    tokens: Seq<Lexeme>,
    at: int,
    left: Tree,
    right: Tree,
    first: nat,
    second: nat,
)
    requires
        reads_back(tokens, at, left, 3, first),
        is_symbol(tokens, at + first, '^'),
        reads_back(tokens, at + first + 1, right, 2, second),
        factor_ends(tokens, at + first + 1 + second),
    ensures
        reads_back(
            tokens,
            at,
            Tree::Binary(Operation::Power, Box::new(left), Box::new(right)),
            2,
            first + 1 + second,
        ),
{
    let middle = at + first;
    let end = middle + 1 + second;
    let tree = Tree::Binary(Operation::Power, Box::new(left), Box::new(right));
    assert(factor_rest(tokens, tree, end) == (Reading { tree, used: 0 }));
    assert(factor_rest(tokens, left, middle) == (Reading { tree, used: second + 1 }));
}

/// Two operands that are read back, with `*`, `/` or `%` between them, make
/// a product that is read back.
proof fn lemma_multiplied(
    tokens: Seq<Lexeme>,
    at: int,
    operation: Operation,
    left: Tree,
    right: Tree,
    first: nat,
    second: nat,
)
    requires
        strength(operation) == 1,
        reads_back(tokens, at, left, 1, first),
        symbol_at(tokens, at + first) == Some(symbol_of(operation)),
        reads_back(tokens, at + first + 1, right, 2, second),
    ensures
        reads_back(
            tokens,
            at,
            Tree::Binary(operation, Box::new(left), Box::new(right)),
            1,
            first + 1 + second,
        ),
{
    let middle = at + first;
    let end = middle + 1 + second;
    let tree = Tree::Binary(operation, Box::new(left), Box::new(right));
    assert(multiplicative_at(tokens, middle) == Some(operation));
    assert(term_rest(tokens, left, middle) == later(second + 1, term_rest(tokens, tree, end)));
}

/// Two operands that are read back, with `+` or `-` between them, make a sum
/// that is read back.
proof fn lemma_added(
    tokens: Seq<Lexeme>,
    at: int,
    operation: Operation,
    left: Tree,
    right: Tree,
    first: nat,
    second: nat,
)
    requires
        strength(operation) == 0,
        reads_back(tokens, at, left, 0, first),
        symbol_at(tokens, at + first) == Some(symbol_of(operation)),
        reads_back(tokens, at + first + 1, right, 1, second),
        multiplicative_at(tokens, at + first + 1 + second) is None,
    ensures
        reads_back(
            tokens,
            at,
            Tree::Binary(operation, Box::new(left), Box::new(right)),
            0,
            first + 1 + second,
        ),
{
    let middle = at + first;
    let end = middle + 1 + second;
    let tree = Tree::Binary(operation, Box::new(left), Box::new(right));
    assert(additive_at(tokens, middle) == Some(operation));
    assert(term_rest(tokens, right, end) == (Reading { tree: right, used: 0 }));
    assert(term(tokens, middle + 1) == (Reading { tree: right, used: second }));
    assert(expression_rest(tokens, left, middle) == later(
        second + 1,
        expression_rest(tokens, tree, end),
    ));
}

/// An expression that is read back, between `(` and `)`, is a base that is
/// read back.
proof fn lemma_enclosed(tokens: Seq<Lexeme>, at: int, tree: Tree, length: nat)
    requires
        is_symbol(tokens, at, '('),
        reads_back(tokens, at + 1, tree, 0, length),
        is_symbol(tokens, at + 1 + length, ')'),
    ensures
        reads_back(tokens, at, tree, 4, length + 2),
{
    let end = at + 1 + length;
    assert(expression_rest(tokens, tree, end) == (Reading { tree, used: 0 }));
    assert(expression(tokens, at + 1) == (Reading { tree, used: length }));
}

/// A tree that is written without parentheses around the whole is read
/// back at the place that asks for its own rank.
pub proof fn lemma_bare_reads_back(tokens: Seq<Lexeme>, at: int, tree: Tree)
    requires
        proper(tree),
        spells(tokens, at, bare(tree)),
        may_follow(tokens, at + bare(tree).len(), rank(tree)),
    ensures
        reads_back(tokens, at, tree, rank(tree), bare(tree).len()),
    decreases tree, 0nat,
{
    match tree {
        Tree::Number(text) => {
            lemma_spells_one(tokens, at, Lexeme::Number(text));
        },
        Tree::Constant(constant) => {
            lemma_spells_one(tokens, at, Lexeme::Constant(name_of_constant(constant)));
            lemma_names(Function::Log, constant);
        },
        Tree::Zero => {},
        Tree::Negate(operand) => {
            let sign = seq![Lexeme::Operator('-')];
            let inner = written(*operand, 4);
            lemma_spells_parts(tokens, at, sign, inner);
            lemma_spells_one(tokens, at, Lexeme::Operator('-'));
            lemma_written_reads_back(tokens, at + 1, *operand, 4);
            lemma_negated(tokens, at, *operand, inner.len());
        },
        Tree::Call(function, argument) => {
            let name = seq![Lexeme::Function(name_of_function(function))];
            let inner = written(*argument, 4);
            lemma_spells_parts(tokens, at, name, inner);
            lemma_spells_one(tokens, at, Lexeme::Function(name_of_function(function)));
            lemma_written_reads_back(tokens, at + 1, *argument, 4);
            lemma_called(tokens, at, function, *argument, inner.len());
        },
        Tree::Factorial(operand) => {
            let inner = written(*operand, 3);
            let mark = seq![Lexeme::Operator('!')];
            lemma_spells_parts(tokens, at, inner, mark);
            lemma_spells_one(tokens, at + inner.len(), Lexeme::Operator('!'));
            lemma_written_reads_back(tokens, at, *operand, 3);
            lemma_marked(tokens, at, *operand, inner.len());
        },
        Tree::Binary(operation, left, right) => {
            let first = written(*left, left_rank(operation));
            let sign = seq![Lexeme::Operator(symbol_of(operation))];
            let second = written(*right, right_rank(operation));
            lemma_spells_parts(tokens, at, first + sign, second);
            lemma_spells_parts(tokens, at, first, sign);
            let middle = at + first.len();
            lemma_spells_one(tokens, middle, Lexeme::Operator(symbol_of(operation)));
            assert(symbol_at(tokens, middle) == Some(symbol_of(operation)));
            lemma_written_reads_back(tokens, at, *left, left_rank(operation));
            lemma_written_reads_back(tokens, middle + 1, *right, right_rank(operation));
            if strength(operation) == 2 {
                lemma_raised(tokens, at, *left, *right, first.len(), second.len());
            } else if strength(operation) == 1 {
                lemma_multiplied(tokens, at, operation, *left, *right, first.len(), second.len());
            } else {
                lemma_added(tokens, at, operation, *left, *right, first.len(), second.len());
            }
        },
    }
}

/// A tree that is written for a place that asks for rank `needed` is read
/// back there, whatever stands before it, if what stands behind it may
/// follow.
pub proof fn lemma_written_reads_back(tokens: Seq<Lexeme>, at: int, tree: Tree, needed: nat)
    requires
        proper(tree),
        needed <= 4,
        spells(tokens, at, written(tree, needed)),
        may_follow(tokens, at + written(tree, needed).len(), needed),
    ensures
        reads_back(tokens, at, tree, needed, written(tree, needed).len()),
    decreases tree, 1nat,
{
    if rank(tree) < needed {
        let open = seq![Lexeme::Operator('(')];
        let close = seq![Lexeme::Operator(')')];
        let inner = bare(tree);
        lemma_spells_parts(tokens, at, open + inner, close);
        lemma_spells_parts(tokens, at, open, inner);
        lemma_spells_one(tokens, at, Lexeme::Operator('('));
        let end = at + 1 + inner.len();
        lemma_spells_one(tokens, end, Lexeme::Operator(')'));
        assert(symbol_at(tokens, end) == Some(')'));
        lemma_bare_reads_back(tokens, at + 1, tree);
        lemma_lower(tokens, at + 1, tree, rank(tree), 0, inner.len());
        lemma_enclosed(tokens, at, tree, inner.len());
        lemma_lower(tokens, at, tree, 4, needed, written(tree, needed).len());
    } else {
        lemma_bare_reads_back(tokens, at, tree);
        lemma_lower(tokens, at, tree, rank(tree), needed, bare(tree).len());
    }
}

/// Reading back what was written: a proper tree, written down as an
/// expression, is the tree that the grammar reads from these lexemes, and
/// all of them are used.
pub proof fn lemma_round_trip(tree: Tree)
    requires
        proper(tree),
    ensures
        expression(written(tree, 0), 0) == (Reading { tree, used: written(tree, 0).len() }),
{
    let tokens = written(tree, 0);
    assert(tokens.subrange(0, tokens.len() as int) =~= tokens);
    lemma_written_reads_back(tokens, 0, tree, 0);
}

} // verus!
