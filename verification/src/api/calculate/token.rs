//! Tokens, and the scanner that splits an expression into them.

use crate::api::calculate::numeral::{
    characters, is_numeral_char, numeral_char, well_formed, MalformedNumeral, Numeral,
};
use vstd::prelude::*;

verus! {

/// What a token stands for: the mathematical value of a [`Token`].
pub enum Lexeme {
    /// A run of digits and points, as written.
    Number(Seq<char>),
    /// A single operator character.
    Operator(char),
    /// The name of a function.
    Function(Seq<char>),
    /// The name of a constant.
    Constant(Seq<char>),
}

/// An atomic unit of an expression.
#[derive(Debug, Clone, PartialEq, Eq)]
pub enum Token {
    /// A numeric literal.
    Number(Numeral),
    /// One of `+ - * / ^ ( ) % !`.
    Operator(char),
    /// A function name: `log` or `ln`.
    Function(String),
    /// A constant name: `e`, `pi` or `PI`.
    Constant(String),
}

impl View for Token {
    type V = Lexeme;

    open spec fn view(&self) -> Lexeme {
        match self {
            Token::Number(numeral) => Lexeme::Number(numeral@),
            Token::Operator(symbol) => Lexeme::Operator(*symbol),
            Token::Function(name) => Lexeme::Function(name@),
            Token::Constant(name) => Lexeme::Constant(name@),
        }
    }
}

/// The lexemes that a sequence of tokens stands for.
pub open spec fn lexemes(tokens: Seq<Token>) -> Seq<Lexeme> {
    Seq::new(tokens.len(), |i: int| tokens[i]@)
}

/// The characters that are operators by themselves.
pub open spec fn is_operator(c: char) -> bool {
    c == '+' || c == '-' || c == '*' || c == '/' || c == '^' || c == '(' || c == ')' || c == '%'
        || c == '!'
}

/// Whether the character of `text` at `at` exists and is `c`.
pub open spec fn has(text: Seq<char>, at: int, c: char) -> bool {
    0 <= at < text.len() && text[at] == c
}

/// The longest run of digits and points that starts at `from`.
pub open spec fn numeral_run(text: Seq<char>, from: int) -> Seq<char>
    decreases text.len() - from,
{
    if 0 <= from < text.len() && is_numeral_char(text[from]) {
        seq![text[from]] + numeral_run(text, from + 1)
    } else {
        Seq::empty()
    }
}

/// What begins at `from`, for `0 <= from < text.len()`: the lexeme that is
/// read there, if any, and the number of characters that are used up.
///
/// Digits and points are taken as far as they go. An `l` takes a following
/// `o` or `n` with it, and `lo` a following `g`; only `log` and `ln` give a
/// lexeme. An `e` is always the constant. `p` and `P` give a constant only
/// together with `i` and `I`. Every other character is passed over.
pub open spec fn lexeme_at(text: Seq<char>, from: int) -> (Option<Lexeme>, int) {
    let c = text[from];
    if is_numeral_char(c) {
        let run = numeral_run(text, from);
        (Some(Lexeme::Number(run)), run.len() as int)
    } else if is_operator(c) {
        (Some(Lexeme::Operator(c)), 1)
    } else if c == 'l' && has(text, from + 1, 'o') && has(text, from + 2, 'g') {
        (Some(Lexeme::Function("log"@)), 3)
    } else if c == 'l' && has(text, from + 1, 'o') {
        (None, 2)
    } else if c == 'l' && has(text, from + 1, 'n') {
        (Some(Lexeme::Function("ln"@)), 2)
    } else if c == 'e' {
        (Some(Lexeme::Constant("e"@)), 1)
    } else if c == 'p' && has(text, from + 1, 'i') {
        (Some(Lexeme::Constant("pi"@)), 2)
    } else if c == 'P' && has(text, from + 1, 'I') {
        (Some(Lexeme::Constant("PI"@)), 2)
    } else {
        (None, 1)
    }
}

/// The lexemes of `text` from position `from` on, left to right.
pub open spec fn scan(text: Seq<char>, from: int) -> Seq<Lexeme>
    decreases text.len() - from,
{
    if 0 <= from < text.len() {
        proof {
            lemma_lexeme_width(text, from);
        }
        let (lexeme, width) = lexeme_at(text, from);
        let rest = scan(text, from + width);
        match lexeme {
            Some(found) => seq![found] + rest,
            None => rest,
        }
    } else {
        Seq::empty()
    }
}

/// A number lexeme whose text is no well-formed numeral.
pub open spec fn is_malformed(lexeme: Lexeme) -> bool {
    lexeme matches Lexeme::Number(text) && !well_formed(text)
}

/// The text of the first malformed number among `found`, if there is one.
pub open spec fn first_malformed(found: Seq<Lexeme>) -> Option<Seq<char>>
    decreases found.len(),
{
    if found.len() == 0 {
        None
    } else if is_malformed(found[0]) {
        Some(found[0]->Number_0)
    } else {
        first_malformed(found.drop_first())
    }
}

/// Every lexeme that is read takes up at least one character.
pub proof fn lemma_lexeme_width(text: Seq<char>, from: int)
    requires
        0 <= from < text.len(),
    ensures
        1 <= lexeme_at(text, from).1 <= text.len() - from,
{
    if is_numeral_char(text[from]) {
        lemma_numeral_run(text, from);
    }
}

/// The run that starts at `from` is the stretch of `text` up to the first
/// character that is neither a digit nor a point.
pub proof fn lemma_numeral_run(text: Seq<char>, from: int)
    requires
        0 <= from <= text.len(),
    ensures
        from + numeral_run(text, from).len() <= text.len(),
        numeral_run(text, from) == text.subrange(from, from + numeral_run(text, from).len()),
        forall|i: int|
            from <= i < from + numeral_run(text, from).len() ==> is_numeral_char(
                #[trigger] text[i],
            ),
        from + numeral_run(text, from).len() < text.len() ==> !is_numeral_char(
            text[from + numeral_run(text, from).len()],
        ),
        from < text.len() && is_numeral_char(text[from]) ==> numeral_run(text, from).len() >= 1,
    decreases text.len() - from,
{
    if from < text.len() && is_numeral_char(text[from]) {
        lemma_numeral_run(text, from + 1);
        let run = numeral_run(text, from);
        assert(run =~= text.subrange(from, from + run.len()));
    } else {
        assert(numeral_run(text, from) =~= text.subrange(from, from));
    }
}

/// A stretch of digits and points that cannot be continued is the run that
/// starts at its first character.
pub proof fn lemma_run_found(text: Seq<char>, from: int, end: int)
    requires
        0 <= from <= end <= text.len(),
        forall|i: int| from <= i < end ==> is_numeral_char(#[trigger] text[i]),
        end < text.len() ==> !is_numeral_char(text[end]),
    ensures
        numeral_run(text, from) == text.subrange(from, end),
    decreases end - from,
{
    if from < end {
        lemma_run_found(text, from + 1, end);
        assert(numeral_run(text, from) =~= text.subrange(from, end));
    } else {
        assert(numeral_run(text, from) =~= text.subrange(from, end));
    }
}

/// Lexemes that are not malformed can be passed over in the search for the
/// first malformed one.
pub proof fn lemma_first_malformed_after(clean: Seq<Lexeme>, rest: Seq<Lexeme>)
    requires
        forall|i: int| 0 <= i < clean.len() ==> !is_malformed(#[trigger] clean[i]),
    ensures
        first_malformed(clean + rest) == first_malformed(rest),
    decreases clean.len(),
{
    if clean.len() == 0 {
        assert(clean + rest =~= rest);
    } else {
        lemma_first_malformed_after(clean.drop_first(), rest);
        assert((clean + rest).drop_first() =~= clean.drop_first() + rest);
        assert((clean + rest)[0] == clean[0]);
    }
}

/// Tells whether `c` is an operator by itself.
pub fn operator(c: char) -> (yes: bool)
    ensures
        yes == is_operator(c),
{
    c == '+' || c == '-' || c == '*' || c == '/' || c == '^' || c == '(' || c == ')' || c == '%'
        || c == '!'
}

/// Tells whether the character of `text` at `at` exists and is `c`.
fn found_at(text: &Vec<char>, at: usize, c: char) -> (yes: bool)
    ensures
        yes == has(text@, at as int, c),
{
    at < text.len() && text[at] == c
}

/// Splits an expression into its tokens, left to right.
///
/// The tokens are those of [`scan`]. Characters that begin no token are
/// passed over. The one failure is a run of digits and points that is no
/// well-formed numeral: the first such run is reported, and no tokens are
/// given.
pub fn tokenize(expression: &str) -> (found: Result<Vec<Token>, MalformedNumeral>)
    ensures
        match found {
            Ok(tokens) => {
                &&& lexemes(tokens@) == scan(expression@, 0)
                &&& first_malformed(scan(expression@, 0)) is None
            },
            Err(error) => first_malformed(scan(expression@, 0)) == Some(error.text@),
        },
{
    let text = characters(expression);
    let mut tokens: Vec<Token> = Vec::new();
    let mut at: usize = 0;
    assert(lexemes(tokens@) + scan(text@, 0) =~= scan(text@, 0));
    while at < text.len()
        invariant
            at <= text.len(),
            text@ == expression@,
            scan(text@, 0) == lexemes(tokens@) + scan(text@, at as int),
            forall|i: int| 0 <= i < tokens.len() ==> !is_malformed(#[trigger] lexemes(tokens@)[i]),
        decreases text.len() - at,
    {
        let c = text[at];
        let ghost before = lexemes(tokens@);
        let ghost start = at as int;
        proof {
            lemma_lexeme_width(text@, start);
        }
        if numeral_char(c) {
            let mut run: Vec<char> = Vec::new();
            let mut end = at;
            while end < text.len() && numeral_char(text[end])
                invariant
                    at <= end <= text.len(),
                    run@ == text@.subrange(at as int, end as int),
                    forall|i: int| at <= i < end ==> is_numeral_char(#[trigger] text@[i]),
                decreases text.len() - end,
            {
                run.push(text[end]);
                end += 1;
                assert(run@ =~= text@.subrange(at as int, end as int));
            }
            proof {
                lemma_run_found(text@, start, end as int);
            }
            match Numeral::new(run) {
                Ok(numeral) => {
                    tokens.push(Token::Number(numeral));
                },
                Err(error) => {
                    proof {
                        lemma_first_malformed_after(before, scan(text@, start));
                    }
                    return Err(error);
                },
            }
            at = end;
        } else if operator(c) {
            tokens.push(Token::Operator(c));
            at += 1;
        } else if c == 'l' && found_at(&text, at + 1, 'o') {
            if found_at(&text, at + 2, 'g') {
                tokens.push(Token::Function("log".to_owned()));
                at += 3;
            } else {
                at += 2;
            }
        } else if c == 'l' && found_at(&text, at + 1, 'n') {
            tokens.push(Token::Function("ln".to_owned()));
            at += 2;
        } else if c == 'e' {
            tokens.push(Token::Constant("e".to_owned()));
            at += 1;
        } else if c == 'p' && found_at(&text, at + 1, 'i') {
            tokens.push(Token::Constant("pi".to_owned()));
            at += 2;
        } else if c == 'P' && found_at(&text, at + 1, 'I') {
            tokens.push(Token::Constant("PI".to_owned()));
            at += 2;
        } else {
            at += 1;
        }
        proof {
            let (lexeme, width) = lexeme_at(text@, start);
            assert(at == start + width);
            match lexeme {
                Some(read) => {
                    assert(lexemes(tokens@) =~= before.push(read));
                    assert(before.push(read) + scan(text@, at as int) =~= before + (seq![read]
                        + scan(text@, at as int)));
                },
                None => {
                    assert(lexemes(tokens@) =~= before);
                },
            }
        }
    }
    proof {
        assert(lexemes(tokens@) + scan(text@, at as int) =~= lexemes(tokens@));
        lemma_first_malformed_after(lexemes(tokens@), Seq::empty());
    }
    Ok(tokens)
}

} // verus!
