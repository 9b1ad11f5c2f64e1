//! Spelling lexemes out as text, and the proof that the scanner reads back
//! what was spelled.

use crate::api::calculate::numeral::is_numeral_char;
use crate::api::calculate::token::{
    is_operator, lemma_lexeme_width, lemma_numeral_run, lemma_run_found, lexeme_at, numeral_run,
    scan, Lexeme,
};
use vstd::prelude::*;

verus! {

/// Whether a lexeme is one that the scanner can give: a number made of at
/// least one digit or point, one of the operators, `log` or `ln`, or `e`,
/// `pi` or `PI`.
pub open spec fn plain(lexeme: Lexeme) -> bool {
    match lexeme {
        Lexeme::Number(text) => text.len() > 0 && forall|i: int|
            0 <= i < text.len() ==> is_numeral_char(#[trigger] text[i]),
        Lexeme::Operator(symbol) => is_operator(symbol),
        Lexeme::Function(name) => name == "log"@ || name == "ln"@,
        Lexeme::Constant(name) => name == "e"@ || name == "pi"@ || name == "PI"@,
    }
}

/// Whether a character means nothing to the scanner wherever it stands: it
/// is no digit, point or operator, and none of the letters that can begin a
/// name.
pub open spec fn blank(c: char) -> bool {
    !is_numeral_char(c) && !is_operator(c) && c != 'l' && c != 'e' && c != 'p' && c != 'P'
}

/// Whether no two numbers stand next to each other.
pub open spec fn separated(lexemes: Seq<Lexeme>) -> bool {
    forall|i: int|
        0 <= i < lexemes.len() - 1 ==> !(#[trigger] lexemes[i] is Number && lexemes[i + 1] is Number)
}

/// The characters that a lexeme is spelled with.
pub open spec fn spelling(lexeme: Lexeme) -> Seq<char> {
    match lexeme {
        Lexeme::Number(text) => text,
        Lexeme::Operator(symbol) => seq![symbol],
        Lexeme::Function(name) => name,
        Lexeme::Constant(name) => name,
    }
}

/// The lexemes spelled out one after the other, with `gap` behind each.
pub open spec fn spelled(lexemes: Seq<Lexeme>, gap: Seq<char>) -> Seq<char>
    decreases lexemes.len(),
{
    if lexemes.len() == 0 {
        Seq::empty()
    } else {
        spelling(lexemes[0]) + gap + spelled(lexemes.drop_first(), gap)
    }
}

/// Whether `gap` can stand between `lexemes` without changing how they are
/// read: it is made of blank characters, and it is not empty if two numbers
/// stand next to each other.
pub open spec fn parts(lexemes: Seq<Lexeme>, gap: Seq<char>) -> bool {
    &&& forall|i: int| 0 <= i < gap.len() ==> blank(#[trigger] gap[i])
    &&& gap.len() == 0 ==> separated(lexemes)
}

/// The scanner gives plain lexemes only, whatever the text.
pub proof fn lemma_scan_gives_plain(text: Seq<char>, from: int)
    ensures
        forall|i: int| 0 <= i < scan(text, from).len() ==> plain(#[trigger] scan(text, from)[i]),
    decreases text.len() - from,
{
    if 0 <= from < text.len() {
        lemma_lexeme_width(text, from);
        let (lexeme, width) = lexeme_at(text, from);
        lemma_scan_gives_plain(text, from + width);
        if is_numeral_char(text[from]) {
            lemma_numeral_run(text, from);
            let run = numeral_run(text, from);
            assert forall|i: int| 0 <= i < run.len() implies is_numeral_char(#[trigger] run[i]) by {
                assert(run[i] == text[from + i]);
            }
        }
        let rest = scan(text, from + width);
        let all = scan(text, from);
        match lexeme {
            Some(found) => {
                assert(plain(found));
                assert(all == seq![found] + rest);
                assert forall|i: int| 0 <= i < all.len() implies plain(#[trigger] all[i]) by {
                    if i > 0 {
                        assert(all[i] == rest[i - 1]);
                    }
                }
            },
            None => {
                assert(all == rest);
            },
        }
    }
}

/// A plain lexeme begins with a character that is no blank, and only a
/// number begins with a digit or a point.
pub proof fn lemma_first_character(lexeme: Lexeme)
    requires
        plain(lexeme),
    ensures
        spelling(lexeme).len() >= 1,
        !blank(spelling(lexeme)[0]),
        is_numeral_char(spelling(lexeme)[0]) <==> lexeme is Number,
{
    reveal_strlit("log");
    reveal_strlit("ln");
    reveal_strlit("e");
    reveal_strlit("pi");
    reveal_strlit("PI");
}

/// Where a plain lexeme is spelled, and no digit or point follows if it is a
/// number, the scanner reads that lexeme and goes on behind it.
pub proof fn lemma_scan_spelling(text: Seq<char>, at: int, lexeme: Lexeme)
    requires
        plain(lexeme),
        0 <= at,
        at + spelling(lexeme).len() <= text.len(),
        text.subrange(at, at + spelling(lexeme).len()) == spelling(lexeme),
        lexeme is Number && at + spelling(lexeme).len() < text.len() ==> !is_numeral_char(
            text[at + spelling(lexeme).len()],
        ),
    ensures
        scan(text, at) == seq![lexeme] + scan(text, at + spelling(lexeme).len()),
{
    let word = spelling(lexeme);
    let end = at + word.len();
    let stretch = text.subrange(at, end);
    reveal_strlit("log");
    reveal_strlit("ln");
    reveal_strlit("e");
    reveal_strlit("pi");
    reveal_strlit("PI");
    assert(word.len() >= 1);
    assert(text[at] == stretch[0]);
    if word.len() >= 2 {
        assert(text[at + 1] == stretch[1]);
    }
    if word.len() >= 3 {
        assert(text[at + 2] == stretch[2]);
    }
    match lexeme {
        Lexeme::Number(digits) => {
            assert forall|i: int| at <= i < end implies is_numeral_char(#[trigger] text[i]) by {
                assert(text[i] == stretch[i - at]);
            }
            lemma_run_found(text, at, end);
        },
        _ => {},
    }
    assert(lexeme_at(text, at) == (Some(lexeme), word.len() as int));
    lemma_lexeme_width(text, at);
}

/// The scanner passes over blank characters.
pub proof fn lemma_scan_gap(text: Seq<char>, at: int, gap: Seq<char>)
    requires
        0 <= at,
        at + gap.len() <= text.len(),
        text.subrange(at, at + gap.len()) == gap,
        forall|i: int| 0 <= i < gap.len() ==> blank(#[trigger] gap[i]),
    ensures
        scan(text, at) == scan(text, at + gap.len()),
    decreases gap.len(),
{
    if gap.len() > 0 {
        let stretch = text.subrange(at, at + gap.len());
        assert(text[at] == stretch[0]);
        assert(blank(gap[0]));
        assert(lexeme_at(text, at) == (None::<Lexeme>, 1int));
        let rest = gap.drop_first();
        assert forall|i: int| 0 <= i < rest.len() implies text.subrange(
            at + 1,
            at + 1 + rest.len(),
        )[i] == rest[i] by {
            assert(stretch[i + 1] == gap[i + 1]);
        }
        assert(text.subrange(at + 1, at + 1 + rest.len()) =~= rest);
        assert forall|i: int| 0 <= i < rest.len() implies blank(#[trigger] rest[i]) by {
            assert(blank(gap[i + 1]));
        }
        lemma_scan_gap(text, at + 1, rest);
    }
}

/// Where plain lexemes are spelled out up to the end of the text, the
/// scanner reads these lexemes.
pub proof fn lemma_scan_spelled_from(
    text: Seq<char>,
    at: int,
    lexemes: Seq<Lexeme>,
    gap: Seq<char>,
)
    requires
        0 <= at <= text.len(),
        text.subrange(at, text.len() as int) == spelled(lexemes, gap),
        forall|i: int| 0 <= i < lexemes.len() ==> plain(#[trigger] lexemes[i]),
        parts(lexemes, gap),
    ensures
        scan(text, at) == lexemes,
    decreases lexemes.len(),
{
    if lexemes.len() == 0 {
        assert(text.subrange(at, text.len() as int).len() == 0);
        assert(scan(text, at) =~= lexemes);
    } else {
        let first = lexemes[0];
        let others = lexemes.drop_first();
        let word = spelling(first);
        let tail = text.subrange(at, text.len() as int);
        let end = at + word.len();
        let next = end + gap.len();
        let after = spelled(others, gap);
        assert(tail.len() == word.len() + gap.len() + after.len());
        assert forall|i: int| 0 <= i < word.len() implies text.subrange(at, end)[i] == word[i] by {
            assert(tail[i] == word[i]);
        }
        assert(text.subrange(at, end) =~= word);
        assert forall|i: int| 0 <= i < gap.len() implies text.subrange(end, next)[i] == gap[i] by {
            assert(tail[word.len() + i] == gap[i]);
        }
        assert(text.subrange(end, next) =~= gap);
        assert forall|i: int| 0 <= i < after.len() implies text.subrange(
            next,
            text.len() as int,
        )[i] == after[i] by {
            assert(tail[word.len() + gap.len() + i] == after[i]);
        }
        assert(text.subrange(next, text.len() as int) =~= after);
        assert forall|i: int| 0 <= i < others.len() implies plain(#[trigger] others[i]) by {
            assert(plain(lexemes[i + 1]));
        }
        if gap.len() == 0 {
            assert forall|i: int| 0 <= i < others.len() - 1 implies !(#[trigger] others[i] is Number
                && others[i + 1] is Number) by {
                assert(!(lexemes[i + 1] is Number && lexemes[i + 2] is Number));
            }
        }
        if first is Number && end < text.len() {
            if gap.len() > 0 {
                assert(text[end] == tail[word.len() as int]);
                assert(blank(gap[0]));
            } else {
                assert(others.len() > 0);
                assert(plain(lexemes[1]));
                assert(!(lexemes[0] is Number && lexemes[1] is Number));
                lemma_first_character(others[0]);
                assert(text[end] == tail[word.len() as int]);
                assert(after[0] == spelling(others[0])[0]);
            }
        }
        lemma_scan_spelling(text, at, first);
        lemma_scan_gap(text, end, gap);
        lemma_scan_spelled_from(text, next, others, gap);
        assert(seq![first] + others =~= lexemes);
    }
}

/// Reading back what was spelled: the scanner reads plain lexemes from the
/// text that spells them out, whether blanks stand between them or, where no
/// two numbers meet, nothing at all.
pub proof fn lemma_scan_spelled(lexemes: Seq<Lexeme>, gap: Seq<char>)
    requires
        forall|i: int| 0 <= i < lexemes.len() ==> plain(#[trigger] lexemes[i]),
        parts(lexemes, gap),
    ensures
        scan(spelled(lexemes, gap), 0) == lexemes,
{
    let text = spelled(lexemes, gap);
    assert(text.subrange(0, text.len() as int) =~= text);
    lemma_scan_spelled_from(text, 0, lexemes, gap);
}

} // verus!
