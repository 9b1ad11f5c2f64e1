//! Decimal numerals: runs of digits and points, as they stand in an expression.

use vstd::prelude::*;

verus! {

/// Whether `c` is one of the ten decimal digits.
pub open spec fn is_digit(c: char) -> bool {
    '0' <= c && c <= '9'
}

/// Whether `c` can stand in a numeral: a digit or the decimal point.
pub open spec fn is_numeral_char(c: char) -> bool {
    is_digit(c) || c == '.'
}

/// A numeral is well formed when it is made of digits and points only, holds
/// at least one digit and at most one point: `"12"`, `"1.5"`, `"7."` and
/// `".25"` are, `"."`, `""` and `"1.2.3"` are not.
pub open spec fn well_formed(text: Seq<char>) -> bool {
    &&& forall|i: int| 0 <= i < text.len() ==> is_numeral_char(#[trigger] text[i])
    &&& exists|i: int| 0 <= i < text.len() && is_digit(#[trigger] text[i])
    &&& forall|i: int, j: int|
        0 <= i < j < text.len() ==> !(#[trigger] text[i] == '.' && #[trigger] text[j] == '.')
}

/// Tells whether `c` is a decimal digit.
pub fn digit(c: char) -> (yes: bool)
    ensures
        yes == is_digit(c),
{
    '0' <= c && c <= '9'
}

/// Tells whether `c` can stand in a numeral.
pub fn numeral_char(c: char) -> (yes: bool)
    ensures
        yes == is_numeral_char(c),
{
    digit(c) || c == '.'
}

/// The characters of `text`, in order.
pub fn characters(text: &str) -> (chars: Vec<char>)
    ensures
        chars@ == text@,
{
    let mut chars: Vec<char> = Vec::new();
    for c in it: text.chars()
        invariant
            chars@ == it.seq().take(it.index() as int),
    {
        chars.push(c);
    }
    chars
}

/// Tells whether `text` is a well-formed numeral.
pub fn is_well_formed(text: &Vec<char>) -> (yes: bool)
    ensures
        yes == well_formed(text@),
{
    let mut seen_digit = false;
    let mut seen_point = false;
    let mut k: usize = 0;
    while k < text.len()
        invariant
            k <= text.len(),
            forall|i: int| 0 <= i < k ==> is_numeral_char(#[trigger] text@[i]),
            seen_digit == (exists|i: int| 0 <= i < k && is_digit(#[trigger] text@[i])),
            seen_point == (exists|i: int| 0 <= i < k && #[trigger] text@[i] == '.'),
            forall|i: int, j: int|
                0 <= i < j < k ==> !(#[trigger] text@[i] == '.' && #[trigger] text@[j] == '.'),
        decreases text.len() - k,
    {
        let c = text[k];
        if digit(c) {
            seen_digit = true;
        } else if c == '.' {
            if seen_point {
                let ghost first = choose|i: int| 0 <= i < k && #[trigger] text@[i] == '.';
                assert(text@[first] == '.' && text@[k as int] == '.');
                return false;
            }
            seen_point = true;
        } else {
            assert(!is_numeral_char(text@[k as int]));
            return false;
        }
        k += 1;
    }
    seen_digit
}

/// What is reported of a numeral that is not well formed: its text.
#[derive(Debug, Clone, PartialEq, Eq)]
pub struct MalformedNumeral {
    pub text: Vec<char>,
}

/// A well-formed numeral, kept as the characters it was written with.
#[derive(Debug, PartialEq, Eq)]
pub struct Numeral {
    text: Vec<char>,
}

impl View for Numeral {
    type V = Seq<char>;

    closed spec fn view(&self) -> Seq<char> {
        self.text@
    }
}

impl Clone for Numeral {
    fn clone(&self) -> (copy: Numeral)
        ensures
            copy@ == self@,
    {
        proof {
            use_type_invariant(self);
        }
        let text = self.text.clone();
        assert(text@ =~= self.text@);
        Numeral { text }
    }
}

impl Numeral {
    #[verifier::type_invariant]
    spec fn valid(&self) -> bool {
        well_formed(self.text@)
    }

    /// Accepts `text` as a numeral if it is well formed, and reports it
    /// otherwise.
    pub fn new(text: Vec<char>) -> (made: Result<Numeral, MalformedNumeral>)
        ensures
            match made {
                Ok(numeral) => well_formed(text@) && numeral@ == text@,
                Err(error) => !well_formed(text@) && error.text@ == text@,
            },
    {
        if is_well_formed(&text) {
            Ok(Numeral { text })
        } else {
            Err(MalformedNumeral { text })
        }
    }

    /// Reads a numeral from a string slice.
    pub fn parse(text: &str) -> (made: Result<Numeral, MalformedNumeral>)
        ensures
            match made {
                Ok(numeral) => well_formed(text@) && numeral@ == text@,
                Err(error) => !well_formed(text@) && error.text@ == text@,
            },
    {
        Numeral::new(characters(text))
    }

    /// The characters of the numeral, which are always well formed.
    pub fn text(&self) -> (text: &Vec<char>)
        ensures
            text@ == self@,
            well_formed(self@),
    {
        proof {
            use_type_invariant(self);
        }
        &self.text
    }
}

} // verus!
