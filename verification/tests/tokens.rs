use calcbot::api::calculate::numeral::{
    characters, digit, is_well_formed, numeral_char, MalformedNumeral, Numeral,
};
use calcbot::api::calculate::token::{operator, tokenize, Token};

fn number(text: &str) -> Token {
    Token::Number(Numeral::parse(text).unwrap())
}

fn function(name: &str) -> Token {
    Token::Function(name.to_string())
}

fn constant(name: &str) -> Token {
    Token::Constant(name.to_string())
}

#[test]
fn tokenize_numbers_and_operators() {
    assert_eq!(
        tokenize("2+3*4").unwrap(),
        vec![number("2"), Token::Operator('+'), number("3"), Token::Operator('*'), number("4")]
    );
}

#[test]
fn tokenize_every_operator() {
    let expected: Vec<Token> = "+-*/^()%!".chars().map(Token::Operator).collect();
    assert_eq!(tokenize("+-*/^()%!").unwrap(), expected);
}

#[test]
fn tokenize_keeps_the_text_of_a_numeral() {
    let tokens = tokenize("12.50").unwrap();
    assert_eq!(tokens.len(), 1);
    match &tokens[0] {
        Token::Number(numeral) => {
            assert_eq!(numeral.text().iter().collect::<String>(), "12.50");
        }
        other => panic!("not a number: {:?}", other),
    }
}

#[test]
fn tokenize_flushes_a_numeral_at_the_end() {
    assert_eq!(tokenize("1+22").unwrap(), vec![number("1"), Token::Operator('+'), number("22")]);
}

#[test]
fn tokenize_functions() {
    assert_eq!(
        tokenize("log(2)").unwrap(),
        vec![function("log"), Token::Operator('('), number("2"), Token::Operator(')')]
    );
    assert_eq!(tokenize("ln e").unwrap(), vec![function("ln"), constant("e")]);
}

#[test]
fn tokenize_constants() {
    assert_eq!(tokenize("pi").unwrap(), vec![constant("pi")]);
    assert_eq!(tokenize("PI").unwrap(), vec![constant("PI")]);
    assert_eq!(tokenize("e").unwrap(), vec![constant("e")]);
}

#[test]
fn tokenize_drops_an_l_that_begins_nothing() {
    assert_eq!(tokenize("l").unwrap(), vec![]);
    assert_eq!(tokenize("lx").unwrap(), vec![]);
    assert_eq!(tokenize("l+").unwrap(), vec![Token::Operator('+')]);
}

#[test]
fn tokenize_lo_takes_the_o_along() {
    assert_eq!(tokenize("lo").unwrap(), vec![]);
    assert_eq!(tokenize("lo5").unwrap(), vec![number("5")]);
    assert_eq!(tokenize("lopi").unwrap(), vec![constant("pi")]);
    assert_eq!(tokenize("lon").unwrap(), vec![]);
}

#[test]
fn tokenize_e_is_a_constant_inside_any_word() {
    assert_eq!(tokenize("hello").unwrap(), vec![constant("e")]);
    assert_eq!(tokenize("1e5").unwrap(), vec![number("1"), constant("e"), number("5")]);
}

#[test]
fn tokenize_p_needs_its_i() {
    assert_eq!(tokenize("p").unwrap(), vec![]);
    assert_eq!(tokenize("pI").unwrap(), vec![]);
    assert_eq!(tokenize("Pi").unwrap(), vec![]);
    assert_eq!(tokenize("p2").unwrap(), vec![number("2")]);
}

#[test]
fn tokenize_skips_unknown_characters() {
    assert_eq!(tokenize("  2 x 3 ").unwrap(), vec![number("2"), number("3")]);
    assert_eq!(tokenize("").unwrap(), vec![]);
    assert_eq!(tokenize("2 × 3 <<").unwrap(), vec![number("2"), number("3")]);
    assert_eq!(
        tokenize("foo(2)").unwrap(),
        vec![Token::Operator('('), number("2"), Token::Operator(')')]
    );
}

#[test]
fn tokenize_reports_a_numeral_with_two_points() {
    let expected = MalformedNumeral { text: "1.2.3".chars().collect() };
    assert_eq!(tokenize("1.2.3"), Err(expected));
}

#[test]
fn tokenize_reports_the_first_malformed_numeral() {
    let expected = MalformedNumeral { text: "..".chars().collect() };
    assert_eq!(tokenize("1+..*3.4.5"), Err(expected));
}

#[test]
fn tokenize_reports_a_lone_point() {
    let expected = MalformedNumeral { text: vec!['.'] };
    assert_eq!(tokenize("2+."), Err(expected));
}

#[test]
fn numeral_accepts_digits_with_at_most_one_point() {
    for text in ["0", "12", "1.5", "7.", ".25", "000.000"] {
        let numeral = Numeral::parse(text).unwrap();
        assert_eq!(numeral.text().iter().collect::<String>(), text);
    }
}

#[test]
fn numeral_refuses_everything_else() {
    for text in ["", ".", "1.2.3", "..", "1a", "-1", "1e5", " 1", "١"] {
        let error = Numeral::parse(text).unwrap_err();
        assert_eq!(error.text, text.chars().collect::<Vec<char>>());
    }
}

#[test]
fn numeral_new_and_parse_agree() {
    assert_eq!(Numeral::new(vec!['4', '.', '2']), Numeral::parse("4.2"));
    assert_eq!(Numeral::new(vec!['4', '.', '.']), Numeral::parse("4.."));
}

#[test]
fn numeral_clone_is_equal() {
    let numeral = Numeral::parse("3.14").unwrap();
    assert_eq!(numeral.clone(), numeral);
}

#[test]
fn every_accepted_numeral_is_a_number() {
    for text in ["0", "12", "1.5", "7.", ".25", "000.000"] {
        let numeral = Numeral::parse(text).unwrap();
        let written: String = numeral.text().iter().collect();
        assert!(written.parse::<f64>().is_ok());
    }
}

#[test]
fn characters_are_taken_one_by_one() {
    assert_eq!(characters("2×3"), vec!['2', '×', '3']);
    assert_eq!(characters(""), Vec::<char>::new());
}

#[test]
fn digits_are_the_ten_of_ascii() {
    for c in "0123456789".chars() {
        assert!(digit(c));
        assert!(numeral_char(c));
    }
    for c in ['/', ':', 'a', '٣', ' ', '-'] {
        assert!(!digit(c));
        assert!(!numeral_char(c));
    }
    assert!(!digit('.'));
    assert!(numeral_char('.'));
}

#[test]
fn operators_are_nine() {
    let operators: Vec<char> = (0u8..128).map(char::from).filter(|c| operator(*c)).collect();
    assert_eq!(operators, vec!['!', '%', '(', ')', '*', '+', '-', '/', '^']);
}

#[test]
fn well_formed_numerals_are_told_apart() {
    assert!(is_well_formed(&vec!['1', '.', '5']));
    assert!(is_well_formed(&vec!['.', '5']));
    assert!(!is_well_formed(&vec!['.']));
    assert!(!is_well_formed(&vec![]));
    assert!(!is_well_formed(&vec!['1', '.', '2', '.', '3']));
    assert!(!is_well_formed(&vec!['1', 'x']));
}

#[test]
fn tokens_are_always_plain() {
    let tokens = tokenize("l lo log ln e p pi P PI 1.5 + x ?? (").unwrap();
    for token in &tokens {
        match token {
            Token::Number(numeral) => assert!(!numeral.text().is_empty()),
            Token::Operator(symbol) => assert!(operator(*symbol)),
            Token::Function(name) => assert!(name == "log" || name == "ln"),
            Token::Constant(name) => assert!(name == "e" || name == "pi" || name == "PI"),
        }
    }
    assert_eq!(tokens.len(), 8);
}
