use calcbot::api::calculate::numeral::{MalformedNumeral, Numeral};
use calcbot::api::calculate::parse;
use calcbot::api::calculate::parser::{
    constant_of, function_of, operator_at, parse_base, parse_expression, parse_factor, parse_term,
};
use calcbot::api::calculate::token::{tokenize, Token};
use calcbot::api::calculate::tree::{Constant, Expr, Function, Operation};

fn num(text: &str) -> Expr {
    Expr::Number(Numeral::parse(text).unwrap())
}

fn bin(operation: Operation, left: Expr, right: Expr) -> Expr {
    Expr::Binary(operation, Box::new(left), Box::new(right))
}

fn neg(operand: Expr) -> Expr {
    Expr::Negate(Box::new(operand))
}

fn fact(operand: Expr) -> Expr {
    Expr::Factorial(Box::new(operand))
}

fn call(function: Function, argument: Expr) -> Expr {
    Expr::Call(function, Box::new(argument))
}

fn tree(text: &str) -> Expr {
    parse(text).unwrap()
}

#[test]
fn product_binds_before_sum() {
    assert_eq!(
        tree("2+3*4"),
        bin(Operation::Add, num("2"), bin(Operation::Multiply, num("3"), num("4")))
    );
    assert_eq!(
        tree("2*3+4"),
        bin(Operation::Add, bin(Operation::Multiply, num("2"), num("3")), num("4"))
    );
}

#[test]
fn parentheses_override_precedence() {
    assert_eq!(
        tree("(2+3)*4"),
        bin(Operation::Multiply, bin(Operation::Add, num("2"), num("3")), num("4"))
    );
}

#[test]
fn powers_group_from_the_right() {
    assert_eq!(
        tree("2^3^2"),
        bin(Operation::Power, num("2"), bin(Operation::Power, num("3"), num("2")))
    );
}

#[test]
fn sums_and_products_group_from_the_left() {
    assert_eq!(
        tree("7-2-1"),
        bin(Operation::Subtract, bin(Operation::Subtract, num("7"), num("2")), num("1"))
    );
    assert_eq!(
        tree("8/4/2"),
        bin(Operation::Divide, bin(Operation::Divide, num("8"), num("4")), num("2"))
    );
    assert_eq!(
        tree("7%4*2"),
        bin(Operation::Multiply, bin(Operation::Remainder, num("7"), num("4")), num("2"))
    );
}

#[test]
fn factorial_is_postfix_and_chains() {
    assert_eq!(tree("5!"), fact(num("5")));
    assert_eq!(tree("0!"), fact(num("0")));
    assert_eq!(tree("3!!"), fact(fact(num("3"))));
}

#[test]
fn factorial_and_power_share_a_level() {
    assert_eq!(tree("2^3!"), bin(Operation::Power, num("2"), fact(num("3"))));
    assert_eq!(tree("3!^2"), bin(Operation::Power, fact(num("3")), num("2")));
    assert_eq!(
        tree("2*3!"),
        bin(Operation::Multiply, num("2"), fact(num("3")))
    );
}

#[test]
fn a_sign_binds_more_tightly_than_a_power() {
    assert_eq!(tree("-2^2"), bin(Operation::Power, neg(num("2")), num("2")));
    assert_eq!(tree("--2"), neg(neg(num("2"))));
    assert_eq!(tree("3--2"), bin(Operation::Subtract, num("3"), neg(num("2"))));
    assert_eq!(tree("-(2+3)"), neg(bin(Operation::Add, num("2"), num("3"))));
}

#[test]
fn functions_take_a_base() {
    assert_eq!(tree("log(2)"), call(Function::Log, num("2")));
    assert_eq!(tree("ln(e)"), call(Function::Ln, Expr::Constant(Constant::E)));
    assert_eq!(tree("log 2"), call(Function::Log, num("2")));
    assert_eq!(
        tree("log2+1"),
        bin(Operation::Add, call(Function::Log, num("2")), num("1"))
    );
    assert_eq!(
        tree("ln2^3"),
        bin(Operation::Power, call(Function::Ln, num("2")), num("3"))
    );
    assert_eq!(tree("ln-2"), call(Function::Ln, neg(num("2"))));
}

#[test]
fn constants_are_read() {
    assert_eq!(tree("e"), Expr::Constant(Constant::E));
    assert_eq!(tree("pi"), Expr::Constant(Constant::Pi));
    assert_eq!(tree("PI"), Expr::Constant(Constant::Pi));
    assert_eq!(
        tree("2*pi"),
        bin(Operation::Multiply, num("2"), Expr::Constant(Constant::Pi))
    );
}

#[test]
fn an_unclosed_parenthesis_is_zero() {
    assert_eq!(tree("(2+3"), Expr::Zero);
    assert_eq!(tree("1+(2+3"), bin(Operation::Add, num("1"), Expr::Zero));
    assert_eq!(tree("((2)"), Expr::Zero);
}

#[test]
fn whatever_stands_for_the_closing_parenthesis_is_used_up() {
    let tokens = tokenize("(2 3)+4").unwrap();
    assert_eq!(parse_base(&tokens, 0), (Expr::Zero, 3));
    assert_eq!(parse_expression(&tokens, 0), (Expr::Zero, 3));
    assert_eq!(tree("(2 3)+4"), Expr::Zero);
    assert_eq!(tree("(2 3+4"), bin(Operation::Add, Expr::Zero, num("4")));
}

#[test]
fn an_unknown_function_is_zero_and_takes_no_argument() {
    let tokens = vec![
        Token::Function("foo".to_string()),
        Token::Operator('('),
        Token::Number(Numeral::parse("2").unwrap()),
        Token::Operator(')'),
    ];
    assert_eq!(parse_base(&tokens, 0), (Expr::Zero, 1));
    assert_eq!(parse_expression(&tokens, 0), (Expr::Zero, 1));
}

#[test]
fn the_letters_of_an_unknown_name_are_passed_over() {
    assert_eq!(tree("foo(2)"), num("2"));
    assert_eq!(tree("sin(2)"), num("2"));
}

#[test]
fn an_unknown_constant_is_zero() {
    let tokens = vec![Token::Constant("tau".to_string()), Token::Operator('!')];
    assert_eq!(parse_base(&tokens, 0), (Expr::Zero, 1));
    assert_eq!(parse_factor(&tokens, 0), (fact(Expr::Zero), 2));
}

#[test]
fn nothing_to_read_is_zero() {
    assert_eq!(tree(""), Expr::Zero);
    assert_eq!(tree("   "), Expr::Zero);
    assert_eq!(tree("2+"), bin(Operation::Add, num("2"), Expr::Zero));
    assert_eq!(tree("2*"), bin(Operation::Multiply, num("2"), Expr::Zero));
    assert_eq!(tree("2^"), bin(Operation::Power, num("2"), Expr::Zero));
    assert_eq!(tree("-"), neg(Expr::Zero));
    assert_eq!(tree("log"), call(Function::Log, Expr::Zero));
}

#[test]
fn an_operator_in_place_of_an_operand_is_zero_and_used_up() {
    assert_eq!(tree("+5"), Expr::Zero);
    assert_eq!(tree("*5"), Expr::Zero);
    assert_eq!(tree(")"), Expr::Zero);
    assert_eq!(tree("2+*3"), bin(Operation::Add, num("2"), Expr::Zero));
    assert_eq!(tree("!+3"), bin(Operation::Add, Expr::Zero, num("3")));
    assert_eq!(tree("()"), Expr::Zero);
}

#[test]
fn what_is_left_over_does_not_count() {
    assert_eq!(tree("2 3"), num("2"));
    assert_eq!(tree("2)+3"), num("2"));
    assert_eq!(tree("2 pi"), num("2"));
    let tokens = tokenize("2)+3").unwrap();
    assert_eq!(parse_expression(&tokens, 0), (num("2"), 1));
}

#[test]
fn shift_operators_are_no_tokens() {
    assert_eq!(tree("1<<3"), num("1"));
    assert_eq!(tree("8>>1"), num("8"));
    let tokens = vec![
        Token::Number(Numeral::parse("1").unwrap()),
        Token::Operator('<'),
        Token::Number(Numeral::parse("3").unwrap()),
    ];
    assert_eq!(parse_expression(&tokens, 0), (num("1"), 1));
}

#[test]
fn each_level_reads_from_its_position() {
    let tokens = tokenize("1+2*3^4!-5").unwrap();
    assert_eq!(parse_base(&tokens, 2), (num("2"), 3));
    assert_eq!(parse_factor(&tokens, 2), (num("2"), 3));
    assert_eq!(
        parse_factor(&tokens, 4),
        (bin(Operation::Power, num("3"), fact(num("4"))), 8)
    );
    assert_eq!(
        parse_term(&tokens, 2),
        (
            bin(
                Operation::Multiply,
                num("2"),
                bin(Operation::Power, num("3"), fact(num("4")))
            ),
            8
        )
    );
    assert_eq!(
        parse_expression(&tokens, 2),
        (
            bin(
                Operation::Subtract,
                bin(
                    Operation::Multiply,
                    num("2"),
                    bin(Operation::Power, num("3"), fact(num("4")))
                ),
                num("5")
            ),
            10
        )
    );
}

#[test]
fn a_position_at_or_behind_the_end_reads_zero_and_stays() {
    let tokens = tokenize("1+2").unwrap();
    assert_eq!(parse_base(&tokens, 3), (Expr::Zero, 3));
    assert_eq!(parse_factor(&tokens, 3), (Expr::Zero, 3));
    assert_eq!(parse_term(&tokens, 7), (Expr::Zero, 7));
    assert_eq!(parse_expression(&tokens, usize::MAX), (Expr::Zero, usize::MAX));
    assert_eq!(parse_expression(&Vec::new(), 0), (Expr::Zero, 0));
}

#[test]
fn names_are_looked_up_exactly() {
    assert_eq!(function_of(&"log".to_string()), Some(Function::Log));
    assert_eq!(function_of(&"ln".to_string()), Some(Function::Ln));
    assert_eq!(function_of(&"Log".to_string()), None);
    assert_eq!(function_of(&"".to_string()), None);
    assert_eq!(constant_of(&"e".to_string()), Some(Constant::E));
    assert_eq!(constant_of(&"pi".to_string()), Some(Constant::Pi));
    assert_eq!(constant_of(&"PI".to_string()), Some(Constant::Pi));
    assert_eq!(constant_of(&"Pi".to_string()), None);
    assert_eq!(constant_of(&"E".to_string()), None);
}

#[test]
fn operator_at_sees_operators_only() {
    let tokens = tokenize("1+e").unwrap();
    assert_eq!(operator_at(&tokens, 0), None);
    assert_eq!(operator_at(&tokens, 1), Some('+'));
    assert_eq!(operator_at(&tokens, 2), None);
    assert_eq!(operator_at(&tokens, 3), None);
}

#[test]
fn parse_reports_a_malformed_numeral() {
    let expected = MalformedNumeral { text: "1.2.3".chars().collect() };
    assert_eq!(parse("1.2.3"), Err(expected.clone()));
    assert_eq!(parse("2+(1.2.3"), Err(expected.clone()));
    assert_eq!(parse("2 1.2.3"), Err(expected));
}

#[test]
fn parsing_twice_gives_the_same() {
    for text in ["2+3*4", "(2+3", "1.2.3", "", "ln(e)^2!", "foo(2)"] {
        assert_eq!(parse(text), parse(text));
    }
}

#[test]
fn a_written_tree_is_read_back() {
    let inner = bin(
        Operation::Multiply,
        bin(Operation::Add, num("1"), num("2")),
        num("3"),
    );
    let expected = fact(bin(
        Operation::Power,
        inner,
        bin(Operation::Power, num("4"), num("5")),
    ));
    assert_eq!(tree("( ( ( 1 + 2 ) * 3 ) ^ 4 ^ 5 ) ! "), expected);
    let sum = bin(
        Operation::Subtract,
        num("1"),
        bin(Operation::Subtract, num("2"), num("3")),
    );
    assert_eq!(tree("1 - ( 2 - 3 ) "), sum);
    let power = bin(
        Operation::Power,
        bin(Operation::Power, num("2"), num("3")),
        num("2"),
    );
    assert_eq!(tree("( 2 ^ 3 ) ^ 2 "), power);
}

#[test]
fn a_tree_written_without_blanks_is_read_back() {
    let inner = bin(
        Operation::Multiply,
        bin(Operation::Add, num("1"), num("2")),
        num("3"),
    );
    let expected = fact(bin(
        Operation::Power,
        inner,
        bin(Operation::Power, num("4"), num("5")),
    ));
    assert_eq!(tree("(((1+2)*3)^4^5)!"), expected);
    assert_eq!(
        tree("-log(2.5%ln-e)/pi!"),
        bin(
            Operation::Divide,
            neg(call(
                Function::Log,
                bin(
                    Operation::Remainder,
                    num("2.5"),
                    call(Function::Ln, neg(Expr::Constant(Constant::E)))
                )
            )),
            fact(Expr::Constant(Constant::Pi))
        )
    );
}

#[test]
fn a_power_takes_the_whole_factor_behind_it() {
    let tokens = tokenize("2^3!^4*5").unwrap();
    let (exponent, end) = parse_factor(&tokens, 2);
    assert_eq!(exponent, bin(Operation::Power, fact(num("3")), num("4")));
    assert_eq!(end, 6);
    assert_eq!(
        parse_factor(&tokens, 0),
        (bin(Operation::Power, num("2"), exponent), 6)
    );
}

#[test]
fn reading_stops_where_nothing_joins_on() {
    for text in ["1+2)3", "1*2 3", "2^3 4", "5!(", "1-2 e", ""] {
        let tokens = tokenize(text).unwrap();
        let (_, end) = parse_expression(&tokens, 0);
        assert!(end <= tokens.len());
        match operator_at(&tokens, end) {
            Some(symbol) => assert!(!"+-*/%^!".contains(symbol)),
            None => {}
        }
    }
}
