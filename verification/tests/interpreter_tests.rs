use rlox::error::LoxError;
use rlox::interpreter::{get_number, get_string, Interpreter};
use rlox::number::ArithOp;
use rlox::parser::{Expr, LoxParser};
use rlox::scanner::Scanner;
use rlox::token::{Token, TokenType};

fn to_bits(numeral: String) -> u64 {
    numeral.parse::<f64>().unwrap().to_bits()
}

fn arith(op: ArithOp, a: u64, b: u64) -> u64 {
    let (x, y) = (f64::from_bits(a), f64::from_bits(b));
    let r = match op {
        ArithOp::Add => x + y,
        ArithOp::Sub => x - y,
        ArithOp::Mul => x * y,
        ArithOp::Div => x / y,
    };
    r.to_bits()
}

fn render(bits: u64) -> String {
    format!("{}", f64::from_bits(bits))
}

fn interpret_input(input: &str) -> Result<Expr, LoxError> {
    let mut scanner = Scanner::new(input);
    let tokens = scanner.scan_tokens(&to_bits)?;
    let mut parser = LoxParser::new(&tokens.clone());
    let tree = parser.parse()?;
    let interp = Interpreter::new();
    interp.interpret(&tree, &arith, &render)
}

fn interpret_tree(tree: &Expr) -> Result<Expr, LoxError> {
    Interpreter::new().interpret(tree, &arith, &render)
}

fn number(value: f64) -> Expr {
    Expr::Literal(Token::new(TokenType::Number(value.to_bits()), 0))
}

fn number_on(value: f64, line: usize) -> Expr {
    Expr::Literal(Token::new(TokenType::Number(value.to_bits()), line))
}

fn string(text: &str) -> Expr {
    Expr::Literal(Token::new(TokenType::QuotedString(text.to_string()), 0))
}

fn truth(b: bool) -> Expr {
    match b {
        true => Expr::True,
        false => Expr::False,
    }
}

fn value_of(input: &str) -> Expr {
    match interpret_input(input) {
        Ok(value) => value,
        Err(error) => panic!("{:?} failed: {}", input, error.to_string()),
    }
}

fn error_of(input: &str) -> String {
    match interpret_input(input) {
        Ok(value) => panic!("{:?} gave {:?}", input, value),
        Err(error) => error.to_string(),
    }
}

#[test]
fn test_unary_false() {
    assert_eq!(Expr::True, value_of("!false"));
}

#[test]
fn test_unary_true() {
    assert_eq!(Expr::False, value_of("!true"));
}

#[test]
fn test_unary_nil() {
    assert_eq!(Expr::True, value_of("!nil"));
}

#[test]
fn test_unary_minus_neg() {
    assert_eq!(number(-5.0), value_of("-5"));
}

#[test]
fn test_unary_minus_pos() {
    assert_eq!(number(5.0), value_of("-(-5)"));
}

#[test]
fn test_binary_addition() {
    assert_eq!(number(5.0), value_of("3 + 2"));
}

#[test]
fn test_binary_subtraction() {
    assert_eq!(number(12 as f64), value_of("15 - 3"));
}

#[test]
fn test_binary_multiplication() {
    assert_eq!(number(60 as f64), value_of("15 * 4"));
}

#[test]
fn test_binary_division() {
    assert_eq!(number(5 as f64), value_of("15 / 3"));
}

#[test]
fn test_grouping() {
    assert_eq!(number(20 as f64), value_of("(15 / 3) * 4"));
}

#[test]
fn test_grouping_spaces() {
    assert_eq!(number(20 as f64), value_of("( 15 / 3 ) * 4"));
}

#[test]
fn test_concat() {
    assert_eq!(string("abcdef"), value_of("\"abc\" + \"def\""));
}

#[test]
fn test_greater_than() {
    assert_eq!(truth(true), value_of("5 + 12 > 15"));
}

#[test]
fn test_greater_than_2() {
    assert_eq!(truth(false), value_of("5 +5 > 15"));
}

#[test]
fn test_less_than() {
    assert_eq!(truth(true), value_of("5 + 12 < 20"));
}

#[test]
fn test_less_than_2() {
    assert_eq!(truth(false), value_of("5 + 5 < 3"));
}

#[test]
fn test_ge() {
    assert_eq!(truth(true), value_of("15 >= 15"));
}

#[test]
fn test_ge_2() {
    assert_eq!(truth(true), value_of("15 >= 12"));
}

#[test]
fn test_ge_3() {
    assert_eq!(truth(false), value_of("15 >= 20"));
}

#[test]
fn test_le() {
    assert_eq!(truth(true), value_of("15 <= 15"));
}

#[test]
fn test_le_2() {
    assert_eq!(truth(true), value_of("15 <= 16"));
}

#[test]
fn test_le_3() {
    assert_eq!(truth(false), value_of("15 <= 5"));
}

#[test]
fn test_eq_success() {
    assert_eq!(truth(true), value_of("5 == 5"));
}

#[test]
fn test_eq_failure() {
    assert_eq!(truth(false), value_of("5 == 6"));
}

#[test]
fn test_ne_success() {
    assert_eq!(truth(true), value_of("5 != 6"));
}

#[test]
fn test_ne_failure() {
    assert_eq!(truth(false), value_of("5 != 5"));
}

#[test]
fn precedence_of_multiplication_over_addition() {
    assert_eq!(number(7.0), value_of("1 + 2 * 3"));
    assert_ne!(number(9.0), value_of("1 + 2 * 3"));
    assert_eq!(number(9.0), value_of("(1 + 2) * 3"));
}

#[test]
fn subtraction_is_left_associative() {
    assert_eq!(number(3.0), value_of("8 - 3 - 2"));
    assert_eq!(number(7.0), value_of("8 - (3 - 2)"));
    assert_eq!(number(2.0), value_of("16 / 4 / 2"));
}

#[test]
fn string_concatenation() {
    assert_eq!(string("abcd"), value_of("\"ab\" + \"cd\""));
    assert_eq!(string(""), value_of("\"\" + \"\""));
    assert_eq!(string("abc"), value_of("\"a\" + \"b\" + \"c\""));
    assert_eq!(error_of("\"ab\" + 1"), "Invalid arguments to '+'..");
    assert_eq!(error_of("1 + \"ab\""), "Invalid arguments to '+'..");
    assert_eq!(error_of("true + true"), "Invalid arguments to '+'..");
    assert_eq!(error_of("nil + 1"), "Invalid arguments to '+'..");
}

#[test]
fn truthiness_table() {
    assert_eq!(Expr::True, value_of("!false"));
    assert_eq!(Expr::True, value_of("!nil"));
    assert_eq!(Expr::False, value_of("!true"));
    assert_eq!(Expr::False, value_of("!0"));
    assert_eq!(Expr::False, value_of("!\"\""));
    assert_eq!(Expr::False, value_of("!1"));
    assert_eq!(Expr::False, value_of("!\"false\""));
    assert_eq!(Expr::False, value_of("!!nil"));
    assert_eq!(Expr::True, value_of("!!0"));
    assert_eq!(Expr::True, value_of("!(1 > 2)"));
}

#[test]
fn comparisons_give_boolean_variants() {
    assert_eq!(Expr::True, value_of("5 == 5"));
    assert_eq!(Expr::False, value_of("5 != 5"));
    assert_eq!(Expr::False, value_of("15 >= 16"));
    assert_eq!(Expr::True, value_of("1 < 2"));
    assert_eq!(Expr::False, value_of("2 < 1"));
    assert_eq!(Expr::False, value_of("2 < 2"));
    assert_eq!(Expr::True, value_of("-1 < 1"));
    assert_eq!(Expr::True, value_of("-2 < -1"));
    assert_eq!(Expr::True, value_of("0 == -0"));
    assert_eq!(Expr::True, value_of("0.5 > 0.25"));
}

#[test]
fn comparisons_need_two_numbers() {
    for src in [
        "\"a\" == \"a\"",
        "\"a\" < \"b\"",
        "1 == \"1\"",
        "true == true",
        "nil != nil",
        "1 < true",
        "nil >= 1",
        "\"a\" <= 1",
        "1 > nil",
    ] {
        assert_eq!(error_of(src), "Invalid inputs to comparison..", "Input was {:?}", src);
    }
}

#[test]
fn arithmetic_needs_two_numbers() {
    for src in ["1 - \"a\"", "\"a\" * 2", "true / 2", "nil - nil", "\"a\" - \"b\"", "1 * nil"] {
        assert_eq!(error_of(src), "A number was expected but not found..", "Input was {:?}", src);
    }
}

#[test]
fn division_by_zero_is_no_error() {
    assert_eq!(number(f64::INFINITY), value_of("1 / 0"));
    assert_eq!(number(f64::NEG_INFINITY), value_of("-1 / 0"));
    match value_of("0 / 0") {
        Expr::Literal(Token { typ: TokenType::Number(bits), line: 0 }) => {
            assert!(f64::from_bits(bits).is_nan())
        }
        other => panic!("{:?}", other),
    }
    // A NaN is unequal to everything, itself included.
    assert_eq!(Expr::False, value_of("0 / 0 == 0 / 0"));
    assert_eq!(Expr::True, value_of("0 / 0 != 0 / 0"));
    assert_eq!(Expr::False, value_of("0 / 0 < 1"));
    assert_eq!(Expr::False, value_of("0 / 0 >= 1"));
    assert_eq!(Expr::True, value_of("1 / 0 > 1000000"));
}

#[test]
fn arithmetic_rounds_as_doubles_do() {
    assert_eq!(number(0.1 + 0.2), value_of("0.1 + 0.2"));
    assert_eq!(Expr::False, value_of("0.1 + 0.2 == 0.3"));
    assert_eq!(number(1.0 / 3.0), value_of("1 / 3"));
    assert_eq!(number(2.5), value_of("10 / 4"));
    assert_eq!(number(-0.0), value_of("-0"));
}

#[test]
fn reduced_values_evaluate_to_themselves() {
    let five = value_of("2+3");
    assert_eq!(five, number(5.0));
    assert_eq!(interpret_tree(&five).unwrap(), five);
    for value in [
        Expr::True,
        Expr::False,
        Expr::Nil,
        number(1.5),
        number_on(7.0, 12),
        number(f64::NAN),
        string(""),
        string("text"),
    ] {
        let again = interpret_tree(&value).unwrap();
        assert_eq!(again, value);
        assert_eq!(interpret_tree(&again).unwrap(), value);
    }
    for src in ["1 + 2 * 3", "\"a\" + \"b\"", "!nil", "1 < 2", "nil", "-(4)", "\"s\""] {
        let value = value_of(src);
        assert_eq!(interpret_tree(&value).unwrap(), value, "Input was {:?}", src);
    }
}

#[test]
fn literals_keep_their_line_and_computed_values_are_on_line_zero() {
    assert_eq!(value_of("\n\n7"), number_on(7.0, 3));
    assert_eq!(value_of("\n(7)"), number_on(7.0, 2));
    assert_eq!(
        value_of("\n\"s\""),
        Expr::Literal(Token::new(TokenType::QuotedString("s".to_string()), 2))
    );
    assert_eq!(value_of("\n\n7 + 0"), number(7.0));
    assert_eq!(value_of("\n\n-7"), number(-7.0));
    assert_eq!(value_of("\n\"a\" + \"b\""), string("ab"));
}

#[test]
fn identifiers_are_not_implemented() {
    assert_eq!(error_of("x"), "Identifier not implemented.");
    assert_eq!(error_of("abc + 1"), "Identifier not implemented.");
    assert_eq!(error_of("1 + abc"), "Identifier not implemented.");
    assert_eq!(error_of("!_"), "Identifier not implemented.");
    assert_eq!(error_of("(x)"), "Identifier not implemented.");
}

#[test]
fn the_left_operand_is_evaluated_first() {
    // Both operands fail; the error is the left one's.
    assert_eq!(error_of("x + (1 - nil)"), "Identifier not implemented.");
    assert_eq!(error_of("(1 - nil) + x"), "A number was expected but not found..");
    // Operands are evaluated before the operator is looked at.
    let tree = Expr::Binary(
        Box::new(Expr::Identifier(Token::new(TokenType::Identifier("x".to_string()), 1))),
        Token::new(TokenType::Comma, 1),
        Box::new(Expr::Nil),
    );
    assert_eq!(interpret_tree(&tree).unwrap_err().message(), "Identifier not implemented");
}

#[test]
fn unary_minus_needs_a_number() {
    assert_eq!(error_of("-\"abc\""), "Unsupported target token of unary minus: \"abc\".");
    assert_eq!(error_of("-true"), "Unsupported target expression of unary minus: true.");
    assert_eq!(error_of("-false"), "Unsupported target expression of unary minus: false.");
    assert_eq!(error_of("-nil"), "Unsupported target expression of unary minus: nil.");
    assert_eq!(error_of("-(1 < 2)"), "Unsupported target expression of unary minus: true.");
    assert_eq!(error_of("-x"), "Identifier not implemented.");
}

#[test]
fn trees_the_parser_never_builds() {
    let one = || Box::new(number(1.0));
    let tree = Expr::Binary(one(), Token::new(TokenType::Comma, 1), one());
    assert_eq!(interpret_tree(&tree).unwrap_err().message(), "Token not recognized");
    let tree = Expr::Binary(one(), Token::new(TokenType::Bang, 1), one());
    assert_eq!(interpret_tree(&tree).unwrap_err().message(), "Token not recognized");
    let tree = Expr::Unary(Token::new(TokenType::Plus, 1), one());
    assert_eq!(interpret_tree(&tree).unwrap_err().message(), "Invalid unary operator: +");
    let tree = Expr::Unary(Token::new(TokenType::Number(2.5f64.to_bits()), 1), one());
    assert_eq!(interpret_tree(&tree).unwrap_err().message(), "Invalid unary operator: 2.5");
    // The operand of an invalid operator is not evaluated.
    let tree = Expr::Unary(
        Token::new(TokenType::While, 1),
        Box::new(Expr::Identifier(Token::new(TokenType::Identifier("x".to_string()), 1))),
    );
    assert_eq!(interpret_tree(&tree).unwrap_err().message(), "Invalid unary operator: while");
    let tree = Expr::Literal(Token::new(TokenType::Plus, 1));
    assert_eq!(interpret_tree(&tree).unwrap_err().message(), "Unrecognized literal: +");
    let tree = Expr::Literal(Token::new(TokenType::Identifier("abc".to_string()), 1));
    assert_eq!(interpret_tree(&tree).unwrap_err().message(), "Unrecognized literal: abc");
    let tree = Expr::Literal(Token::new(TokenType::Eof, 1));
    assert_eq!(interpret_tree(&tree).unwrap_err().message(), "Unrecognized literal: EOF");
}

#[test]
fn arithmetic_is_what_the_caller_supplies() {
    let tree = Expr::Binary(
        Box::new(number(1.0)),
        Token::new(TokenType::Plus, 1),
        Box::new(Expr::Binary(
            Box::new(number(2.0)),
            Token::new(TokenType::Slash, 1),
            Box::new(number(3.0)),
        )),
    );
    let tag = |op: ArithOp, _a: u64, _b: u64| match op {
        ArithOp::Add => 1,
        ArithOp::Sub => 2,
        ArithOp::Mul => 3,
        ArithOp::Div => 4,
    };
    let got = Interpreter::new().interpret(&tree, &tag, &render).unwrap();
    assert_eq!(got, Expr::Literal(Token::new(TokenType::Number(1), 0)));
    let second = |_op: ArithOp, _a: u64, b: u64| b;
    let got = Interpreter::new().interpret(&tree, &second, &render).unwrap();
    assert_eq!(got, number(3.0));
}

#[test]
fn get_number_and_get_string() {
    assert_eq!(get_number(&number(2.5)).unwrap(), 2.5f64.to_bits());
    assert_eq!(get_string(&string("ab")).unwrap(), "ab");
    for other in [Expr::True, Expr::False, Expr::Nil, string("1")] {
        assert_eq!(
            get_number(&other).unwrap_err().message(),
            "A number was expected but not found."
        );
    }
    for other in [Expr::True, Expr::False, Expr::Nil, number(1.0)] {
        assert_eq!(
            get_string(&other).unwrap_err().message(),
            "A String was expected but not found."
        );
    }
    let tree = Expr::Grouping(Box::new(number(1.0)));
    assert!(get_number(&tree).is_err());
    assert!(get_string(&tree).is_err());
}
