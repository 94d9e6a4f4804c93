use rlox::parser::{Expr, LoxParser};
use rlox::scanner::Scanner;
use rlox::token::{Token, TokenType};

fn to_bits(numeral: String) -> u64 {
    numeral.parse::<f64>().unwrap().to_bits()
}

fn parse(src: &str) -> Result<Expr, String> {
    let mut scanner = Scanner::new(src);
    let tokens = scanner.scan_tokens(&to_bits).unwrap().clone();
    let mut parser = LoxParser::new(&tokens);
    parser.parse().map_err(|e| e.to_string())
}

fn num(value: f64, line: usize) -> Expr {
    Expr::Literal(Token::new(TokenType::Number(value.to_bits()), line))
}

fn binary(left: Expr, op: TokenType, right: Expr) -> Expr {
    Expr::Binary(Box::new(left), Token::new(op, 1), Box::new(right))
}

fn unary(op: TokenType, operand: Expr) -> Expr {
    Expr::Unary(Token::new(op, 1), Box::new(operand))
}

fn group(inner: Expr) -> Expr {
    Expr::Grouping(Box::new(inner))
}

#[test]
fn test_parse_12() {
    let got = parse("12");
    let exp = Ok(Expr::Literal(Token::new(TokenType::Number(12.0f64.to_bits()), 1)));
    assert_eq!(got, exp);
}

#[test]
fn test_addition() {
    let got = parse("1 + 2 == 3;");
    let exp = Ok(Expr::Binary(
        Box::new(Expr::Binary(
            Box::new(Expr::Literal(Token::new(TokenType::Number(1.0f64.to_bits()), 1))),
            Token::new(TokenType::Plus, 1),
            Box::new(Expr::Literal(Token::new(TokenType::Number(2.0f64.to_bits()), 1))),
        )),
        Token::new(TokenType::EqualEqual, 1),
        Box::new(Expr::Literal(Token::new(TokenType::Number(3.0f64.to_bits()), 1))),
    ));
    assert_eq!(got, exp);
}

#[test]
fn parse_primaries() {
    assert_eq!(parse("true"), Ok(Expr::True));
    assert_eq!(parse("false"), Ok(Expr::False));
    assert_eq!(parse("nil"), Ok(Expr::Nil));
    assert_eq!(
        parse("\"hi\""),
        Ok(Expr::Literal(Token::new(TokenType::QuotedString("hi".to_string()), 1)))
    );
    assert_eq!(
        parse("\n\nx"),
        Ok(Expr::Identifier(Token::new(TokenType::Identifier("x".to_string()), 3)))
    );
}

#[test]
fn parse_multiplication_binds_tighter_than_addition() {
    assert_eq!(
        parse("1 + 2 * 3"),
        Ok(binary(num(1.0, 1), TokenType::Plus, binary(num(2.0, 1), TokenType::Star, num(3.0, 1))))
    );
    assert_eq!(
        parse("1 * 2 + 3"),
        Ok(binary(binary(num(1.0, 1), TokenType::Star, num(2.0, 1)), TokenType::Plus, num(3.0, 1)))
    );
}

#[test]
fn parse_every_tier_in_order() {
    // equality < comparison < term < factor < unary
    let got = parse("1 == 2 < 3 + 4 * -5");
    let exp = binary(
        num(1.0, 1),
        TokenType::EqualEqual,
        binary(
            num(2.0, 1),
            TokenType::Less,
            binary(
                num(3.0, 1),
                TokenType::Plus,
                binary(num(4.0, 1), TokenType::Star, unary(TokenType::Minus, num(5.0, 1))),
            ),
        ),
    );
    assert_eq!(got, Ok(exp));
}

#[test]
fn parse_binary_operators_are_left_associative() {
    for (src, op) in [
        ("8 - 3 - 2", TokenType::Minus),
        ("8 + 3 + 2", TokenType::Plus),
        ("8 / 3 / 2", TokenType::Slash),
        ("8 * 3 * 2", TokenType::Star),
        ("8 < 3 < 2", TokenType::Less),
        ("8 <= 3 <= 2", TokenType::LessEqual),
        ("8 > 3 > 2", TokenType::Greater),
        ("8 >= 3 >= 2", TokenType::GreaterEqual),
        ("8 == 3 == 2", TokenType::EqualEqual),
        ("8 != 3 != 2", TokenType::BangEqual),
    ] {
        let exp = Expr::Binary(
            Box::new(Expr::Binary(
                Box::new(num(8.0, 1)),
                Token::new(op.clone(), 1),
                Box::new(num(3.0, 1)),
            )),
            Token::new(op, 1),
            Box::new(num(2.0, 1)),
        );
        assert_eq!(parse(src), Ok(exp), "Input was {:?}", src);
    }
}

#[test]
fn parse_mixed_operators_of_one_tier() {
    assert_eq!(
        parse("1 - 2 + 3"),
        Ok(binary(binary(num(1.0, 1), TokenType::Minus, num(2.0, 1)), TokenType::Plus, num(3.0, 1)))
    );
    assert_eq!(
        parse("1 != 2 == 3"),
        Ok(binary(
            binary(num(1.0, 1), TokenType::BangEqual, num(2.0, 1)),
            TokenType::EqualEqual,
            num(3.0, 1)
        ))
    );
}

#[test]
fn parse_chained_prefix_operators() {
    assert_eq!(
        parse("--5"),
        Ok(unary(TokenType::Minus, unary(TokenType::Minus, num(5.0, 1))))
    );
    assert_eq!(
        parse("!!x"),
        Ok(unary(
            TokenType::Bang,
            unary(
                TokenType::Bang,
                Expr::Identifier(Token::new(TokenType::Identifier("x".to_string()), 1))
            )
        ))
    );
    assert_eq!(
        parse("-!-1"),
        Ok(unary(TokenType::Minus, unary(TokenType::Bang, unary(TokenType::Minus, num(1.0, 1)))))
    );
    assert_eq!(
        parse("1 - -2"),
        Ok(binary(num(1.0, 1), TokenType::Minus, unary(TokenType::Minus, num(2.0, 1))))
    );
}

#[test]
fn parse_grouping() {
    assert_eq!(
        parse("(1 + 2) * 3"),
        Ok(binary(
            group(binary(num(1.0, 1), TokenType::Plus, num(2.0, 1))),
            TokenType::Star,
            num(3.0, 1)
        ))
    );
    assert_eq!(parse("((7))"), Ok(group(group(num(7.0, 1)))));
    assert_eq!(
        parse("-(1)"),
        Ok(unary(TokenType::Minus, group(num(1.0, 1))))
    );
}

#[test]
fn parse_grouping_takes_the_next_token_as_closing() {
    // The token after the inner expression is consumed without a check.
    assert_eq!(parse("(1 + 2"), Ok(group(binary(num(1.0, 1), TokenType::Plus, num(2.0, 1)))));
    assert_eq!(parse("(1 ; + 2"), Ok(binary(group(num(1.0, 1)), TokenType::Plus, num(2.0, 1))));
    assert_eq!(parse("(1 2"), Ok(group(num(1.0, 1))));
}

#[test]
fn parse_leaves_trailing_tokens_alone() {
    let mut scanner = Scanner::new("1 2 3");
    let tokens = scanner.scan_tokens(&to_bits).unwrap().clone();
    let mut parser = LoxParser::new(&tokens);
    assert_eq!(parser.parse().unwrap(), num(1.0, 1));
    assert_eq!(parser.parse().unwrap(), num(2.0, 1));
    assert_eq!(parser.parse().unwrap(), num(3.0, 1));
    assert_eq!(parser.parse().unwrap_err().message(), "Invalid token!");
    assert_eq!(parser.parse().unwrap_err().message(), "Invalid token!");
}

#[test]
fn parse_errors() {
    for src in ["", "+", "1 +", "1 + *", ")", "(", "((", "-", "!", "1 == ", "()", "(1 + )", "; 1", "{", "var"] {
        assert_eq!(parse(src), Err("Invalid token!.".to_string()), "Input was {:?}", src);
    }
}

#[test]
fn parse_does_not_need_an_eof_token() {
    let tokens = vec![
        Token::new(TokenType::Number(1.0f64.to_bits()), 1),
        Token::new(TokenType::Plus, 1),
        Token::new(TokenType::Number(2.0f64.to_bits()), 2),
    ];
    let mut parser = LoxParser::new(&tokens);
    let exp = Expr::Binary(
        Box::new(num(1.0, 1)),
        Token::new(TokenType::Plus, 1),
        Box::new(num(2.0, 2)),
    );
    assert_eq!(parser.parse().unwrap(), exp);
    let mut parser = LoxParser::new(&Vec::new());
    assert_eq!(parser.parse().unwrap_err().message(), "Invalid token!");
}

#[test]
fn parse_stops_at_an_eof_token_in_the_middle() {
    let tokens = vec![
        Token::new(TokenType::Number(1.0f64.to_bits()), 1),
        Token::new(TokenType::Eof, 1),
        Token::new(TokenType::Plus, 1),
        Token::new(TokenType::Number(2.0f64.to_bits()), 1),
    ];
    let mut parser = LoxParser::new(&tokens);
    assert_eq!(parser.parse().unwrap(), num(1.0, 1));
    assert_eq!(parser.parse().unwrap_err().message(), "Invalid token!");
}

#[test]
fn parse_keeps_the_lines_of_tokens() {
    let got = parse("1\n+\n2").unwrap();
    let exp = Expr::Binary(
        Box::new(num(1.0, 1)),
        Token::new(TokenType::Plus, 2),
        Box::new(num(2.0, 3)),
    );
    assert_eq!(got, exp);
}
