use rlox::number::{compare, nan, negate, Relation, INFINITY_BITS, SIGN_BIT};
use rlox::text::{chars_of, push_decimal};
use rlox::token::{Token, TokenType};

fn samples() -> Vec<f64> {
    vec![
        0.0,
        -0.0,
        1.0,
        -1.0,
        0.5,
        -0.5,
        2.0,
        1e300,
        -1e300,
        f64::MIN_POSITIVE,
        -f64::MIN_POSITIVE,
        5e-324,
        -5e-324,
        f64::MAX,
        f64::MIN,
        f64::INFINITY,
        f64::NEG_INFINITY,
        f64::NAN,
        -f64::NAN,
        f64::from_bits(0x7ff0_0000_0000_0001),
        f64::from_bits(0xffff_ffff_ffff_ffff),
        f64::EPSILON,
        1.0 + f64::EPSILON,
        3.141592653589793,
    ]
}

#[test]
fn comparisons_agree_with_doubles() {
    for &x in &samples() {
        for &y in &samples() {
            let (a, b) = (x.to_bits(), y.to_bits());
            assert_eq!(compare(Relation::Less, a, b), x < y, "{} < {}", x, y);
            assert_eq!(compare(Relation::LessEqual, a, b), x <= y, "{} <= {}", x, y);
            assert_eq!(compare(Relation::Greater, a, b), x > y, "{} > {}", x, y);
            assert_eq!(compare(Relation::GreaterEqual, a, b), x >= y, "{} >= {}", x, y);
            assert_eq!(compare(Relation::Equal, a, b), x == y, "{} == {}", x, y);
            assert_eq!(compare(Relation::NotEqual, a, b), x != y, "{} != {}", x, y);
        }
    }
}

#[test]
fn negation_agrees_with_doubles() {
    for &x in &samples() {
        assert_eq!(negate(x.to_bits()), (-x).to_bits(), "-({})", x);
        assert_eq!(negate(negate(x.to_bits())), x.to_bits());
    }
    assert_eq!(negate(0), SIGN_BIT);
    assert_eq!(negate(SIGN_BIT), 0);
    assert_eq!(negate(5.0f64.to_bits()), (-5.0f64).to_bits());
}

#[test]
fn nan_agrees_with_doubles() {
    for &x in &samples() {
        assert_eq!(nan(x.to_bits()), x.is_nan(), "{}", x);
    }
    assert!(!nan(INFINITY_BITS));
    assert!(nan(INFINITY_BITS + 1));
    assert!(!nan(INFINITY_BITS + SIGN_BIT));
    assert_eq!(INFINITY_BITS, f64::INFINITY.to_bits());
}

#[test]
fn zeros_are_equal_and_nan_is_not() {
    let (zero, minus_zero) = (0.0f64.to_bits(), (-0.0f64).to_bits());
    assert!(compare(Relation::Equal, zero, minus_zero));
    assert!(!compare(Relation::Less, minus_zero, zero));
    assert!(compare(Relation::LessEqual, minus_zero, zero));
    assert!(compare(Relation::GreaterEqual, minus_zero, zero));
    let not_a_number = f64::NAN.to_bits();
    assert!(!compare(Relation::Equal, not_a_number, not_a_number));
    assert!(compare(Relation::NotEqual, not_a_number, not_a_number));
    assert!(!compare(Relation::LessEqual, not_a_number, not_a_number));
}

#[test]
fn decimal_text_of_counts() {
    for n in [0usize, 1, 9, 10, 11, 99, 100, 101, 1234, 65535, 1000000, usize::MAX] {
        let mut out = String::from("n=");
        push_decimal(&mut out, n);
        assert_eq!(out, format!("n={}", n));
    }
}

#[test]
fn characters_in_and_out() {
    assert_eq!(chars_of("a\u{e9}\u{1f600}"), vec!['a', '\u{e9}', '\u{1f600}']);
    assert_eq!(chars_of(""), Vec::<char>::new());
}

#[test]
fn token_text() {
    let render = |bits: u64| format!("{}", f64::from_bits(bits));
    let table = vec![
        (TokenType::LeftParen, "("),
        (TokenType::RightParen, ")"),
        (TokenType::LeftBrace, "{"),
        (TokenType::RightBrace, "}"),
        (TokenType::Comma, ","),
        (TokenType::Dot, "."),
        (TokenType::Minus, "-"),
        (TokenType::Plus, "+"),
        (TokenType::Semicolon, ";"),
        (TokenType::Slash, "/"),
        (TokenType::Star, "*"),
        (TokenType::Bang, "!"),
        (TokenType::BangEqual, "!="),
        (TokenType::Equal, "="),
        (TokenType::EqualEqual, "=="),
        (TokenType::Greater, ">"),
        (TokenType::GreaterEqual, ">="),
        (TokenType::Less, "<"),
        (TokenType::LessEqual, "<="),
        (TokenType::Identifier("name".to_string()), "name"),
        (TokenType::QuotedString("some text".to_string()), "\"some text\""),
        (TokenType::Number(12.0f64.to_bits()), "12"),
        (TokenType::Number(1234.5f64.to_bits()), "1234.5"),
        (TokenType::And, "and"),
        (TokenType::Class, "class"),
        (TokenType::Else, "else"),
        (TokenType::False, "false"),
        (TokenType::Fun, "fun"),
        (TokenType::For, "for"),
        (TokenType::If, "if"),
        (TokenType::Nil, "nil"),
        (TokenType::Or, "or"),
        (TokenType::Print, "print"),
        (TokenType::Return, "return"),
        (TokenType::Super, "super"),
        (TokenType::This, "this"),
        (TokenType::True, "true"),
        (TokenType::Var, "var"),
        (TokenType::While, "while"),
        (TokenType::Eof, "EOF"),
    ];
    for (typ, text) in table {
        assert_eq!(typ.to_string(&render), text);
        assert_eq!(typ.clone(), typ);
        assert_eq!(Token::new(typ.clone(), 7).to_string(&render), text);
    }
}

#[test]
fn token_types_from_their_payloads() {
    assert_eq!(TokenType::from("F".to_string()), TokenType::Identifier("F".to_string()));
    assert_eq!(TokenType::from(1234.5f64.to_bits()), TokenType::Number(1234.5f64.to_bits()));
    let typ: TokenType = String::from("foo_bar").into();
    assert_eq!(typ, TokenType::Identifier("foo_bar".to_string()));
}

#[test]
fn token_equality_is_by_variant_and_payload() {
    let a = TokenType::Identifier("a".to_string());
    assert_eq!(a, TokenType::Identifier("a".to_string()));
    assert_ne!(a, TokenType::Identifier("b".to_string()));
    assert_ne!(a, TokenType::QuotedString("a".to_string()));
    assert_ne!(TokenType::Number(1), TokenType::Number(2));
    assert_eq!(TokenType::Number(7), TokenType::Number(7));
    assert_ne!(TokenType::True, TokenType::False);
    assert_ne!(TokenType::Bang, TokenType::BangEqual);
    assert_eq!(Token::new(TokenType::Plus, 1), Token::new(TokenType::Plus, 1));
    assert_ne!(Token::new(TokenType::Plus, 1), Token::new(TokenType::Plus, 2));
    let token = Token::new(TokenType::QuotedString("s".to_string()), 3);
    assert_eq!(token.clone(), token);
    assert_eq!(token.typ, TokenType::QuotedString("s".to_string()));
    assert_eq!(token.line, 3);
}
