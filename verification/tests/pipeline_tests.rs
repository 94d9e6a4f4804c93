use rlox::number::ArithOp;
use rlox::parser::Expr;
use rlox::pipeline::interpret_input;
use rlox::token::{Token, TokenType};

fn to_bits(numeral: String) -> u64 {
    numeral.parse::<f64>().unwrap().to_bits()
}

fn arith(op: ArithOp, a: u64, b: u64) -> u64 {
    let (x, y) = (f64::from_bits(a), f64::from_bits(b));
    let r = match op {
        ArithOp::Add => x + y,
        ArithOp::Sub => x - y,
        ArithOp::Mul => x * y,
        ArithOp::Div => x / y,
    };
    r.to_bits()
}

fn render(bits: u64) -> String {
    format!("{}", f64::from_bits(bits))
}

fn run(source: &str) -> Result<Expr, String> {
    interpret_input(source, &to_bits, &arith, &render).map_err(|e| e.to_string())
}

fn number(value: f64) -> Expr {
    Expr::Literal(Token::new(TokenType::Number(value.to_bits()), 0))
}

#[test]
fn pipeline_evaluates_source_text() {
    assert_eq!(run("1 + 2 * 3"), Ok(number(7.0)));
    assert_eq!(run("(1 + 2) * 3"), Ok(number(9.0)));
    assert_eq!(run("8 - 3 - 2"), Ok(number(3.0)));
    assert_eq!(
        run("\"ab\" + \"cd\""),
        Ok(Expr::Literal(Token::new(TokenType::QuotedString("abcd".to_string()), 0)))
    );
    assert_eq!(run("5 == 5"), Ok(Expr::True));
    assert_eq!(run("5 != 5"), Ok(Expr::False));
    assert_eq!(run("15 >= 16"), Ok(Expr::False));
    assert_eq!(run("!nil"), Ok(Expr::True));
    assert_eq!(run("// nothing but this\n nil"), Ok(Expr::Nil));
}

#[test]
fn pipeline_reports_the_error_of_the_stage_that_failed() {
    // Scanning.
    assert_eq!(
        run("\"abc"),
        Err("Unterminated string starting on line 1: Missing end-quote: idx=4, len=4..".to_string())
    );
    assert_eq!(run("1.2.3"), Err("invalid float literal.".to_string()));
    assert_eq!(run("1 + $"), Err("Invalid character on line 1: $.".to_string()));
    // Parsing.
    assert_eq!(run("1 +"), Err("Invalid token!.".to_string()));
    assert_eq!(run(""), Err("Invalid token!.".to_string()));
    // Evaluation.
    assert_eq!(run("x"), Err("Identifier not implemented.".to_string()));
    assert_eq!(run("\"ab\" + 1"), Err("Invalid arguments to '+'..".to_string()));
}

#[test]
fn a_scan_error_wins_over_later_errors() {
    // The text would not parse either, but scanning fails first.
    assert_eq!(run("+ + @"), Err("Invalid character on line 1: @.".to_string()));
    // The identifier would fail to evaluate, but parsing fails first.
    assert_eq!(run("x +"), Err("Invalid token!.".to_string()));
}

#[test]
fn bare_identifiers_scan_and_parse_but_do_not_evaluate() {
    for name in ["x", "_", "abc", "a1", "_9", "Print", "nilly", "classy", "xor"] {
        assert_eq!(run(name), Err("Identifier not implemented.".to_string()), "Input was {:?}", name);
    }
}
