//! The evaluator: an expression tree to a value, by walking the tree.
//!
//! The evaluator decides what each operator means for each kind of
//! operand, compares and negates numbers, and joins strings. The four
//! arithmetic operations round their results; for them it calls `arith`,
//! which the caller supplies, as it supplies `render` for the decimal text
//! of a number in a message.

use crate::error::LoxError;
use crate::grammar::ExprView;
use crate::number::{compare, negate, ArithOp, Relation};
use crate::parser::Expr;
use crate::semantics::{
    alike, apply_binary, apply_binary_kind, apply_minus, apply_minus_kind, evaluate, is_value,
    number_of, number_value, size, string_of, truth, value_text, Floats,
};
use crate::token::{renders, Token, TokenType};
use vstd::prelude::*;
use vstd::string::StringExecFns;

verus! {

/// Whether `arith` computes every operation as `f` does.
pub open spec fn computes<A: Fn(ArithOp, u64, u64) -> u64>(
    arith: &A,
    f: spec_fn(ArithOp, u64, u64) -> u64,
) -> bool {
    forall|op: ArithOp, a: u64, b: u64, r: u64| #[trigger]
        arith.ensures((op, a, b), r) ==> r == f(op, a, b)
}

/// Whether `arith` and `render` are the functions of `floats`.
pub open spec fn supplies<A: Fn(ArithOp, u64, u64) -> u64, R: Fn(u64) -> String>(
    arith: &A,
    render: &R,
    floats: Floats,
) -> bool {
    computes(arith, floats.arith) && renders(render, floats.text)
}

/// What the evaluator hands back, to the contracts.
pub open spec fn result_view(r: Result<Expr, LoxError>) -> Result<ExprView, Seq<char>> {
    match r {
        Ok(value) => Ok(value@),
        Err(error) => Err(error@),
    }
}

/// The bit pattern of a value that is a number.
pub fn get_number(n: &Expr) -> (r: Result<u64, LoxError>)
    ensures
        match number_of(n@) {
            Some(bits) => r == Ok::<u64, LoxError>(bits),
            None => r is Err && r->Err_0@ == "A number was expected but not found."@,
        },
{
    if let Expr::Literal(n) = n {
        if let TokenType::Number(n) = n.typ {
            return Ok(n);
        }
    }
    Err(LoxError::new("A number was expected but not found."))
}

/// The text of a value that is a string.
pub fn get_string(e: &Expr) -> (r: Result<String, LoxError>)
    ensures
        match string_of(e@) {
            Some(text) => r is Ok && r->Ok_0@ == text,
            None => r is Err && r->Err_0@ == "A String was expected but not found."@,
        },
{
    if let Expr::Literal(e) = e {
        if let TokenType::QuotedString(qs) = &e.typ {
            return Ok(qs.clone());
        }
    }
    Err(LoxError::new("A String was expected but not found."))
}

/// The value of a truth value.
fn truth_value(b: bool) -> (value: Expr)
    ensures
        value@ == truth(b),
{
    if b {
        Expr::True
    } else {
        Expr::False
    }
}

/// How a value is named in a message.
fn value_name<R: Fn(u64) -> String>(value: &Expr, render: &R) -> (s: String)
    requires
        forall|bits: u64| render.requires((bits,)),
    ensures
        number_of(value@) is None ==> forall|number_text: spec_fn(u64) -> Seq<char>|
            s@ == #[trigger] value_text(value@, number_text),
        forall|number_text: spec_fn(u64) -> Seq<char>| #[trigger]
            renders(render, number_text) ==> s@ == value_text(value@, number_text),
{
    match value {
        Expr::True => String::from_str("true"),
        Expr::False => String::from_str("false"),
        Expr::Nil => String::from_str("nil"),
        Expr::Literal(token) => token.to_string(render),
        _ => String::new(),
    }
}

/// The evaluator. It keeps nothing from one evaluation to the next.
pub struct Interpreter {}

impl Interpreter {
    /// An evaluator.
    pub fn new() -> (interpreter: Interpreter) {
        Interpreter {  }
    }

    /// Reduces `expr` to a value: `True`, `False`, `Nil`, or a `Literal`
    /// of a number or a string. The first error ends the evaluation.
    ///
    /// `arith` computes the four arithmetic operations on bit patterns, and
    /// `render` writes a number in decimal.
    ///
    /// Whatever the two return, the evaluation fails exactly where
    /// `evaluate` does, and otherwise gives a value of the kind that
    /// `evaluate` gives. Where they are functions, the outcome is that of
    /// `evaluate` with these functions.
    pub fn interpret<A: Fn(ArithOp, u64, u64) -> u64, R: Fn(u64) -> String>(
        &self,
        expr: &Expr,
        arith: &A,
        render: &R,
    ) -> (r: Result<Expr, LoxError>)
        requires
            forall|op: ArithOp, a: u64, b: u64| arith.requires((op, a, b)),
            forall|bits: u64| render.requires((bits,)),
        ensures
            r is Ok ==> is_value(r->Ok_0@),
            forall|floats: Floats| alike(result_view(r), #[trigger] evaluate(expr@, floats)),
            forall|floats: Floats| #[trigger]
                supplies(arith, render, floats) ==> result_view(r) == evaluate(expr@, floats),
        decreases size(expr@), 1nat,
    {
        match expr {
            Expr::False => Ok(Expr::False),
            Expr::True => Ok(Expr::True),
            Expr::Nil => Ok(Expr::Nil),
            Expr::Binary(left, oper, right) => self.evaluate_binary(
                left,
                oper,
                right,
                arith,
                render,
            ),
            Expr::Unary(tok, right) => self.evaluate_unary(tok, right, arith, render),
            Expr::Literal(tok) => {
                if let TokenType::Number(n) = tok.typ {
                    Ok(Expr::Literal(Token::new(TokenType::Number(n), tok.line)))
                } else if let TokenType::QuotedString(s) = &tok.typ {
                    Ok(Expr::Literal(Token::new(TokenType::QuotedString(s.clone()), tok.line)))
                } else {
                    let mut message = String::from_str("Unrecognized literal: ");
                    let text = tok.to_string(render);
                    message.append(text.as_str());
                    Err(LoxError::new(message.as_str()))
                }
            },
            Expr::Grouping(inner) => {
                let r = self.interpret(inner, arith, render);
                proof {
                    assert forall|floats: Floats|
                        alike(result_view(r), #[trigger] evaluate(expr@, floats)) by {
                        assert(alike(result_view(r), evaluate(inner@, floats)));
                    }
                }
                r
            },
            Expr::Identifier(_tok) => Err(LoxError::new("Identifier not implemented")),
        }
    }

    /// Evaluates both operands, the left one first, and applies the operator.
    fn evaluate_binary<A: Fn(ArithOp, u64, u64) -> u64, R: Fn(u64) -> String>(
        &self,
        left: &Expr,
        oper: &Token,
        right: &Expr,
        arith: &A,
        render: &R,
    ) -> (r: Result<Expr, LoxError>)
        requires
            forall|op: ArithOp, a: u64, b: u64| arith.requires((op, a, b)),
            forall|bits: u64| render.requires((bits,)),
        ensures
            r is Ok ==> is_value(r->Ok_0@),
            forall|floats: Floats|
                alike(
                    result_view(r),
                    #[trigger] evaluate(
                        ExprView::Binary(Box::new(left@), oper@, Box::new(right@)),
                        floats,
                    ),
                ),
            forall|floats: Floats| #[trigger]
                supplies(arith, render, floats) ==> result_view(r) == evaluate(
                    ExprView::Binary(Box::new(left@), oper@, Box::new(right@)),
                    floats,
                ),
        decreases size(left@) + size(right@) + 1, 0nat,
    {
        let ghost tree = ExprView::Binary(Box::new(left@), oper@, Box::new(right@));
        let ghost left_tree = left@;
        let ghost right_tree = right@;
        let left = match self.interpret(left, arith, render) {
            Ok(value) => value,
            Err(error) => {
                proof {
                    assert forall|floats: Floats|
                        alike(Err(error@), #[trigger] evaluate(tree, floats)) by {
                        assert(alike(Err(error@), evaluate(left_tree, floats)));
                    }
                }
                return Err(error);
            },
        };
        let right = match self.interpret(right, arith, render) {
            Ok(value) => value,
            Err(error) => {
                proof {
                    assert forall|floats: Floats|
                        alike(Err(error@), #[trigger] evaluate(tree, floats)) by {
                        assert(alike(Ok(left@), evaluate(left_tree, floats)));
                        assert(alike(Err(error@), evaluate(right_tree, floats)));
                    }
                }
                return Err(error);
            },
        };
        let r = self.apply(&left, oper, &right, arith);
        proof {
            assert forall|floats: Floats|
                alike(result_view(r), #[trigger] evaluate(tree, floats)) by {
                assert(alike(Ok(left@), evaluate(left_tree, floats)));
                assert(alike(Ok(right@), evaluate(right_tree, floats)));
                apply_binary_kind(
                    left@,
                    right@,
                    evaluate(left_tree, floats)->Ok_0,
                    evaluate(right_tree, floats)->Ok_0,
                    oper@.typ,
                    floats.arith,
                    floats.arith,
                );
                assert(alike(
                    result_view(r),
                    apply_binary(left@, oper@.typ, right@, floats.arith),
                ));
            }
        }
        r
    }

    /// Applies a binary operator to two values.
    fn apply<A: Fn(ArithOp, u64, u64) -> u64>(
        &self,
        left: &Expr,
        oper: &Token,
        right: &Expr,
        arith: &A,
    ) -> (r: Result<Expr, LoxError>)
        requires
            is_value(left@),
            is_value(right@),
            forall|op: ArithOp, a: u64, b: u64| arith.requires((op, a, b)),
        ensures
            r is Ok ==> is_value(r->Ok_0@),
            forall|f: spec_fn(ArithOp, u64, u64) -> u64|
                alike(result_view(r), #[trigger] apply_binary(left@, oper@.typ, right@, f)),
            forall|f: spec_fn(ArithOp, u64, u64) -> u64| #[trigger]
                computes(arith, f) ==> result_view(r) == apply_binary(left@, oper@.typ, right@, f),
    {
        match &oper.typ {
            TokenType::Plus => {
                if get_number(left).is_ok() && get_number(right).is_ok() {
                    math_op(ArithOp::Add, left, right, arith)
                } else if get_string(left).is_ok() && get_string(right).is_ok() {
                    let mut s1 = get_string(left).unwrap();
                    let s2 = get_string(right).unwrap();
                    s1.append(s2.as_str());
                    Ok(Expr::Literal(Token::new(TokenType::QuotedString(s1), 0)))
                } else {
                    Err(LoxError::new("Invalid arguments to '+'."))
                }
            },
            TokenType::Star => math_op(ArithOp::Mul, left, right, arith),
            TokenType::Minus => math_op(ArithOp::Sub, left, right, arith),
            TokenType::Slash => math_op(ArithOp::Div, left, right, arith),
            TokenType::Greater => compare_op(Relation::Greater, left, right),
            TokenType::GreaterEqual => compare_op(Relation::GreaterEqual, left, right),
            TokenType::Less => compare_op(Relation::Less, left, right),
            TokenType::LessEqual => compare_op(Relation::LessEqual, left, right),
            TokenType::EqualEqual => compare_op(Relation::Equal, left, right),
            TokenType::BangEqual => compare_op(Relation::NotEqual, left, right),
            _ => Err(LoxError::new("Token not recognized")),
        }
    }

    /// Applies a prefix operator: minus negates a number, and logical not
    /// gives `True` for `False` and `Nil` and `False` for any other value.
    /// The operand of a token that is no prefix operator is not evaluated.
    fn evaluate_unary<A: Fn(ArithOp, u64, u64) -> u64, R: Fn(u64) -> String>(
        &self,
        tok: &Token,
        expr: &Expr,
        arith: &A,
        render: &R,
    ) -> (r: Result<Expr, LoxError>)
        requires
            forall|op: ArithOp, a: u64, b: u64| arith.requires((op, a, b)),
            forall|bits: u64| render.requires((bits,)),
        ensures
            r is Ok ==> is_value(r->Ok_0@),
            forall|floats: Floats|
                alike(
                    result_view(r),
                    #[trigger] evaluate(ExprView::Unary(tok@, Box::new(expr@)), floats),
                ),
            forall|floats: Floats| #[trigger]
                supplies(arith, render, floats) ==> result_view(r) == evaluate(
                    ExprView::Unary(tok@, Box::new(expr@)),
                    floats,
                ),
        decreases size(expr@) + 1, 0nat,
    {
        let ghost tree = ExprView::Unary(tok@, Box::new(expr@));
        let ghost operand = expr@;
        match &tok.typ {
            TokenType::Minus => {
                let inner = self.interpret(expr, arith, render);
                let ghost inner_view = result_view(inner);
                let r = match inner {
                    Err(error) => Err(error),
                    Ok(value) => minus(&value, render),
                };
                proof {
                    assert forall|floats: Floats|
                        alike(result_view(r), #[trigger] evaluate(tree, floats)) by {
                        assert(alike(inner_view, evaluate(operand, floats)));
                        if inner_view is Ok {
                            apply_minus_kind(
                                inner_view->Ok_0,
                                evaluate(operand, floats)->Ok_0,
                                floats.text,
                                floats.text,
                            );
                            assert(alike(
                                result_view(r),
                                apply_minus(inner_view->Ok_0, floats.text),
                            ));
                        }
                    }
                }
                r
            },
            TokenType::Bang => {
                let inner = self.interpret(expr, arith, render);
                let ghost inner_view = result_view(inner);
                let r = match inner {
                    Err(error) => Err(error),
                    Ok(Expr::False) => Ok(Expr::True),
                    Ok(Expr::Nil) => Ok(Expr::True),
                    Ok(_) => Ok(Expr::False),
                };
                proof {
                    assert forall|floats: Floats|
                        alike(result_view(r), #[trigger] evaluate(tree, floats)) by {
                        assert(alike(inner_view, evaluate(operand, floats)));
                    }
                }
                r
            },
            _ => {
                let mut message = String::from_str("Invalid unary operator: ");
                let text = tok.to_string(render);
                message.append(text.as_str());
                Err(LoxError::new(message.as_str()))
            },
        }
    }
}

/// Unary minus applied to a value.
fn minus<R: Fn(u64) -> String>(value: &Expr, render: &R) -> (r: Result<Expr, LoxError>)
    requires
        forall|bits: u64| render.requires((bits,)),
    ensures
        r is Ok ==> is_value(r->Ok_0@),
        forall|number_text: spec_fn(u64) -> Seq<char>|
            alike(result_view(r), #[trigger] apply_minus(value@, number_text)),
        forall|number_text: spec_fn(u64) -> Seq<char>| #[trigger]
            renders(render, number_text) ==> result_view(r) == apply_minus(value@, number_text),
{
    match value {
        Expr::Literal(tok) => match &tok.typ {
            TokenType::Number(n) => Ok(Expr::Literal(Token::new(TokenType::Number(negate(*n)), 0))),
            _ => {
                let mut message = String::from_str("Unsupported target token of unary minus: ");
                let text = tok.to_string(render);
                message.append(text.as_str());
                Err(LoxError::new(message.as_str()))
            },
        },
        _ => {
            let mut message = String::from_str("Unsupported target expression of unary minus: ");
            let text = value_name(value, render);
            message.append(text.as_str());
            Err(LoxError::new(message.as_str()))
        },
    }
}

/// An arithmetic operation on two values, which must both be numbers.
fn math_op<A: Fn(ArithOp, u64, u64) -> u64>(op: ArithOp, left: &Expr, right: &Expr, arith: &A) -> (r:
    Result<Expr, LoxError>)
    requires
        forall|op: ArithOp, a: u64, b: u64| arith.requires((op, a, b)),
    ensures
        r is Ok ==> is_value(r->Ok_0@),
        r is Ok <==> number_of(left@) is Some && number_of(right@) is Some,
        r is Err ==> r->Err_0@ == "A number was expected but not found."@,
        r is Ok ==> exists|bits: u64|
            r->Ok_0@ == number_value(bits) && #[trigger] arith.ensures(
                (op, number_of(left@)->0, number_of(right@)->0),
                bits,
            ),
        forall|f: spec_fn(ArithOp, u64, u64) -> u64| #[trigger]
            computes(arith, f) && r is Ok ==> r->Ok_0@ == number_value(
                f(op, number_of(left@)->0, number_of(right@)->0),
            ),
{
    let nl = match get_number(left) {
        Ok(bits) => bits,
        Err(error) => {
            return Err(error);
        },
    };
    let nr = match get_number(right) {
        Ok(bits) => bits,
        Err(error) => {
            return Err(error);
        },
    };
    Ok(Expr::Literal(Token::new(TokenType::Number(arith(op, nl, nr)), 0)))
}

/// A comparison of two values, which must both be numbers.
fn compare_op(relation: Relation, left: &Expr, right: &Expr) -> (r: Result<Expr, LoxError>)
    ensures
        result_view(r) == if number_of(left@) is Some && number_of(right@) is Some {
            Ok::<ExprView, Seq<char>>(
                truth(crate::number::holds(relation, number_of(left@)->0, number_of(right@)->0)),
            )
        } else {
            Err::<ExprView, Seq<char>>(crate::semantics::comparison_inputs_message())
        },
{
    if let Ok(nl) = get_number(left) {
        if let Ok(nr) = get_number(right) {
            return Ok(truth_value(compare(relation, nl, nr)));
        }
    }
    Err(LoxError::new("Invalid inputs to comparison."))
}

} // verus!
