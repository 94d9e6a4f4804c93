//! What an expression evaluates to, as a function on trees.
//!
//! A value is `True`, `False`, `Nil`, or a `Literal` of a number or a
//! string. Only `False` and `Nil` are falsy. The operands of a binary
//! operator are evaluated left first, and the error of the left one wins.
//! Numbers that an operation computes are on line 0.

use crate::grammar::{similar_tree, ExprView};
use crate::number::{holds, negated, ArithOp, Relation};
use crate::token::{type_text, TokenType, TokenTypeView, TokenView};
use vstd::prelude::*;

verus! {

/// The rounding operations that the caller supplies, as functions: the
/// four arithmetic operations on bit patterns, and decimal rendering.
pub ghost struct Floats {
    pub arith: spec_fn(ArithOp, u64, u64) -> u64,
    pub text: spec_fn(u64) -> Seq<char>,
}

/// Whether `e` is a value: what evaluation reduces a tree to.
pub open spec fn is_value(e: ExprView) -> bool {
    match e {
        ExprView::True => true,
        ExprView::False => true,
        ExprView::Nil => true,
        ExprView::Literal(token) => token.typ is Number || token.typ is QuotedString,
        _ => false,
    }
}

/// Whether a value counts as false: only `False` and `Nil` do.
pub open spec fn is_falsy(value: ExprView) -> bool {
    value is False || value is Nil
}

/// The value of a truth value.
pub open spec fn truth(b: bool) -> ExprView {
    if b {
        ExprView::True
    } else {
        ExprView::False
    }
}

/// The value of a number that an operation computed.
pub open spec fn number_value(bits: u64) -> ExprView {
    ExprView::Literal(TokenView { typ: TokenTypeView::Number(bits), line: 0 })
}

/// The value of a string that an operation computed.
pub open spec fn string_value(text: Seq<char>) -> ExprView {
    ExprView::Literal(TokenView { typ: TokenTypeView::QuotedString(text), line: 0 })
}

/// The bit pattern of a value that is a number.
pub open spec fn number_of(value: ExprView) -> Option<u64> {
    match value {
        ExprView::Literal(token) => match token.typ {
            TokenTypeView::Number(bits) => Some(bits),
            _ => None,
        },
        _ => None,
    }
}

/// The text of a value that is a string.
pub open spec fn string_of(value: ExprView) -> Option<Seq<char>> {
    match value {
        ExprView::Literal(token) => match token.typ {
            TokenTypeView::QuotedString(text) => Some(text),
            _ => None,
        },
        _ => None,
    }
}

/// How a value is named in a message.
pub open spec fn value_text(value: ExprView, number_text: spec_fn(u64) -> Seq<char>) -> Seq<char> {
    match value {
        ExprView::True => "true"@,
        ExprView::False => "false"@,
        ExprView::Nil => "nil"@,
        ExprView::Literal(token) => type_text(token.typ, number_text),
        _ => Seq::empty(),
    }
}

/// The message where an arithmetic operator other than `+` meets an
/// operand that is no number.
pub open spec fn number_expected_message() -> Seq<char> {
    "A number was expected but not found."@
}

/// The message where `+` meets operands that are neither two numbers nor
/// two strings.
pub open spec fn plus_arguments_message() -> Seq<char> {
    "Invalid arguments to '+'."@
}

/// The message where a comparison meets an operand that is no number.
pub open spec fn comparison_inputs_message() -> Seq<char> {
    "Invalid inputs to comparison."@
}

/// The message where a binary node holds a token that is no binary operator.
pub open spec fn unknown_operator_message() -> Seq<char> {
    "Token not recognized"@
}

/// The message for an identifier: there are no variables.
pub open spec fn identifier_message() -> Seq<char> {
    "Identifier not implemented"@
}

/// The message for a literal node whose token is neither a number nor a string.
pub open spec fn unrecognized_literal_message(
    typ: TokenTypeView,
    number_text: spec_fn(u64) -> Seq<char>,
) -> Seq<char> {
    "Unrecognized literal: "@ + type_text(typ, number_text)
}

/// The message where unary minus meets a string.
pub open spec fn minus_token_message(
    typ: TokenTypeView,
    number_text: spec_fn(u64) -> Seq<char>,
) -> Seq<char> {
    "Unsupported target token of unary minus: "@ + type_text(typ, number_text)
}

/// The message where unary minus meets a value that is no literal.
pub open spec fn minus_expression_message(
    value: ExprView,
    number_text: spec_fn(u64) -> Seq<char>,
) -> Seq<char> {
    "Unsupported target expression of unary minus: "@ + value_text(value, number_text)
}

/// The message where a unary node holds a token that is no prefix operator.
pub open spec fn unary_operator_message(
    typ: TokenTypeView,
    number_text: spec_fn(u64) -> Seq<char>,
) -> Seq<char> {
    "Invalid unary operator: "@ + type_text(typ, number_text)
}

/// The arithmetic operation that an operator token other than `+` asks for.
pub open spec fn arith_of(operator: TokenTypeView) -> Option<ArithOp> {
    if operator == TokenTypeView::Fixed(TokenType::Star) {
        Some(ArithOp::Mul)
    } else if operator == TokenTypeView::Fixed(TokenType::Minus) {
        Some(ArithOp::Sub)
    } else if operator == TokenTypeView::Fixed(TokenType::Slash) {
        Some(ArithOp::Div)
    } else {
        None
    }
}

/// The comparison that an operator token asks for.
pub open spec fn relation_of(operator: TokenTypeView) -> Option<Relation> {
    if operator == TokenTypeView::Fixed(TokenType::Greater) {
        Some(Relation::Greater)
    } else if operator == TokenTypeView::Fixed(TokenType::GreaterEqual) {
        Some(Relation::GreaterEqual)
    } else if operator == TokenTypeView::Fixed(TokenType::Less) {
        Some(Relation::Less)
    } else if operator == TokenTypeView::Fixed(TokenType::LessEqual) {
        Some(Relation::LessEqual)
    } else if operator == TokenTypeView::Fixed(TokenType::EqualEqual) {
        Some(Relation::Equal)
    } else if operator == TokenTypeView::Fixed(TokenType::BangEqual) {
        Some(Relation::NotEqual)
    } else {
        None
    }
}

/// A binary operator applied to two values.
///
/// `+` adds two numbers and joins two strings. `-`, `*` and `/` take two
/// numbers; dividing by zero is no error. The six comparisons take two
/// numbers and give `True` or `False`.
pub open spec fn apply_binary(
    left: ExprView,
    operator: TokenTypeView,
    right: ExprView,
    arith: spec_fn(ArithOp, u64, u64) -> u64,
) -> Result<ExprView, Seq<char>> {
    if operator == TokenTypeView::Fixed(TokenType::Plus) {
        if number_of(left) is Some && number_of(right) is Some {
            Ok(number_value(arith(ArithOp::Add, number_of(left)->0, number_of(right)->0)))
        } else if string_of(left) is Some && string_of(right) is Some {
            Ok(string_value(string_of(left)->0 + string_of(right)->0))
        } else {
            Err(plus_arguments_message())
        }
    } else if arith_of(operator) is Some {
        if number_of(left) is Some && number_of(right) is Some {
            Ok(number_value(arith(arith_of(operator)->0, number_of(left)->0, number_of(right)->0)))
        } else {
            Err(number_expected_message())
        }
    } else if relation_of(operator) is Some {
        if number_of(left) is Some && number_of(right) is Some {
            Ok(truth(holds(relation_of(operator)->0, number_of(left)->0, number_of(right)->0)))
        } else {
            Err(comparison_inputs_message())
        }
    } else {
        Err(unknown_operator_message())
    }
}

/// Unary minus applied to a value: a number is negated; anything else is
/// an error that names what was met.
pub open spec fn apply_minus(value: ExprView, number_text: spec_fn(u64) -> Seq<char>) -> Result<
    ExprView,
    Seq<char>,
> {
    match value {
        ExprView::Literal(token) => match token.typ {
            TokenTypeView::Number(bits) => Ok(number_value(negated(bits))),
            _ => Err(minus_token_message(token.typ, number_text)),
        },
        _ => Err(minus_expression_message(value, number_text)),
    }
}

/// What `e` evaluates to: a value, or the message of the first error.
pub open spec fn evaluate(e: ExprView, floats: Floats) -> Result<ExprView, Seq<char>>
    decreases e,
{
    match e {
        ExprView::False => Ok(ExprView::False),
        ExprView::True => Ok(ExprView::True),
        ExprView::Nil => Ok(ExprView::Nil),
        ExprView::Literal(token) => if token.typ is Number || token.typ is QuotedString {
            Ok(e)
        } else {
            Err(unrecognized_literal_message(token.typ, floats.text))
        },
        ExprView::Grouping(inner) => evaluate(*inner, floats),
        ExprView::Identifier(_) => Err(identifier_message()),
        ExprView::Unary(operator, operand) => {
            if operator.typ == TokenTypeView::Fixed(TokenType::Minus) {
                match evaluate(*operand, floats) {
                    Ok(value) => apply_minus(value, floats.text),
                    Err(message) => Err(message),
                }
            } else if operator.typ == TokenTypeView::Fixed(TokenType::Bang) {
                match evaluate(*operand, floats) {
                    Ok(value) => Ok(truth(is_falsy(value))),
                    Err(message) => Err(message),
                }
            } else {
                Err(unary_operator_message(operator.typ, floats.text))
            }
        },
        ExprView::Binary(left, operator, right) => match evaluate(*left, floats) {
            Err(message) => Err(message),
            Ok(left_value) => match evaluate(*right, floats) {
                Err(message) => Err(message),
                Ok(right_value) => apply_binary(
                    left_value,
                    operator.typ,
                    right_value,
                    floats.arith,
                ),
            },
        },
    }
}

/// Whether two values are of one kind: two numbers on the same line, two
/// truth values, or the same string or `Nil`. What kind a value is of does
/// not depend on what the arithmetic operations compute; which number or
/// which truth value it is does.
pub open spec fn same_kind(a: ExprView, b: ExprView) -> bool {
    if number_of(a) is Some {
        number_of(b) is Some && a->Literal_0.line == b->Literal_0.line
    } else if a is True || a is False {
        b is True || b is False
    } else {
        a == b
    }
}

/// Whether two messages are the same message, or two messages of one of
/// the two kinds that show something computed: the message for a unary
/// node whose token is no prefix operator shows that token, which may be a
/// number; and the message for unary minus on a value that is no literal
/// shows that value, which may be a truth value that a comparison gave.
pub open spec fn same_message(a: Seq<char>, b: Seq<char>) -> bool {
    ||| a == b
    ||| "Invalid unary operator: "@.is_prefix_of(a) && "Invalid unary operator: "@.is_prefix_of(b)
    ||| "Unsupported target expression of unary minus: "@.is_prefix_of(a)
        && "Unsupported target expression of unary minus: "@.is_prefix_of(b)
}

/// A text begins with what it was put together from first.
pub proof fn begins_with(head: Seq<char>, tail: Seq<char>)
    ensures
        head.is_prefix_of(head + tail),
{
    assert((head + tail).subrange(0, head.len() as int) =~= head);
}

/// Whether two outcomes are two errors with the same message, or two
/// values of one kind.
pub open spec fn alike(a: Result<ExprView, Seq<char>>, b: Result<ExprView, Seq<char>>) -> bool {
    match a {
        Ok(value) => b is Ok && same_kind(value, b->Ok_0),
        Err(message) => b is Err && same_message(message, b->Err_0),
    }
}

/// The number of nodes of a tree.
pub open spec fn size(e: ExprView) -> nat
    decreases e,
{
    match e {
        ExprView::Binary(left, _, right) => 1 + size(*left) + size(*right),
        ExprView::Unary(_, operand) => 1 + size(*operand),
        ExprView::Grouping(inner) => 1 + size(*inner),
        _ => 1,
    }
}

/// Evaluation ends in a value or in an error, never in anything else.
pub proof fn evaluate_gives_value(e: ExprView, floats: Floats)
    ensures
        evaluate(e, floats) is Ok ==> is_value(evaluate(e, floats)->Ok_0),
    decreases e,
{
    match e {
        ExprView::Grouping(inner) => {
            evaluate_gives_value(*inner, floats);
        },
        ExprView::Unary(_, operand) => {
            evaluate_gives_value(*operand, floats);
        },
        ExprView::Binary(left, _, right) => {
            evaluate_gives_value(*left, floats);
            evaluate_gives_value(*right, floats);
        },
        _ => {},
    }
}

/// What a binary operator gives for two values, up to their kind, depends
/// only on the kinds of the values.
pub proof fn apply_binary_kind(
    left: ExprView,
    right: ExprView,
    other_left: ExprView,
    other_right: ExprView,
    operator: TokenTypeView,
    arith: spec_fn(ArithOp, u64, u64) -> u64,
    other_arith: spec_fn(ArithOp, u64, u64) -> u64,
)
    requires
        same_kind(left, other_left),
        same_kind(right, other_right),
    ensures
        alike(
            apply_binary(left, operator, right, arith),
            apply_binary(other_left, operator, other_right, other_arith),
        ),
{
}

/// What unary minus gives for a value, up to its kind, depends only on the
/// kind of the value.
pub proof fn apply_minus_kind(
    value: ExprView,
    other: ExprView,
    number_text: spec_fn(u64) -> Seq<char>,
    other_text: spec_fn(u64) -> Seq<char>,
)
    requires
        same_kind(value, other),
    ensures
        alike(apply_minus(value, number_text), apply_minus(other, other_text)),
{
    begins_with("Unsupported target expression of unary minus: "@, value_text(value, number_text));
    begins_with("Unsupported target expression of unary minus: "@, value_text(other, other_text));
}

/// Whether an expression fails, and of which kind its value is, does not
/// depend on the operations that are supplied.
pub proof fn evaluate_kind_is_independent(e: ExprView, one: Floats, other: Floats)
    ensures
        alike(evaluate(e, one), evaluate(e, other)),
    decreases e,
{
    match e {
        ExprView::Grouping(inner) => {
            evaluate_kind_is_independent(*inner, one, other);
        },
        ExprView::Unary(operator, operand) => {
            evaluate_kind_is_independent(*operand, one, other);
            begins_with("Invalid unary operator: "@, type_text(operator.typ, one.text));
            begins_with("Invalid unary operator: "@, type_text(operator.typ, other.text));
            if evaluate(*operand, one) is Ok {
                apply_minus_kind(
                    evaluate(*operand, one)->Ok_0,
                    evaluate(*operand, other)->Ok_0,
                    one.text,
                    other.text,
                );
            }
        },
        ExprView::Binary(left, operator, right) => {
            evaluate_kind_is_independent(*left, one, other);
            evaluate_kind_is_independent(*right, one, other);
            if evaluate(*left, one) is Ok && evaluate(*right, one) is Ok {
                apply_binary_kind(
                    evaluate(*left, one)->Ok_0,
                    evaluate(*right, one)->Ok_0,
                    evaluate(*left, other)->Ok_0,
                    evaluate(*right, other)->Ok_0,
                    operator.typ,
                    one.arith,
                    other.arith,
                );
            }
        },
        _ => {},
    }
}

/// Whether two trees that are the same but for the bit patterns of the
/// numbers in them fail, and of which kind their values are, is the same.
pub proof fn evaluate_similar(a: ExprView, b: ExprView, one: Floats, other: Floats)
    requires
        similar_tree(a, b),
    ensures
        alike(evaluate(a, one), evaluate(b, other)),
    decreases a,
{
    match a {
        ExprView::Grouping(inner) => {
            evaluate_similar(*inner, *b->Grouping_0, one, other);
        },
        ExprView::Unary(operator, operand) => {
            evaluate_similar(*operand, *b->Unary_1, one, other);
            begins_with("Invalid unary operator: "@, type_text(operator.typ, one.text));
            begins_with("Invalid unary operator: "@, type_text(b->Unary_0.typ, other.text));
            if evaluate(*operand, one) is Ok {
                apply_minus_kind(
                    evaluate(*operand, one)->Ok_0,
                    evaluate(*b->Unary_1, other)->Ok_0,
                    one.text,
                    other.text,
                );
            }
        },
        ExprView::Binary(left, operator, right) => {
            evaluate_similar(*left, *b->Binary_0, one, other);
            evaluate_similar(*right, *b->Binary_2, one, other);
            if evaluate(*left, one) is Ok && evaluate(*right, one) is Ok {
                apply_binary_kind(
                    evaluate(*left, one)->Ok_0,
                    evaluate(*right, one)->Ok_0,
                    evaluate(*b->Binary_0, other)->Ok_0,
                    evaluate(*b->Binary_2, other)->Ok_0,
                    operator.typ,
                    one.arith,
                    other.arith,
                );
            }
        },
        _ => {},
    }
}

/// Two outcomes that are each like a third are like each other.
pub proof fn alike_chain(
    a: Result<ExprView, Seq<char>>,
    b: Result<ExprView, Seq<char>>,
    c: Result<ExprView, Seq<char>>,
)
    requires
        alike(a, b),
        alike(b, c),
    ensures
        alike(a, c),
{
}

/// A value evaluates to itself.
pub proof fn value_evaluates_to_itself(value: ExprView, floats: Floats)
    requires
        is_value(value),
    ensures
        evaluate(value, floats) == Ok::<ExprView, Seq<char>>(value),
{
}

/// Evaluating the result of an evaluation gives that result again.
pub proof fn evaluate_is_idempotent(e: ExprView, floats: Floats)
    requires
        evaluate(e, floats) is Ok,
    ensures
        evaluate(evaluate(e, floats)->Ok_0, floats) == evaluate(e, floats),
{
    evaluate_gives_value(e, floats);
    value_evaluates_to_itself(evaluate(e, floats)->Ok_0, floats);
}

/// Logical not gives `True` exactly for an operand that evaluates to
/// `False` or to `Nil`, and `False` for every other value.
pub proof fn not_follows_truthiness(operator: TokenView, operand: ExprView, floats: Floats)
    requires
        operator.typ == TokenTypeView::Fixed(TokenType::Bang),
    ensures
        evaluate(operand, floats) is Err ==> evaluate(
            ExprView::Unary(operator, Box::new(operand)),
            floats,
        ) == evaluate(operand, floats),
        evaluate(operand, floats) is Ok ==> evaluate(
            ExprView::Unary(operator, Box::new(operand)),
            floats,
        ) == Ok::<ExprView, Seq<char>>(
            if evaluate(operand, floats)->Ok_0 is False || evaluate(operand, floats)->Ok_0 is Nil {
                ExprView::True
            } else {
                ExprView::False
            },
        ),
{
}

/// A comparison of two values gives `True` or `False`, or fails.
pub proof fn comparison_gives_truth_value(
    left: ExprView,
    operator: TokenTypeView,
    right: ExprView,
    arith: spec_fn(ArithOp, u64, u64) -> u64,
)
    requires
        relation_of(operator) is Some,
    ensures
        apply_binary(left, operator, right, arith) is Ok ==> apply_binary(
            left,
            operator,
            right,
            arith,
        )->Ok_0 is True || apply_binary(left, operator, right, arith)->Ok_0 is False,
        apply_binary(left, operator, right, arith) is Ok <==> number_of(left) is Some && number_of(
            right,
        ) is Some,
{
}

/// `+` joins two strings, whatever lines they are on, and fails for a
/// string and a number.
pub proof fn plus_joins_strings(
    left: ExprView,
    right: ExprView,
    arith: spec_fn(ArithOp, u64, u64) -> u64,
)
    requires
        is_value(left),
        is_value(right),
        string_of(left) is Some,
    ensures
        string_of(right) is Some ==> apply_binary(
            left,
            TokenTypeView::Fixed(TokenType::Plus),
            right,
            arith,
        ) == Ok::<ExprView, Seq<char>>(string_value(string_of(left)->0 + string_of(right)->0)),
        string_of(right) is None ==> apply_binary(
            left,
            TokenTypeView::Fixed(TokenType::Plus),
            right,
            arith,
        ) == Err::<ExprView, Seq<char>>(plus_arguments_message()),
        string_of(right) is None ==> apply_binary(
            right,
            TokenTypeView::Fixed(TokenType::Plus),
            left,
            arith,
        ) == Err::<ExprView, Seq<char>>(plus_arguments_message()),
{
}

/// An identifier never evaluates: there are no variables.
pub proof fn identifier_fails(token: TokenView, floats: Floats)
    ensures
        evaluate(ExprView::Identifier(token), floats) == Err::<ExprView, Seq<char>>(
            identifier_message(),
        ),
{
}

} // verus!
