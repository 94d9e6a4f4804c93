//! The grammar, as functions from a token sequence and a position to the
//! tree that is parsed there and the position after it.
//!
//! ```text
//! expression  := equality
//! equality    := comparison ( ("!=" | "==") comparison )*
//! comparison  := term ( (">" | ">=" | "<" | "<=") term )*
//! term        := factor ( ("-" | "+") factor )*
//! factor      := unary ( ("/" | "*") unary )*
//! unary       := ("!" | "-") unary | primary
//! primary     := NUMBER | STRING | IDENTIFIER | "true" | "false" | "nil"
//!              | "(" expression ")"
//! ```
//!
//! The four binary tiers are numbered from 4 (equality) down to 1 (factor);
//! tier 0 is `unary`. Every binary tier is left-associative.
//!
//! After the expression inside parentheses one more token is consumed as
//! the closing parenthesis, whatever it is; at the end of the input nothing
//! is consumed. Tokens after a complete expression are left alone.

use crate::lexis::{same_type, similar};
use crate::token::{TokenType, TokenTypeView, TokenView};
use vstd::prelude::*;

verus! {

/// What an expression tree is to the contracts.
pub ghost enum ExprView {
    Binary(Box<ExprView>, TokenView, Box<ExprView>),
    Unary(TokenView, Box<ExprView>),
    False,
    True,
    Nil,
    Literal(TokenView),
    Identifier(TokenView),
    Grouping(Box<ExprView>),
}

/// The outcome of parsing at a position: the tree or the message of the
/// error, and the position after what was consumed.
pub ghost struct Parsed {
    pub result: Result<ExprView, Seq<char>>,
    pub next: int,
}

/// The tier of the equality operators, the loosest-binding one.
pub open spec fn top_tier() -> nat {
    4
}

/// Whether the input ends at `pos`: no token is left, or the end-of-input
/// token stands there.
pub open spec fn at_end(tokens: Seq<TokenView>, pos: int) -> bool {
    pos < 0 || pos >= tokens.len() || tokens[pos].typ == TokenTypeView::Fixed(TokenType::Eof)
}

/// Whether `typ` is a binary operator of the tier `tier`.
pub open spec fn is_operator(tier: nat, typ: TokenTypeView) -> bool {
    if tier == 4 {
        typ == TokenTypeView::Fixed(TokenType::BangEqual) || typ == TokenTypeView::Fixed(
            TokenType::EqualEqual,
        )
    } else if tier == 3 {
        typ == TokenTypeView::Fixed(TokenType::Greater) || typ == TokenTypeView::Fixed(
            TokenType::GreaterEqual,
        ) || typ == TokenTypeView::Fixed(TokenType::Less) || typ == TokenTypeView::Fixed(
            TokenType::LessEqual,
        )
    } else if tier == 2 {
        typ == TokenTypeView::Fixed(TokenType::Minus) || typ == TokenTypeView::Fixed(
            TokenType::Plus,
        )
    } else if tier == 1 {
        typ == TokenTypeView::Fixed(TokenType::Slash) || typ == TokenTypeView::Fixed(
            TokenType::Star,
        )
    } else {
        false
    }
}

/// Whether `typ` is a prefix operator.
pub open spec fn is_prefix(typ: TokenTypeView) -> bool {
    typ == TokenTypeView::Fixed(TokenType::Bang) || typ == TokenTypeView::Fixed(TokenType::Minus)
}

/// The message for a token that starts no expression.
pub open spec fn invalid_token_message() -> Seq<char> {
    "Invalid token!"@
}

/// The position after a token at `pos` was consumed: the next one, or
/// `pos` itself where the input ends at `pos`.
pub open spec fn step(tokens: Seq<TokenView>, pos: int) -> int {
    if at_end(tokens, pos) {
        pos
    } else {
        pos + 1
    }
}

/// An expression of the tier `tier` at `pos`: for tier 0 a `unary`; for a
/// binary tier an operand of the next tier down, followed by any number of
/// that tier's operators, each with another operand.
pub open spec fn parse_tier(tokens: Seq<TokenView>, pos: int, tier: nat) -> Parsed
    decreases tokens.len() - pos, tier, 2nat,
{
    if tier == 0 {
        parse_unary(tokens, pos)
    } else {
        let first = parse_tier(tokens, pos, (tier - 1) as nat);
        match first.result {
            Ok(left) => if pos <= first.next <= tokens.len() {
                parse_rest(tokens, first.next, tier, left)
            } else {
                first
            },
            Err(_) => first,
        }
    }
}

/// The operators of the tier `tier` that follow `left` at `pos`, each with
/// its right operand. Each operator makes the tree so far its left child.
pub open spec fn parse_rest(tokens: Seq<TokenView>, pos: int, tier: nat, left: ExprView) -> Parsed
    decreases tokens.len() - pos, tier, 1nat,
{
    if tier > 0 && !at_end(tokens, pos) && is_operator(tier, tokens[pos].typ) {
        let operand = parse_tier(tokens, pos + 1, (tier - 1) as nat);
        match operand.result {
            Ok(right) => if pos < operand.next <= tokens.len() {
                parse_rest(
                    tokens,
                    operand.next,
                    tier,
                    ExprView::Binary(Box::new(left), tokens[pos], Box::new(right)),
                )
            } else {
                operand
            },
            Err(_) => operand,
        }
    } else {
        Parsed { result: Ok(left), next: pos }
    }
}

/// A prefix operator with its operand, which is again a `unary`; or a
/// `primary`.
pub open spec fn parse_unary(tokens: Seq<TokenView>, pos: int) -> Parsed
    decreases tokens.len() - pos, 0nat, 1nat,
{
    if !at_end(tokens, pos) && is_prefix(tokens[pos].typ) {
        let operand = parse_unary(tokens, pos + 1);
        match operand.result {
            Ok(right) => Parsed {
                result: Ok(ExprView::Unary(tokens[pos], Box::new(right))),
                next: operand.next,
            },
            Err(_) => operand,
        }
    } else {
        parse_primary(tokens, pos)
    }
}

/// One token that is an expression by itself, or an expression in
/// parentheses. Any other token is an error, and so is the end of the
/// input.
pub open spec fn parse_primary(tokens: Seq<TokenView>, pos: int) -> Parsed
    decreases tokens.len() - pos, 0nat, 0nat,
{
    if at_end(tokens, pos) {
        Parsed { result: Err(invalid_token_message()), next: pos }
    } else {
        let token = tokens[pos];
        match token.typ {
            TokenTypeView::Fixed(TokenType::False) => Parsed {
                result: Ok(ExprView::False),
                next: pos + 1,
            },
            TokenTypeView::Fixed(TokenType::True) => Parsed {
                result: Ok(ExprView::True),
                next: pos + 1,
            },
            TokenTypeView::Fixed(TokenType::Nil) => Parsed {
                result: Ok(ExprView::Nil),
                next: pos + 1,
            },
            TokenTypeView::Number(_) => Parsed {
                result: Ok(ExprView::Literal(token)),
                next: pos + 1,
            },
            TokenTypeView::QuotedString(_) => Parsed {
                result: Ok(ExprView::Literal(token)),
                next: pos + 1,
            },
            TokenTypeView::Identifier(_) => Parsed {
                result: Ok(ExprView::Identifier(token)),
                next: pos + 1,
            },
            TokenTypeView::Fixed(TokenType::LeftParen) => {
                let inner = parse_tier(tokens, pos + 1, top_tier());
                match inner.result {
                    Ok(expr) => Parsed {
                        result: Ok(ExprView::Grouping(Box::new(expr))),
                        next: step(tokens, inner.next),
                    },
                    Err(_) => inner,
                }
            },
            _ => Parsed { result: Err(invalid_token_message()), next: pos + 1 },
        }
    }
}

/// A whole expression at `pos`.
pub open spec fn parse_expression(tokens: Seq<TokenView>, pos: int) -> Parsed {
    parse_tier(tokens, pos, top_tier())
}

/// Parsing never moves backwards and never leaves the token sequence.
pub proof fn parse_tier_advances(tokens: Seq<TokenView>, pos: int, tier: nat)
    requires
        0 <= pos <= tokens.len(),
    ensures
        pos <= parse_tier(tokens, pos, tier).next <= tokens.len(),
        parse_tier(tokens, pos, tier).result is Ok ==> pos < parse_tier(tokens, pos, tier).next,
    decreases tokens.len() - pos, tier, 2nat,
{
    if tier == 0 {
        parse_unary_advances(tokens, pos);
    } else {
        parse_tier_advances(tokens, pos, (tier - 1) as nat);
        let first = parse_tier(tokens, pos, (tier - 1) as nat);
        if first.result is Ok {
            parse_rest_advances(tokens, first.next, tier, first.result->Ok_0);
        }
    }
}

/// The operators that follow an operand never move the position backwards.
pub proof fn parse_rest_advances(tokens: Seq<TokenView>, pos: int, tier: nat, left: ExprView)
    requires
        0 <= pos <= tokens.len(),
    ensures
        pos <= parse_rest(tokens, pos, tier, left).next <= tokens.len(),
    decreases tokens.len() - pos, tier, 1nat,
{
    if tier > 0 && !at_end(tokens, pos) && is_operator(tier, tokens[pos].typ) {
        parse_tier_advances(tokens, pos + 1, (tier - 1) as nat);
        let operand = parse_tier(tokens, pos + 1, (tier - 1) as nat);
        if operand.result is Ok {
            parse_rest_advances(
                tokens,
                operand.next,
                tier,
                ExprView::Binary(Box::new(left), tokens[pos], Box::new(operand.result->Ok_0)),
            );
        }
    }
}

/// A `unary` never moves the position backwards, and consumes a token
/// where it succeeds.
pub proof fn parse_unary_advances(tokens: Seq<TokenView>, pos: int)
    requires
        0 <= pos <= tokens.len(),
    ensures
        pos <= parse_unary(tokens, pos).next <= tokens.len(),
        parse_unary(tokens, pos).result is Ok ==> pos < parse_unary(tokens, pos).next,
    decreases tokens.len() - pos, 0nat, 1nat,
{
    if !at_end(tokens, pos) && is_prefix(tokens[pos].typ) {
        parse_unary_advances(tokens, pos + 1);
    } else {
        parse_primary_advances(tokens, pos);
    }
}

/// A `primary` never moves the position backwards, and consumes a token
/// where it succeeds.
pub proof fn parse_primary_advances(tokens: Seq<TokenView>, pos: int)
    requires
        0 <= pos <= tokens.len(),
    ensures
        pos <= parse_primary(tokens, pos).next <= tokens.len(),
        parse_primary(tokens, pos).result is Ok ==> pos < parse_primary(tokens, pos).next,
    decreases tokens.len() - pos, 0nat, 0nat,
{
    if !at_end(tokens, pos) {
        if tokens[pos].typ == TokenTypeView::Fixed(TokenType::LeftParen) {
            parse_tier_advances(tokens, pos + 1, top_tier());
        }
    }
}

/// Whether `typ` is an expression by itself: a number, a string, an
/// identifier, `true`, `false` or `nil`.
pub open spec fn is_atom(typ: TokenTypeView) -> bool {
    ||| typ is Number
    ||| typ is QuotedString
    ||| typ is Identifier
    ||| typ == TokenTypeView::Fixed(TokenType::True)
    ||| typ == TokenTypeView::Fixed(TokenType::False)
    ||| typ == TokenTypeView::Fixed(TokenType::Nil)
}

/// The expression that a token is by itself.
pub open spec fn atom(token: TokenView) -> ExprView {
    if token.typ == TokenTypeView::Fixed(TokenType::True) {
        ExprView::True
    } else if token.typ == TokenTypeView::Fixed(TokenType::False) {
        ExprView::False
    } else if token.typ == TokenTypeView::Fixed(TokenType::Nil) {
        ExprView::Nil
    } else if token.typ is Identifier {
        ExprView::Identifier(token)
    } else {
        ExprView::Literal(token)
    }
}

/// Whether a binary operator of a tier from 1 up to `tier` stands at `pos`.
pub open spec fn operator_up_to(tokens: Seq<TokenView>, pos: int, tier: nat) -> bool {
    &&& !at_end(tokens, pos)
    &&& {
        ||| tier >= 1 && is_operator(1, tokens[pos].typ)
        ||| tier >= 2 && is_operator(2, tokens[pos].typ)
        ||| tier >= 3 && is_operator(3, tokens[pos].typ)
        ||| tier >= 4 && is_operator(4, tokens[pos].typ)
    }
}

/// The binary expression of three operands and two operators in which the
/// first operator is applied first.
pub open spec fn left_first(tokens: Seq<TokenView>) -> ExprView {
    ExprView::Binary(
        Box::new(
            ExprView::Binary(Box::new(atom(tokens[0])), tokens[1], Box::new(atom(tokens[2]))),
        ),
        tokens[3],
        Box::new(atom(tokens[4])),
    )
}

/// The binary expression of three operands and two operators in which the
/// second operator is applied first.
pub open spec fn right_first(tokens: Seq<TokenView>) -> ExprView {
    ExprView::Binary(
        Box::new(atom(tokens[0])),
        tokens[1],
        Box::new(
            ExprView::Binary(Box::new(atom(tokens[2])), tokens[3], Box::new(atom(tokens[4]))),
        ),
    )
}

/// Whether `tokens` begins with three operands with an operator between
/// each two, and ends there.
pub open spec fn three_operands(tokens: Seq<TokenView>) -> bool {
    &&& tokens.len() >= 5
    &&& is_atom(tokens[0].typ)
    &&& is_atom(tokens[2].typ)
    &&& is_atom(tokens[4].typ)
    &&& at_end(tokens, 5)
}

/// An operand that no operator of the tier or of a tier below follows is
/// the whole expression of that tier.
pub proof fn atom_parses(tokens: Seq<TokenView>, pos: int, tier: nat)
    requires
        0 <= pos < tokens.len(),
        is_atom(tokens[pos].typ),
        !operator_up_to(tokens, pos + 1, tier),
    ensures
        parse_tier(tokens, pos, tier) == (Parsed { result: Ok(atom(tokens[pos])), next: pos + 1 }),
    decreases tier,
{
    let whole = Parsed { result: Ok(atom(tokens[pos])), next: pos + 1 };
    if tier > 0 {
        atom_parses(tokens, pos, (tier - 1) as nat);
        assert(parse_rest(tokens, pos + 1, tier, atom(tokens[pos])) == whole);
    } else {
        assert(parse_primary(tokens, pos) == whole);
        assert(parse_unary(tokens, pos) == whole);
    }
}

/// An expression of a tier is also the expression of every looser tier
/// none of whose operators follows it.
pub proof fn tier_passes(tokens: Seq<TokenView>, pos: int, tier: nat, looser: nat)
    requires
        0 <= pos <= tokens.len(),
        tier <= looser,
        parse_tier(tokens, pos, tier).result is Ok,
        !operator_up_to(tokens, parse_tier(tokens, pos, tier).next, looser),
    ensures
        parse_tier(tokens, pos, looser) == parse_tier(tokens, pos, tier),
    decreases looser,
{
    if tier < looser {
        tier_passes(tokens, pos, tier, (looser - 1) as nat);
        parse_tier_advances(tokens, pos, tier);
        let inner = parse_tier(tokens, pos, tier);
        assert(parse_rest(tokens, inner.next, looser, inner.result->Ok_0) == inner);
    }
}

/// Left-associativity: of two operators of one tier, the first is applied
/// first, so that `a - b - c` is `(a - b) - c`.
pub proof fn operators_of_one_tier_associate_to_the_left(tokens: Seq<TokenView>, tier: nat)
    requires
        three_operands(tokens),
        1 <= tier <= top_tier(),
        is_operator(tier, tokens[1].typ),
        is_operator(tier, tokens[3].typ),
    ensures
        parse_expression(tokens, 0) == (Parsed { result: Ok(left_first(tokens)), next: 5 }),
{
    let below = (tier - 1) as nat;
    assert(!operator_up_to(tokens, 1, below));
    assert(!operator_up_to(tokens, 3, below));
    assert(!operator_up_to(tokens, 5, below));
    atom_parses(tokens, 0, below);
    atom_parses(tokens, 2, below);
    atom_parses(tokens, 4, below);
    let first = ExprView::Binary(Box::new(atom(tokens[0])), tokens[1], Box::new(atom(tokens[2])));
    assert(parse_rest(tokens, 5, tier, left_first(tokens)) == (Parsed {
        result: Ok(left_first(tokens)),
        next: 5,
    }));
    assert(parse_rest(tokens, 3, tier, first) == (Parsed {
        result: Ok(left_first(tokens)),
        next: 5,
    }));
    assert(parse_rest(tokens, 1, tier, atom(tokens[0])) == (Parsed {
        result: Ok(left_first(tokens)),
        next: 5,
    }));
    assert(parse_tier(tokens, 0, tier) == (Parsed { result: Ok(left_first(tokens)), next: 5 }));
    tier_passes(tokens, 0, tier, top_tier());
}

/// Precedence: an operator of a tighter tier that follows one of a looser
/// tier is applied first, so that `a + b * c` is `a + (b * c)`.
pub proof fn a_tighter_operator_is_applied_first(tokens: Seq<TokenView>, loose: nat, tight: nat)
    requires
        three_operands(tokens),
        1 <= tight < loose <= top_tier(),
        is_operator(loose, tokens[1].typ),
        is_operator(tight, tokens[3].typ),
    ensures
        parse_expression(tokens, 0) == (Parsed { result: Ok(right_first(tokens)), next: 5 }),
{
    let below = (tight - 1) as nat;
    let under = (loose - 1) as nat;
    assert(!operator_up_to(tokens, 1, under));
    assert(!operator_up_to(tokens, 3, below));
    assert(!operator_up_to(tokens, 5, below));
    atom_parses(tokens, 0, under);
    atom_parses(tokens, 2, below);
    atom_parses(tokens, 4, below);
    // The right operand of the looser operator is the whole tighter expression.
    let second = ExprView::Binary(Box::new(atom(tokens[2])), tokens[3], Box::new(atom(tokens[4])));
    assert(parse_rest(tokens, 5, tight, second) == (Parsed { result: Ok(second), next: 5 }));
    assert(parse_rest(tokens, 3, tight, atom(tokens[2])) == (Parsed {
        result: Ok(second),
        next: 5,
    }));
    assert(parse_tier(tokens, 2, tight) == (Parsed { result: Ok(second), next: 5 }));
    tier_passes(tokens, 2, tight, under);
    assert(parse_rest(tokens, 5, loose, right_first(tokens)) == (Parsed {
        result: Ok(right_first(tokens)),
        next: 5,
    }));
    assert(parse_rest(tokens, 1, loose, atom(tokens[0])) == (Parsed {
        result: Ok(right_first(tokens)),
        next: 5,
    }));
    assert(parse_tier(tokens, 0, loose) == (Parsed { result: Ok(right_first(tokens)), next: 5 }));
    tier_passes(tokens, 0, loose, top_tier());
}

/// Precedence, the other way round: an operator of a looser tier that
/// follows one of a tighter tier is applied last, so that `a * b + c` is
/// `(a * b) + c`.
pub proof fn a_looser_operator_is_applied_last(tokens: Seq<TokenView>, loose: nat, tight: nat)
    requires
        three_operands(tokens),
        1 <= tight < loose <= top_tier(),
        is_operator(tight, tokens[1].typ),
        is_operator(loose, tokens[3].typ),
    ensures
        parse_expression(tokens, 0) == (Parsed { result: Ok(left_first(tokens)), next: 5 }),
{
    let below = (tight - 1) as nat;
    let under = (loose - 1) as nat;
    assert(!operator_up_to(tokens, 1, below));
    assert(!operator_up_to(tokens, 3, below));
    assert(!operator_up_to(tokens, 5, under));
    atom_parses(tokens, 0, below);
    atom_parses(tokens, 2, below);
    atom_parses(tokens, 4, under);
    let first = ExprView::Binary(Box::new(atom(tokens[0])), tokens[1], Box::new(atom(tokens[2])));
    assert(parse_rest(tokens, 3, tight, first) == (Parsed { result: Ok(first), next: 3 }));
    assert(parse_rest(tokens, 1, tight, atom(tokens[0])) == (Parsed {
        result: Ok(first),
        next: 3,
    }));
    assert(parse_tier(tokens, 0, tight) == (Parsed { result: Ok(first), next: 3 }));
    tier_passes(tokens, 0, tight, under);
    assert(parse_rest(tokens, 5, loose, left_first(tokens)) == (Parsed {
        result: Ok(left_first(tokens)),
        next: 5,
    }));
    assert(parse_rest(tokens, 3, loose, first) == (Parsed {
        result: Ok(left_first(tokens)),
        next: 5,
    }));
    assert(parse_tier(tokens, 0, loose) == (Parsed { result: Ok(left_first(tokens)), next: 5 }));
    tier_passes(tokens, 0, loose, top_tier());
}

/// Whether two tokens are the same but for the bit pattern of a number.
pub open spec fn same_token(a: TokenView, b: TokenView) -> bool {
    a.line == b.line && same_type(a.typ, b.typ)
}

/// Whether two trees are the same but for the bit patterns of the numbers
/// in their tokens.
pub open spec fn similar_tree(a: ExprView, b: ExprView) -> bool
    decreases a,
{
    match a {
        ExprView::Binary(left, operator, right) => {
            &&& b is Binary
            &&& similar_tree(*left, *b->Binary_0)
            &&& same_token(operator, b->Binary_1)
            &&& similar_tree(*right, *b->Binary_2)
        },
        ExprView::Unary(operator, operand) => {
            &&& b is Unary
            &&& same_token(operator, b->Unary_0)
            &&& similar_tree(*operand, *b->Unary_1)
        },
        ExprView::Literal(token) => b is Literal && same_token(token, b->Literal_0),
        ExprView::Identifier(token) => b is Identifier && same_token(token, b->Identifier_0),
        ExprView::Grouping(inner) => b is Grouping && similar_tree(*inner, *b->Grouping_0),
        _ => a == b,
    }
}

/// Whether two outcomes of parsing end at the same position with the same
/// error, or with two trees that are the same but for the bit patterns of
/// numbers.
pub open spec fn similar_parsed(a: Parsed, b: Parsed) -> bool {
    &&& a.next == b.next
    &&& match a.result {
        Ok(tree) => b.result is Ok && similar_tree(tree, b.result->Ok_0),
        Err(message) => b.result == Err::<ExprView, Seq<char>>(message),
    }
}

/// What is parsed does not depend on the bit patterns of numbers, but for
/// the bit patterns in the tree.
pub proof fn parse_tier_similar(a: Seq<TokenView>, b: Seq<TokenView>, pos: int, tier: nat)
    requires
        similar(a, b),
        0 <= pos <= a.len(),
    ensures
        similar_parsed(parse_tier(a, pos, tier), parse_tier(b, pos, tier)),
    decreases a.len() - pos, tier, 2nat,
{
    if tier == 0 {
        parse_unary_similar(a, b, pos);
    } else {
        parse_tier_similar(a, b, pos, (tier - 1) as nat);
        parse_tier_advances(a, pos, (tier - 1) as nat);
        let first = parse_tier(a, pos, (tier - 1) as nat);
        let other = parse_tier(b, pos, (tier - 1) as nat);
        if first.result is Ok {
            parse_rest_similar(a, b, first.next, tier, first.result->Ok_0, other.result->Ok_0);
        }
    }
}

/// The same for the operators that follow an operand.
pub proof fn parse_rest_similar(
    a: Seq<TokenView>,
    b: Seq<TokenView>,
    pos: int,
    tier: nat,
    left: ExprView,
    other_left: ExprView,
)
    requires
        similar(a, b),
        0 <= pos <= a.len(),
        similar_tree(left, other_left),
    ensures
        similar_parsed(parse_rest(a, pos, tier, left), parse_rest(b, pos, tier, other_left)),
    decreases a.len() - pos, tier, 1nat,
{
    if tier > 0 && !at_end(a, pos) && is_operator(tier, a[pos].typ) {
        parse_tier_similar(a, b, pos + 1, (tier - 1) as nat);
        parse_tier_advances(a, pos + 1, (tier - 1) as nat);
        let operand = parse_tier(a, pos + 1, (tier - 1) as nat);
        let other = parse_tier(b, pos + 1, (tier - 1) as nat);
        if operand.result is Ok {
            parse_rest_similar(
                a,
                b,
                operand.next,
                tier,
                ExprView::Binary(Box::new(left), a[pos], Box::new(operand.result->Ok_0)),
                ExprView::Binary(Box::new(other_left), b[pos], Box::new(other.result->Ok_0)),
            );
        }
    }
}

/// The same for a `unary`.
pub proof fn parse_unary_similar(a: Seq<TokenView>, b: Seq<TokenView>, pos: int)
    requires
        similar(a, b),
        0 <= pos <= a.len(),
    ensures
        similar_parsed(parse_unary(a, pos), parse_unary(b, pos)),
    decreases a.len() - pos, 0nat, 1nat,
{
    if !at_end(a, pos) && is_prefix(a[pos].typ) {
        parse_unary_similar(a, b, pos + 1);
    } else {
        parse_primary_similar(a, b, pos);
    }
}

/// The same for a `primary`.
pub proof fn parse_primary_similar(a: Seq<TokenView>, b: Seq<TokenView>, pos: int)
    requires
        similar(a, b),
        0 <= pos <= a.len(),
    ensures
        similar_parsed(parse_primary(a, pos), parse_primary(b, pos)),
    decreases a.len() - pos, 0nat, 0nat,
{
    if !at_end(a, pos) {
        if a[pos].typ == TokenTypeView::Fixed(TokenType::LeftParen) {
            parse_tier_similar(a, b, pos + 1, top_tier());
            parse_tier_advances(a, pos + 1, top_tier());
        }
    }
}

} // verus!
