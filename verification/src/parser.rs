//! The parser: tokens to one expression tree, by recursive descent.

use crate::error::LoxError;
use crate::grammar::{
    at_end, parse_expression, parse_primary, parse_rest, parse_tier, parse_tier_advances,
    parse_unary, parse_unary_advances, ExprView, Parsed,
};
use crate::token::{token_views, Token, TokenType, TokenTypeView, TokenView};
use vstd::prelude::*;

verus! {

/// An expression tree. The evaluator returns its values in the same type:
/// `True`, `False`, `Nil`, or a `Literal` of a number or a string.
#[derive(Debug, PartialEq)]
pub enum Expr {
    Binary(Box<Expr>, Token, Box<Expr>),
    Unary(Token, Box<Expr>),
    False,
    True,
    Nil,
    Literal(Token),
    Identifier(Token),
    Grouping(Box<Expr>),
}

impl View for Expr {
    type V = ExprView;

    open spec fn view(&self) -> ExprView
        decreases self,
    {
        match self {
            Expr::Binary(left, operator, right) => ExprView::Binary(
                Box::new((**left).view()),
                operator@,
                Box::new((**right).view()),
            ),
            Expr::Unary(operator, operand) => ExprView::Unary(
                operator@,
                Box::new((**operand).view()),
            ),
            Expr::False => ExprView::False,
            Expr::True => ExprView::True,
            Expr::Nil => ExprView::Nil,
            Expr::Literal(token) => ExprView::Literal(token@),
            Expr::Identifier(token) => ExprView::Identifier(token@),
            Expr::Grouping(inner) => ExprView::Grouping(Box::new((**inner).view())),
        }
    }
}

/// What the parser hands back, to the contracts: the tree or the message,
/// with the position of the cursor afterwards.
pub open spec fn outcome(r: Result<Expr, LoxError>, next: int) -> Parsed {
    Parsed {
        result: match r {
            Ok(expr) => Ok(expr@),
            Err(error) => Err(error@),
        },
        next,
    }
}

/// The types of `expected`, as the contracts see them.
pub open spec fn type_views(expected: Seq<TokenType>) -> Seq<TokenTypeView> {
    expected.map_values(|typ: TokenType| typ@)
}

/// The parser's state: the tokens, which it never changes, and a cursor
/// that only moves forward.
pub struct LoxParser {
    tokens: Vec<Token>,
    current: usize,
}

impl LoxParser {
    /// The tokens that are parsed.
    pub closed spec fn tokens(&self) -> Seq<TokenView> {
        token_views(self.tokens@)
    }

    /// How many tokens have been consumed.
    pub closed spec fn position(&self) -> int {
        self.current as int
    }

    /// The cursor is inside the tokens or at their end.
    pub closed spec fn wf(&self) -> bool {
        self.current <= self.tokens@.len()
    }

    /// A parser at the start of a copy of `toks`.
    pub fn new(toks: &Vec<Token>) -> (parser: LoxParser)
        ensures
            parser.wf(),
            parser.tokens() == token_views(toks@),
            parser.position() == 0,
    {
        let mut tokens: Vec<Token> = Vec::new();
        let mut i: usize = 0;
        while i < toks.len()
            invariant
                i <= toks.len(),
                token_views(tokens@) == token_views(toks@).subrange(0, i as int),
            decreases toks.len() - i,
        {
            let ghost before = tokens@;
            let token = toks[i].clone();
            tokens.push(token);
            i = i + 1;
            assert(token_views(tokens@) =~= token_views(before).push(token@));
            assert(token_views(tokens@) =~= token_views(toks@).subrange(0, i as int));
        }
        assert(token_views(toks@).subrange(0, toks.len() as int) =~= token_views(toks@));
        LoxParser { tokens, current: 0 }
    }

    /// Parses one expression at the cursor and moves the cursor past it.
    /// Tokens after the expression are left unread. Parsing stops at the
    /// first token that cannot continue the expression.
    pub fn parse(&mut self) -> (r: Result<Expr, LoxError>)
        requires
            old(self).wf(),
        ensures
            final(self).wf(),
            final(self).tokens() == old(self).tokens(),
            outcome(r, final(self).position()) == parse_expression(
                old(self).tokens(),
                old(self).position(),
            ),
    {
        self.expression()
    }

    fn expression(&mut self) -> (r: Result<Expr, LoxError>)
        requires
            old(self).wf(),
        ensures
            final(self).wf(),
            final(self).tokens() == old(self).tokens(),
            outcome(r, final(self).position()) == parse_tier(
                old(self).tokens(),
                old(self).position(),
                4,
            ),
        decreases old(self).tokens().len() - old(self).position(), 4nat, 3nat,
    {
        self.equality()
    }

    fn equality(&mut self) -> (r: Result<Expr, LoxError>)
        requires
            old(self).wf(),
        ensures
            final(self).wf(),
            final(self).tokens() == old(self).tokens(),
            outcome(r, final(self).position()) == parse_tier(
                old(self).tokens(),
                old(self).position(),
                4,
            ),
        decreases old(self).tokens().len() - old(self).position(), 4nat, 2nat,
    {
        let ghost tokens = self.tokens();
        let ghost start = self.position();
        proof {
            parse_tier_advances(tokens, start, 3);
        }
        let mut left = match self.comparison() {
            Ok(expr) => expr,
            Err(error) => {
                return Err(error);
            },
        };
        loop
            invariant
                self.wf(),
                self.tokens() == tokens,
                tokens == old(self).tokens(),
                start == old(self).position(),
                start < self.position() <= tokens.len(),
                parse_tier(tokens, start, 4) == parse_rest(tokens, self.position(), 4, left@),
            ensures
                parse_tier(tokens, start, 4) == (Parsed {
                    result: Ok(left@),
                    next: self.position(),
                }),
            decreases tokens.len() - self.position(),
        {
            let expected = vec![TokenType::BangEqual, TokenType::EqualEqual];
            assert(type_views(expected@) =~= seq![
                TokenTypeView::Fixed(TokenType::BangEqual),
                TokenTypeView::Fixed(TokenType::EqualEqual),
            ]);
            if !self.match_token(&expected) {
                break ;
            }
            let operator = self.previous();
            proof {
                parse_tier_advances(tokens, self.position(), 3);
            }
            let right = match self.comparison() {
                Ok(expr) => expr,
                Err(error) => {
                    return Err(error);
                },
            };
            left = Expr::Binary(Box::new(left), operator, Box::new(right));
        }
        Ok(left)
    }

    fn comparison(&mut self) -> (r: Result<Expr, LoxError>)
        requires
            old(self).wf(),
        ensures
            final(self).wf(),
            final(self).tokens() == old(self).tokens(),
            outcome(r, final(self).position()) == parse_tier(
                old(self).tokens(),
                old(self).position(),
                3,
            ),
        decreases old(self).tokens().len() - old(self).position(), 3nat, 2nat,
    {
        let ghost tokens = self.tokens();
        let ghost start = self.position();
        proof {
            parse_tier_advances(tokens, start, 2);
        }
        let mut left = match self.term() {
            Ok(expr) => expr,
            Err(error) => {
                return Err(error);
            },
        };
        loop
            invariant
                self.wf(),
                self.tokens() == tokens,
                tokens == old(self).tokens(),
                start == old(self).position(),
                start < self.position() <= tokens.len(),
                parse_tier(tokens, start, 3) == parse_rest(tokens, self.position(), 3, left@),
            ensures
                parse_tier(tokens, start, 3) == (Parsed {
                    result: Ok(left@),
                    next: self.position(),
                }),
            decreases tokens.len() - self.position(),
        {
            let expected = vec![
                TokenType::Greater,
                TokenType::GreaterEqual,
                TokenType::Less,
                TokenType::LessEqual,
            ];
            assert(type_views(expected@) =~= seq![
                TokenTypeView::Fixed(TokenType::Greater),
                TokenTypeView::Fixed(TokenType::GreaterEqual),
                TokenTypeView::Fixed(TokenType::Less),
                TokenTypeView::Fixed(TokenType::LessEqual),
            ]);
            if !self.match_token(&expected) {
                break ;
            }
            let operator = self.previous();
            proof {
                parse_tier_advances(tokens, self.position(), 2);
            }
            let right = match self.term() {
                Ok(expr) => expr,
                Err(error) => {
                    return Err(error);
                },
            };
            left = Expr::Binary(Box::new(left), operator, Box::new(right));
        }
        Ok(left)
    }

    fn term(&mut self) -> (r: Result<Expr, LoxError>)
        requires
            old(self).wf(),
        ensures
            final(self).wf(),
            final(self).tokens() == old(self).tokens(),
            outcome(r, final(self).position()) == parse_tier(
                old(self).tokens(),
                old(self).position(),
                2,
            ),
        decreases old(self).tokens().len() - old(self).position(), 2nat, 2nat,
    {
        let ghost tokens = self.tokens();
        let ghost start = self.position();
        proof {
            parse_tier_advances(tokens, start, 1);
        }
        let mut left = match self.factor() {
            Ok(expr) => expr,
            Err(error) => {
                return Err(error);
            },
        };
        loop
            invariant
                self.wf(),
                self.tokens() == tokens,
                tokens == old(self).tokens(),
                start == old(self).position(),
                start < self.position() <= tokens.len(),
                parse_tier(tokens, start, 2) == parse_rest(tokens, self.position(), 2, left@),
            ensures
                parse_tier(tokens, start, 2) == (Parsed {
                    result: Ok(left@),
                    next: self.position(),
                }),
            decreases tokens.len() - self.position(),
        {
            let expected = vec![TokenType::Minus, TokenType::Plus];
            assert(type_views(expected@) =~= seq![
                TokenTypeView::Fixed(TokenType::Minus),
                TokenTypeView::Fixed(TokenType::Plus),
            ]);
            if !self.match_token(&expected) {
                break ;
            }
            let operator = self.previous();
            proof {
                parse_tier_advances(tokens, self.position(), 1);
            }
            let right = match self.factor() {
                Ok(expr) => expr,
                Err(error) => {
                    return Err(error);
                },
            };
            left = Expr::Binary(Box::new(left), operator, Box::new(right));
        }
        Ok(left)
    }

    fn factor(&mut self) -> (r: Result<Expr, LoxError>)
        requires
            old(self).wf(),
        ensures
            final(self).wf(),
            final(self).tokens() == old(self).tokens(),
            outcome(r, final(self).position()) == parse_tier(
                old(self).tokens(),
                old(self).position(),
                1,
            ),
        decreases old(self).tokens().len() - old(self).position(), 1nat, 2nat,
    {
        let ghost tokens = self.tokens();
        let ghost start = self.position();
        proof {
            parse_unary_advances(tokens, start);
            assert(parse_tier(tokens, start, 0) == parse_unary(tokens, start));
        }
        let mut left = match self.unary() {
            Ok(expr) => expr,
            Err(error) => {
                return Err(error);
            },
        };
        loop
            invariant
                self.wf(),
                self.tokens() == tokens,
                tokens == old(self).tokens(),
                start == old(self).position(),
                start < self.position() <= tokens.len(),
                parse_tier(tokens, start, 1) == parse_rest(tokens, self.position(), 1, left@),
            ensures
                parse_tier(tokens, start, 1) == (Parsed {
                    result: Ok(left@),
                    next: self.position(),
                }),
            decreases tokens.len() - self.position(),
        {
            let expected = vec![TokenType::Slash, TokenType::Star];
            assert(type_views(expected@) =~= seq![
                TokenTypeView::Fixed(TokenType::Slash),
                TokenTypeView::Fixed(TokenType::Star),
            ]);
            if !self.match_token(&expected) {
                break ;
            }
            let operator = self.previous();
            proof {
                parse_unary_advances(tokens, self.position());
                assert(parse_tier(tokens, self.position(), 0) == parse_unary(
                    tokens,
                    self.position(),
                ));
            }
            let right = match self.unary() {
                Ok(expr) => expr,
                Err(error) => {
                    return Err(error);
                },
            };
            left = Expr::Binary(Box::new(left), operator, Box::new(right));
        }
        Ok(left)
    }

    fn unary(&mut self) -> (r: Result<Expr, LoxError>)
        requires
            old(self).wf(),
        ensures
            final(self).wf(),
            final(self).tokens() == old(self).tokens(),
            outcome(r, final(self).position()) == parse_unary(
                old(self).tokens(),
                old(self).position(),
            ),
        decreases old(self).tokens().len() - old(self).position(), 0nat, 1nat,
    {
        let expected = vec![TokenType::Bang, TokenType::Minus];
        assert(type_views(expected@) =~= seq![
            TokenTypeView::Fixed(TokenType::Bang),
            TokenTypeView::Fixed(TokenType::Minus),
        ]);
        if self.match_token(&expected) {
            let operator = self.previous();
            return match self.unary() {
                Ok(right) => Ok(Expr::Unary(operator, Box::new(right))),
                Err(error) => Err(error),
            };
        }
        self.primary()
    }

    fn primary(&mut self) -> (r: Result<Expr, LoxError>)
        requires
            old(self).wf(),
        ensures
            final(self).wf(),
            final(self).tokens() == old(self).tokens(),
            outcome(r, final(self).position()) == parse_primary(
                old(self).tokens(),
                old(self).position(),
            ),
        decreases old(self).tokens().len() - old(self).position(), 0nat, 0nat,
    {
        if self.is_at_end() {
            return Err(LoxError::new("Invalid token!"));
        }
        let tok = self.advance();
        match tok.typ {
            TokenType::False => Ok(Expr::False),
            TokenType::True => Ok(Expr::True),
            TokenType::Nil => Ok(Expr::Nil),
            TokenType::Number(_) => Ok(Expr::Literal(tok)),
            TokenType::QuotedString(_) => Ok(Expr::Literal(tok)),
            TokenType::Identifier(_) => Ok(Expr::Identifier(tok)),
            TokenType::LeftParen => {
                match self.expression() {
                    Ok(expr) => {
                        if !self.is_at_end() {
                            let _closing = self.advance();
                        }
                        Ok(Expr::Grouping(Box::new(expr)))
                    },
                    Err(error) => Err(error),
                }
            },
            _ => Err(LoxError::new("Invalid token!")),
        }
    }

    /// Whether the token at the cursor is one of `expected`; the cursor
    /// moves past it where it is.
    fn match_token(&mut self, expected: &Vec<TokenType>) -> (r: bool)
        requires
            old(self).wf(),
        ensures
            final(self).wf(),
            final(self).tokens() == old(self).tokens(),
            r == (!at_end(old(self).tokens(), old(self).position()) && type_views(
                expected@,
            ).contains(old(self).tokens()[old(self).position()].typ)),
            final(self).position() == if r {
                old(self).position() + 1
            } else {
                old(self).position()
            },
    {
        let mut i: usize = 0;
        while i < expected.len()
            invariant
                self.wf(),
                *self == *old(self),
                i <= expected.len(),
                forall|j: int|
                    0 <= j < i ==> !(!at_end(self.tokens(), self.position()) && #[trigger] type_views(
                        expected@,
                    )[j] == self.tokens()[self.position()].typ),
            decreases expected.len() - i,
        {
            if self.check(&expected[i]) {
                assert(type_views(expected@)[i as int] == self.tokens()[self.position()].typ);
                let _ignored = self.advance();
                return true;
            }
            i = i + 1;
        }
        false
    }

    /// Whether the token at the cursor is of the type `expected`.
    fn check(&self, expected: &TokenType) -> (r: bool)
        requires
            self.wf(),
        ensures
            r == (!at_end(self.tokens(), self.position()) && self.tokens()[self.position()].typ
                == expected@),
    {
        if self.is_at_end() {
            return false;
        }
        self.peek().typ == *expected
    }

    /// Moves the cursor past the token it is at, and returns that token.
    fn advance(&mut self) -> (token: Token)
        requires
            old(self).wf(),
            !at_end(old(self).tokens(), old(self).position()),
        ensures
            final(self).wf(),
            final(self).tokens() == old(self).tokens(),
            final(self).position() == old(self).position() + 1,
            token@ == old(self).tokens()[old(self).position()],
    {
        if !self.is_at_end() && self.current < self.tokens.len() {
            self.current = self.current + 1;
        }
        self.previous()
    }

    /// Whether the input ends at the cursor.
    fn is_at_end(&self) -> (r: bool)
        requires
            self.wf(),
        ensures
            r == at_end(self.tokens(), self.position()),
    {
        self.peek().typ == TokenType::Eof
    }

    /// The token at the cursor; the end-of-input token where none is left.
    fn peek(&self) -> (token: Token)
        requires
            self.wf(),
        ensures
            token@ == if self.position() < self.tokens().len() {
                self.tokens()[self.position()]
            } else {
                TokenView { typ: TokenTypeView::Fixed(TokenType::Eof), line: 0 }
            },
    {
        if self.current < self.tokens.len() {
            self.tokens[self.current].clone()
        } else {
            Token::new(TokenType::Eof, 0)
        }
    }

    /// The token before the cursor.
    fn previous(&self) -> (token: Token)
        requires
            self.wf(),
            1 <= self.position(),
        ensures
            token@ == self.tokens()[self.position() - 1],
    {
        self.tokens[self.current - 1].clone()
    }
}

} // verus!
