//! Tokens: the lexical units of the language, each with its source line.

use vstd::prelude::*;
use vstd::std_specs::cmp::PartialEqSpecImpl;
use vstd::std_specs::convert::FromSpecImpl;
use vstd::string::StringExecFns;

verus! {

/// The kind of a token, with its text or value where it has one. Two token
/// types are equal where they are the same kind with the same text or the
/// same bit pattern.
#[derive(Debug)]
pub enum TokenType {
    // Single-character tokens.
    LeftParen,
    RightParen,
    LeftBrace,
    RightBrace,
    Comma,
    Dot,
    Minus,
    Plus,
    Semicolon,
    Slash,
    Star,
    // One or two character tokens.
    Bang,
    BangEqual,
    Equal,
    EqualEqual,
    Greater,
    GreaterEqual,
    Less,
    LessEqual,
    // Literals. A number is held by its IEEE-754 binary64 bit pattern.
    Identifier(String),
    QuotedString(String),
    Number(u64),
    // Keywords.
    And,
    Class,
    Else,
    False,
    Fun,
    For,
    If,
    Nil,
    Or,
    Print,
    Return,
    Super,
    This,
    True,
    Var,
    While,
    Eof,
}

/// What a token type is to the contracts: its text as a sequence of
/// characters where it carries text, its bit pattern where it is a number,
/// and itself where it carries nothing.
pub ghost enum TokenTypeView {
    Identifier(Seq<char>),
    QuotedString(Seq<char>),
    Number(u64),
    Fixed(TokenType),
}

impl View for TokenType {
    type V = TokenTypeView;

    open spec fn view(&self) -> TokenTypeView {
        match self {
            TokenType::Identifier(text) => TokenTypeView::Identifier(text@),
            TokenType::QuotedString(text) => TokenTypeView::QuotedString(text@),
            TokenType::Number(bits) => TokenTypeView::Number(*bits),
            _ => TokenTypeView::Fixed(*self),
        }
    }
}

/// The spelling of a token type that carries nothing. For the three that
/// carry something it is empty.
pub open spec fn fixed_text(typ: TokenType) -> Seq<char> {
    match typ {
        TokenType::LeftParen => "("@,
        TokenType::RightParen => ")"@,
        TokenType::LeftBrace => "{"@,
        TokenType::RightBrace => "}"@,
        TokenType::Comma => ","@,
        TokenType::Dot => "."@,
        TokenType::Minus => "-"@,
        TokenType::Plus => "+"@,
        TokenType::Semicolon => ";"@,
        TokenType::Slash => "/"@,
        TokenType::Star => "*"@,
        TokenType::Bang => "!"@,
        TokenType::BangEqual => "!="@,
        TokenType::Equal => "="@,
        TokenType::EqualEqual => "=="@,
        TokenType::Greater => ">"@,
        TokenType::GreaterEqual => ">="@,
        TokenType::Less => "<"@,
        TokenType::LessEqual => "<="@,
        TokenType::And => "and"@,
        TokenType::Class => "class"@,
        TokenType::Else => "else"@,
        TokenType::False => "false"@,
        TokenType::Fun => "fun"@,
        TokenType::For => "for"@,
        TokenType::If => "if"@,
        TokenType::Nil => "nil"@,
        TokenType::Or => "or"@,
        TokenType::Print => "print"@,
        TokenType::Return => "return"@,
        TokenType::Super => "super"@,
        TokenType::This => "this"@,
        TokenType::True => "true"@,
        TokenType::Var => "var"@,
        TokenType::While => "while"@,
        TokenType::Eof => "EOF"@,
        _ => Seq::empty(),
    }
}

/// How a token type that is no number is written: an identifier as its
/// name, a string between double quotes, anything else by its fixed
/// spelling.
pub open spec fn plain_text(typ: TokenTypeView) -> Seq<char> {
    match typ {
        TokenTypeView::Identifier(name) => name,
        TokenTypeView::QuotedString(text) => seq!['"'] + text + seq!['"'],
        TokenTypeView::Number(_) => Seq::empty(),
        TokenTypeView::Fixed(fixed) => fixed_text(fixed),
    }
}

/// How a token type is written: a number as `number_text` writes it,
/// anything else as `plain_text` says.
pub open spec fn type_text(typ: TokenTypeView, number_text: spec_fn(u64) -> Seq<char>) -> Seq<
    char,
> {
    match typ {
        TokenTypeView::Number(bits) => number_text(bits),
        _ => plain_text(typ),
    }
}

/// Whether `render` writes every number as `number_text` does.
pub open spec fn renders<R: Fn(u64) -> String>(
    render: &R,
    number_text: spec_fn(u64) -> Seq<char>,
) -> bool {
    forall|bits: u64, out: String| #[trigger]
        render.ensures((bits,), out) ==> out@ == number_text(bits)
}

impl PartialEq for TokenType {
    fn eq(&self, other: &TokenType) -> (r: bool) {
        match (self, other) {
            (TokenType::Identifier(a), TokenType::Identifier(b)) => *a == *b,
            (TokenType::QuotedString(a), TokenType::QuotedString(b)) => *a == *b,
            (TokenType::Number(a), TokenType::Number(b)) => *a == *b,
            (TokenType::LeftParen, TokenType::LeftParen) => true,
            (TokenType::RightParen, TokenType::RightParen) => true,
            (TokenType::LeftBrace, TokenType::LeftBrace) => true,
            (TokenType::RightBrace, TokenType::RightBrace) => true,
            (TokenType::Comma, TokenType::Comma) => true,
            (TokenType::Dot, TokenType::Dot) => true,
            (TokenType::Minus, TokenType::Minus) => true,
            (TokenType::Plus, TokenType::Plus) => true,
            (TokenType::Semicolon, TokenType::Semicolon) => true,
            (TokenType::Slash, TokenType::Slash) => true,
            (TokenType::Star, TokenType::Star) => true,
            (TokenType::Bang, TokenType::Bang) => true,
            (TokenType::BangEqual, TokenType::BangEqual) => true,
            (TokenType::Equal, TokenType::Equal) => true,
            (TokenType::EqualEqual, TokenType::EqualEqual) => true,
            (TokenType::Greater, TokenType::Greater) => true,
            (TokenType::GreaterEqual, TokenType::GreaterEqual) => true,
            (TokenType::Less, TokenType::Less) => true,
            (TokenType::LessEqual, TokenType::LessEqual) => true,
            (TokenType::And, TokenType::And) => true,
            (TokenType::Class, TokenType::Class) => true,
            (TokenType::Else, TokenType::Else) => true,
            (TokenType::False, TokenType::False) => true,
            (TokenType::Fun, TokenType::Fun) => true,
            (TokenType::For, TokenType::For) => true,
            (TokenType::If, TokenType::If) => true,
            (TokenType::Nil, TokenType::Nil) => true,
            (TokenType::Or, TokenType::Or) => true,
            (TokenType::Print, TokenType::Print) => true,
            (TokenType::Return, TokenType::Return) => true,
            (TokenType::Super, TokenType::Super) => true,
            (TokenType::This, TokenType::This) => true,
            (TokenType::True, TokenType::True) => true,
            (TokenType::Var, TokenType::Var) => true,
            (TokenType::While, TokenType::While) => true,
            (TokenType::Eof, TokenType::Eof) => true,
            _ => false,
        }
    }
}

impl PartialEqSpecImpl for TokenType {
    open spec fn obeys_eq_spec() -> bool {
        true
    }

    open spec fn eq_spec(&self, other: &TokenType) -> bool {
        self@ == other@
    }
}

impl From<String> for TokenType {
    /// The identifier of the given name.
    fn from(other: String) -> (typ: TokenType) {
        TokenType::Identifier(other)
    }
}

impl FromSpecImpl<String> for TokenType {
    open spec fn obeys_from_spec() -> bool {
        true
    }

    open spec fn from_spec(other: String) -> TokenType {
        TokenType::Identifier(other)
    }
}

impl From<u64> for TokenType {
    /// The number with the given bit pattern.
    fn from(other: u64) -> (typ: TokenType) {
        TokenType::Number(other)
    }
}

impl FromSpecImpl<u64> for TokenType {
    open spec fn obeys_from_spec() -> bool {
        true
    }

    open spec fn from_spec(other: u64) -> TokenType {
        TokenType::Number(other)
    }
}

impl Clone for TokenType {
    fn clone(&self) -> (copy: TokenType)
        ensures
            copy@ == self@,
    {
        match self {
            TokenType::LeftParen => TokenType::LeftParen,
            TokenType::RightParen => TokenType::RightParen,
            TokenType::LeftBrace => TokenType::LeftBrace,
            TokenType::RightBrace => TokenType::RightBrace,
            TokenType::Comma => TokenType::Comma,
            TokenType::Dot => TokenType::Dot,
            TokenType::Minus => TokenType::Minus,
            TokenType::Plus => TokenType::Plus,
            TokenType::Semicolon => TokenType::Semicolon,
            TokenType::Slash => TokenType::Slash,
            TokenType::Star => TokenType::Star,
            TokenType::Bang => TokenType::Bang,
            TokenType::BangEqual => TokenType::BangEqual,
            TokenType::Equal => TokenType::Equal,
            TokenType::EqualEqual => TokenType::EqualEqual,
            TokenType::Greater => TokenType::Greater,
            TokenType::GreaterEqual => TokenType::GreaterEqual,
            TokenType::Less => TokenType::Less,
            TokenType::LessEqual => TokenType::LessEqual,
            TokenType::Identifier(name) => TokenType::Identifier(name.clone()),
            TokenType::QuotedString(text) => TokenType::QuotedString(text.clone()),
            TokenType::Number(bits) => TokenType::Number(*bits),
            TokenType::And => TokenType::And,
            TokenType::Class => TokenType::Class,
            TokenType::Else => TokenType::Else,
            TokenType::False => TokenType::False,
            TokenType::Fun => TokenType::Fun,
            TokenType::For => TokenType::For,
            TokenType::If => TokenType::If,
            TokenType::Nil => TokenType::Nil,
            TokenType::Or => TokenType::Or,
            TokenType::Print => TokenType::Print,
            TokenType::Return => TokenType::Return,
            TokenType::Super => TokenType::Super,
            TokenType::This => TokenType::This,
            TokenType::True => TokenType::True,
            TokenType::Var => TokenType::Var,
            TokenType::While => TokenType::While,
            TokenType::Eof => TokenType::Eof,
        }
    }
}

impl TokenType {
    /// The fixed spelling of a token type that carries nothing; the empty
    /// text for an identifier, a string or a number.
    fn fixed_spelling(&self) -> (s: &'static str)
        ensures
            s@ == fixed_text(*self),
    {
        match self {
            TokenType::LeftParen => "(",
            TokenType::RightParen => ")",
            TokenType::LeftBrace => "{",
            TokenType::RightBrace => "}",
            TokenType::Comma => ",",
            TokenType::Dot => ".",
            TokenType::Minus => "-",
            TokenType::Plus => "+",
            TokenType::Semicolon => ";",
            TokenType::Slash => "/",
            TokenType::Star => "*",
            TokenType::Bang => "!",
            TokenType::BangEqual => "!=",
            TokenType::Equal => "=",
            TokenType::EqualEqual => "==",
            TokenType::Greater => ">",
            TokenType::GreaterEqual => ">=",
            TokenType::Less => "<",
            TokenType::LessEqual => "<=",
            TokenType::And => "and",
            TokenType::Class => "class",
            TokenType::Else => "else",
            TokenType::False => "false",
            TokenType::Fun => "fun",
            TokenType::For => "for",
            TokenType::If => "if",
            TokenType::Nil => "nil",
            TokenType::Or => "or",
            TokenType::Print => "print",
            TokenType::Return => "return",
            TokenType::Super => "super",
            TokenType::This => "this",
            TokenType::True => "true",
            TokenType::Var => "var",
            TokenType::While => "while",
            TokenType::Eof => "EOF",
            _ => {
                proof {
                    reveal_strlit("");
                }
                assert(""@ =~= Seq::<char>::empty());
                ""
            },
        }
    }

    /// The token type as text. `render` writes a number in decimal: the
    /// library holds numbers by their bit patterns and leaves their
    /// rendering to its caller.
    pub fn to_string<R: Fn(u64) -> String>(&self, render: &R) -> (s: String)
        requires
            forall|bits: u64| render.requires((bits,)),
        ensures
            match self@ {
                TokenTypeView::Number(bits) => render.ensures((bits,), s),
                _ => s@ == plain_text(self@),
            },
            forall|number_text: spec_fn(u64) -> Seq<char>| #[trigger]
                renders(render, number_text) ==> s@ == type_text(self@, number_text),
    {
        match self {
            TokenType::Identifier(name) => name.clone(),
            TokenType::QuotedString(text) => {
                let mut s = String::new();
                s.push('"');
                s.append(text.as_str());
                s.push('"');
                assert(s@ =~= seq!['"'] + text@ + seq!['"']);
                s
            },
            TokenType::Number(bits) => render(*bits),
            _ => String::from_str(self.fixed_spelling()),
        }
    }
}

/// A token: what it is and the line it starts on. Lines count from 1.
#[derive(Debug, PartialEq)]
pub struct Token {
    pub typ: TokenType,
    pub line: usize,
}

/// What a token is to the contracts.
pub ghost struct TokenView {
    pub typ: TokenTypeView,
    pub line: nat,
}

impl View for Token {
    type V = TokenView;

    open spec fn view(&self) -> TokenView {
        TokenView { typ: self.typ@, line: self.line as nat }
    }
}

/// What a sequence of tokens is to the contracts.
pub open spec fn token_views(tokens: Seq<Token>) -> Seq<TokenView> {
    tokens.map_values(|token: Token| token@)
}

impl Clone for Token {
    fn clone(&self) -> (copy: Token)
        ensures
            copy@ == self@,
    {
        Token { typ: self.typ.clone(), line: self.line }
    }
}

impl Token {
    /// A token of the given type on the given line.
    pub fn new(typ: TokenType, line: usize) -> (token: Token)
        ensures
            token.typ == typ,
            token.line == line,
    {
        Token { typ, line }
    }

    /// The token as text: that of its type. The line is not shown.
    pub fn to_string<R: Fn(u64) -> String>(&self, render: &R) -> (s: String)
        requires
            forall|bits: u64| render.requires((bits,)),
        ensures
            match self@.typ {
                TokenTypeView::Number(bits) => render.ensures((bits,), s),
                _ => s@ == plain_text(self@.typ),
            },
            forall|number_text: spec_fn(u64) -> Seq<char>| #[trigger]
                renders(render, number_text) ==> s@ == type_text(self@.typ, number_text),
    {
        self.typ.to_string(render)
    }
}

} // verus!
