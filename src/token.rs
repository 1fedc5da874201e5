use vstd::prelude::*;
use crate::token_type::TokenType;

verus! {

/// The value carried by a STRING or NUMBER token.
#[derive(Clone, Debug, PartialEq)]
pub enum Literal {
    /// The characters strictly between the quotes.
    Str(String),
    /// The decimal text of a number; its value is that text read as a
    /// 64-bit float.
    Number(String),
}

/// The mathematical value of a [`Literal`].
pub enum LiteralView {
    Str(Seq<char>),
    Number(Seq<char>),
}

impl View for Literal {
    type V = LiteralView;

    open spec fn view(&self) -> LiteralView {
        match self {
            Literal::Str(s) => LiteralView::Str(s@),
            Literal::Number(s) => LiteralView::Number(s@),
        }
    }
}

pub open spec fn literal_view(l: Option<Literal>) -> Option<LiteralView> {
    match l {
        Some(v) => Some(v@),
        None => None,
    }
}

/// The mathematical value of a [`Token`].
pub struct TokenView {
    pub token_type: TokenType,
    pub lexeme: Seq<char>,
    pub literal: Option<LiteralView>,
    pub line: int,
}

/// One token: its category, the exact source text it came from, its value
/// if it is a literal, and the line it was recorded on.
#[derive(Clone, Debug, PartialEq)]
pub struct Token {
    token_type: TokenType,
    lexeme: String,
    literal: Option<Literal>,
    line: i32,
}

impl View for Token {
    type V = TokenView;

    closed spec fn view(&self) -> TokenView {
        TokenView {
            token_type: self.token_type,
            lexeme: self.lexeme@,
            literal: literal_view(self.literal),
            line: self.line as int,
        }
    }
}

impl Token {
    pub fn new(token_type: TokenType, lexeme: String, literal: Option<Literal>, line: i32) -> (t:
        Token)
        ensures
            t@ == (TokenView {
                token_type,
                lexeme: lexeme@,
                literal: literal_view(literal),
                line: line as int,
            }),
    {
        Token { token_type, lexeme, literal, line }
    }

    pub fn token_type(&self) -> (r: TokenType)
        ensures
            r == self@.token_type,
    {
        self.token_type
    }

    pub fn lexeme(&self) -> (r: &String)
        ensures
            r@ == self@.lexeme,
    {
        &self.lexeme
    }

    pub fn literal(&self) -> (r: &Option<Literal>)
        ensures
            literal_view(*r) == self@.literal,
    {
        &self.literal
    }

    pub fn line(&self) -> (r: i32)
        ensures
            r as int == self@.line,
    {
        self.line
    }
}

} // verus!
