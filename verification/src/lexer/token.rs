use vstd::prelude::*;

use crate::lexer::source_loc::{SourceLoc, SourceLocModel};

verus! {

/// The kinds of token of the Organic language.  `Newline` and `Whitespace`
/// never leave the lexer: it counts the first and skips the second.
#[derive(Debug, PartialEq, Eq, Hash)]
pub enum TokenType {
    Colon,
    Comma,
    Divide,
    Equals,
    GreaterThan,
    GreaterThanEquals,
    Identifier(String),
    Include,
    LeftBrace,
    LeftBracket,
    LeftParen,
    LessThan,
    LessThanEquals,
    Minus,
    Multiply,
    Newline,
    Number(String),
    Plus,
    RightBrace,
    RightBracket,
    RightParen,
    String(String),
    Whitespace,
}

/// The mathematical content of a [`TokenType`]: the text that an
/// identifier, a number or a string literal carries becomes a `Seq<char>`.
pub enum TokenKind {
    Colon,
    Comma,
    Divide,
    Equals,
    GreaterThan,
    GreaterThanEquals,
    Identifier(Seq<char>),
    Include,
    LeftBrace,
    LeftBracket,
    LeftParen,
    LessThan,
    LessThanEquals,
    Minus,
    Multiply,
    Newline,
    Number(Seq<char>),
    Plus,
    RightBrace,
    RightBracket,
    RightParen,
    String(Seq<char>),
    Whitespace,
}

impl View for TokenType {
    type V = TokenKind;

    open spec fn view(&self) -> TokenKind {
        match self {
            TokenType::Colon => TokenKind::Colon,
            TokenType::Comma => TokenKind::Comma,
            TokenType::Divide => TokenKind::Divide,
            TokenType::Equals => TokenKind::Equals,
            TokenType::GreaterThan => TokenKind::GreaterThan,
            TokenType::GreaterThanEquals => TokenKind::GreaterThanEquals,
            TokenType::Identifier(s) => TokenKind::Identifier(s@),
            TokenType::Include => TokenKind::Include,
            TokenType::LeftBrace => TokenKind::LeftBrace,
            TokenType::LeftBracket => TokenKind::LeftBracket,
            TokenType::LeftParen => TokenKind::LeftParen,
            TokenType::LessThan => TokenKind::LessThan,
            TokenType::LessThanEquals => TokenKind::LessThanEquals,
            TokenType::Minus => TokenKind::Minus,
            TokenType::Multiply => TokenKind::Multiply,
            TokenType::Newline => TokenKind::Newline,
            TokenType::Number(s) => TokenKind::Number(s@),
            TokenType::Plus => TokenKind::Plus,
            TokenType::RightBrace => TokenKind::RightBrace,
            TokenType::RightBracket => TokenKind::RightBracket,
            TokenType::RightParen => TokenKind::RightParen,
            TokenType::String(s) => TokenKind::String(s@),
            TokenType::Whitespace => TokenKind::Whitespace,
        }
    }
}

impl Clone for TokenType {
    fn clone(&self) -> (copy: Self)
        ensures
            copy == *self,
    {
        match self {
            TokenType::Colon => TokenType::Colon,
            TokenType::Comma => TokenType::Comma,
            TokenType::Divide => TokenType::Divide,
            TokenType::Equals => TokenType::Equals,
            TokenType::GreaterThan => TokenType::GreaterThan,
            TokenType::GreaterThanEquals => TokenType::GreaterThanEquals,
            TokenType::Identifier(s) => TokenType::Identifier(s.clone()),
            TokenType::Include => TokenType::Include,
            TokenType::LeftBrace => TokenType::LeftBrace,
            TokenType::LeftBracket => TokenType::LeftBracket,
            TokenType::LeftParen => TokenType::LeftParen,
            TokenType::LessThan => TokenType::LessThan,
            TokenType::LessThanEquals => TokenType::LessThanEquals,
            TokenType::Minus => TokenType::Minus,
            TokenType::Multiply => TokenType::Multiply,
            TokenType::Newline => TokenType::Newline,
            TokenType::Number(s) => TokenType::Number(s.clone()),
            TokenType::Plus => TokenType::Plus,
            TokenType::RightBrace => TokenType::RightBrace,
            TokenType::RightBracket => TokenType::RightBracket,
            TokenType::RightParen => TokenType::RightParen,
            TokenType::String(s) => TokenType::String(s.clone()),
            TokenType::Whitespace => TokenType::Whitespace,
        }
    }
}

/// A token together with the place in its document that it was read from.
#[derive(Debug, PartialEq, Eq, Hash)]
pub struct Token {
    pub token_type: TokenType,
    pub source_loc: SourceLoc,
}

/// The mathematical content of a [`Token`].
pub struct TokenModel {
    pub token_type: TokenKind,
    pub source_loc: SourceLocModel,
}

impl View for Token {
    type V = TokenModel;

    open spec fn view(&self) -> TokenModel {
        TokenModel { token_type: self.token_type@, source_loc: self.source_loc@ }
    }
}

impl Clone for Token {
    fn clone(&self) -> (copy: Self)
        ensures
            copy == *self,
    {
        Token { token_type: self.token_type.clone(), source_loc: self.source_loc.clone() }
    }
}

} // verus!
