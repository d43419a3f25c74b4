use vstd::prelude::*;

verus! {

/// Lexical tokens produced by the lexer.
///
/// Each variant is one atomic syntactic element of the source language:
/// the two keywords, identifiers, integer literals, the four arithmetic
/// operators, the four brackets, and the statement terminator.
#[derive(Debug, PartialEq, Eq)]
pub enum Token {
    /// The `int` keyword.
    Int,
    /// The `return` keyword.
    Return,
    /// An identifier, carrying its text.
    Ident(String),
    /// An integer literal, carrying its 64-bit signed value.
    Number(i64),
    /// The `+` operator.
    Plus,
    /// The `-` operator.
    Minus,
    /// The `*` operator.
    Star,
    /// The `/` operator.
    Slash,
    /// `(`
    LParen,
    /// `)`
    RParen,
    /// `{`
    LBrace,
    /// `}`
    RBrace,
    /// `;`
    Semicolon,
}

/// The mathematical image of a [`Token`]: identical to it, except that the
/// identifier payload is the character sequence itself. Contracts speak of
/// token sequences through this type.
pub enum SpecToken {
    Int,
    Return,
    Ident(Seq<char>),
    Number(i64),
    Plus,
    Minus,
    Star,
    Slash,
    LParen,
    RParen,
    LBrace,
    RBrace,
    Semicolon,
}

impl View for Token {
    type V = SpecToken;

    open spec fn view(&self) -> SpecToken {
        match self {
            Token::Int => SpecToken::Int,
            Token::Return => SpecToken::Return,
            Token::Ident(s) => SpecToken::Ident(s@),
            Token::Number(n) => SpecToken::Number(*n),
            Token::Plus => SpecToken::Plus,
            Token::Minus => SpecToken::Minus,
            Token::Star => SpecToken::Star,
            Token::Slash => SpecToken::Slash,
            Token::LParen => SpecToken::LParen,
            Token::RParen => SpecToken::RParen,
            Token::LBrace => SpecToken::LBrace,
            Token::RBrace => SpecToken::RBrace,
            Token::Semicolon => SpecToken::Semicolon,
        }
    }
}

impl DeepView for Token {
    type V = SpecToken;

    open spec fn deep_view(&self) -> SpecToken {
        self.view()
    }
}

impl Clone for Token {
    /// Cloning a token preserves its value exactly.
    fn clone(&self) -> (res: Self)
        ensures
            res == *self,
    {
        match self {
            Token::Int => Token::Int,
            Token::Return => Token::Return,
            Token::Ident(s) => Token::Ident(s.clone()),
            Token::Number(n) => Token::Number(*n),
            Token::Plus => Token::Plus,
            Token::Minus => Token::Minus,
            Token::Star => Token::Star,
            Token::Slash => Token::Slash,
            Token::LParen => Token::LParen,
            Token::RParen => Token::RParen,
            Token::LBrace => Token::LBrace,
            Token::RBrace => Token::RBrace,
            Token::Semicolon => Token::Semicolon,
        }
    }
}

/// Structural token equality, used by the parser to match an expected token.
pub(crate) fn token_eq(a: &Token, b: &Token) -> (r: bool)
    ensures
        r == (a@ == b@),
{
    match (a, b) {
        (Token::Int, Token::Int) => true,
        (Token::Return, Token::Return) => true,
        (Token::Ident(x), Token::Ident(y)) => *x == *y,
        (Token::Number(n), Token::Number(m)) => *n == *m,
        (Token::Plus, Token::Plus) => true,
        (Token::Minus, Token::Minus) => true,
        (Token::Star, Token::Star) => true,
        (Token::Slash, Token::Slash) => true,
        (Token::LParen, Token::LParen) => true,
        (Token::RParen, Token::RParen) => true,
        (Token::LBrace, Token::LBrace) => true,
        (Token::RBrace, Token::RBrace) => true,
        (Token::Semicolon, Token::Semicolon) => true,
        _ => false,
    }
}

} // verus!
