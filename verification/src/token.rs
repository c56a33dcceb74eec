//! The lexical tokens of the language, together with their mathematical model.

use vstd::prelude::*;

verus! {

/// The smallest lexical unit of a script.
///
/// Literal payloads are a 32-bit signed integer, a text string or a boolean.
/// The single-letter keywords of the surface syntax are `v` (declare), `w`
/// (while), `i` (if), `f` (function), `p` (print) and `r` (return; reserved
/// but never used by the grammar). Characters that match no rule become
/// [`Token::Unknown`], and every token stream ends with [`Token::EndOfFile`].
#[derive(Debug, PartialEq)]
pub enum Token {
    Number(i32),
    String(String),
    Boolean(bool),
    Identifier(String),
    V,
    W,
    I,
    F,
    Print,
    Equals,
    Comma,
    EqualEqual,
    Bang,
    NotEqual,
    LessThan,
    GreaterThan,
    LessThanEquals,
    GreaterThanEquals,
    And,
    Or,
    Plus,
    Minus,
    Asterisk,
    Slash,
    Percent,
    LeftParen,
    RightParen,
    LeftBrace,
    RightBrace,
    Return,
    EndOfFile,
    Unknown,
}

/// The model of a [`Token`]: the same tags, with mathematical payloads
/// (`int` for the number, `Seq<char>` for the texts).
pub ghost enum Tok {
    Number(int),
    StrLit(Seq<char>),
    Boolean(bool),
    Identifier(Seq<char>),
    V,
    W,
    I,
    F,
    Print,
    Equals,
    Comma,
    EqualEqual,
    Bang,
    NotEqual,
    LessThan,
    GreaterThan,
    LessThanEquals,
    GreaterThanEquals,
    And,
    Or,
    Plus,
    Minus,
    Asterisk,
    Slash,
    Percent,
    LeftParen,
    RightParen,
    LeftBrace,
    RightBrace,
    Return,
    EndOfFile,
    Unknown,
}

impl View for Token {
    type V = Tok;

    open spec fn view(&self) -> Tok {
        match self {
            Token::Number(n) => Tok::Number(*n as int),
            Token::String(s) => Tok::StrLit(s@),
            Token::Boolean(b) => Tok::Boolean(*b),
            Token::Identifier(s) => Tok::Identifier(s@),
            Token::V => Tok::V,
            Token::W => Tok::W,
            Token::I => Tok::I,
            Token::F => Tok::F,
            Token::Print => Tok::Print,
            Token::Equals => Tok::Equals,
            Token::Comma => Tok::Comma,
            Token::EqualEqual => Tok::EqualEqual,
            Token::Bang => Tok::Bang,
            Token::NotEqual => Tok::NotEqual,
            Token::LessThan => Tok::LessThan,
            Token::GreaterThan => Tok::GreaterThan,
            Token::LessThanEquals => Tok::LessThanEquals,
            Token::GreaterThanEquals => Tok::GreaterThanEquals,
            Token::And => Tok::And,
            Token::Or => Tok::Or,
            Token::Plus => Tok::Plus,
            Token::Minus => Tok::Minus,
            Token::Asterisk => Tok::Asterisk,
            Token::Slash => Tok::Slash,
            Token::Percent => Tok::Percent,
            Token::LeftParen => Tok::LeftParen,
            Token::RightParen => Tok::RightParen,
            Token::LeftBrace => Tok::LeftBrace,
            Token::RightBrace => Tok::RightBrace,
            Token::Return => Tok::Return,
            Token::EndOfFile => Tok::EndOfFile,
            Token::Unknown => Tok::Unknown,
        }
    }
}

impl DeepView for Token {
    type V = Tok;

    open spec fn deep_view(&self) -> Tok {
        self.view()
    }
}

impl Clone for Token {
    /// The copy carries the same model as the original.
    fn clone(&self) -> (res: Self)
        ensures
            res@ == self@,
    {
        match self {
            Token::Number(n) => Token::Number(*n),
            Token::String(s) => Token::String(s.clone()),
            Token::Boolean(b) => Token::Boolean(*b),
            Token::Identifier(s) => Token::Identifier(s.clone()),
            Token::V => Token::V,
            Token::W => Token::W,
            Token::I => Token::I,
            Token::F => Token::F,
            Token::Print => Token::Print,
            Token::Equals => Token::Equals,
            Token::Comma => Token::Comma,
            Token::EqualEqual => Token::EqualEqual,
            Token::Bang => Token::Bang,
            Token::NotEqual => Token::NotEqual,
            Token::LessThan => Token::LessThan,
            Token::GreaterThan => Token::GreaterThan,
            Token::LessThanEquals => Token::LessThanEquals,
            Token::GreaterThanEquals => Token::GreaterThanEquals,
            Token::And => Token::And,
            Token::Or => Token::Or,
            Token::Plus => Token::Plus,
            Token::Minus => Token::Minus,
            Token::Asterisk => Token::Asterisk,
            Token::Slash => Token::Slash,
            Token::Percent => Token::Percent,
            Token::LeftParen => Token::LeftParen,
            Token::RightParen => Token::RightParen,
            Token::LeftBrace => Token::LeftBrace,
            Token::RightBrace => Token::RightBrace,
            Token::Return => Token::Return,
            Token::EndOfFile => Token::EndOfFile,
            Token::Unknown => Token::Unknown,
        }
    }
}

} // verus!
