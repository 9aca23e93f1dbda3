//! Tokens and lexical errors.
//!
//! [`Token`] is the classified unit the scanner produces: one variant per
//! punctuation or operator symbol, one per reserved word, and the three
//! payload-carrying classes (identifier, quoted string, number).
//! [`TokenView`] is its mathematical image, with sequences of characters
//! for the strings and an unbounded integer for the number; the contracts
//! of the scanner speak of views.

use vstd::prelude::*;

verus! {

/// A classified lexeme. Numeric literals are restricted to non-negative
/// integer digit runs, so the number's payload is the integer read.
#[derive(Debug, Clone, PartialEq)]
pub enum Token {
    Ident(String),
    QuotedString(String),
    Float(i64),
    LeftBracket,
    RightBracket,
    Comma,
    Colon,
    SemiColon,
    LeftParenthesis,
    RightParenthesis,
    LeftArray,
    RightArray,
    Plus,
    Minus,
    Multiply,
    Divide,
    Power,
    Rand,
    Min,
    Max,
    Sin,
    Cos,
    Equal,
    Dollar,
}

/// The mathematical image of a [`Token`]: its payloads as a sequence of
/// characters or an unbounded integer.
#[verifier::ext_equal]
pub enum TokenView {
    Ident(Seq<char>),
    QuotedString(Seq<char>),
    Float(int),
    LeftBracket,
    RightBracket,
    Comma,
    Colon,
    SemiColon,
    LeftParenthesis,
    RightParenthesis,
    LeftArray,
    RightArray,
    Plus,
    Minus,
    Multiply,
    Divide,
    Power,
    Rand,
    Min,
    Max,
    Sin,
    Cos,
    Equal,
    Dollar,
}

impl View for Token {
    type V = TokenView;

    open spec fn view(&self) -> TokenView {
        match self {
            Token::Ident(s) => TokenView::Ident(s@),
            Token::QuotedString(s) => TokenView::QuotedString(s@),
            Token::Float(n) => TokenView::Float(*n as int),
            Token::LeftBracket => TokenView::LeftBracket,
            Token::RightBracket => TokenView::RightBracket,
            Token::Comma => TokenView::Comma,
            Token::Colon => TokenView::Colon,
            Token::SemiColon => TokenView::SemiColon,
            Token::LeftParenthesis => TokenView::LeftParenthesis,
            Token::RightParenthesis => TokenView::RightParenthesis,
            Token::LeftArray => TokenView::LeftArray,
            Token::RightArray => TokenView::RightArray,
            Token::Plus => TokenView::Plus,
            Token::Minus => TokenView::Minus,
            Token::Multiply => TokenView::Multiply,
            Token::Divide => TokenView::Divide,
            Token::Power => TokenView::Power,
            Token::Rand => TokenView::Rand,
            Token::Min => TokenView::Min,
            Token::Max => TokenView::Max,
            Token::Sin => TokenView::Sin,
            Token::Cos => TokenView::Cos,
            Token::Equal => TokenView::Equal,
            Token::Dollar => TokenView::Dollar,
        }
    }
}

/// The closed taxonomy of lexical errors. An unrecognized character is
/// recoverable, scanning continues past it; an unterminated quoted string
/// consumes the rest of the input; an invalid number is a digit run that
/// is not a plain decimal integer in range.
#[derive(Debug, Clone, Copy, PartialEq, Eq, Structural)]
pub enum LexError {
    UnrecognizedCharacter(char),
    UnterminatedString,
    InvalidNumber,
}

} // verus!
