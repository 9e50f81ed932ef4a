use vstd::prelude::*;

verus! {

/// A classified lexical unit of a statement.
///
/// A numeric literal keeps the digit text it was scanned from (digits with at
/// most one interior decimal point); its 64-bit floating-point value is for the
/// consumer to compute.
#[derive(Debug, PartialEq, Clone)]
pub enum Token {
    Select,
    Insert,
    Delete,
    Where,
    From,
    Not,
    As,
    And,
    Or,
    GroupBy,
    Identifier(String),
    StringLiteral(String),
    NumericLiteral(String),
    Equals,
    NotEquals,
    GreaterThan,
    LessThan,
    GreaterThanOrEqual,
    LessThanOrEqual,
    Comma,
    Semicolon,
    LeftParen,
    RightParen,
    Asterisk,
    EndOfInput,
    Illegal(char),
}

/// The mathematical value of a `Token`: texts are character sequences.
pub enum TokenModel {
    Select,
    Insert,
    Delete,
    Where,
    From,
    Not,
    As,
    And,
    Or,
    GroupBy,
    Identifier(Seq<char>),
    StringLiteral(Seq<char>),
    NumericLiteral(Seq<char>),
    Equals,
    NotEquals,
    GreaterThan,
    LessThan,
    GreaterThanOrEqual,
    LessThanOrEqual,
    Comma,
    Semicolon,
    LeftParen,
    RightParen,
    Asterisk,
    EndOfInput,
    Illegal(char),
}

impl View for Token {
    type V = TokenModel;

    open spec fn view(&self) -> TokenModel {
        match self {
            Token::Select => TokenModel::Select,
            Token::Insert => TokenModel::Insert,
            Token::Delete => TokenModel::Delete,
            Token::Where => TokenModel::Where,
            Token::From => TokenModel::From,
            Token::Not => TokenModel::Not,
            Token::As => TokenModel::As,
            Token::And => TokenModel::And,
            Token::Or => TokenModel::Or,
            Token::GroupBy => TokenModel::GroupBy,
            Token::Identifier(s) => TokenModel::Identifier(s@),
            Token::StringLiteral(s) => TokenModel::StringLiteral(s@),
            Token::NumericLiteral(s) => TokenModel::NumericLiteral(s@),
            Token::Equals => TokenModel::Equals,
            Token::NotEquals => TokenModel::NotEquals,
            Token::GreaterThan => TokenModel::GreaterThan,
            Token::LessThan => TokenModel::LessThan,
            Token::GreaterThanOrEqual => TokenModel::GreaterThanOrEqual,
            Token::LessThanOrEqual => TokenModel::LessThanOrEqual,
            Token::Comma => TokenModel::Comma,
            Token::Semicolon => TokenModel::Semicolon,
            Token::LeftParen => TokenModel::LeftParen,
            Token::RightParen => TokenModel::RightParen,
            Token::Asterisk => TokenModel::Asterisk,
            Token::EndOfInput => TokenModel::EndOfInput,
            Token::Illegal(c) => TokenModel::Illegal(*c),
        }
    }
}

/// A fatal error that ends a tokenization pass.
#[derive(Debug, PartialEq, Clone)]
pub enum LexerError {
    UnclosedStringLiteral,
    InvalidNumberFormat(String),
    UnknownEscapeSequence(char),
}

/// The mathematical value of a `LexerError`.
pub enum LexerErrorModel {
    UnclosedStringLiteral,
    InvalidNumberFormat(Seq<char>),
    UnknownEscapeSequence(char),
}

impl View for LexerError {
    type V = LexerErrorModel;

    open spec fn view(&self) -> LexerErrorModel {
        match self {
            LexerError::UnclosedStringLiteral => LexerErrorModel::UnclosedStringLiteral,
            LexerError::InvalidNumberFormat(s) => LexerErrorModel::InvalidNumberFormat(s@),
            LexerError::UnknownEscapeSequence(c) => LexerErrorModel::UnknownEscapeSequence(*c),
        }
    }
}

/// The model of a scan result.
pub open spec fn result_view(r: Result<Token, LexerError>) -> Result<TokenModel, LexerErrorModel> {
    match r {
        Ok(t) => Ok(t@),
        Err(e) => Err(e@),
    }
}

} // verus!
