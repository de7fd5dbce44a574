//! Tokens of the source language, produced by the lexer and consumed by
//! the parser.

use vstd::prelude::*;

verus! {

/// A binary operator as it appears in the token stream.
#[derive(Debug, Clone, Copy, PartialEq, Eq, Structural)]
pub enum Operator {
    Bang,
    EqualEqual,
    BangEqual,
    Greater,
    Less,
    GreaterEqual,
    LessEqual,
    Minus,
    Plus,
    Ampersand,
    Slash,
    Star,
    Caret,
    And,
    Or,
    PlusEqual,
    MinusEqual,
    StarEqual,
    SlashEqual,
}

/// A type annotation of the source language.
#[derive(Debug, Clone, Copy, PartialEq, Eq, Structural)]
pub enum Type {
    Number,
    String,
    Bool,
    Table,
    Void,
}

/// The kind of a token, together with its payload where one exists.
///
/// A numeric literal carries its source text: the compiler emits literals
/// textually, so the numeral is never converted to a machine number.
#[derive(Debug, Clone, PartialEq)]
pub enum TokenType {
    LeftParen,
    RightParen,
    LeftBracket,
    RightBracket,
    LeftBrace,
    RightBrace,
    Comma,
    Dot,
    Semicolon,
    Colon,
    Equal,
    Arrow,
    Operator(Operator),
    Type(Type),
    Ident(String),
    String(String),
    Number(String),
    Bool(bool),
    If,
    Else,
    And,
    Or,
    Break,
    Continue,
    Return,
    Let,
    While,
    For,
    Function,
    Event,
    EOF,
}

/// The name of a token kind, without its payload.
pub open spec fn token_kind_name(t: TokenType) -> Seq<char> {
    match t {
        TokenType::LeftParen => "LeftParen"@,
        TokenType::RightParen => "RightParen"@,
        TokenType::LeftBracket => "LeftBracket"@,
        TokenType::RightBracket => "RightBracket"@,
        TokenType::LeftBrace => "LeftBrace"@,
        TokenType::RightBrace => "RightBrace"@,
        TokenType::Comma => "Comma"@,
        TokenType::Dot => "Dot"@,
        TokenType::Semicolon => "Semicolon"@,
        TokenType::Colon => "Colon"@,
        TokenType::Equal => "Equal"@,
        TokenType::Arrow => "Arrow"@,
        TokenType::Operator(_) => "Operator"@,
        TokenType::Type(_) => "Type"@,
        TokenType::Ident(_) => "Ident"@,
        TokenType::String(_) => "String"@,
        TokenType::Number(_) => "Number"@,
        TokenType::Bool(_) => "Bool"@,
        TokenType::If => "If"@,
        TokenType::Else => "Else"@,
        TokenType::And => "And"@,
        TokenType::Or => "Or"@,
        TokenType::Break => "Break"@,
        TokenType::Continue => "Continue"@,
        TokenType::Return => "Return"@,
        TokenType::Let => "Let"@,
        TokenType::While => "While"@,
        TokenType::For => "For"@,
        TokenType::Function => "Function"@,
        TokenType::Event => "Event"@,
        TokenType::EOF => "EOF"@,
    }
}

/// A token together with the line it was read from.
#[derive(Debug, Clone)]
pub struct Token {
    pub token_type: TokenType,
    pub line: usize,
}

impl Token {
    pub fn new(token_type: TokenType, line: usize) -> (t: Token)
        ensures
            t.token_type == token_type,
            t.line == line,
    {
        Token { token_type, line }
    }

    /// The name of this token's kind, for diagnostics.
    pub fn to_string(&self) -> (r: String)
        ensures
            r@ == token_kind_name(self.token_type),
    {
        match &self.token_type {
            TokenType::LeftParen => String::from_str("LeftParen"),
            TokenType::RightParen => String::from_str("RightParen"),
            TokenType::LeftBracket => String::from_str("LeftBracket"),
            TokenType::RightBracket => String::from_str("RightBracket"),
            TokenType::LeftBrace => String::from_str("LeftBrace"),
            TokenType::RightBrace => String::from_str("RightBrace"),
            TokenType::Comma => String::from_str("Comma"),
            TokenType::Dot => String::from_str("Dot"),
            TokenType::Semicolon => String::from_str("Semicolon"),
            TokenType::Colon => String::from_str("Colon"),
            TokenType::Equal => String::from_str("Equal"),
            TokenType::Arrow => String::from_str("Arrow"),
            TokenType::Operator(_) => String::from_str("Operator"),
            TokenType::Type(_) => String::from_str("Type"),
            TokenType::Ident(_) => String::from_str("Ident"),
            TokenType::String(_) => String::from_str("String"),
            TokenType::Number(_) => String::from_str("Number"),
            TokenType::Bool(_) => String::from_str("Bool"),
            TokenType::If => String::from_str("If"),
            TokenType::Else => String::from_str("Else"),
            TokenType::And => String::from_str("And"),
            TokenType::Or => String::from_str("Or"),
            TokenType::Break => String::from_str("Break"),
            TokenType::Continue => String::from_str("Continue"),
            TokenType::Return => String::from_str("Return"),
            TokenType::Let => String::from_str("Let"),
            TokenType::While => String::from_str("While"),
            TokenType::For => String::from_str("For"),
            TokenType::Function => String::from_str("Function"),
            TokenType::Event => String::from_str("Event"),
            TokenType::EOF => String::from_str("EOF"),
        }
    }
}

} // verus!
