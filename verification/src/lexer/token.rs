//! Tokens: the kinds, and the text of each kind.

use vstd::prelude::*;
use vstd::string::*;
use crate::text::{signed_decimal, i64_to_string};
use crate::views::clone_string;

verus! {

/// The kind of a token. An integer literal carries its value.
#[derive(Debug, Clone, Copy, PartialEq, Eq, Structural)]
pub enum TokenType {
    // Symbols
    OpenParen,
    CloseParen,
    OpenBrace,
    CloseBrace,
    Semicolon,
    Comma,
    Question,
    Colon,
    Tilde,
    Dash,
    DoubleDash,
    Plus,
    DoublePlus,
    Star,
    Slash,
    Percent,
    Ampersand,
    DoubleAmpersand,
    Pipe,
    DoublePipe,
    Caret,
    Less,
    LessOrEqual,
    DoubleLess,
    Greater,
    GreaterOrEqual,
    DoubleGreater,
    Bang,
    DoubleEqual,
    BangEqual,
    Equal,
    PlusEqual,
    MinusEqual,
    StarEqual,
    SlashEqual,
    PercentEqual,
    AndEqual,
    OrEqual,
    XorEqual,
    LeftShiftEqual,
    RightShiftEqual,
    // Keywords
    Int,
    Void,
    Return,
    If,
    Else,
    Do,
    While,
    For,
    Break,
    Continue,
    // Constants and identifiers
    Integer(i64),
    Identifier,
    EOF,
}

/// A token: its kind, the text it was read from, and its source line.
#[derive(Debug)]
pub struct Token {
    pub token_type: TokenType,
    pub lexeme: String,
    pub line_number: usize,
}

/// The model of a token.
pub struct TokenView {
    pub token_type: TokenType,
    pub lexeme: Seq<char>,
    pub line_number: usize,
}

impl View for Token {
    type V = TokenView;

    open spec fn view(&self) -> TokenView {
        TokenView {
            token_type: self.token_type,
            lexeme: self.lexeme@,
            line_number: self.line_number,
        }
    }
}

impl Token {
    /// A token of the given kind, text and line.
    pub fn new(token_type: TokenType, lexeme: String, line_number: usize) -> (t: Self)
        ensures
            t@ == (TokenView { token_type, lexeme: lexeme@, line_number }),
    {
        Self { token_type, lexeme, line_number }
    }
}

impl Clone for Token {
    fn clone(&self) -> (t: Token)
        ensures
            t@ == self@,
    {
        Token {
            token_type: self.token_type,
            lexeme: clone_string(&self.lexeme),
            line_number: self.line_number,
        }
    }
}

/// The text that stands for a kind of token in a message.
pub open spec fn token_text(t: TokenType) -> Seq<char> {
    match t {
        TokenType::OpenParen => "("@,
        TokenType::CloseParen => ")"@,
        TokenType::OpenBrace => "{"@,
        TokenType::CloseBrace => "}"@,
        TokenType::Semicolon => ";"@,
        TokenType::Comma => ","@,
        TokenType::Question => "?"@,
        TokenType::Colon => ":"@,
        TokenType::Tilde => "~"@,
        TokenType::Dash => "-"@,
        TokenType::DoubleDash => "--"@,
        TokenType::Plus => "+"@,
        TokenType::DoublePlus => "++"@,
        TokenType::Star => "*"@,
        TokenType::Slash => "/"@,
        TokenType::Percent => "%"@,
        TokenType::Ampersand => "&"@,
        TokenType::DoubleAmpersand => "&&"@,
        TokenType::Pipe => "|"@,
        TokenType::DoublePipe => "||"@,
        TokenType::Caret => "^"@,
        TokenType::Less => "<"@,
        TokenType::LessOrEqual => "<="@,
        TokenType::DoubleLess => "<<"@,
        TokenType::Greater => ">"@,
        TokenType::GreaterOrEqual => ">="@,
        TokenType::DoubleGreater => ">>"@,
        TokenType::Bang => "!"@,
        TokenType::DoubleEqual => "=="@,
        TokenType::BangEqual => "!="@,
        TokenType::Equal => "="@,
        TokenType::PlusEqual => "+="@,
        TokenType::MinusEqual => "-="@,
        TokenType::StarEqual => "*="@,
        TokenType::SlashEqual => "/="@,
        TokenType::PercentEqual => "%="@,
        TokenType::AndEqual => "&="@,
        TokenType::OrEqual => "|="@,
        TokenType::XorEqual => "^="@,
        TokenType::LeftShiftEqual => "<<="@,
        TokenType::RightShiftEqual => ">>="@,
        TokenType::Int => "int"@,
        TokenType::Void => "void"@,
        TokenType::Return => "return"@,
        TokenType::If => "if"@,
        TokenType::Else => "else"@,
        TokenType::Do => "do"@,
        TokenType::While => "while"@,
        TokenType::For => "for"@,
        TokenType::Break => "break"@,
        TokenType::Continue => "continue"@,
        TokenType::Integer(i) => signed_decimal(i as int),
        TokenType::Identifier => "identifier"@,
        TokenType::EOF => "EOF"@,
    }
}

impl TokenType {
    /// The text that stands for this kind of token in a message.
    pub fn to_text(&self) -> (s: String)
        ensures
            s@ == token_text(*self),
    {
        match self {
            TokenType::OpenParen => String::from_str("("),
            TokenType::CloseParen => String::from_str(")"),
            TokenType::OpenBrace => String::from_str("{"),
            TokenType::CloseBrace => String::from_str("}"),
            TokenType::Semicolon => String::from_str(";"),
            TokenType::Comma => String::from_str(","),
            TokenType::Question => String::from_str("?"),
            TokenType::Colon => String::from_str(":"),
            TokenType::Tilde => String::from_str("~"),
            TokenType::Dash => String::from_str("-"),
            TokenType::DoubleDash => String::from_str("--"),
            TokenType::Plus => String::from_str("+"),
            TokenType::DoublePlus => String::from_str("++"),
            TokenType::Star => String::from_str("*"),
            TokenType::Slash => String::from_str("/"),
            TokenType::Percent => String::from_str("%"),
            TokenType::Ampersand => String::from_str("&"),
            TokenType::DoubleAmpersand => String::from_str("&&"),
            TokenType::Pipe => String::from_str("|"),
            TokenType::DoublePipe => String::from_str("||"),
            TokenType::Caret => String::from_str("^"),
            TokenType::Less => String::from_str("<"),
            TokenType::LessOrEqual => String::from_str("<="),
            TokenType::DoubleLess => String::from_str("<<"),
            TokenType::Greater => String::from_str(">"),
            TokenType::GreaterOrEqual => String::from_str(">="),
            TokenType::DoubleGreater => String::from_str(">>"),
            TokenType::Bang => String::from_str("!"),
            TokenType::DoubleEqual => String::from_str("=="),
            TokenType::BangEqual => String::from_str("!="),
            TokenType::Equal => String::from_str("="),
            TokenType::PlusEqual => String::from_str("+="),
            TokenType::MinusEqual => String::from_str("-="),
            TokenType::StarEqual => String::from_str("*="),
            TokenType::SlashEqual => String::from_str("/="),
            TokenType::PercentEqual => String::from_str("%="),
            TokenType::AndEqual => String::from_str("&="),
            TokenType::OrEqual => String::from_str("|="),
            TokenType::XorEqual => String::from_str("^="),
            TokenType::LeftShiftEqual => String::from_str("<<="),
            TokenType::RightShiftEqual => String::from_str(">>="),
            TokenType::Int => String::from_str("int"),
            TokenType::Void => String::from_str("void"),
            TokenType::Return => String::from_str("return"),
            TokenType::If => String::from_str("if"),
            TokenType::Else => String::from_str("else"),
            TokenType::Do => String::from_str("do"),
            TokenType::While => String::from_str("while"),
            TokenType::For => String::from_str("for"),
            TokenType::Break => String::from_str("break"),
            TokenType::Continue => String::from_str("continue"),
            TokenType::Integer(i) => i64_to_string(*i),
            TokenType::Identifier => String::from_str("identifier"),
            TokenType::EOF => String::from_str("EOF"),
        }
    }
}

} // verus!
