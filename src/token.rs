//! Tokens: the lexical categories of the language and what the scanner
//! attaches to each matched lexeme.
use crate::number::Number;
use vstd::prelude::*;

verus! {

/// The closed set of lexical categories.
#[allow(non_camel_case_types)]
#[derive(Clone, Copy, Debug, PartialEq, Eq, Structural)]
pub enum TokenType {
    // Single-character tokens.
    LEFT_PAREN,
    RIGHT_PAREN,
    LEFT_BRACE,
    RIGHT_BRACE,
    COMMA,
    DOT,
    MINUS,
    PLUS,
    SEMICOLON,
    SLASH,
    STAR,
    // One or two character tokens.
    BANG,
    BANG_EQUAL,
    EQUAL,
    EQUAL_EQUAL,
    GREATER,
    GREATER_EQUAL,
    LESS,
    LESS_EQUAL,
    // Literals.
    IDENTIFIER,
    STRING,
    NUMBER,
    // Keywords.
    AND,
    CLASS,
    ELSE,
    FALSE,
    FUN,
    FOR,
    IF,
    NIL,
    OR,
    PRINT,
    RETURN,
    SUPER,
    THIS,
    TRUE,
    VAR,
    WHILE,
    EOF,
    // Lexemes that the scanner recognises and then drops.
    COMMENT,
    WHITESPACE,
    NEWLINE,
}

pub open spec fn ignored_kind(k: TokenType) -> bool {
    k == TokenType::COMMENT || k == TokenType::WHITESPACE || k == TokenType::NEWLINE
}

impl TokenType {
    /// Comments, whitespace and newlines are scanned and then left out of
    /// the token sequence.
    pub fn is_ignored(&self) -> (r: bool)
        ensures
            r == ignored_kind(*self),
    {
        match self {
            TokenType::COMMENT | TokenType::WHITESPACE | TokenType::NEWLINE => true,
            _ => false,
        }
    }
}

/// The payload of a literal token, and of a literal expression.
#[derive(Clone, Debug)]
pub enum Literal {
    String(String),
    Number(Number),
    Boolean(bool),
    Nil,
}

/// What a literal holds, in mathematical terms.
pub enum LiteralModel {
    Str(Seq<char>),
    Num(u64),
    Bool(bool),
    Nil,
}

impl View for Literal {
    type V = LiteralModel;

    open spec fn view(&self) -> LiteralModel {
        match self {
            Literal::String(s) => LiteralModel::Str(s@),
            Literal::Number(n) => LiteralModel::Num(n.bits),
            Literal::Boolean(b) => LiteralModel::Bool(*b),
            Literal::Nil => LiteralModel::Nil,
        }
    }
}

pub fn copy_literal(l: &Literal) -> (r: Literal)
    ensures
        r@ == l@,
{
    match l {
        Literal::String(s) => Literal::String(s.clone()),
        Literal::Number(n) => Literal::Number(Number { bits: n.bits }),
        Literal::Boolean(b) => Literal::Boolean(*b),
        Literal::Nil => Literal::Nil,
    }
}

/// A classified lexeme with its source line.
#[derive(Clone, Debug)]
pub struct Token {
    pub token_type: TokenType,
    pub lexeme: String,
    pub literal: Literal,
    pub line: usize,
}

pub struct TokenModel {
    pub kind: TokenType,
    pub lexeme: Seq<char>,
    pub literal: LiteralModel,
    pub line: nat,
}

impl View for Token {
    type V = TokenModel;

    open spec fn view(&self) -> TokenModel {
        TokenModel {
            kind: self.token_type,
            lexeme: self.lexeme@,
            literal: self.literal@,
            line: self.line as nat,
        }
    }
}

impl Token {
    pub fn new(token_type: TokenType, lexeme: &str, literal: Literal, line: usize) -> (r: Token)
        ensures
            r.token_type == token_type,
            r.lexeme@ == lexeme@,
            r.literal@ == literal@,
            r.line == line,
    {
        Token { token_type, lexeme: lexeme.to_owned(), literal, line }
    }

    /// A copy with the same view.
    pub fn duplicate(&self) -> (r: Token)
        ensures
            r@ == self@,
    {
        Token {
            token_type: self.token_type,
            lexeme: self.lexeme.clone(),
            literal: copy_literal(&self.literal),
            line: self.line,
        }
    }
}

/// A lexeme that could not be classified, with the line it ended on.
#[derive(Clone, Debug)]
pub struct ScanError {
    pub line: usize,
    pub message: String,
}

impl ScanError {
    pub fn new(line: usize, message: &str) -> (r: ScanError)
        ensures
            r.line == line,
            r.message@ == message@,
    {
        ScanError { line, message: message.to_owned() }
    }
}

} // verus!
