use vstd::prelude::*;

verus! {

/// The kinds of token the lexer produces.
#[derive(Clone, Copy, Debug, PartialEq, Eq, Structural)]
pub enum TokenType {
    // identifiers and literals
    Identifier,
    IntLiteral,
    BitsLiteral,
    StringLiteral,
    // keywords
    Bits,
    Const,
    Qubits,
    Function,
    Oracle,
    Loads,
    Circuit,
    Register,
    Apply,
    // symbols
    Equals,
    Semicolon,
    Colon,
    Comma,
    Underscore,
    Period,
    Arrow,
    LParen,
    RParen,
    LBrace,
    RBrace,
    LSqBracket,
    RSqBracket,
    // arithmetic symbols
    Caret,
    Ampersand,
    Pipe,
    Star,
    EOF,
}

/// A token together with the text it was read from and where it starts.
#[derive(Debug, Clone)]
pub struct Token {
    pub token_type: TokenType,
    pub lexeme: String,
    pub line: usize,
    pub col: usize,
}

impl Token {
    pub fn new(token_type: TokenType, lexeme: String, line: usize, col: usize) -> (t: Self)
        ensures
            t.token_type == token_type,
            t.lexeme == lexeme,
            t.line == line,
            t.col == col,
    {
        Self { token_type, lexeme, line, col }
    }

    pub fn line(&self) -> (n: usize)
        ensures
            n == self.line,
    {
        self.line
    }

    pub fn col(&self) -> (n: usize)
        ensures
            n == self.col,
    {
        self.col
    }
}

} // verus!
