use vstd::prelude::*;

verus! {

/// The kinds of tokens the evaluator inspects: operator tokens drive
/// unary, binary and logical dispatch; `Identifier` marks names.
#[derive(Clone, Copy, Debug, PartialEq, Eq, Structural)]
pub enum TokenType {
    And,
    Or,
    Bang,
    Minus,
    Plus,
    Slash,
    Star,
    Greater,
    GreaterEqual,
    Less,
    LessEqual,
    BangEqual,
    EqualEqual,
    Identifier,
}

/// A token produced by the parser collaborator: its kind, the source
/// text it covers, and the line it came from (used when reporting
/// runtime faults).
#[derive(Debug, PartialEq)]
pub struct Token {
    pub token_type: TokenType,
    pub lexeme: String,
    pub line: u64,
}

impl Token {
    pub fn new(token_type: TokenType, lexeme: String, line: u64) -> (t: Token)
        ensures
            t.token_type == token_type,
            t.lexeme == lexeme,
            t.line == line,
    {
        Token { token_type, lexeme, line }
    }

    /// A fresh token equal to this one in every field.
    pub fn dup(&self) -> (t: Token)
        ensures
            t.token_type == self.token_type,
            t.lexeme == self.lexeme,
            t.line == self.line,
    {
        Token { token_type: self.token_type, lexeme: self.lexeme.clone(), line: self.line }
    }
}

} // verus!
