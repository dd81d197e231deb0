use vstd::prelude::*;

verus! {

/// The kind tag of a scanned token.
#[derive(PartialEq, Eq, Structural, Debug, Clone, Copy)]
pub enum TokenKind {
    LeftParen,
    RightParen,
    LeftBrace,
    RightBrace,
    LeftSquare,
    RightSquare,
    Comma,
    Dot,
    Minus,
    Plus,
    Percent,
    Semicolon,
    Slash,
    Star,
    Define,
    Bang,
    BangEqual,
    Equal,
    EqualEqual,
    Greater,
    GreaterEqual,
    Less,
    LessEqual,
    And,
    Else,
    False,
    For,
    If,
    Nil,
    Or,
    Break,
    Print,
    Return,
    True,
    Let,
    While,
    Number,
    Identifier,
    Str,
    Lambda,
    Eof,
}

/// One token of source text: a kind tag, the literal bytes of the lexeme, the
/// source line it starts on, and an identity `id` unique across a session, so
/// that two references with the same spelling at different sites can be told
/// apart by the resolver's side-table.
#[derive(Debug)]
pub struct Token {
    pub kind: TokenKind,
    pub lexeme: Vec<u8>,
    pub line: i32,
    pub id: u64,
}

impl Clone for Token {
    fn clone(&self) -> (r: Self)
        ensures
            r.kind == self.kind,
            r.lexeme@ == self.lexeme@,
            r.line == self.line,
            r.id == self.id,
    {
        Token {
            kind: self.kind,
            lexeme: crate::support::copy_vec(&self.lexeme),
            line: self.line,
            id: self.id,
        }
    }
}

} // verus!
