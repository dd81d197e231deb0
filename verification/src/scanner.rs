use vstd::prelude::*;

use crate::ast::Diagnostic;
use crate::ast::ErrorKind;
use crate::token::Token;
use crate::token::TokenKind;

verus! {

/// The keyword table: an identifier lexeme that spells a keyword gets that
/// keyword's kind, anything else stays an identifier.
fn keyword_kind(l: &Vec<u8>) -> (r: TokenKind)
    ensures
        r != TokenKind::Eof,
{
    if l.len() == 2 {
        if l[0] == 105 && l[1] == 102 {  // "if"
            return TokenKind::If;
        }
        if l[0] == 111 && l[1] == 114 {  // "or"
            return TokenKind::Or;
        }
    }
    if l.len() == 3 {
        if l[0] == 97 && l[1] == 110 && l[2] == 100 {  // "and"
            return TokenKind::And;
        }
        if l[0] == 102 && l[1] == 111 && l[2] == 114 {  // "for"
            return TokenKind::For;
        }
        if l[0] == 108 && l[1] == 101 && l[2] == 116 {  // "let"
            return TokenKind::Let;
        }
    }
    if l.len() == 4 {
        if l[0] == 101 && l[1] == 108 && l[2] == 115 && l[3] == 101 {  // "else"
            return TokenKind::Else;
        }
        if l[0] == 110 && l[1] == 111 && l[2] == 110 && l[3] == 101 {  // "none"
            return TokenKind::Nil;
        }
        if l[0] == 116 && l[1] == 114 && l[2] == 117 && l[3] == 101 {  // "true"
            return TokenKind::True;
        }
    }
    if l.len() == 5 {
        if l[0] == 102 && l[1] == 97 && l[2] == 108 && l[3] == 115 && l[4] == 101 {  // "false"
            return TokenKind::False;
        }
        if l[0] == 112 && l[1] == 114 && l[2] == 105 && l[3] == 110 && l[4] == 116 {  // "print"
            return TokenKind::Print;
        }
        if l[0] == 119 && l[1] == 104 && l[2] == 105 && l[3] == 108 && l[4] == 101 {  // "while"
            return TokenKind::While;
        }
        if l[0] == 98 && l[1] == 114 && l[2] == 101 && l[3] == 97 && l[4] == 107 {  // "break"
            return TokenKind::Break;
        }
    }
    if l.len() == 6 {
        if l[0] == 114 && l[1] == 101 && l[2] == 116 && l[3] == 117 && l[4] == 114 && l[5] == 110 {  // "return"
            return TokenKind::Return;
        }
        if l[0] == 100 && l[1] == 101 && l[2] == 102 && l[3] == 105 && l[4] == 110 && l[5] == 101 {  // "define"
            return TokenKind::Define;
        }
        if l[0] == 108 && l[1] == 97 && l[2] == 109 && l[3] == 98 && l[4] == 100 && l[5] == 97 {  // "lambda"
            return TokenKind::Lambda;
        }
    }
    TokenKind::Identifier
}

/// The character-level pass: source bytes in, a token stream out. Every token
/// gets an identity `start_id + position`, unique across a session as long as
/// each scan starts where the previous one's identities ended.
pub struct Scanner {
    pub input: Vec<u8>,
    pub pos: usize,
    pub token_list: Vec<Token>,
    pub line: i32,
    pub start_id: u64,
}

impl Scanner {
    /// The scanner's working invariant: the cursor is inside the input, fewer
    /// tokens exist than bytes consumed, identities are consecutive from
    /// `start_id`, and the end-of-input marker is not yet among the tokens.
    pub open spec fn wf(self) -> bool {
        &&& self.input@.len() <= usize::MAX
        &&& self.pos <= self.input@.len()
        &&& self.token_list@.len() <= self.pos
        &&& self.start_id + self.input@.len() + 1 <= u64::MAX
        &&& forall|i: int|
            0 <= i < self.token_list@.len() ==> (#[trigger] self.token_list@[i]).id
                == self.start_id + i
        &&& forall|i: int|
            0 <= i < self.token_list@.len() ==> (#[trigger] self.token_list@[i]).kind
                != TokenKind::Eof
    }

    pub fn new(input: Vec<u8>, start_id: u64) -> (r: Scanner)
        requires
            start_id + input@.len() + 1 <= u64::MAX,
        ensures
            r.wf(),
            r.pos == 0,
            r.input == input,
            r.start_id == start_id,
            r.token_list@.len() == 0,
    {
        let n = input.len();
        assert(input@.len() == n);
        Scanner { input, pos: 0, token_list: Vec::new(), line: 1, start_id }
    }

    fn handle_error(&self, kind: ErrorKind) -> (r: Diagnostic)
        ensures
            r == (Diagnostic { kind, line: self.line }),
    {
        Diagnostic { kind, line: self.line }
    }

    /// Append one token; its identity is the next in sequence.
    fn add_token(&mut self, kind: TokenKind, lexeme: Vec<u8>)
        requires
            old(self).wf(),
            old(self).token_list@.len() < old(self).pos,
            kind != TokenKind::Eof,
        ensures
            final(self).wf(),
            final(self).pos == old(self).pos,
            final(self).input == old(self).input,
            final(self).line == old(self).line,
            final(self).start_id == old(self).start_id,
            final(self).token_list@.len() == old(self).token_list@.len() + 1,
    {
        let id = self.start_id + (self.token_list.len() as u64);
        self.token_list.push(Token { kind, lexeme, line: self.line, id });
    }

    /// The byte under the cursor, if any, without consuming it.
    fn peak(&self) -> (r: Option<u8>)
        requires
            self.wf(),
        ensures
            r == if self.pos < self.input@.len() {
                Some(self.input@[self.pos as int])
            } else {
                None::<u8>
            },
    {
        if self.pos < self.input.len() {
            Some(self.input[self.pos])
        } else {
            None
        }
    }

    /// A number: the initial digit, then digits and dots.
    fn handle_digits(&mut self, initial: u8)
        requires
            old(self).wf(),
            old(self).token_list@.len() < old(self).pos,
        ensures
            final(self).wf(),
            final(self).pos >= old(self).pos,
            final(self).input == old(self).input,
            final(self).start_id == old(self).start_id,
            final(self).token_list@.len() <= final(self).pos,
    {
        let mut lexeme: Vec<u8> = Vec::new();
        lexeme.push(initial);
        loop
            invariant
                self.wf(),
                self.pos >= old(self).pos,
                self.token_list@.len() < self.pos,
                self.input == old(self).input,
                self.start_id == old(self).start_id,
                self.line == old(self).line,
            decreases self.input@.len() - self.pos,
        {
            match self.peak() {
                Some(c) => {
                    if (c >= 48 && c <= 57) || c == 46 {
                        lexeme.push(c);
                        self.pos += 1;
                    } else {
                        break;
                    }
                },
                None => {
                    break;
                },
            }
        }
        self.add_token(TokenKind::Number, lexeme);
    }

    /// A string literal: everything to the closing quote, which must exist.
    fn handle_strings(&mut self) -> (r: Result<(), Diagnostic>)
        requires
            old(self).wf(),
            old(self).token_list@.len() < old(self).pos,
        ensures
            final(self).wf(),
            final(self).pos >= old(self).pos,
            final(self).input == old(self).input,
            final(self).start_id == old(self).start_id,
    {
        let mut content: Vec<u8> = Vec::new();
        loop
            invariant
                self.wf(),
                self.pos >= old(self).pos,
                self.token_list@.len() < self.pos,
                self.input == old(self).input,
                self.start_id == old(self).start_id,
            decreases self.input@.len() - self.pos,
        {
            match self.peak() {
                Some(c) => {
                    if c != 34 {  // '"'
                        if c == 10 && self.line < i32::MAX {  // newline
                            self.line = self.line + 1;
                        }
                        content.push(c);
                        self.pos += 1;
                    } else {
                        self.pos += 1;
                        self.add_token(TokenKind::Str, content);
                        return Ok(());
                    }
                },
                None => {
                    return Err(self.handle_error(ErrorKind::ScanError));
                },
            }
        }
    }

    /// An identifier or keyword: letters, digits and underscores.
    fn handle_identifier(&mut self, initial: u8)
        requires
            old(self).wf(),
            old(self).token_list@.len() < old(self).pos,
        ensures
            final(self).wf(),
            final(self).pos >= old(self).pos,
            final(self).input == old(self).input,
            final(self).start_id == old(self).start_id,
    {
        let mut lexeme: Vec<u8> = Vec::new();
        lexeme.push(initial);
        loop
            invariant
                self.wf(),
                self.pos >= old(self).pos,
                self.token_list@.len() < self.pos,
                self.input == old(self).input,
                self.start_id == old(self).start_id,
                self.line == old(self).line,
            decreases self.input@.len() - self.pos,
        {
            match self.peak() {
                Some(c) => {
                    if (c >= 97 && c <= 122) || (c >= 65 && c <= 90) || (c >= 48 && c <= 57) || c
                        == 95 {
                        lexeme.push(c);
                        self.pos += 1;
                    } else {
                        break;
                    }
                },
                None => {
                    break;
                },
            }
        }
        let kind = keyword_kind(&lexeme);
        self.add_token(kind, lexeme);
    }

    /// A comment: skip to the end of the line.
    fn handle_comment(&mut self)
        requires
            old(self).wf(),
        ensures
            final(self).wf(),
            final(self).pos >= old(self).pos,
            final(self).input == old(self).input,
            final(self).start_id == old(self).start_id,
            final(self).token_list == old(self).token_list,
    {
        loop
            invariant
                self.wf(),
                self.pos >= old(self).pos,
                self.input == old(self).input,
                self.start_id == old(self).start_id,
                self.token_list == old(self).token_list,
            decreases self.input@.len() - self.pos,
        {
            match self.peak() {
                Some(c) => {
                    self.pos += 1;
                    if c == 10 {
                        if self.line < i32::MAX {
                            self.line = self.line + 1;
                        }
                        break;
                    }
                },
                None => {
                    break;
                },
            }
        }
    }

    /// A one- or two-byte operator: `=`-suffixed or plain.
    fn handle_equal(&mut self, nonequal: TokenKind, equal: TokenKind, base: u8)
        requires
            old(self).wf(),
            old(self).token_list@.len() < old(self).pos,
            nonequal != TokenKind::Eof,
            equal != TokenKind::Eof,
        ensures
            final(self).wf(),
            final(self).pos >= old(self).pos,
            final(self).input == old(self).input,
            final(self).start_id == old(self).start_id,
    {
        let mut lexeme: Vec<u8> = Vec::new();
        lexeme.push(base);
        match self.peak() {
            Some(c) => {
                if c == 61 {  // '='
                    self.pos += 1;
                    lexeme.push(61);
                    self.add_token(equal, lexeme);
                } else {
                    self.add_token(nonequal, lexeme);
                }
            },
            None => {
                self.add_token(nonequal, lexeme);
            },
        }
    }

    /// The main loop: one token (or skipped run) per step, then the
    /// end-of-input marker.
    pub fn convert(&mut self) -> (r: Result<(), Diagnostic>)
        requires
            old(self).wf(),
            old(self).pos == 0,
            old(self).token_list@.len() == 0,
        ensures
            final(self).input == old(self).input,
            final(self).start_id == old(self).start_id,
            r matches Ok(()) ==> final(self).scan_done(),
            old(self).input@.len() == 0 ==> r matches Ok(()),
    {
        loop
            invariant
                self.wf(),
                self.input == old(self).input,
                self.start_id == old(self).start_id,
            decreases self.input@.len() - self.pos,
        {
            if self.pos >= self.input.len() {
                break;
            }
            let c = self.input[self.pos];
            self.pos += 1;
            if c == 43 {  // '+'
                let mut l: Vec<u8> = Vec::new();
                l.push(c);
                self.add_token(TokenKind::Plus, l);
            } else if c == 45 {  // '-'
                let mut l: Vec<u8> = Vec::new();
                l.push(c);
                self.add_token(TokenKind::Minus, l);
            } else if c == 42 {  // '*'
                let mut l: Vec<u8> = Vec::new();
                l.push(c);
                self.add_token(TokenKind::Star, l);
            } else if c == 47 {  // '/'
                let mut l: Vec<u8> = Vec::new();
                l.push(c);
                self.add_token(TokenKind::Slash, l);
            } else if c == 37 {  // '%'
                let mut l: Vec<u8> = Vec::new();
                l.push(c);
                self.add_token(TokenKind::Percent, l);
            } else if c == 59 {  // ';'
                let mut l: Vec<u8> = Vec::new();
                l.push(c);
                self.add_token(TokenKind::Semicolon, l);
            } else if c == 44 {  // ','
                let mut l: Vec<u8> = Vec::new();
                l.push(c);
                self.add_token(TokenKind::Comma, l);
            } else if c == 46 {  // '.'
                let mut l: Vec<u8> = Vec::new();
                l.push(c);
                self.add_token(TokenKind::Dot, l);
            } else if c == 123 {  // left brace
                let mut l: Vec<u8> = Vec::new();
                l.push(c);
                self.add_token(TokenKind::LeftBrace, l);
            } else if c == 125 {  // right brace
                let mut l: Vec<u8> = Vec::new();
                l.push(c);
                self.add_token(TokenKind::RightBrace, l);
            } else if c == 40 {  // '('
                let mut l: Vec<u8> = Vec::new();
                l.push(c);
                self.add_token(TokenKind::LeftParen, l);
            } else if c == 41 {  // ')'
                let mut l: Vec<u8> = Vec::new();
                l.push(c);
                self.add_token(TokenKind::RightParen, l);
            } else if c == 91 {  // '['
                let mut l: Vec<u8> = Vec::new();
                l.push(c);
                self.add_token(TokenKind::LeftSquare, l);
            } else if c == 93 {  // ']'
                let mut l: Vec<u8> = Vec::new();
                l.push(c);
                self.add_token(TokenKind::RightSquare, l);
            } else if c == 35 {  // '#': comment to end of line
                self.handle_comment();
            } else if c == 32 || c == 13 || c == 9 {  // blank, CR, tab
            } else if c == 10 {  // newline
                if self.line < i32::MAX {
                    self.line = self.line + 1;
                }
            } else if c == 61 {  // '='
                self.handle_equal(TokenKind::Equal, TokenKind::EqualEqual, c);
            } else if c == 33 {  // '!'
                self.handle_equal(TokenKind::Bang, TokenKind::BangEqual, c);
            } else if c == 62 {  // '>'
                self.handle_equal(TokenKind::Greater, TokenKind::GreaterEqual, c);
            } else if c == 60 {  // '<'
                self.handle_equal(TokenKind::Less, TokenKind::LessEqual, c);
            } else if c == 34 {  // '"'
                match self.handle_strings() {
                    Ok(()) => {},
                    Err(d) => {
                        return Err(d);
                    },
                }
            } else if c >= 48 && c <= 57 {  // digit
                self.handle_digits(c);
            } else if (c >= 97 && c <= 122) || (c >= 65 && c <= 90) || c == 95 {  // letter, '_'
                self.handle_identifier(c);
            } else {
                return Err(self.handle_error(ErrorKind::ScanError));
            }
        }
        let id = self.start_id + (self.token_list.len() as u64);
        self.token_list.push(Token { kind: TokenKind::Eof, lexeme: Vec::new(), line: self.line, id });
        Ok(())
    }

    /// The shape of a finished token stream: nonempty, the end-of-input marker
    /// exactly at the end, and consecutive identities from `start_id`.
    pub open spec fn scan_done(self) -> bool {
        &&& self.token_list@.len() >= 1
        &&& self.token_list@.len() <= self.input@.len() + 1
        &&& forall|i: int|
            0 <= i < self.token_list@.len() ==> ((#[trigger] self.token_list@[i]).kind
                == TokenKind::Eof <==> i == self.token_list@.len() - 1)
        &&& forall|i: int|
            0 <= i < self.token_list@.len() ==> (#[trigger] self.token_list@[i]).id == self.start_id
                + i
        &&& self.start_id + self.token_list@.len() <= u64::MAX
    }

    /// Hand the finished token stream out.
    pub fn output(self) -> (r: Vec<Token>)
        ensures
            r == self.token_list,
    {
        self.token_list
    }
}

/// The shape `scan` guarantees of a token stream: nonempty, the end-of-input
/// marker exactly at the end, consecutive identities from `start_id`, and no
/// more tokens than bytes plus the marker.
pub open spec fn tokens_wf(tokens: Seq<Token>, start_id: u64, max_len: int) -> bool {
    &&& tokens.len() >= 1
    &&& tokens.len() <= max_len + 1
    &&& forall|i: int|
        0 <= i < tokens.len() ==> ((#[trigger] tokens[i]).kind == TokenKind::Eof <==> i
            == tokens.len() - 1)
    &&& forall|i: int| 0 <= i < tokens.len() ==> (#[trigger] tokens[i]).id == start_id + i
    &&& start_id + tokens.len() <= u64::MAX
}

/// Scan a whole source text into tokens.
pub fn scan(contents: &Vec<u8>, start_id: u64) -> (r: Result<Vec<Token>, Diagnostic>)
    requires
        start_id + contents@.len() + 1 <= u64::MAX,
    ensures
        r matches Ok(tokens) ==> tokens_wf(tokens@, start_id, contents@.len() as int),
        contents@.len() == 0 ==> r matches Ok(_),
{
    let input = crate::support::copy_vec(contents);
    let mut sc = Scanner::new(input, start_id);
    match sc.convert() {
        Ok(()) => {
            let tokens = sc.output();
            assert(tokens_wf(tokens@, start_id, contents@.len() as int));
            Ok(tokens)
        },
        Err(d) => Err(d),
    }
}

} // verus!
