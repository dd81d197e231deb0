use vstd::prelude::*;

use crate::ast::Diagnostic;
use crate::ast::ErrorKind;
use crate::ast::Expression;
use crate::ast::Lit;
use crate::ast::Statement;
use crate::token::Token;
use crate::token::TokenKind;

verus! {

/// Digits-only text to a 128-bit integer; `None` on a non-digit or overflow.
fn atoi(bytes: &Vec<u8>) -> Option<i128> {
    if bytes.len() == 0 {
        return None;
    }
    let mut acc: i128 = 0;
    let n = bytes.len();
    let mut i: usize = 0;
    while i < n
        invariant
            n == bytes@.len(),
            i <= n,
        decreases n - i,
    {
        let c = bytes[i];
        if c < 48 || c > 57 {
            return None;
        }
        let d = (c - 48) as i128;
        acc = match acc.checked_mul(10) {
            Some(v) => v,
            None => {
                return None;
            },
        };
        acc = match acc.checked_add(d) {
            Some(v) => v,
            None => {
                return None;
            },
        };
        i += 1;
    }
    Some(acc)
}

/// Is this lexeme a well-formed decimal literal: digits with at most one dot?
fn float_shape_ok(bytes: &Vec<u8>) -> bool {
    let n = bytes.len();
    if n == 0 {
        return false;
    }
    let mut dots: u32 = 0;
    let mut digits: u32 = 0;
    let mut i: usize = 0;
    while i < n
        invariant
            n == bytes@.len(),
            i <= n,
        decreases n - i,
    {
        let c = bytes[i];
        if c == 46 {
            if dots == u32::MAX {
                return false;
            }
            dots += 1;
        } else if c >= 48 && c <= 57 {
            if digits < u32::MAX {
                digits += 1;
            }
        } else {
            return false;
        }
        i += 1;
    }
    dots <= 1 && digits >= 1
}

/// The recursive-descent pass: a token stream in, a statement tree out. The
/// cursor only moves forward, never past the end-of-input marker, so every
/// grammar rule either consumes something or hands the problem to a smaller
/// rule — which is exactly the argument that parsing terminates.
pub struct Parser {
    pub tokens_list: Vec<Token>,
    pub curr_index: usize,
}

impl Parser {
    /// The stream shape `scan` produces, plus a cursor inside it.
    pub open spec fn wf(self) -> bool {
        &&& self.tokens_list@.len() >= 1
        &&& self.tokens_list@.len() <= usize::MAX
        &&& forall|i: int|
            0 <= i < self.tokens_list@.len() ==> ((#[trigger] self.tokens_list@[i]).kind
                == TokenKind::Eof <==> i == self.tokens_list@.len() - 1)
        &&& self.curr_index < self.tokens_list@.len()
    }

    /// Tokens not yet consumed: the parser's termination measure.
    pub open spec fn rem(self) -> int {
        self.tokens_list@.len() - self.curr_index
    }

    pub fn new(tokens_list: Vec<Token>) -> (r: Parser)
        requires
            tokens_list@.len() >= 1,
            forall|i: int|
                0 <= i < tokens_list@.len() ==> ((#[trigger] tokens_list@[i]).kind == TokenKind::Eof
                    <==> i == tokens_list@.len() - 1),
        ensures
            r.wf(),
            r.curr_index == 0,
            r.tokens_list == tokens_list,
    {
        let n = tokens_list.len();
        assert(tokens_list@.len() == n);
        Parser { tokens_list, curr_index: 0 }
    }

    fn atEnd(&self) -> (r: bool)
        requires
            self.wf(),
        ensures
            r == (self.curr_index == self.tokens_list@.len() - 1),
    {
        self.tokens_list[self.curr_index].kind == TokenKind::Eof
    }

    fn check(&self, kind: TokenKind) -> (r: bool)
        requires
            self.wf(),
        ensures
            r == (self.curr_index < self.tokens_list@.len() - 1
                && self.tokens_list@[self.curr_index as int].kind == kind),
    {
        if self.atEnd() {
            return false;
        }
        self.tokens_list[self.curr_index].kind == kind
    }

    fn handle_error(&self) -> (r: Diagnostic)
        requires
            self.wf(),
        ensures
            r.kind == ErrorKind::ParseError,
    {
        Diagnostic { kind: ErrorKind::ParseError, line: self.tokens_list[self.curr_index].line }
    }

    /// Parse a whole program: declarations until the end of input. On success
    /// the whole stream was consumed, and a stream that is already at its end
    /// marker parses to the empty program.
    pub fn parse(&mut self) -> (r: Result<Vec<Statement>, Diagnostic>)
        requires
            old(self).wf(),
        ensures
            final(self).wf(),
            r matches Ok(_) ==> final(self).curr_index == final(self).tokens_list@.len() - 1,
            old(self).curr_index == old(self).tokens_list@.len() - 1 ==> (r matches Ok(s)
                && s@.len() == 0),
    {
        let mut statement_list: Vec<Statement> = Vec::new();
        loop
            invariant
                self.wf(),
                self.tokens_list == old(self).tokens_list,
                self.curr_index >= old(self).curr_index,
                statement_list@.len() > 0 ==> self.curr_index > old(self).curr_index,
            ensures
                self.curr_index == self.tokens_list@.len() - 1,
            decreases self.rem(),
        {
            if self.atEnd() {
                break;
            }
            match self.declaration() {
                Ok(dec) => {
                    statement_list.push(dec);
                },
                Err(d) => {
                    return Err(d);
                },
            }
            if self.atEnd() {
                break;
            }
        }
        Ok(statement_list)
    }

    #[verifier::loop_isolation(false)]
    fn declaration(&mut self) -> (r: Result<Statement, Diagnostic>)
        requires
            old(self).wf(),
            old(self).curr_index < old(self).tokens_list@.len() - 1,
        ensures
            final(self).wf(),
            final(self).tokens_list == old(self).tokens_list,
            final(self).curr_index >= old(self).curr_index,
            r matches Ok(_) ==> final(self).curr_index > old(self).curr_index,
        decreases old(self).rem(), 18int,
    {
        let kind = self.tokens_list[self.curr_index].kind;
        if kind == TokenKind::Let {
            self.curr_index += 1;
            return self.varDeclaration();
        }
        if kind == TokenKind::Define {
            self.curr_index += 1;
            return self.function();
        }
        self.statement()
    }

    #[verifier::loop_isolation(false)]
    fn varDeclaration(&mut self) -> (r: Result<Statement, Diagnostic>)
        requires
            old(self).wf(),
        ensures
            final(self).wf(),
            final(self).tokens_list == old(self).tokens_list,
            final(self).curr_index >= old(self).curr_index,
        decreases old(self).rem(), 17int,
    {
        if !self.check(TokenKind::Identifier) {
            return Err(self.handle_error());
        }
        let token = self.tokens_list[self.curr_index].clone();
        self.curr_index += 1;
        if self.check(TokenKind::Equal) {
            self.curr_index += 1;
            let expr = match self.expression() {
                Ok(e) => e,
                Err(d) => {
                    return Err(d);
                },
            };
            if self.check(TokenKind::Semicolon) {
                self.curr_index += 1;
                return Ok(Statement::Var(token, expr));
            }
            return Err(self.handle_error());
        }
        if self.check(TokenKind::Semicolon) {
            self.curr_index += 1;
            return Ok(Statement::Var(token, Expression::Literal(Lit::Nil)));
        }
        Err(self.handle_error())
    }

    #[verifier::loop_isolation(false)]
    fn function(&mut self) -> (r: Result<Statement, Diagnostic>)
        requires
            old(self).wf(),
        ensures
            final(self).wf(),
            final(self).tokens_list == old(self).tokens_list,
            final(self).curr_index >= old(self).curr_index,
        decreases old(self).rem(), 17int,
    {
        if !self.check(TokenKind::Identifier) {
            return Err(self.handle_error());
        }
        let name = self.tokens_list[self.curr_index].clone();
        self.curr_index += 1;
        if !self.check(TokenKind::LeftParen) {
            return Err(self.handle_error());
        }
        self.curr_index += 1;
        let mut args_list: Vec<Token> = Vec::new();
        if !self.check(TokenKind::RightParen) {
            loop
                invariant
                    self.wf(),
                    self.tokens_list == old(self).tokens_list,
                    self.curr_index > old(self).curr_index,
                decreases self.rem(),
            {
                if !self.check(TokenKind::Identifier) {
                    return Err(self.handle_error());
                }
                args_list.push(self.tokens_list[self.curr_index].clone());
                self.curr_index += 1;
                if !self.check(TokenKind::Comma) {
                    break;
                }
                self.curr_index += 1;
            }
        }
        if self.check(TokenKind::RightParen) {
            if args_list.len() > 255 {
                return Err(self.handle_error());
            }
            self.curr_index += 1;
        } else {
            return Err(self.handle_error());
        }
        if !self.check(TokenKind::LeftBrace) {
            return Err(self.handle_error());
        }
        self.curr_index += 1;
        let body = match self.block() {
            Ok(Statement::Block(statements)) => statements,
            Ok(_) => {
                return Err(self.handle_error());
            },
            Err(d) => {
                return Err(d);
            },
        };
        Ok(Statement::Function(name, args_list, body))
    }

    #[verifier::loop_isolation(false)]
    fn statement(&mut self) -> (r: Result<Statement, Diagnostic>)
        requires
            old(self).wf(),
            old(self).curr_index < old(self).tokens_list@.len() - 1,
        ensures
            final(self).wf(),
            final(self).tokens_list == old(self).tokens_list,
            final(self).curr_index >= old(self).curr_index,
            r matches Ok(_) ==> final(self).curr_index > old(self).curr_index,
        decreases old(self).rem(), 16int,
    {
        let current = self.tokens_list[self.curr_index].clone();
        if current.kind == TokenKind::For {
            self.curr_index += 1;
            return self.forStatement();
        }
        if current.kind == TokenKind::If {
            self.curr_index += 1;
            return self.ifStatement();
        }
        if current.kind == TokenKind::Print {
            self.curr_index += 1;
            return self.printStatement();
        }
        if current.kind == TokenKind::Return {
            self.curr_index += 1;
            return self.returnStatement(current);
        }
        if current.kind == TokenKind::While {
            self.curr_index += 1;
            return self.whileStatement();
        }
        if current.kind == TokenKind::Break {
            self.curr_index += 1;
            if !self.check(TokenKind::Semicolon) {
                return Err(self.handle_error());
            }
            self.curr_index += 1;
            return Ok(Statement::Break(current));
        }
        if current.kind == TokenKind::LeftBrace {
            self.curr_index += 1;
            return self.block();
        }
        self.expressionStatement()
    }

    #[verifier::loop_isolation(false)]
    fn forStatement(&mut self) -> (r: Result<Statement, Diagnostic>)
        requires
            old(self).wf(),
        ensures
            final(self).wf(),
            final(self).tokens_list == old(self).tokens_list,
            final(self).curr_index >= old(self).curr_index,
        decreases old(self).rem(), 15int,
    {
        if !self.check(TokenKind::LeftParen) {
            return Err(self.handle_error());
        }
        self.curr_index += 1;
        let initializer: Option<Statement>;
        if self.check(TokenKind::Semicolon) {
            self.curr_index += 1;
            initializer = None;
        } else if self.check(TokenKind::Let) {
            self.curr_index += 1;
            initializer = match self.varDeclaration() {
                Ok(s) => Some(s),
                Err(d) => {
                    return Err(d);
                },
            };
        } else {
            initializer = match self.expressionStatement() {
                Ok(s) => Some(s),
                Err(d) => {
                    return Err(d);
                },
            };
        }
        let mut condition: Option<Expression> = None;
        if !self.check(TokenKind::Semicolon) {
            condition = match self.expression() {
                Ok(e) => Some(e),
                Err(d) => {
                    return Err(d);
                },
            };
        }
        if !self.check(TokenKind::Semicolon) {
            return Err(self.handle_error());
        }
        self.curr_index += 1;
        let mut increment: Option<Expression> = None;
        if !self.check(TokenKind::RightParen) {
            increment = match self.expression() {
                Ok(e) => Some(e),
                Err(d) => {
                    return Err(d);
                },
            };
        }
        if !self.check(TokenKind::RightParen) {
            return Err(self.handle_error());
        }
        self.curr_index += 1;
        if self.atEnd() {
            return Err(self.handle_error());
        }
        let mut body = match self.statement() {
            Ok(s) => s,
            Err(d) => {
                return Err(d);
            },
        };
        if !(body matches Statement::Block(_)) {
            return Err(self.handle_error());
        }
        match increment {
            Some(inc) => {
                let mut s_array: Vec<Statement> = Vec::new();
                s_array.push(body);
                s_array.push(Statement::Expression(inc));
                body = Statement::Block(s_array);
            },
            None => {},
        }
        let cond = match condition {
            Some(c) => c,
            None => Expression::Literal(Lit::Bool(true)),
        };
        body = Statement::While(cond, Box::new(body));
        match initializer {
            Some(init) => {
                let mut s_array: Vec<Statement> = Vec::new();
                s_array.push(init);
                s_array.push(body);
                body = Statement::Block(s_array);
            },
            None => {},
        }
        Ok(body)
    }

    #[verifier::loop_isolation(false)]
    fn ifStatement(&mut self) -> (r: Result<Statement, Diagnostic>)
        requires
            old(self).wf(),
        ensures
            final(self).wf(),
            final(self).tokens_list == old(self).tokens_list,
            final(self).curr_index >= old(self).curr_index,
        decreases old(self).rem(), 15int,
    {
        let expr = match self.expression() {
            Ok(e) => e,
            Err(d) => {
                return Err(d);
            },
        };
        if self.atEnd() {
            return Err(self.handle_error());
        }
        let then_statement = match self.statement() {
            Ok(s) => s,
            Err(d) => {
                return Err(d);
            },
        };
        if !(then_statement matches Statement::Block(_)) {
            return Err(self.handle_error());
        }
        let mut else_statement = Statement::Expression(Expression::Literal(Lit::Nil));
        if self.check(TokenKind::Else) {
            self.curr_index += 1;
            if self.atEnd() {
                return Err(self.handle_error());
            }
            else_statement = match self.statement() {
                Ok(s) => s,
                Err(d) => {
                    return Err(d);
                },
            };
            if !(else_statement matches Statement::Block(_)) {
                return Err(self.handle_error());
            }
        }
        Ok(Statement::If(expr, Box::new(then_statement), Box::new(else_statement)))
    }

    #[verifier::loop_isolation(false)]
    fn printStatement(&mut self) -> (r: Result<Statement, Diagnostic>)
        requires
            old(self).wf(),
        ensures
            final(self).wf(),
            final(self).tokens_list == old(self).tokens_list,
            final(self).curr_index >= old(self).curr_index,
        decreases old(self).rem(), 15int,
    {
        let expr = match self.expression() {
            Ok(e) => e,
            Err(d) => {
                return Err(d);
            },
        };
        if self.check(TokenKind::Semicolon) {
            self.curr_index += 1;
            Ok(Statement::Print(expr))
        } else {
            Err(self.handle_error())
        }
    }

    #[verifier::loop_isolation(false)]
    fn returnStatement(&mut self, return_token: Token) -> (r: Result<Statement, Diagnostic>)
        requires
            old(self).wf(),
        ensures
            final(self).wf(),
            final(self).tokens_list == old(self).tokens_list,
            final(self).curr_index >= old(self).curr_index,
        decreases old(self).rem(), 15int,
    {
        let mut value = Expression::Literal(Lit::Nil);
        if !self.check(TokenKind::Semicolon) {
            value = match self.expression() {
                Ok(e) => e,
                Err(d) => {
                    return Err(d);
                },
            };
        }
        if !self.check(TokenKind::Semicolon) {
            return Err(self.handle_error());
        }
        self.curr_index += 1;
        Ok(Statement::Return(return_token, value))
    }

    #[verifier::loop_isolation(false)]
    fn whileStatement(&mut self) -> (r: Result<Statement, Diagnostic>)
        requires
            old(self).wf(),
        ensures
            final(self).wf(),
            final(self).tokens_list == old(self).tokens_list,
            final(self).curr_index >= old(self).curr_index,
        decreases old(self).rem(), 15int,
    {
        let expr = match self.expression() {
            Ok(e) => e,
            Err(d) => {
                return Err(d);
            },
        };
        if self.atEnd() {
            return Err(self.handle_error());
        }
        let body = match self.statement() {
            Ok(s) => s,
            Err(d) => {
                return Err(d);
            },
        };
        if !(body matches Statement::Block(_)) {
            return Err(self.handle_error());
        }
        Ok(Statement::While(expr, Box::new(body)))
    }

    #[verifier::loop_isolation(false)]
    fn expressionStatement(&mut self) -> (r: Result<Statement, Diagnostic>)
        requires
            old(self).wf(),
        ensures
            final(self).wf(),
            final(self).tokens_list == old(self).tokens_list,
            final(self).curr_index >= old(self).curr_index,
            r matches Ok(_) ==> final(self).curr_index > old(self).curr_index,
        decreases old(self).rem(), 14int,
    {
        let expr = match self.expression() {
            Ok(e) => e,
            Err(d) => {
                return Err(d);
            },
        };
        if self.check(TokenKind::Semicolon) {
            self.curr_index += 1;
            Ok(Statement::Expression(expr))
        } else {
            Err(self.handle_error())
        }
    }

    /// A block body: declarations to the closing brace (already past `{`).
    #[verifier::loop_isolation(false)]
    fn block(&mut self) -> (r: Result<Statement, Diagnostic>)
        requires
            old(self).wf(),
        ensures
            final(self).wf(),
            final(self).tokens_list == old(self).tokens_list,
            final(self).curr_index >= old(self).curr_index,
            r matches Ok(s) ==> s is Block,
        decreases old(self).rem(), 20int,
    {
        let mut statements: Vec<Statement> = Vec::new();
        loop
            invariant
                self.wf(),
                self.tokens_list == old(self).tokens_list,
                self.curr_index >= old(self).curr_index,
            decreases self.rem(),
        {
            if self.check(TokenKind::RightBrace) || self.atEnd() {
                break;
            }
            match self.declaration() {
                Ok(s) => {
                    statements.push(s);
                },
                Err(d) => {
                    return Err(d);
                },
            }
        }
        if self.check(TokenKind::RightBrace) {
            self.curr_index += 1;
            return Ok(Statement::Block(statements));
        }
        Err(self.handle_error())
    }

    #[verifier::loop_isolation(false)]
    fn expression(&mut self) -> (r: Result<Expression, Diagnostic>)
        requires
            old(self).wf(),
        ensures
            final(self).wf(),
            final(self).tokens_list == old(self).tokens_list,
            final(self).curr_index >= old(self).curr_index,
            r matches Ok(_) ==> final(self).curr_index > old(self).curr_index,
        decreases old(self).rem(), 13int,
    {
        self.assignment()
    }

    #[verifier::loop_isolation(false)]
    fn assignment(&mut self) -> (r: Result<Expression, Diagnostic>)
        requires
            old(self).wf(),
        ensures
            final(self).wf(),
            final(self).tokens_list == old(self).tokens_list,
            final(self).curr_index >= old(self).curr_index,
            r matches Ok(_) ==> final(self).curr_index > old(self).curr_index,
        decreases old(self).rem(), 12int,
    {
        let expr = match self.or() {
            Ok(e) => e,
            Err(d) => {
                return Err(d);
            },
        };
        if self.check(TokenKind::Equal) {
            let equal_store = self.tokens_list[self.curr_index].clone();
            self.curr_index += 1;
            let value = match self.expression() {
                Ok(e) => e,
                Err(d) => {
                    return Err(d);
                },
            };
            return Ok(Expression::Assign(Box::new(expr), equal_store, Box::new(value)));
        }
        Ok(expr)
    }

    #[verifier::loop_isolation(false)]
    fn or(&mut self) -> (r: Result<Expression, Diagnostic>)
        requires
            old(self).wf(),
        ensures
            final(self).wf(),
            final(self).tokens_list == old(self).tokens_list,
            final(self).curr_index >= old(self).curr_index,
            r matches Ok(_) ==> final(self).curr_index > old(self).curr_index,
        decreases old(self).rem(), 11int,
    {
        let mut expr = match self.and() {
            Ok(e) => e,
            Err(d) => {
                return Err(d);
            },
        };
        loop
            invariant
                self.wf(),
                self.tokens_list == old(self).tokens_list,
                self.curr_index > old(self).curr_index,
            decreases self.rem(),
        {
            if !self.check(TokenKind::Or) {
                break;
            }
            let op = self.tokens_list[self.curr_index].clone();
            self.curr_index += 1;
            let right = match self.and() {
                Ok(e) => e,
                Err(d) => {
                    return Err(d);
                },
            };
            expr = Expression::Logical(Box::new(expr), op, Box::new(right));
        }
        Ok(expr)
    }

    #[verifier::loop_isolation(false)]
    fn and(&mut self) -> (r: Result<Expression, Diagnostic>)
        requires
            old(self).wf(),
        ensures
            final(self).wf(),
            final(self).tokens_list == old(self).tokens_list,
            final(self).curr_index >= old(self).curr_index,
            r matches Ok(_) ==> final(self).curr_index > old(self).curr_index,
        decreases old(self).rem(), 10int,
    {
        let mut expr = match self.equality() {
            Ok(e) => e,
            Err(d) => {
                return Err(d);
            },
        };
        loop
            invariant
                self.wf(),
                self.tokens_list == old(self).tokens_list,
                self.curr_index > old(self).curr_index,
            decreases self.rem(),
        {
            if !self.check(TokenKind::And) {
                break;
            }
            let op = self.tokens_list[self.curr_index].clone();
            self.curr_index += 1;
            let right = match self.equality() {
                Ok(e) => e,
                Err(d) => {
                    return Err(d);
                },
            };
            expr = Expression::Logical(Box::new(expr), op, Box::new(right));
        }
        Ok(expr)
    }

    #[verifier::loop_isolation(false)]
    fn equality(&mut self) -> (r: Result<Expression, Diagnostic>)
        requires
            old(self).wf(),
        ensures
            final(self).wf(),
            final(self).tokens_list == old(self).tokens_list,
            final(self).curr_index >= old(self).curr_index,
            r matches Ok(_) ==> final(self).curr_index > old(self).curr_index,
        decreases old(self).rem(), 9int,
    {
        let mut expr = match self.comparison() {
            Ok(e) => e,
            Err(d) => {
                return Err(d);
            },
        };
        loop
            invariant
                self.wf(),
                self.tokens_list == old(self).tokens_list,
                self.curr_index > old(self).curr_index,
            decreases self.rem(),
        {
            if !(self.check(TokenKind::BangEqual) || self.check(TokenKind::EqualEqual)) {
                break;
            }
            let op = self.tokens_list[self.curr_index].clone();
            self.curr_index += 1;
            let right = match self.comparison() {
                Ok(e) => e,
                Err(d) => {
                    return Err(d);
                },
            };
            expr = Expression::Binary(Box::new(expr), op, Box::new(right));
        }
        Ok(expr)
    }

    #[verifier::loop_isolation(false)]
    fn comparison(&mut self) -> (r: Result<Expression, Diagnostic>)
        requires
            old(self).wf(),
        ensures
            final(self).wf(),
            final(self).tokens_list == old(self).tokens_list,
            final(self).curr_index >= old(self).curr_index,
            r matches Ok(_) ==> final(self).curr_index > old(self).curr_index,
        decreases old(self).rem(), 8int,
    {
        let mut expr = match self.term() {
            Ok(e) => e,
            Err(d) => {
                return Err(d);
            },
        };
        loop
            invariant
                self.wf(),
                self.tokens_list == old(self).tokens_list,
                self.curr_index > old(self).curr_index,
            decreases self.rem(),
        {
            if !(self.check(TokenKind::Greater) || self.check(TokenKind::GreaterEqual)
                || self.check(TokenKind::Less) || self.check(TokenKind::LessEqual)) {
                break;
            }
            let op = self.tokens_list[self.curr_index].clone();
            self.curr_index += 1;
            let right = match self.term() {
                Ok(e) => e,
                Err(d) => {
                    return Err(d);
                },
            };
            expr = Expression::Binary(Box::new(expr), op, Box::new(right));
        }
        Ok(expr)
    }

    #[verifier::loop_isolation(false)]
    fn term(&mut self) -> (r: Result<Expression, Diagnostic>)
        requires
            old(self).wf(),
        ensures
            final(self).wf(),
            final(self).tokens_list == old(self).tokens_list,
            final(self).curr_index >= old(self).curr_index,
            r matches Ok(_) ==> final(self).curr_index > old(self).curr_index,
        decreases old(self).rem(), 7int,
    {
        let mut expr = match self.factor() {
            Ok(e) => e,
            Err(d) => {
                return Err(d);
            },
        };
        loop
            invariant
                self.wf(),
                self.tokens_list == old(self).tokens_list,
                self.curr_index > old(self).curr_index,
            decreases self.rem(),
        {
            if !(self.check(TokenKind::Minus) || self.check(TokenKind::Plus)) {
                break;
            }
            let op = self.tokens_list[self.curr_index].clone();
            self.curr_index += 1;
            let right = match self.factor() {
                Ok(e) => e,
                Err(d) => {
                    return Err(d);
                },
            };
            expr = Expression::Binary(Box::new(expr), op, Box::new(right));
        }
        Ok(expr)
    }

    #[verifier::loop_isolation(false)]
    fn factor(&mut self) -> (r: Result<Expression, Diagnostic>)
        requires
            old(self).wf(),
        ensures
            final(self).wf(),
            final(self).tokens_list == old(self).tokens_list,
            final(self).curr_index >= old(self).curr_index,
            r matches Ok(_) ==> final(self).curr_index > old(self).curr_index,
        decreases old(self).rem(), 6int,
    {
        let mut expr = match self.unary() {
            Ok(e) => e,
            Err(d) => {
                return Err(d);
            },
        };
        loop
            invariant
                self.wf(),
                self.tokens_list == old(self).tokens_list,
                self.curr_index > old(self).curr_index,
            decreases self.rem(),
        {
            if !(self.check(TokenKind::Slash) || self.check(TokenKind::Star) || self.check(
                TokenKind::Percent,
            )) {
                break;
            }
            let op = self.tokens_list[self.curr_index].clone();
            self.curr_index += 1;
            let right = match self.unary() {
                Ok(e) => e,
                Err(d) => {
                    return Err(d);
                },
            };
            expr = Expression::Binary(Box::new(expr), op, Box::new(right));
        }
        Ok(expr)
    }

    #[verifier::loop_isolation(false)]
    fn unary(&mut self) -> (r: Result<Expression, Diagnostic>)
        requires
            old(self).wf(),
        ensures
            final(self).wf(),
            final(self).tokens_list == old(self).tokens_list,
            final(self).curr_index >= old(self).curr_index,
            r matches Ok(_) ==> final(self).curr_index > old(self).curr_index,
        decreases old(self).rem(), 5int,
    {
        if self.check(TokenKind::Bang) || self.check(TokenKind::Minus) {
            let op = self.tokens_list[self.curr_index].clone();
            self.curr_index += 1;
            let right = match self.unary() {
                Ok(e) => e,
                Err(d) => {
                    return Err(d);
                },
            };
            return Ok(Expression::Unary(op, Box::new(right)));
        }
        self.call()
    }

    #[verifier::loop_isolation(false)]
    fn call(&mut self) -> (r: Result<Expression, Diagnostic>)
        requires
            old(self).wf(),
        ensures
            final(self).wf(),
            final(self).tokens_list == old(self).tokens_list,
            final(self).curr_index >= old(self).curr_index,
            r matches Ok(_) ==> final(self).curr_index > old(self).curr_index,
        decreases old(self).rem(), 4int,
    {
        let mut expr = match self.index() {
            Ok(e) => e,
            Err(d) => {
                return Err(d);
            },
        };
        loop
            invariant
                self.wf(),
                self.tokens_list == old(self).tokens_list,
                self.curr_index > old(self).curr_index,
            decreases self.rem(),
        {
            if !self.check(TokenKind::LeftParen) {
                break;
            }
            let ghost outer_pos = self.curr_index;
            self.curr_index += 1;
            let mut args_list: Vec<Expression> = Vec::new();
            if !self.check(TokenKind::RightParen) {
                match self.expression() {
                    Ok(e) => {
                        args_list.push(e);
                    },
                    Err(d) => {
                        return Err(d);
                    },
                }
                loop
                    invariant
                        self.wf(),
                        self.tokens_list == old(self).tokens_list,
                        self.curr_index > old(self).curr_index,
                        self.curr_index > outer_pos,
                    decreases self.rem(),
                {
                    if !self.check(TokenKind::Comma) {
                        break;
                    }
                    self.curr_index += 1;
                    match self.expression() {
                        Ok(e) => {
                            args_list.push(e);
                        },
                        Err(d) => {
                            return Err(d);
                        },
                    }
                }
            }
            if self.check(TokenKind::RightParen) {
                if args_list.len() > 255 {
                    return Err(self.handle_error());
                }
                expr = Expression::Call(
                    Box::new(expr),
                    self.tokens_list[self.curr_index].clone(),
                    args_list,
                );
                self.curr_index += 1;
            } else {
                return Err(self.handle_error());
            }
        }
        Ok(expr)
    }

    #[verifier::loop_isolation(false)]
    fn index(&mut self) -> (r: Result<Expression, Diagnostic>)
        requires
            old(self).wf(),
        ensures
            final(self).wf(),
            final(self).tokens_list == old(self).tokens_list,
            final(self).curr_index >= old(self).curr_index,
            r matches Ok(_) ==> final(self).curr_index > old(self).curr_index,
        decreases old(self).rem(), 3int,
    {
        let left_expr = match self.primary() {
            Ok(e) => e,
            Err(d) => {
                return Err(d);
            },
        };
        if self.check(TokenKind::LeftSquare) {
            self.curr_index += 1;
            let right_expr = match self.expression() {
                Ok(e) => e,
                Err(d) => {
                    return Err(d);
                },
            };
            if !self.check(TokenKind::RightSquare) {
                return Err(self.handle_error());
            }
            let right_brace_store = self.tokens_list[self.curr_index].clone();
            self.curr_index += 1;
            return Ok(
                Expression::Index(Box::new(left_expr), right_brace_store, Box::new(right_expr)),
            );
        }
        Ok(left_expr)
    }

    #[verifier::loop_isolation(false)]
    fn primary(&mut self) -> (r: Result<Expression, Diagnostic>)
        requires
            old(self).wf(),
        ensures
            final(self).wf(),
            final(self).tokens_list == old(self).tokens_list,
            final(self).curr_index >= old(self).curr_index,
            r matches Ok(_) ==> final(self).curr_index > old(self).curr_index,
        decreases old(self).rem(), 2int,
    {
        if self.atEnd() {
            return Err(self.handle_error());
        }
        let literal = self.tokens_list[self.curr_index].clone();
        if literal.kind == TokenKind::False {
            self.curr_index += 1;
            return Ok(Expression::Literal(Lit::Bool(false)));
        }
        if literal.kind == TokenKind::True {
            self.curr_index += 1;
            return Ok(Expression::Literal(Lit::Bool(true)));
        }
        if literal.kind == TokenKind::Nil {
            self.curr_index += 1;
            return Ok(Expression::Literal(Lit::Nil));
        }
        if literal.kind == TokenKind::Str {
            self.curr_index += 1;
            return Ok(Expression::Literal(Lit::Str(literal.lexeme)));
        }
        if literal.kind == TokenKind::Number {
            self.curr_index += 1;
            match atoi(&literal.lexeme) {
                Some(v) => {
                    return Ok(Expression::Literal(Lit::Int(v)));
                },
                None => {
                    if float_shape_ok(&literal.lexeme) {
                        return Ok(Expression::Literal(Lit::FloatDigits(literal.lexeme)));
                    }
                    return Err(self.handle_error());
                },
            }
        }
        if literal.kind == TokenKind::Identifier {
            self.curr_index += 1;
            return Ok(Expression::Variable(literal));
        }
        if literal.kind == TokenKind::Lambda {
            self.curr_index += 1;
            return self.lambda();
        }
        if literal.kind == TokenKind::LeftSquare {
            self.curr_index += 1;
            return self.list();
        }
        if literal.kind == TokenKind::LeftParen {
            self.curr_index += 1;
            let expression = match self.expression() {
                Ok(e) => e,
                Err(d) => {
                    return Err(d);
                },
            };
            if self.check(TokenKind::RightParen) {
                self.curr_index += 1;
                return Ok(Expression::Grouping(Box::new(expression)));
            }
            return Err(self.handle_error());
        }
        Err(self.handle_error())
    }

    #[verifier::loop_isolation(false)]
    fn lambda(&mut self) -> (r: Result<Expression, Diagnostic>)
        requires
            old(self).wf(),
        ensures
            final(self).wf(),
            final(self).tokens_list == old(self).tokens_list,
            final(self).curr_index >= old(self).curr_index,
        decreases old(self).rem(), 1int,
    {
        if !self.check(TokenKind::LeftParen) {
            return Err(self.handle_error());
        }
        self.curr_index += 1;
        let mut args_list: Vec<Token> = Vec::new();
        loop
            invariant
                self.wf(),
                self.tokens_list == old(self).tokens_list,
                self.curr_index > old(self).curr_index,
            decreases self.rem(),
        {
            if self.check(TokenKind::RightParen) {
                break;
            }
            if !self.check(TokenKind::Identifier) {
                return Err(self.handle_error());
            }
            args_list.push(self.tokens_list[self.curr_index].clone());
            self.curr_index += 1;
            if !self.check(TokenKind::Comma) {
                break;
            }
            self.curr_index += 1;
        }
        if !self.check(TokenKind::RightParen) {
            return Err(self.handle_error());
        }
        self.curr_index += 1;
        if self.atEnd() {
            return Err(self.handle_error());
        }
        let statement = match self.statement() {
            Ok(s) => s,
            Err(d) => {
                return Err(d);
            },
        };
        match statement {
            Statement::Block(statements) => Ok(Expression::Lambda(args_list, statements)),
            _ => Err(self.handle_error()),
        }
    }

    #[verifier::loop_isolation(false)]
    fn list(&mut self) -> (r: Result<Expression, Diagnostic>)
        requires
            old(self).wf(),
        ensures
            final(self).wf(),
            final(self).tokens_list == old(self).tokens_list,
            final(self).curr_index >= old(self).curr_index,
        decreases old(self).rem(), 14int,
    {
        let mut content: Vec<Expression> = Vec::new();
        loop
            invariant
                self.wf(),
                self.tokens_list == old(self).tokens_list,
                self.curr_index >= old(self).curr_index,
            decreases self.rem(),
        {
            if self.check(TokenKind::RightSquare) {
                break;
            }
            match self.or() {
                Ok(e) => {
                    content.push(e);
                },
                Err(d) => {
                    return Err(d);
                },
            }
            if !self.check(TokenKind::Comma) {
                break;
            }
            self.curr_index += 1;
        }
        if !self.check(TokenKind::RightSquare) {
            return Err(self.handle_error());
        }
        let right_brace_store = self.tokens_list[self.curr_index].clone();
        self.curr_index += 1;
        Ok(Expression::List(content, right_brace_store))
    }
}

} // verus!
