use vstd::prelude::*;

use crate::support::copy_vec;
use crate::token::Token;

verus! {

/// A literal as it appears in source text. Number literals with a decimal
/// point keep their raw digits: turning them into a machine double is the
/// host's job and happens at evaluation time.
pub enum Lit {
    Int(i128),
    /// The digit bytes of a decimal literal such as `2.5`.
    FloatDigits(Vec<u8>),
    Str(Vec<u8>),
    Bool(bool),
    Nil,
}

/// An expression tree node.
pub enum Expression {
    Assign(Box<Expression>, Token, Box<Expression>),
    Binary(Box<Expression>, Token, Box<Expression>),
    Unary(Token, Box<Expression>),
    Call(Box<Expression>, Token, Vec<Expression>),
    Logical(Box<Expression>, Token, Box<Expression>),
    Literal(Lit),
    Grouping(Box<Expression>),
    Variable(Token),
    List(Vec<Expression>, Token),
    Lambda(Vec<Token>, Vec<Statement>),
    Index(Box<Expression>, Token, Box<Expression>),
}

/// A statement tree node.
pub enum Statement {
    Var(Token, Expression),
    Expression(Expression),
    Function(Token, Vec<Token>, Vec<Statement>),
    If(Expression, Box<Statement>, Box<Statement>),
    Print(Expression),
    Return(Token, Expression),
    While(Expression, Box<Statement>),
    Break(Token),
    Block(Vec<Statement>),
}

/// A runtime value. Strings, lists and callables live in the interpreter's
/// arenas and a value holds only the arena index, so that several bindings can
/// alias one mutable list and values stay cheap to move around. A `Float` is
/// the bit pattern of an IEEE-754 double; its arithmetic is supplied by the
/// host (see `FloatHost`).
#[derive(PartialEq, Eq, Structural, Debug, Clone, Copy)]
pub enum Value {
    Str(usize),
    Int(i128),
    Float(u64),
    Bool(bool),
    Call(usize),
    List(usize),
    Nil,
}

/// What went wrong, as a machine-readable tag. Rendering a human-readable
/// message out of it is the embedder's business.
#[derive(PartialEq, Eq, Structural, Debug, Clone, Copy)]
pub enum ErrorKind {
    /// Same name declared twice in one scope (caught before execution when
    /// the resolver sees the scope, at execution otherwise).
    DuplicateDeclaration,
    /// A name with no binding in any reachable scope.
    UndefinedVariable,
    /// The resolver's recorded hop count does not match the live environment
    /// chain: an implementation bug, never a language-level error.
    ResolverInconsistency,
    /// Operand or argument tag mismatch.
    TypeError,
    /// Wrong argument count in a call.
    ArityError,
    DivisionByZero,
    IndexOutOfBounds,
    /// Assignment to something that is neither a variable nor an index.
    InvalidAssignmentTarget,
    /// `return` or `break` reached the top level.
    MisplacedControlFlow,
    /// Integer arithmetic left the 128-bit signed range.
    IntegerOverflow,
    /// Object-language calls nested deeper than the interpreter's limit, or
    /// a loop that outran its (astronomically large) iteration budget.
    ResourceLimit,
    /// The scanner met a malformed lexeme.
    ScanError,
    /// The parser met a malformed statement or expression.
    ParseError,
}

/// An error signal: its kind and the source line it was raised on.
#[derive(PartialEq, Eq, Structural, Debug, Clone, Copy)]
pub struct Diagnostic {
    pub kind: ErrorKind,
    pub line: i32,
}

/// The non-local control-flow signal produced by executing a statement.
/// `Return` and `Break` carry the line of the keyword that raised them;
/// whether they are legal is decided by the enclosing construct.
#[derive(PartialEq, Eq, Structural, Debug, Clone, Copy)]
pub enum BreakResult {
    Return(i32, Value),
    Error(Diagnostic),
    Break(i32),
}

/// Structural likeness: the same tree, spelled out node by node over views,
/// so that a structural copy can be tied to its original (plain `==` cannot
/// compare owned byte vectors).
pub open spec fn token_like(a: Token, b: Token) -> bool {
    a.kind == b.kind && a.lexeme@ == b.lexeme@ && a.line == b.line && a.id == b.id
}

pub open spec fn tokens_like(a: Vec<Token>, b: Vec<Token>) -> bool {
    a@.len() == b@.len() && forall|i: int|
        0 <= i < a@.len() ==> token_like(#[trigger] a@[i], b@[i])
}

pub open spec fn lit_like(a: Lit, b: Lit) -> bool {
    match (a, b) {
        (Lit::Int(x), Lit::Int(y)) => x == y,
        (Lit::FloatDigits(p), Lit::FloatDigits(q)) => p@ == q@,
        (Lit::Str(p), Lit::Str(q)) => p@ == q@,
        (Lit::Bool(x), Lit::Bool(y)) => x == y,
        (Lit::Nil, Lit::Nil) => true,
        _ => false,
    }
}

pub open spec fn expr_like(a: Expression, b: Expression) -> bool
    decreases a,
{
    match (a, b) {
        (Expression::Assign(t1, o1, v1), Expression::Assign(t2, o2, v2)) => expr_like(*t1, *t2)
            && token_like(o1, o2) && expr_like(*v1, *v2),
        (Expression::Binary(l1, o1, r1), Expression::Binary(l2, o2, r2)) => expr_like(*l1, *l2)
            && token_like(o1, o2) && expr_like(*r1, *r2),
        (Expression::Unary(o1, r1), Expression::Unary(o2, r2)) => token_like(o1, o2) && expr_like(
            *r1,
            *r2,
        ),
        (Expression::Call(c1, p1, a1), Expression::Call(c2, p2, a2)) => expr_like(*c1, *c2)
            && token_like(p1, p2) && exprs_like(a1, a2),
        (Expression::Logical(l1, o1, r1), Expression::Logical(l2, o2, r2)) => expr_like(*l1, *l2)
            && token_like(o1, o2) && expr_like(*r1, *r2),
        (Expression::Literal(l1), Expression::Literal(l2)) => lit_like(l1, l2),
        (Expression::Grouping(g1), Expression::Grouping(g2)) => expr_like(*g1, *g2),
        (Expression::Variable(t1), Expression::Variable(t2)) => token_like(t1, t2),
        (Expression::List(i1, t1), Expression::List(i2, t2)) => exprs_like(i1, i2) && token_like(
            t1,
            t2,
        ),
        (Expression::Lambda(p1, b1), Expression::Lambda(p2, b2)) => tokens_like(p1, p2)
            && stmts_like(b1, b2),
        (Expression::Index(l1, t1, k1), Expression::Index(l2, t2, k2)) => expr_like(*l1, *l2)
            && token_like(t1, t2) && expr_like(*k1, *k2),
        _ => false,
    }
}

pub open spec fn exprs_like(a: Vec<Expression>, b: Vec<Expression>) -> bool
    decreases a,
{
    a@.len() == b@.len() && forall|i: int|
        0 <= i < a@.len() ==> expr_like(#[trigger] a@[i], b@[i])
}

pub open spec fn stmt_like(a: Statement, b: Statement) -> bool
    decreases a,
{
    match (a, b) {
        (Statement::Var(t1, e1), Statement::Var(t2, e2)) => token_like(t1, t2) && expr_like(
            e1,
            e2,
        ),
        (Statement::Expression(e1), Statement::Expression(e2)) => expr_like(e1, e2),
        (Statement::Function(t1, p1, b1), Statement::Function(t2, p2, b2)) => token_like(t1, t2)
            && tokens_like(p1, p2) && stmts_like(b1, b2),
        (Statement::If(c1, a1, e1), Statement::If(c2, a2, e2)) => expr_like(c1, c2) && stmt_like(
            *a1,
            *a2,
        ) && stmt_like(*e1, *e2),
        (Statement::Print(e1), Statement::Print(e2)) => expr_like(e1, e2),
        (Statement::Return(t1, e1), Statement::Return(t2, e2)) => token_like(t1, t2) && expr_like(
            e1,
            e2,
        ),
        (Statement::While(c1, b1), Statement::While(c2, b2)) => expr_like(c1, c2) && stmt_like(
            *b1,
            *b2,
        ),
        (Statement::Break(t1), Statement::Break(t2)) => token_like(t1, t2),
        (Statement::Block(b1), Statement::Block(b2)) => stmts_like(b1, b2),
        _ => false,
    }
}

pub open spec fn stmts_like(a: Vec<Statement>, b: Vec<Statement>) -> bool
    decreases a,
{
    a@.len() == b@.len() && forall|i: int|
        0 <= i < a@.len() ==> stmt_like(#[trigger] a@[i], b@[i])
}

/// Structural copies of tree nodes, used when a declaration's parameter list
/// and body move into a callable value and when a stored body is executed.
pub fn clone_lit(l: &Lit) -> (r: Lit)
    ensures
        lit_like(r, *l),
{
    match l {
        Lit::Int(n) => Lit::Int(*n),
        Lit::FloatDigits(d) => Lit::FloatDigits(copy_vec(d)),
        Lit::Str(s) => Lit::Str(copy_vec(s)),
        Lit::Bool(b) => Lit::Bool(*b),
        Lit::Nil => Lit::Nil,
    }
}

pub fn clone_tokens(v: &Vec<Token>) -> (r: Vec<Token>)
    ensures
        r@.len() == v@.len(),
        forall|i: int|
            0 <= i < v@.len() ==> (#[trigger] r@[i]).kind == v@[i].kind && r@[i].lexeme@
                == v@[i].lexeme@ && r@[i].line == v@[i].line && r@[i].id == v@[i].id,
        tokens_like(r, *v),
{
    let mut r: Vec<Token> = Vec::new();
    let n = v.len();
    let mut i: usize = 0;
    while i < n
        invariant
            n == v@.len(),
            i <= n,
            r@.len() == i,
            forall|j: int|
                0 <= j < i ==> (#[trigger] r@[j]).kind == v@[j].kind && r@[j].lexeme@
                    == v@[j].lexeme@ && r@[j].line == v@[j].line && r@[j].id == v@[j].id,
        decreases n - i,
    {
        r.push(v[i].clone());
        i += 1;
    }
    r
}

pub fn clone_expression(e: &Expression) -> (r: Expression)
    ensures
        expr_like(r, *e),
    decreases e,
{
    match e {
        Expression::Assign(t, o, v) => Expression::Assign(
            Box::new(clone_expression(t)),
            o.clone(),
            Box::new(clone_expression(v)),
        ),
        Expression::Binary(l, o, r) => Expression::Binary(
            Box::new(clone_expression(l)),
            o.clone(),
            Box::new(clone_expression(r)),
        ),
        Expression::Unary(o, r) => Expression::Unary(o.clone(), Box::new(clone_expression(r))),
        Expression::Call(c, p, args) => Expression::Call(
            Box::new(clone_expression(c)),
            p.clone(),
            clone_expressions(args),
        ),
        Expression::Logical(l, o, r) => Expression::Logical(
            Box::new(clone_expression(l)),
            o.clone(),
            Box::new(clone_expression(r)),
        ),
        Expression::Literal(l) => Expression::Literal(clone_lit(l)),
        Expression::Grouping(g) => Expression::Grouping(Box::new(clone_expression(g))),
        Expression::Variable(t) => Expression::Variable(t.clone()),
        Expression::List(items, t) => Expression::List(clone_expressions(items), t.clone()),
        Expression::Lambda(params, body) => Expression::Lambda(
            clone_tokens(params),
            clone_statements(body),
        ),
        Expression::Index(l, t, i) => Expression::Index(
            Box::new(clone_expression(l)),
            t.clone(),
            Box::new(clone_expression(i)),
        ),
    }
}

pub fn clone_expressions(v: &Vec<Expression>) -> (r: Vec<Expression>)
    ensures
        r@.len() == v@.len(),
        exprs_like(r, *v),
    decreases v,
{
    let mut r: Vec<Expression> = Vec::new();
    let n = v.len();
    let mut i: usize = 0;
    while i < n
        invariant
            n == v@.len(),
            i <= n,
            r@.len() == i,
            forall|k: int| 0 <= k < i ==> expr_like(#[trigger] r@[k], v@[k]),
        decreases n - i,
    {
        r.push(clone_expression(&v[i]));
        i += 1;
    }
    r
}

pub fn clone_statement(s: &Statement) -> (r: Statement)
    ensures
        stmt_like(r, *s),
    decreases s,
{
    match s {
        Statement::Var(t, e) => Statement::Var(t.clone(), clone_expression(e)),
        Statement::Expression(e) => Statement::Expression(clone_expression(e)),
        Statement::Function(t, params, body) => Statement::Function(
            t.clone(),
            clone_tokens(params),
            clone_statements(body),
        ),
        Statement::If(c, a, b) => Statement::If(
            clone_expression(c),
            Box::new(clone_statement(a)),
            Box::new(clone_statement(b)),
        ),
        Statement::Print(e) => Statement::Print(clone_expression(e)),
        Statement::Return(t, e) => Statement::Return(t.clone(), clone_expression(e)),
        Statement::While(c, b) => Statement::While(clone_expression(c), Box::new(clone_statement(b))),
        Statement::Break(t) => Statement::Break(t.clone()),
        Statement::Block(b) => Statement::Block(clone_statements(b)),
    }
}

pub fn clone_statements(v: &Vec<Statement>) -> (r: Vec<Statement>)
    ensures
        r@.len() == v@.len(),
        stmts_like(r, *v),
    decreases v,
{
    let mut r: Vec<Statement> = Vec::new();
    let n = v.len();
    let mut i: usize = 0;
    while i < n
        invariant
            n == v@.len(),
            i <= n,
            r@.len() == i,
            forall|k: int| 0 <= k < i ==> stmt_like(#[trigger] r@[k], v@[k]),
        decreases n - i,
    {
        r.push(clone_statement(&v[i]));
        i += 1;
    }
    r
}

} // verus!
