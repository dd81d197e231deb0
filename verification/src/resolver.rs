use vstd::prelude::*;

use crate::ast::Diagnostic;
use crate::ast::ErrorKind;
use crate::ast::Expression;
use crate::ast::Statement;
use crate::interpreter::LocalSlot;
use crate::support::bytes_eq;
use crate::support::copy_vec;
use crate::token::Token;

verus! {

/// One scope frame of the static pass: the names declared in it so far.
pub struct Frame {
    pub names: Vec<Vec<u8>>,
}

/// A frame holds a name.
pub open spec fn frame_has(f: Frame, n: Seq<u8>) -> bool {
    exists|j: int| 0 <= j < f.names@.len() && f.names@[j]@ == n
}

/// How many frames down from the innermost one a name is first found: `Some(0)`
/// means the innermost frame, and `None` that no frame holds it (such a
/// reference is left to dynamic lookup at run time).
pub open spec fn distance_in(stack: Seq<Frame>, n: Seq<u8>) -> Option<int>
    decreases stack.len(),
{
    if stack.len() == 0 {
        None
    } else if frame_has(stack.last(), n) {
        Some(0)
    } else {
        match distance_in(stack.drop_last(), n) {
            Some(d) => Some(d + 1),
            None => None,
        }
    }
}

proof fn lemma_distance_found(stack: Seq<Frame>, n: Seq<u8>, i: int)
    requires
        0 <= i < stack.len(),
        frame_has(stack[i], n),
        forall|k: int| i < k < stack.len() ==> !frame_has(#[trigger] stack[k], n),
    ensures
        distance_in(stack, n) == Some(stack.len() - 1 - i),
    decreases stack.len(),
{
    if i == stack.len() - 1 {
    } else {
        assert(!frame_has(stack.last(), n));
        lemma_distance_found(stack.drop_last(), n, i);
    }
}

proof fn lemma_distance_missing(stack: Seq<Frame>, n: Seq<u8>)
    requires
        forall|k: int| 0 <= k < stack.len() ==> !frame_has(#[trigger] stack[k], n),
    ensures
        distance_in(stack, n) is None,
    decreases stack.len(),
{
    if stack.len() > 0 {
        lemma_distance_missing(stack.drop_last(), n);
    }
}

/// Does this frame hold the name?
fn frame_contains(f: &Frame, n: &Vec<u8>) -> (r: bool)
    ensures
        r == frame_has(*f, n@),
{
    let m = f.names.len();
    let mut j: usize = 0;
    while j < m
        invariant
            m == f.names@.len(),
            j <= m,
            forall|k: int| 0 <= k < j ==> f.names@[k]@ != n@,
        decreases m - j,
    {
        if bytes_eq(&f.names[j], n) {
            return true;
        }
        j += 1;
    }
    false
}

/// The static pre-pass: it walks the tree once before execution, keeping a
/// stack of scope frames, rejects a second declaration of one name in one
/// frame, and records for each variable reference it can place how many frames
/// separate the reference from its declaration. References it cannot place are
/// left out of the table for dynamic lookup — that covers globals, whose scope
/// has no frame here.
pub struct Resolver {
    pub locals: Vec<LocalSlot>,
    pub stack: Vec<Frame>,
}

impl Resolver {
    pub fn new() -> (r: Resolver)
        ensures
            r.locals@ == Seq::<LocalSlot>::empty(),
            r.stack@ == Seq::<Frame>::empty(),
    {
        Resolver { locals: Vec::new(), stack: Vec::new() }
    }

    /// An independent copy, for the interactive session's snapshot.
    pub fn clone(&self) -> (r: Resolver)
        ensures
            r.locals@ == self.locals@,
            r.stack@.len() == self.stack@.len(),
            forall|i: int|
                0 <= i < self.stack@.len() ==> (#[trigger] r.stack@[i]).names@.len()
                    == self.stack@[i].names@.len() && forall|j: int|
                    0 <= j < self.stack@[i].names@.len() ==> r.stack@[i].names@[j]@
                        == self.stack@[i].names@[j]@,
    {
        let locals = copy_vec(&self.locals);
        let mut stack: Vec<Frame> = Vec::new();
        let n = self.stack.len();
        let mut i: usize = 0;
        while i < n
            invariant
                n == self.stack@.len(),
                i <= n,
                stack@.len() == i,
                forall|k: int|
                    0 <= k < i ==> (#[trigger] stack@[k]).names@.len()
                        == self.stack@[k].names@.len() && forall|j: int|
                        0 <= j < self.stack@[k].names@.len() ==> stack@[k].names@[j]@
                            == self.stack@[k].names@[j]@,
            decreases n - i,
        {
            let src = &self.stack[i];
            let mut names: Vec<Vec<u8>> = Vec::new();
            let m = src.names.len();
            let mut j: usize = 0;
            while j < m
                invariant
                    m == src.names@.len(),
                    j <= m,
                    names@.len() == j,
                    forall|k: int| 0 <= k < j ==> (#[trigger] names@[k])@ == src.names@[k]@,
                decreases m - j,
            {
                names.push(copy_vec(&src.names[j]));
                j += 1;
            }
            stack.push(Frame { names });
            i += 1;
        }
        Resolver { locals, stack }
    }

    /// The side-table, handed out by value for the interpreter to hold.
    pub fn give_local(&self) -> (r: Vec<LocalSlot>)
        ensures
            r@ == self.locals@,
    {
        copy_vec(&self.locals)
    }

    fn begin_scope(&mut self)
        ensures
            final(self).stack@.len() == old(self).stack@.len() + 1,
            forall|i: int|
                0 <= i < old(self).stack@.len() ==> final(self).stack@[i] == old(self).stack@[i],
            final(self).stack@.last().names@.len() == 0,
            final(self).locals == old(self).locals,
    {
        self.stack.push(Frame { names: Vec::new() });
    }

    fn end_scope(&mut self)
        ensures
            final(self).stack@ == if old(self).stack@.len() > 0 {
                old(self).stack@.drop_last()
            } else {
                old(self).stack@
            },
            final(self).locals == old(self).locals,
    {
        if self.stack.len() > 0 {
            let _ = self.stack.pop();
            proof {
                assert(self.stack@ =~= old(self).stack@.drop_last());
            }
        }
    }

    /// Put `name` into the innermost frame (no duplicate check here).
    fn declare_in_top(&mut self, name: &Vec<u8>)
        requires
            old(self).stack@.len() > 0,
        ensures
            final(self).stack@.len() == old(self).stack@.len(),
            forall|i: int|
                0 <= i < old(self).stack@.len() - 1 ==> final(self).stack@[i] == old(self).stack@[i],
            forall|n: Seq<u8>|
                frame_has(#[trigger] final(self).stack@.last(), n) <==> (frame_has(
                    old(self).stack@.last(),
                    n,
                ) || n == name@),
            final(self).locals == old(self).locals,
    {
        let top = self.stack.len() - 1;
        let f = &mut self.stack[top];
        f.names.push(copy_vec(name));
        proof {
            let pre = old(self).stack@.last();
            let post = self.stack@.last();
            assert forall|n: Seq<u8>| frame_has(post, n) <==> (frame_has(pre, n) || n
                == name@) by {
                if frame_has(pre, n) {
                    let j = choose|j: int| 0 <= j < pre.names@.len() && pre.names@[j]@ == n;
                    assert(post.names@[j]@ == n);
                }
                if n == name@ {
                    assert(post.names@[post.names@.len() - 1]@ == n);
                }
                if frame_has(post, n) && n != name@ {
                    let j = choose|j: int| 0 <= j < post.names@.len() && post.names@[j]@ == n;
                    assert(j < pre.names@.len());
                    assert(pre.names@[j]@ == n);
                }
            }
        }
    }

    /// Record a reference's hop count: the first frame, innermost outward,
    /// that holds the name gives the distance; a name in no frame is left
    /// unrecorded, to be looked up dynamically.
    fn resolve_variable(&mut self, t: &Token) -> (r: Result<(), Diagnostic>)
        ensures
            final(self).stack == old(self).stack,
            r == Ok::<(), Diagnostic>(()),
            match distance_in(old(self).stack@, t.lexeme@) {
                Some(d) => if d <= i32::MAX {
                    final(self).locals@ == old(self).locals@.push(
                        LocalSlot { id: t.id, hops: d as i32 },
                    )
                } else {
                    final(self).locals == old(self).locals
                },
                None => final(self).locals == old(self).locals,
            },
    {
        let len = self.stack.len();
        let mut i = len;
        while i > 0
            invariant
                len == self.stack@.len(),
                i <= len,
                forall|k: int| i <= k < len ==> !frame_has(#[trigger] self.stack@[k], t.lexeme@),
                self.stack == old(self).stack,
                self.locals == old(self).locals,
            decreases i,
        {
            i -= 1;
            if frame_contains(&self.stack[i], &t.lexeme) {
                let d = len - 1 - i;
                proof {
                    lemma_distance_found(self.stack@, t.lexeme@, i as int);
                }
                if d <= (i32::MAX as usize) {
                    self.locals.push(LocalSlot { id: t.id, hops: d as i32 });
                }
                return Ok(());
            }
        }
        proof {
            lemma_distance_missing(self.stack@, t.lexeme@);
        }
        Ok(())
    }

    fn handle_error(&self, kind: ErrorKind, line: i32) -> (r: Diagnostic)
        ensures
            r == (Diagnostic { kind, line }),
    {
        Diagnostic { kind, line }
    }

    /// Resolve a whole program, statement by statement. An empty program
    /// touches nothing; a leading duplicate declaration (against a frame the
    /// stack already holds) is rejected; a lone variable reference extends the
    /// side-table exactly as `distance_in` directs.
    pub fn resolve(&mut self, statements: &Vec<Statement>) -> (r: Result<(), Diagnostic>)
        ensures
            r matches Ok(()) ==> final(self).stack@.len() == old(self).stack@.len() && (forall|
                i: int,
            |
                0 <= i < old(self).stack@.len() - 1 ==> final(self).stack@[i] == old(self).stack@[i]),
            statements@.len() == 0 ==> r == Ok::<(), Diagnostic>(()) && *final(self) == *old(self),
            (statements@.len() > 0 ==> (statements@[0] matches Statement::Var(var, e) ==> (e
                matches Expression::Literal(_) ==> (old(self).stack@.len() > 0 && frame_has(
                old(self).stack@.last(),
                var.lexeme@,
            ) ==> r == Err::<(), Diagnostic>(
                Diagnostic { kind: ErrorKind::DuplicateDeclaration, line: var.line },
            ))))),
            (statements@.len() == 1 ==> (statements@[0] matches Statement::Expression(e) ==> (e
                matches Expression::Variable(t) ==> r == Ok::<(), Diagnostic>(()) && final(self).stack == old(self).stack && (match distance_in(old(self).stack@, t.lexeme@) {
                Some(d) => if d <= i32::MAX {
                    final(self).locals@ == old(self).locals@.push(
                        LocalSlot { id: t.id, hops: d as i32 },
                    )
                } else {
                    final(self).locals == old(self).locals
                },
                None => final(self).locals == old(self).locals,
            })))),
        decreases statements, 0int,
    {
        let n = statements.len();
        let mut i: usize = 0;
        while i < n
            invariant
                n == statements@.len(),
                i <= n,
                self.stack@.len() == old(self).stack@.len(),
                forall|k: int|
                    0 <= k < old(self).stack@.len() - 1 ==> self.stack@[k] == old(self).stack@[k],
                i == 0 ==> *self == *old(self),
                i > 0 ==> !(statements@[0] matches Statement::Var(var, e) && e matches
                    Expression::Literal(_) && old(self).stack@.len() > 0 && frame_has(
                    old(self).stack@.last(),
                    var.lexeme@,
                )),
                i == 1 ==> (statements@[0] matches Statement::Expression(e) ==> (e matches
                    Expression::Variable(t) ==> self.stack == old(self).stack && (match distance_in(
                    old(self).stack@,
                    t.lexeme@,
                ) {
                    Some(d) => if d <= i32::MAX {
                        self.locals@ == old(self).locals@.push(
                            LocalSlot { id: t.id, hops: d as i32 },
                        )
                    } else {
                        self.locals == old(self).locals
                    },
                    None => self.locals == old(self).locals,
                }))),
            decreases n - i,
        {
            let res = self.resolve_stmt(&statements[i]);
            match res {
                Ok(()) => {
                    proof {
                        // `Ok(())` as a value, so the exact postconditions of
                        // `resolve_stmt` (stated with `r == Ok(())`) apply.
                        assert(res->Ok_0 == ());
                        assert(res == Ok::<(), Diagnostic>(()));
                    }
                    i += 1;
                },
                Err(d) => {
                    return Err(d);
                },
            }
        }
        Ok(())
    }

    /// Resolve one statement. On success the frame stack is as deep as before,
    /// and every frame but the innermost is untouched (a declaration may have
    /// been added to the innermost one).
    #[verifier::loop_isolation(false)]
    fn resolve_stmt(&mut self, stmt: &Statement) -> (r: Result<(), Diagnostic>)
        ensures
            r matches Ok(()) ==> final(self).stack@.len() == old(self).stack@.len() && (forall|
                i: int,
            |
                0 <= i < old(self).stack@.len() - 1 ==> final(self).stack@[i] == old(self).stack@[i]),
            ((*stmt) matches Statement::Var(var, _) ==> (r matches Ok(_) ==> (old(self).stack@.len() > 0 ==> !frame_has(old(self).stack@.last(), var.lexeme@) && frame_has(
                final(self).stack@.last(),
                var.lexeme@,
            )))),
            ((*stmt) matches Statement::Var(var, e) ==> (e matches Expression::Literal(_) ==> (old(self).stack@.len() > 0 && frame_has(old(self).stack@.last(), var.lexeme@) ==> r == Err::<
                (),
                Diagnostic,
            >(Diagnostic { kind: ErrorKind::DuplicateDeclaration, line: var.line })))),
            ((*stmt) matches Statement::Function(name, _, _) ==> (r matches Ok(_) ==> (old(self).stack@.len() > 0 ==> frame_has(final(self).stack@.last(), name.lexeme@)))),
            ((*stmt) matches Statement::Expression(e) ==> (e matches Expression::Variable(t) ==> r
                == Ok::<(), Diagnostic>(()) && final(self).stack == old(self).stack && (match
                distance_in(old(self).stack@, t.lexeme@) {
                Some(d) => if d <= i32::MAX {
                    final(self).locals@ == old(self).locals@.push(
                        LocalSlot { id: t.id, hops: d as i32 },
                    )
                } else {
                    final(self).locals == old(self).locals
                },
                None => final(self).locals == old(self).locals,
            }))),
        decreases stmt, 0int,
    {
        match stmt {
            Statement::Expression(e) => self.resolve_exp(e),
            Statement::If(c, then_s, else_s) => {
                match self.resolve_exp(c) {
                    Ok(()) => {},
                    Err(d) => {
                        return Err(d);
                    },
                }
                match self.resolve_stmt(then_s) {
                    Ok(()) => {},
                    Err(d) => {
                        return Err(d);
                    },
                }
                self.resolve_stmt(else_s)
            },
            Statement::Function(name, params, body) => self.resolve_function(name, params, body),
            Statement::Print(e) => self.resolve_exp(e),
            Statement::Return(_t, e) => self.resolve_exp(e),
            Statement::Var(var, init) => self.resolve_var(var, init),
            Statement::Block(stmts) => self.resolve_block(stmts),
            Statement::While(c, body) => {
                match self.resolve_exp(c) {
                    Ok(()) => {},
                    Err(d) => {
                        return Err(d);
                    },
                }
                self.resolve_stmt(body)
            },
            Statement::Break(_t) => Ok(()),
        }
    }

    /// A declaration: resolve the initializer first, then insist the name is
    /// new in the innermost frame — a redeclaration is rejected here, before
    /// anything executes. At top level (no frames) the dynamic environment
    /// does the equivalent check when the declaration runs.
    fn resolve_var(&mut self, var: &Token, init: &Expression) -> (r: Result<(), Diagnostic>)
        ensures
            r matches Ok(()) ==> final(self).stack@.len() == old(self).stack@.len() && (forall|
                i: int,
            |
                0 <= i < old(self).stack@.len() - 1 ==> final(self).stack@[i] == old(self).stack@[i]),
            r matches Ok(()) && old(self).stack@.len() > 0 ==> !frame_has(
                old(self).stack@.last(),
                var.lexeme@,
            ) && frame_has(final(self).stack@.last(), var.lexeme@),
            old(self).stack@.len() > 0 && frame_has(old(self).stack@.last(), var.lexeme@) ==> !(r
                matches Ok(())),
            ((*init) matches Expression::Literal(_) ==> (old(self).stack@.len() > 0 && frame_has(
                old(self).stack@.last(),
                var.lexeme@,
            ) ==> r == Err::<(), Diagnostic>(
                Diagnostic { kind: ErrorKind::DuplicateDeclaration, line: var.line },
            ))),
        decreases init, 1int,
    {
        match self.resolve_exp(init) {
            Ok(()) => {},
            Err(d) => {
                return Err(d);
            },
        }
        if self.stack.len() > 0 {
            let top = self.stack.len() - 1;
            if frame_contains(&self.stack[top], &var.lexeme) {
                return Err(self.handle_error(ErrorKind::DuplicateDeclaration, var.line));
            }
            self.declare_in_top(&var.lexeme);
        }
        Ok(())
    }

    /// A function declaration: bind the function's own name in the frame it is
    /// declared in (so the body can recurse), then resolve parameters and body
    /// in fresh frames. At top level there is no frame to bind the name in —
    /// the global environment checks the declaration when it runs — but the
    /// body still gets its frames, so its declarations are checked before
    /// anything executes.
    fn resolve_function(&mut self, name: &Token, params: &Vec<Token>, body: &Vec<Statement>) -> (r:
        Result<(), Diagnostic>)
        ensures
            r matches Ok(()) ==> final(self).stack@.len() == old(self).stack@.len() && (forall|
                i: int,
            |
                0 <= i < old(self).stack@.len() - 1 ==> final(self).stack@[i] == old(self).stack@[i]),
            r matches Ok(()) ==> (old(self).stack@.len() > 0 ==> frame_has(
                final(self).stack@.last(),
                name.lexeme@,
            )),
        decreases body, 1int,
    {
        if self.stack.len() > 0 {
            self.declare_in_top(&name.lexeme);
            proof {
                assert(frame_has(self.stack@.last(), name.lexeme@));
                assert(self.stack@.last() == self.stack@[self.stack@.len() - 1]);
            }
        }
        self.begin_scope();
        let n = params.len();
        let mut i: usize = 0;
        while i < n
            invariant
                n == params@.len(),
                i <= n,
                self.stack@.len() == old(self).stack@.len() + 1,
                forall|k: int|
                    0 <= k < old(self).stack@.len() - 1 ==> self.stack@[k] == old(self).stack@[k],
                old(self).stack@.len() > 0 ==> frame_has(
                    self.stack@[old(self).stack@.len() - 1],
                    name.lexeme@,
                ),
            decreases n - i,
        {
            self.declare_in_top(&params[i].lexeme);
            i += 1;
        }
        match self.resolve_block(body) {
            Ok(()) => {},
            Err(d) => {
                return Err(d);
            },
        }
        self.end_scope();
        Ok(())
    }

    /// A block: a fresh frame around its statements.
    fn resolve_block(&mut self, stmts: &Vec<Statement>) -> (r: Result<(), Diagnostic>)
        ensures
            r matches Ok(()) ==> final(self).stack@.len() == old(self).stack@.len() && (forall|
                i: int,
            |
                0 <= i < old(self).stack@.len() ==> final(self).stack@[i] == old(self).stack@[i]),
        decreases stmts, 0int,
    {
        self.begin_scope();
        let n = stmts.len();
        let mut i: usize = 0;
        while i < n
            invariant
                n == stmts@.len(),
                i <= n,
                self.stack@.len() == old(self).stack@.len() + 1,
                forall|k: int|
                    0 <= k < old(self).stack@.len() ==> self.stack@[k] == old(self).stack@[k],
            decreases n - i,
        {
            match self.resolve_stmt(&stmts[i]) {
                Ok(()) => {
                    i += 1;
                },
                Err(d) => {
                    return Err(d);
                },
            }
        }
        self.end_scope();
        Ok(())
    }

    /// Resolve one expression. Expressions never declare into existing frames,
    /// so on success every frame that existed at entry is exactly as it was;
    /// a literal touches nothing at all, and a variable reference extends the
    /// side-table exactly as `distance_in` directs.
    #[verifier::loop_isolation(false)]
    fn resolve_exp(&mut self, exp: &Expression) -> (r: Result<(), Diagnostic>)
        ensures
            r matches Ok(()) ==> final(self).stack@.len() == old(self).stack@.len() && (forall|
                i: int,
            |
                0 <= i < old(self).stack@.len() ==> final(self).stack@[i] == old(self).stack@[i]),
            ((*exp) matches Expression::Literal(_) ==> r == Ok::<(), Diagnostic>(()) && *final(self)
                == *old(self)),
            ((*exp) matches Expression::Variable(t) ==> r == Ok::<(), Diagnostic>(()) && final(self).stack == old(self).stack && (match distance_in(old(self).stack@, t.lexeme@) {
                Some(d) => if d <= i32::MAX {
                    final(self).locals@ == old(self).locals@.push(
                        LocalSlot { id: t.id, hops: d as i32 },
                    )
                } else {
                    final(self).locals == old(self).locals
                },
                None => final(self).locals == old(self).locals,
            })),
        decreases exp, 0int,
    {
        match exp {
            Expression::Assign(target, _o, v) => {
                match self.resolve_exp(target) {
                    Ok(()) => {},
                    Err(d) => {
                        return Err(d);
                    },
                }
                self.resolve_exp(v)
            },
            Expression::Binary(l, _o, rr) => {
                match self.resolve_exp(l) {
                    Ok(()) => {},
                    Err(d) => {
                        return Err(d);
                    },
                }
                self.resolve_exp(rr)
            },
            Expression::Unary(_o, rr) => self.resolve_exp(rr),
            Expression::Call(callee, _paren, args) => {
                match self.resolve_exp(callee) {
                    Ok(()) => {},
                    Err(d) => {
                        return Err(d);
                    },
                }
                let n = args.len();
                let mut i: usize = 0;
                while i < n
                    invariant
                        n == args@.len(),
                        i <= n,
                        self.stack@.len() == old(self).stack@.len(),
                        forall|k: int|
                            0 <= k < old(self).stack@.len() ==> self.stack@[k] == old(self).stack@[k],
                    decreases n - i,
                {
                    match self.resolve_exp(&args[i]) {
                        Ok(()) => {
                            i += 1;
                        },
                        Err(d) => {
                            return Err(d);
                        },
                    }
                }
                Ok(())
            },
            Expression::Logical(l, _o, rr) => {
                match self.resolve_exp(l) {
                    Ok(()) => {},
                    Err(d) => {
                        return Err(d);
                    },
                }
                self.resolve_exp(rr)
            },
            Expression::Literal(_l) => Ok(()),
            Expression::Grouping(g) => self.resolve_exp(g),
            Expression::Variable(t) => self.resolve_variable(t),
            Expression::Lambda(params, body) => self.resolve_lambda(params, body),
            Expression::Index(l, _t, k) => {
                match self.resolve_exp(l) {
                    Ok(()) => {},
                    Err(d) => {
                        return Err(d);
                    },
                }
                self.resolve_exp(k)
            },
            Expression::List(items, _t) => {
                let n = items.len();
                let mut i: usize = 0;
                while i < n
                    invariant
                        n == items@.len(),
                        i <= n,
                        self.stack@.len() == old(self).stack@.len(),
                        forall|k: int|
                            0 <= k < old(self).stack@.len() ==> self.stack@[k] == old(self).stack@[k],
                    decreases n - i,
                {
                    match self.resolve_exp(&items[i]) {
                        Ok(()) => {
                            i += 1;
                        },
                        Err(d) => {
                            return Err(d);
                        },
                    }
                }
                Ok(())
            },
        }
    }

    /// A lambda: parameters and body in fresh frames, wherever the lambda
    /// stands; there is no name to bind.
    fn resolve_lambda(&mut self, params: &Vec<Token>, body: &Vec<Statement>) -> (r: Result<
        (),
        Diagnostic,
    >)
        ensures
            r matches Ok(()) ==> final(self).stack@.len() == old(self).stack@.len() && (forall|
                i: int,
            |
                0 <= i < old(self).stack@.len() ==> final(self).stack@[i] == old(self).stack@[i]),
        decreases body, 1int,
    {
        self.begin_scope();
        let n = params.len();
        let mut i: usize = 0;
        while i < n
            invariant
                n == params@.len(),
                i <= n,
                self.stack@.len() == old(self).stack@.len() + 1,
                forall|k: int|
                    0 <= k < old(self).stack@.len() ==> self.stack@[k] == old(self).stack@[k],
            decreases n - i,
        {
            self.declare_in_top(&params[i].lexeme);
            i += 1;
        }
        match self.resolve_block(body) {
            Ok(()) => {},
            Err(d) => {
                return Err(d);
            },
        }
        self.end_scope();
        Ok(())
    }
}

} // verus!
