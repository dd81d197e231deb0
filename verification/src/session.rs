use vstd::prelude::*;

use crate::ast::Diagnostic;
use crate::ast::ErrorKind;
use crate::ast::Value;
use crate::func::Callable;
use crate::host::FloatHost;
use crate::interpreter::Interpreter;
use crate::interpreter::LocalSlot;
use crate::parser::Parser;
use crate::resolver::Resolver;
use crate::scanner::scan;
use crate::support::copy_vec;

verus! {

/// An independent copy of the list arena, element by element.
fn clone_lists(v: &Vec<Vec<Value>>) -> (r: Vec<Vec<Value>>)
    ensures
        r@.len() == v@.len(),
        forall|i: int| 0 <= i < v@.len() ==> (#[trigger] r@[i])@ == v@[i]@,
{
    let mut r: Vec<Vec<Value>> = Vec::new();
    let n = v.len();
    let mut i: usize = 0;
    while i < n
        invariant
            n == v@.len(),
            i <= n,
            r@.len() == i,
            forall|k: int| 0 <= k < i ==> (#[trigger] r@[k])@ == v@[k]@,
        decreases n - i,
    {
        r.push(copy_vec(&v[i]));
        i += 1;
    }
    r
}

/// Everything that makes up a session's bindings, as mathematics: the scope
/// chain (parent links and maps), the cursor, the list arena's contents, the
/// callables, the interned strings, and the side-table. Printed output is
/// deliberately not here: printing already happened and cannot be unprinted.
pub open spec fn state_model<H: FloatHost>(it: Interpreter<H>) -> (
    Seq<(Option<usize>, Map<Seq<u8>, Value>)>,
    usize,
    Seq<Seq<Value>>,
    Seq<Callable>,
    Seq<Vec<u8>>,
    Seq<LocalSlot>,
) {
    (
        Seq::new(it.env.scopes@.len(), |i: int| (it.env.scopes@[i].parent, it.env.scopes@[i]@)),
        it.current,
        it.lists_model(),
        it.funcs@,
        it.strings@,
        it.locals@,
    )
}

/// The resolver's state, as mathematics: the side-table and the frame stack's
/// names.
pub open spec fn resolver_model(r: Resolver) -> (Seq<LocalSlot>, Seq<Seq<Seq<u8>>>) {
    (
        r.locals@,
        Seq::new(
            r.stack@.len(),
            |i: int|
                Seq::new(r.stack@[i].names@.len(), |j: int| r.stack@[i].names@[j]@),
        ),
    )
}

/// One interactive session: an interpreter, a resolver, and the token-identity
/// counter that keeps every scanned token distinct across lines.
pub struct Session<H: FloatHost> {
    pub interpreter: Interpreter<H>,
    pub resolver: Resolver,
    pub next_id: u64,
}

impl<H: FloatHost> Session<H> {
    pub open spec fn wf(self) -> bool {
        self.interpreter.wf()
    }

    pub fn new(host: H) -> (r: Self)
        ensures
            r.wf(),
    {
        Session { interpreter: Interpreter::new(host), resolver: Resolver::new(), next_id: 0 }
    }

    /// Run one line against the session. Before anything executes, the whole
    /// binding state is snapshotted; a line that fails — in the scanner, the
    /// parser, the resolver or the interpreter — rolls the session back to
    /// that snapshot exactly, so no partial binding or half-done mutation of
    /// the failed line survives. What the failed line already printed stays
    /// printed. A line that succeeds keeps whatever the stages built (nothing
    /// is restored) and moves the token-identity counter past the line's
    /// tokens, so the next line's tokens stay distinct; an empty line always
    /// succeeds.
    pub fn run_line(&mut self, source: &Vec<u8>) -> (r: Result<(), Diagnostic>)
        requires
            old(self).wf(),
        ensures
            final(self).wf(),
            r matches Err(_) ==> state_model(final(self).interpreter) == state_model(
                old(self).interpreter,
            ) && resolver_model(final(self).resolver) == resolver_model(old(self).resolver)
                && final(self).next_id == old(self).next_id,
            old(self).interpreter.output@.len() <= final(self).interpreter.output@.len(),
            forall|i: int|
                0 <= i < old(self).interpreter.output@.len()
                    ==> final(self).interpreter.output@[i] == old(self).interpreter.output@[i],
            r matches Ok(_) ==> old(self).next_id < final(self).next_id && final(self).next_id
                <= old(self).next_id + source@.len() + 1,
            source@.len() == 0 && old(self).next_id <= u64::MAX - 1 ==> r matches Ok(_),
    {
        if source.len() >= usize::MAX {
            return Err(Diagnostic { kind: ErrorKind::ScanError, line: 0 });
        }
        let budget: u64 = u64::MAX - (source.len() as u64) - 1;
        if self.next_id > budget {
            return Err(Diagnostic { kind: ErrorKind::ScanError, line: 0 });
        }
        let tokens = match scan(source, self.next_id) {
            Ok(t) => t,
            Err(d) => {
                return Err(d);
            },
        };
        let token_count = tokens.len() as u64;
        let mut parser = Parser::new(tokens);
        let statements = match parser.parse() {
            Ok(s) => s,
            Err(d) => {
                return Err(d);
            },
        };
        let save_resolver = self.resolver.clone();
        let save_env = self.interpreter.env.clone();
        let save_current = self.interpreter.current;
        let save_lists = clone_lists(&self.interpreter.lists);
        let save_locals = copy_vec(&self.interpreter.locals);
        let save_funcs_len = self.interpreter.funcs.len();
        let save_strings_len = self.interpreter.strings.len();
        match self.resolver.resolve(&statements) {
            Ok(()) => {},
            Err(d) => {
                self.resolver = save_resolver;
                proof {
                    assert(resolver_model(self.resolver) =~~= resolver_model(old(self).resolver));
                }
                return Err(d);
            },
        }
        self.interpreter.locals = self.resolver.give_local();
        match self.interpreter.interpret(&statements) {
            Ok(()) => {
                self.next_id = self.next_id + token_count;
                Ok(())
            },
            Err(d) => {
                self.resolver = save_resolver;
                self.interpreter.env = save_env;
                self.interpreter.current = save_current;
                self.interpreter.lists = save_lists;
                self.interpreter.locals = save_locals;
                self.interpreter.funcs.truncate(save_funcs_len);
                self.interpreter.strings.truncate(save_strings_len);
                proof {
                    assert(self.interpreter.funcs@ =~= old(self).interpreter.funcs@);
                    assert(self.interpreter.strings@ =~= old(self).interpreter.strings@);
                    assert(self.interpreter.lists_model() =~= old(
                        self,
                    ).interpreter.lists_model());
                    assert(state_model(self.interpreter) =~~= state_model(
                        old(self).interpreter,
                    ));
                    assert(resolver_model(self.resolver) =~~= resolver_model(
                        old(self).resolver,
                    ));
                    assert forall|i: int, n: Seq<u8>|
                        0 <= i < self.interpreter.env.scopes@.len() && (
                        #[trigger] self.interpreter.env.scopes@[i]@.contains_key(
                            n,
                        )) implies self.interpreter.val_ok(self.interpreter.env.scopes@[i]@[n]) by {
                        assert(old(self).interpreter.env.scopes@[i]@.contains_key(n));
                        assert(self.interpreter.env.scopes@[i]@[n] == old(
                            self,
                        ).interpreter.env.scopes@[i]@[n]);
                    }
                    assert forall|i: int, j: int|
                        0 <= i < self.interpreter.lists@.len() && 0 <= j
                            < self.interpreter.lists@[i]@.len() implies self.interpreter.val_ok(
                        #[trigger] self.interpreter.lists@[i]@[j],
                    ) by {
                        assert(self.interpreter.lists@[i]@[j] == old(
                            self,
                        ).interpreter.lists@[i]@[j]);
                    }
                    assert forall|i: int|
                        0 <= i < self.interpreter.funcs@.len() implies self.interpreter.callable_ok(
                        #[trigger] self.interpreter.funcs@[i],
                    ) by {
                        assert(self.interpreter.funcs@[i] == old(self).interpreter.funcs@[i]);
                    }
                }
                Err(d)
            },
        }
    }
}

/// One-shot execution of a whole source text against a fresh session: scan,
/// parse, resolve, interpret. Returns whatever `print` produced (even on a
/// failing run, everything printed before the failure is there) and the
/// outcome. An empty source runs to a silent success.
pub fn run_source<H: FloatHost>(host: H, source: &Vec<u8>) -> (r: (
    Vec<Vec<u8>>,
    Result<(), Diagnostic>,
))
    ensures
        source@.len() == 0 ==> r.1 == Ok::<(), Diagnostic>(()) && r.0@.len() == 0,
{
    let mut interpreter = Interpreter::new(host);
    if source.len() >= usize::MAX {
        return (interpreter.output, Err(Diagnostic { kind: ErrorKind::ScanError, line: 0 }));
    }
    let tokens = match scan(source, 0) {
        Ok(t) => t,
        Err(d) => {
            return (interpreter.output, Err(d));
        },
    };
    let mut parser = Parser::new(tokens);
    let statements = match parser.parse() {
        Ok(s) => s,
        Err(d) => {
            return (interpreter.output, Err(d));
        },
    };
    let mut resolver = Resolver::new();
    match resolver.resolve(&statements) {
        Ok(()) => {},
        Err(d) => {
            return (interpreter.output, Err(d));
        },
    }
    interpreter.locals = resolver.give_local();
    let outcome = interpreter.interpret(&statements);
    (interpreter.output, outcome)
}

} // verus!
