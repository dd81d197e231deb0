use vstd::prelude::*;

use crate::ast::BreakResult;
use crate::ast::Diagnostic;
use crate::ast::ErrorKind;
use crate::ast::Expression;
use crate::ast::Lit;
use crate::ast::Statement;
use crate::ast::Value;
use crate::ast::clone_statements;
use crate::ast::expr_like;
use crate::ast::lit_like;
use crate::ast::stmt_like;
use crate::ast::token_like;
use crate::ast::clone_tokens;
use crate::environment::Environment;
use crate::func::Builtin;
use crate::func::Callable;
use crate::func::Function;
use crate::func::Lambda;
use crate::func::builtin_arity;
use crate::func::distinct_names;
use crate::func::builtin_arity_of;
use crate::host::FloatHost;
use crate::host::abs_bits;
use crate::host::eq_bits;
use crate::host::f_abs;
use crate::host::f_eq;
use crate::host::f_is_zero;
use crate::host::f_le;
use crate::host::f_lt;
use crate::host::f_neg;
use crate::host::is_zero_bits;
use crate::host::le_bits;
use crate::host::lt_bits;
use crate::host::neg_bits;
use crate::semantics::bool_text;
use crate::semantics::dec_rep;
use crate::semantics::int_arith;
use crate::semantics::int_binary;
use crate::semantics::int_to_bytes;
use crate::semantics::is_numeric_op;
use crate::semantics::is_ordering_op;
use crate::semantics::nil_text;
use crate::support::copy_vec;
use crate::token::Token;
use crate::token::TokenKind;

verus! {

/// One entry of the resolver's side-table: the token with identity `id`
/// resolves `hops` enclosing scopes out from the scope current when the
/// reference is evaluated.
#[derive(PartialEq, Eq, Structural, Debug, Clone, Copy)]
pub struct LocalSlot {
    pub id: u64,
    pub hops: i32,
}

/// The side-table as a map: later entries win, as with repeated insertion.
pub open spec fn hops_of(s: Seq<LocalSlot>, id: u64) -> Option<i32>
    decreases s.len(),
{
    if s.len() == 0 {
        None
    } else if s.last().id == id {
        Some(s.last().hops)
    } else {
        hops_of(s.drop_last(), id)
    }
}

pub fn find_hops(locals: &Vec<LocalSlot>, id: u64) -> (r: Option<i32>)
    ensures
        r == hops_of(locals@, id),
{
    let mut i = locals.len();
    proof {
        assert(locals@.subrange(0, locals@.len() as int) =~= locals@);
    }
    while i > 0
        invariant
            i <= locals@.len(),
            hops_of(locals@, id) == hops_of(locals@.subrange(0, i as int), id),
        decreases i,
    {
        i -= 1;
        let ghost pre = locals@.subrange(0, i + 1);
        proof {
            assert(pre.last() == locals@[i as int]);
            assert(pre.drop_last() =~= locals@.subrange(0, i as int));
        }
        if locals[i].id == id {
            return Some(locals[i].hops);
        }
    }
    proof {
        assert(locals@.subrange(0, 0) =~= Seq::<LocalSlot>::empty());
    }
    None
}


/// The name of each built-in, as the byte sequence the scanner produces.
pub open spec fn builtin_name_spec(b: Builtin) -> Seq<u8> {
    match b {
        Builtin::Timeit => seq![116u8, 105u8, 109u8, 101u8, 105u8, 116u8],
        Builtin::Abs => seq![97u8, 98u8, 115u8],
        Builtin::Len => seq![108u8, 101u8, 110u8],
        Builtin::CopyList => seq![99u8, 111u8, 112u8, 121u8],
        Builtin::Append => seq![97u8, 112u8, 112u8, 101u8, 110u8, 100u8],
        Builtin::Concat => seq![99u8, 111u8, 110u8, 99u8, 97u8, 116u8],
    }
}

/// The name of a built-in, as bytes (Verus takes no byte-string literals,
/// so the ASCII codes are pushed one by one).
fn builtin_name(b: Builtin) -> (v: Vec<u8>)
    ensures
        v@ == builtin_name_spec(b),
{
    let mut v: Vec<u8> = Vec::new();
    match b {
        Builtin::Timeit => {
            v.push(116);  // 't'
            v.push(105);  // 'i'
            v.push(109);  // 'm'
            v.push(101);  // 'e'
            v.push(105);  // 'i'
            v.push(116);  // 't'
        },
        Builtin::Abs => {
            v.push(97);  // 'a'
            v.push(98);  // 'b'
            v.push(115);  // 's'
        },
        Builtin::Len => {
            v.push(108);  // 'l'
            v.push(101);  // 'e'
            v.push(110);  // 'n'
        },
        Builtin::CopyList => {
            v.push(99);  // 'c'
            v.push(111);  // 'o'
            v.push(112);  // 'p'
            v.push(121);  // 'y'
        },
        Builtin::Append => {
            v.push(97);  // 'a'
            v.push(112);  // 'p'
            v.push(112);  // 'p'
            v.push(101);  // 'e'
            v.push(110);  // 'n'
            v.push(100);  // 'd'
        },
        Builtin::Concat => {
            v.push(99);  // 'c'
            v.push(111);  // 'o'
            v.push(110);  // 'n'
            v.push(99);  // 'c'
            v.push(97);  // 'a'
            v.push(116);  // 't'
        },
    }
    assert(v@ =~= builtin_name_spec(b));
    v
}

/// An independent copy of a slice's bytes.
pub fn bytes_of(s: &[u8]) -> (r: Vec<u8>)
    ensures
        r@ == s@,
{
    let mut r: Vec<u8> = Vec::new();
    let n = s.len();
    let mut i: usize = 0;
    while i < n
        invariant
            n == s@.len(),
            i <= n,
            r@ =~= s@.subrange(0, i as int),
        decreases n - i,
    {
        r.push(s[i]);
        i += 1;
    }
    assert(r@ =~= s@);
    r
}

/// Truthiness: a boolean reads as itself, numeric zero of either kind is
/// false, the absent value is false, and every other value is true.
pub open spec fn truthy(v: Value) -> bool {
    match v {
        Value::Bool(b) => b,
        Value::Int(n) => n != 0,
        Value::Float(bits) => !is_zero_bits(bits),
        Value::Nil => false,
        _ => true,
    }
}

/// The evaluator. All heap-like storage is held in arenas: interned strings,
/// shared mutable lists, callables, and the scope chain; a `Value` carries
/// only indexes into them. `output` collects what `print` rendered, one line
/// per entry; the embedder drains it.
pub struct Interpreter<H: FloatHost> {
    pub host: H,
    pub env: Environment,
    pub current: usize,
    pub strings: Vec<Vec<u8>>,
    pub lists: Vec<Vec<Value>>,
    pub funcs: Vec<Callable>,
    pub output: Vec<Vec<u8>>,
    pub locals: Vec<LocalSlot>,
}

impl<H: FloatHost> Interpreter<H> {
    /// The lists arena, element by element.
    pub open spec fn lists_model(self) -> Seq<Seq<Value>> {
        Seq::new(self.lists@.len(), |i: int| self.lists@[i]@)
    }

    /// The string arena, element by element.
    pub open spec fn strs(self) -> Seq<Seq<u8>> {
        Seq::new(self.strings@.len(), |i: int| self.strings@[i]@)
    }

    /// A value's arena indexes are in bounds.
    pub open spec fn val_ok(self, v: Value) -> bool {
        match v {
            Value::Str(i) => i < self.strings@.len(),
            Value::List(i) => i < self.lists@.len(),
            Value::Call(i) => i < self.funcs@.len(),
            _ => true,
        }
    }

    pub open spec fn callable_ok(self, c: Callable) -> bool {
        match c {
            Callable::Builtin(_) => true,
            Callable::Function(f) => f.env < self.env.depth(),
            Callable::Lambda(l) => l.env < self.env.depth(),
        }
    }

    /// The interpreter's invariant: the scope chain is well-formed, the cursor
    /// points into it, and every value reachable from a scope or a list has
    /// in-bounds arena indexes, as does every callable's captured scope.
    pub open spec fn wf(self) -> bool {
        &&& self.env.wf()
        &&& self.current < self.env.depth()
        &&& forall|i: int, n: Seq<u8>|
            0 <= i < self.env.scopes@.len() && (#[trigger] self.env.scopes@[i]@.contains_key(n))
                ==> self.val_ok(self.env.scopes@[i]@[n])
        &&& forall|i: int, j: int|
            0 <= i < self.lists@.len() && 0 <= j < self.lists@[i]@.len() ==> self.val_ok(
                #[trigger] self.lists@[i]@[j],
            )
        &&& forall|i: int| 0 <= i < self.funcs@.len() ==> self.callable_ok(#[trigger] self.funcs@[i])
    }

    /// How one interpreter state may follow another over any run of execution:
    /// interned strings and callables are only ever appended, lists and scopes
    /// are only ever added (though their contents may change), printed output
    /// is only appended, and the side-table is read, never written.
    pub open spec fn evolves_to(self, post: Self) -> bool {
        &&& self.strings@.len() <= post.strings@.len()
        &&& forall|i: int| 0 <= i < self.strings@.len() ==> post.strings@[i] == self.strings@[i]
        &&& self.funcs@.len() <= post.funcs@.len()
        &&& forall|i: int| 0 <= i < self.funcs@.len() ==> post.funcs@[i] == self.funcs@[i]
        &&& self.lists@.len() <= post.lists@.len()
        &&& self.env.depth() <= post.env.depth()
        &&& forall|i: int|
            0 <= i < self.env.depth() ==> post.env.scopes@[i].parent == self.env.scopes@[i].parent
        &&& self.output@.len() <= post.output@.len()
        &&& forall|i: int| 0 <= i < self.output@.len() ==> post.output@[i] == self.output@[i]
        &&& post.locals == self.locals
        &&& forall|i: int, n: Seq<u8>|
            0 <= i < self.env.scopes@.len() && (#[trigger] self.env.scopes@[i]@.contains_key(n))
                ==> post.env.scopes@[i]@.contains_key(n)
    }

    /// A fresh interpreter: one global scope holding exactly the six
    /// built-ins, each bound to its callable, and nothing else anywhere.
    pub fn new(host: H) -> (r: Self)
        ensures
            r.wf(),
            r.current == 0,
            r.env.depth() == 1,
            r.output@ == Seq::<Vec<u8>>::empty(),
            r.locals@ == Seq::<LocalSlot>::empty(),
            r.strings@.len() == 0,
            r.lists@.len() == 0,
            r.funcs@ == seq![
                Callable::Builtin(Builtin::Timeit),
                Callable::Builtin(Builtin::Abs),
                Callable::Builtin(Builtin::Len),
                Callable::Builtin(Builtin::CopyList),
                Callable::Builtin(Builtin::Append),
                Callable::Builtin(Builtin::Concat),
            ],
            r.env.scopes@[0]@ == Map::<Seq<u8>, Value>::empty().insert(
                builtin_name_spec(Builtin::Timeit),
                Value::Call(0),
            ).insert(builtin_name_spec(Builtin::Abs), Value::Call(1)).insert(
                builtin_name_spec(Builtin::Len),
                Value::Call(2),
            ).insert(builtin_name_spec(Builtin::CopyList), Value::Call(3)).insert(
                builtin_name_spec(Builtin::Append),
                Value::Call(4),
            ).insert(builtin_name_spec(Builtin::Concat), Value::Call(5)),
    {
        let mut env = Environment::new();
        let mut funcs: Vec<Callable> = Vec::new();
        funcs.push(Callable::Builtin(Builtin::Timeit));
        funcs.push(Callable::Builtin(Builtin::Abs));
        funcs.push(Callable::Builtin(Builtin::Len));
        funcs.push(Callable::Builtin(Builtin::CopyList));
        funcs.push(Callable::Builtin(Builtin::Append));
        funcs.push(Callable::Builtin(Builtin::Concat));
        env.define_default(0, &builtin_name(Builtin::Timeit), Value::Call(0));
        env.define_default(0, &builtin_name(Builtin::Abs), Value::Call(1));
        env.define_default(0, &builtin_name(Builtin::Len), Value::Call(2));
        env.define_default(0, &builtin_name(Builtin::CopyList), Value::Call(3));
        env.define_default(0, &builtin_name(Builtin::Append), Value::Call(4));
        env.define_default(0, &builtin_name(Builtin::Concat), Value::Call(5));
        let r = Interpreter {
            host,
            env,
            current: 0,
            strings: Vec::new(),
            lists: Vec::new(),
            funcs,
            output: Vec::new(),
            locals: Vec::new(),
        };
        proof {
            assert(r.funcs@ =~= seq![
                Callable::Builtin(Builtin::Timeit),
                Callable::Builtin(Builtin::Abs),
                Callable::Builtin(Builtin::Len),
                Callable::Builtin(Builtin::CopyList),
                Callable::Builtin(Builtin::Append),
                Callable::Builtin(Builtin::Concat),
            ]);
        }
        r
    }

    /// Intern a byte string, returning its index.
    fn intern(&mut self, bytes: Vec<u8>) -> (i: usize)
        requires
            old(self).wf(),
        ensures
            final(self).wf(),
            old(self).evolves_to(*final(self)),
            i == old(self).strings@.len(),
            final(self).strings@ == old(self).strings@.push(bytes),
            final(self).env == old(self).env,
            final(self).current == old(self).current,
            final(self).lists == old(self).lists,
            final(self).funcs == old(self).funcs,
            final(self).output == old(self).output,
            final(self).val_ok(Value::Str(i)),
    {
        let i = self.strings.len();
        self.strings.push(bytes);
        i
    }

    /// Allocate a fresh list, returning its index.
    fn new_list(&mut self, items: Vec<Value>) -> (i: usize)
        requires
            old(self).wf(),
            forall|j: int| 0 <= j < items@.len() ==> old(self).val_ok(#[trigger] items@[j]),
        ensures
            final(self).wf(),
            old(self).evolves_to(*final(self)),
            i == old(self).lists@.len(),
            final(self).lists_model() == old(self).lists_model().push(items@),
            final(self).env == old(self).env,
            final(self).current == old(self).current,
            final(self).strings == old(self).strings,
            final(self).funcs == old(self).funcs,
            final(self).output == old(self).output,
            final(self).val_ok(Value::List(i)),
    {
        let i = self.lists.len();
        self.lists.push(items);
        proof {
            assert(final(self).lists_model() =~= old(self).lists_model().push(items@));
        }
        i
    }

    /// The truthiness of a value, as `truthy` states it.
    pub fn to_bool(&self, v: &Value) -> (r: bool)
        ensures
            r == truthy(*v),
    {
        match *v {
            Value::Bool(b) => b,
            Value::Int(n) => n != 0,
            Value::Float(bits) => !crate::host::f_is_zero(bits),
            Value::Nil => false,
            _ => true,
        }
    }

    /// The language's `==`: defined between values of one tag, and plain
    /// `false` across tags — equality never raises an error. Strings compare
    /// by contents; lists and callables by identity (the arena cell), so two
    /// aliases of one list are equal and two lists built alike are not.
    pub open spec fn eq_vals(self, a: Value, b: Value) -> bool {
        match (a, b) {
            (Value::Int(m), Value::Int(n)) => m == n,
            (Value::Float(x), Value::Float(y)) => eq_bits(x, y),
            (Value::Bool(x), Value::Bool(y)) => x == y,
            (Value::Str(i), Value::Str(j)) => self.strings@[i as int]@ == self.strings@[j as int]@,
            (Value::List(i), Value::List(j)) => i == j,
            (Value::Call(i), Value::Call(j)) => i == j,
            (Value::Nil, Value::Nil) => true,
            _ => false,
        }
    }

    pub fn value_eq(&self, a: Value, b: Value) -> (r: bool)
        requires
            self.wf(),
            self.val_ok(a),
            self.val_ok(b),
        ensures
            r == self.eq_vals(a, b),
    {
        match (a, b) {
            (Value::Int(m), Value::Int(n)) => m == n,
            (Value::Float(x), Value::Float(y)) => f_eq(x, y),
            (Value::Bool(x), Value::Bool(y)) => x == y,
            (Value::Str(i), Value::Str(j)) => crate::support::bytes_eq(
                &self.strings[i],
                &self.strings[j],
            ),
            (Value::List(i), Value::List(j)) => i == j,
            (Value::Call(i), Value::Call(j)) => i == j,
            (Value::Nil, Value::Nil) => true,
            _ => false,
        }
    }

    /// Add a callable to the arena, returning its index.
    fn push_callable(&mut self, c: Callable) -> (i: usize)
        requires
            old(self).wf(),
            old(self).callable_ok(c),
        ensures
            final(self).wf(),
            old(self).evolves_to(*final(self)),
            i == old(self).funcs@.len(),
            final(self).funcs@ == old(self).funcs@.push(c),
            final(self).env == old(self).env,
            final(self).current == old(self).current,
            final(self).strings == old(self).strings,
            final(self).lists == old(self).lists,
            final(self).output == old(self).output,
            final(self).val_ok(Value::Call(i)),
    {
        let i = self.funcs.len();
        self.funcs.push(c);
        i
    }

    /// Declare in the current scope, keeping the interpreter invariant.
    fn define_checked(&mut self, var: &Token, v: Value) -> (r: Result<(), Diagnostic>)
        requires
            old(self).wf(),
            old(self).val_ok(v),
        ensures
            final(self).wf(),
            old(self).evolves_to(*final(self)),
            final(self).current == old(self).current,
            final(self).strings == old(self).strings,
            final(self).lists == old(self).lists,
            final(self).funcs == old(self).funcs,
            final(self).output == old(self).output,
            final(self).env.depth() == old(self).env.depth(),
            if old(self).env.scopes@[old(self).current as int]@.contains_key(var.lexeme@) {
                r == Err::<(), Diagnostic>(
                    Diagnostic { kind: ErrorKind::DuplicateDeclaration, line: var.line },
                ) && final(self).env == old(self).env
            } else {
                r == Ok::<(), Diagnostic>(()) && final(self).env.scopes@[old(self).current as int]@
                    == old(self).env.scopes@[old(self).current as int]@.insert(var.lexeme@, v)
                    && forall|j: int|
                    0 <= j < old(self).env.depth() && j != old(self).current
                        ==> final(self).env.scopes@[j] == old(self).env.scopes@[j]
            },
    {
        let cur = self.current;
        match self.env.define(cur, var, v) {
            Ok(_) => {
                proof {
                    assert forall|i: int, n: Seq<u8>|
                        0 <= i < self.env.scopes@.len() && (
                        #[trigger] self.env.scopes@[i]@.contains_key(n)) implies self.val_ok(
                        self.env.scopes@[i]@[n],
                    ) by {
                        if i == cur as int {
                            if n == var.lexeme@ {
                            } else {
                                assert(old(self).env.scopes@[i]@.contains_key(n));
                            }
                        } else {
                            assert(old(self).env.scopes@[i]@.contains_key(n));
                        }
                    }
                }
                Ok(())
            },
            Err(d) => Err(d),
        }
    }

    /// Assign through the chain, keeping the interpreter invariant.
    fn assign_checked(&mut self, var: &Token, v: Value) -> (r: Result<(), Diagnostic>)
        requires
            old(self).wf(),
            old(self).val_ok(v),
        ensures
            final(self).wf(),
            old(self).evolves_to(*final(self)),
            final(self).current == old(self).current,
            final(self).strings == old(self).strings,
            final(self).lists == old(self).lists,
            final(self).funcs == old(self).funcs,
            final(self).output == old(self).output,
            final(self).env.depth() == old(self).env.depth(),
            match old(self).env.resolve_scope(old(self).current as int, var.lexeme@) {
                Some(k) => r == Ok::<(), Diagnostic>(()) && final(self).env.scopes@[k]@ == old(self).env.scopes@[k]@.insert(var.lexeme@, v),
                None => r == Err::<(), Diagnostic>(
                    Diagnostic { kind: ErrorKind::UndefinedVariable, line: var.line },
                ) && final(self).env == old(self).env,
            },
    {
        let cur = self.current;
        match self.env.assign(cur, var, v) {
            Ok(_) => {
                proof {
                    let k = old(self).env.resolve_scope(cur as int, var.lexeme@)->Some_0;
                    assert forall|i: int, n: Seq<u8>|
                        0 <= i < self.env.scopes@.len() && (
                        #[trigger] self.env.scopes@[i]@.contains_key(n)) implies self.val_ok(
                        self.env.scopes@[i]@[n],
                    ) by {
                        if i == k {
                            if n == var.lexeme@ {
                            } else {
                                assert(old(self).env.scopes@[i]@.contains_key(n));
                            }
                        } else {
                            assert(old(self).env.scopes@[i]@.contains_key(n));
                        }
                    }
                }
                Ok(())
            },
            Err(d) => Err(d),
        }
    }

    /// Render a value for `print`, one format rule per tag: numbers in their
    /// decimal form, booleans as `true`/`false`, the absent value as `none`,
    /// strings as their bytes, lists as their bracketed element sequence, and
    /// callables as a bracketed name. `depth` bounds descent into nested
    /// lists, which can be cyclic through aliasing; past it a list renders as
    /// an ellipsis.
    pub fn render_value(&self, v: Value, depth: u32) -> (r: Vec<u8>)
        requires
            self.wf(),
            self.val_ok(v),
        ensures
            (v matches Value::Int(n) ==> r@ == dec_rep(n as int)),
            (v matches Value::Bool(b) ==> r@ == bool_text(b)),
            (v == Value::Nil ==> r@ == nil_text()),
            (v matches Value::Str(i) ==> r@ == self.strings@[i as int]@),
        decreases depth,
    {
        match v {
            Value::Int(n) => {
                let r = int_to_bytes(n);
                r
            },
            Value::Bool(b) => {
                let mut r: Vec<u8> = Vec::new();
                if b {
                    r.push(116);  // 't'
                    r.push(114);  // 'r'
                    r.push(117);  // 'u'
                    r.push(101);  // 'e'
                } else {
                    r.push(102);  // 'f'
                    r.push(97);  // 'a'
                    r.push(108);  // 'l'
                    r.push(115);  // 's'
                    r.push(101);  // 'e'
                }
                assert(r@ =~= bool_text(b));
                r
            },
            Value::Nil => {
                let mut r: Vec<u8> = Vec::new();
                r.push(110);  // 'n'
                r.push(111);  // 'o'
                r.push(110);  // 'n'
                r.push(101);  // 'e'
                assert(r@ =~= nil_text());
                r
            },
            Value::Str(i) => {
                let r = copy_vec(&self.strings[i]);
                r
            },
            Value::Float(bits) => {
                let r = self.host.f_render(bits);
                r
            },
            Value::List(li) => {
                let mut r: Vec<u8> = Vec::new();
                r.push(91);  // '['
                if depth == 0 {
                    r.push(46);  // '.'
                    r.push(46);
                    r.push(46);
                    r.push(93);  // ']'
                    return r;
                }
                let n = self.lists[li].len();
                let mut j: usize = 0;
                while j < n
                    invariant
                        self.wf(),
                        li < self.lists@.len(),
                        n == self.lists@[li as int]@.len(),
                        j <= n,
                        depth >= 1,
                    decreases n - j,
                {
                    if j > 0 {
                        r.push(44);  // ','
                        r.push(32);  // ' '
                    }
                    let elem = self.lists[li][j];
                    let piece = self.render_value(elem, depth - 1);
                    let mut k: usize = 0;
                    let m = piece.len();
                    while k < m
                        invariant
                            k <= m,
                            m == piece@.len(),
                        decreases m - k,
                    {
                        r.push(piece[k]);
                        k += 1;
                    }
                    j += 1;
                }
                r.push(93);  // ']'
                r
            },
            Value::Call(ci) => {
                let mut r: Vec<u8> = Vec::new();
                match &self.funcs[ci] {
                    Callable::Builtin(b) => {
                        r.push(60);  // '<'
                        r.push(102);  // 'f'
                        r.push(110);  // 'n'
                        r.push(32);  // ' '
                        let name = builtin_name(*b);
                        append_bytes(&mut r, &name);
                        r.push(62);  // '>'
                    },
                    Callable::Function(f) => {
                        r.push(60);  // '<'
                        r.push(102);  // 'f'
                        r.push(110);  // 'n'
                        r.push(32);  // ' '
                        append_bytes(&mut r, &f.name.lexeme);
                        r.push(62);  // '>'
                    },
                    Callable::Lambda(l) => {
                        r.push(76);  // 'L'
                        r.push(97);  // 'a'
                        r.push(109);  // 'm'
                        r.push(98);  // 'b'
                        r.push(100);  // 'd'
                        r.push(97);  // 'a'
                        r.push(40);  // '('
                        let n = l.args_list.len();
                        let mut j: usize = 0;
                        while j < n
                            invariant
                                j <= n,
                                n == l.args_list@.len(),
                            decreases n - j,
                        {
                            if j > 0 {
                                r.push(44);  // ','
                            }
                            append_bytes(&mut r, &l.args_list[j].lexeme);
                            j += 1;
                        }
                        r.push(41);  // ')'
                    },
                }
                r
            },
        }
    }

    /// Apply a binary operator to two evaluated operands. Integer arithmetic
    /// and ordering are exact (`int_arith`); double ordering and the division-
    /// by-zero test are decided at the bit level; double arithmetic comes from
    /// the host; `+` on a string concatenates the rendering of the right
    /// operand; equality never fails. Only the string arena can grow here.
    pub fn apply_binary(&mut self, op: &Token, a: Value, b: Value) -> (r: Result<Value, Diagnostic>)
        requires
            old(self).wf(),
            old(self).val_ok(a),
            old(self).val_ok(b),
        ensures
            final(self).wf(),
            old(self).evolves_to(*final(self)),
            final(self).env == old(self).env,
            final(self).current == old(self).current,
            final(self).lists == old(self).lists,
            final(self).funcs == old(self).funcs,
            final(self).output == old(self).output,
            (r matches Ok(v) ==> final(self).val_ok(v)),
            (op.kind == TokenKind::EqualEqual ==> r == Ok::<Value, Diagnostic>(
                Value::Bool(old(self).eq_vals(a, b)),
            ) && *final(self) == *old(self)),
            (op.kind == TokenKind::BangEqual ==> r == Ok::<Value, Diagnostic>(
                Value::Bool(!old(self).eq_vals(a, b)),
            ) && *final(self) == *old(self)),
            a matches Value::Int(m) ==> (b matches Value::Int(n) ==> (is_numeric_op(op.kind)
                ==> r == int_arith(op.kind, m, n, op.line) && *final(self) == *old(self))),
            a matches Value::Float(x) ==> (b matches Value::Float(y) ==> {
                &&& (op.kind == TokenKind::Less ==> r == Ok::<Value, Diagnostic>(
                    Value::Bool(lt_bits(x, y)),
                ))
                &&& (op.kind == TokenKind::Greater ==> r == Ok::<Value, Diagnostic>(
                    Value::Bool(lt_bits(y, x)),
                ))
                &&& (op.kind == TokenKind::LessEqual ==> r == Ok::<Value, Diagnostic>(
                    Value::Bool(le_bits(x, y)),
                ))
                &&& (op.kind == TokenKind::GreaterEqual ==> r == Ok::<Value, Diagnostic>(
                    Value::Bool(le_bits(y, x)),
                ))
                &&& (op.kind == TokenKind::Slash && is_zero_bits(y) ==> r == Err::<
                    Value,
                    Diagnostic,
                >(Diagnostic { kind: ErrorKind::DivisionByZero, line: op.line }))
                &&& ((op.kind == TokenKind::Slash && !is_zero_bits(y)) || op.kind
                    == TokenKind::Plus || op.kind == TokenKind::Minus || op.kind == TokenKind::Star
                    || op.kind == TokenKind::Percent ==> (r matches Ok(v) && v is Float))
            }),
            b matches Value::Int(n) ==> ((op.kind == TokenKind::Slash && a is Float) ==> if n == 0 {
                r == Err::<Value, Diagnostic>(
                    Diagnostic { kind: ErrorKind::DivisionByZero, line: op.line },
                )
            } else {
                (r matches Ok(v) && v is Float)
            }),
            b matches Value::Float(y) ==> ((op.kind == TokenKind::Slash && a is Int) ==> if
                is_zero_bits(y) {
                r == Err::<Value, Diagnostic>(
                    Diagnostic { kind: ErrorKind::DivisionByZero, line: op.line },
                )
            } else {
                (r matches Ok(v) && v is Float)
            }),
            (((op.kind == TokenKind::Plus || op.kind == TokenKind::Minus || op.kind
                == TokenKind::Star || op.kind == TokenKind::Percent) && mixed_numeric(a, b)) ==> (r
                matches Ok(v) && v is Float)),
            ((is_ordering_op(op.kind) && mixed_numeric(a, b)) ==> r == Err::<Value, Diagnostic>(
                Diagnostic { kind: ErrorKind::TypeError, line: op.line },
            )),
            a matches Value::Str(i) ==> (op.kind == TokenKind::Plus ==> match b {
                Value::Str(j) => r == Ok::<Value, Diagnostic>(
                    Value::Str(old(self).strings@.len() as usize),
                ) && final(self).strings@.len() == old(self).strings@.len() + 1 && final(self).strings@.last()@ == old(self).strings@[i as int]@ + old(self).strings@[j as int]@,
                Value::Int(n) => r == Ok::<Value, Diagnostic>(
                    Value::Str(old(self).strings@.len() as usize),
                ) && final(self).strings@.len() == old(self).strings@.len() + 1 && final(self).strings@.last()@ == old(self).strings@[i as int]@ + dec_rep(n as int),
                Value::Bool(c) => r == Ok::<Value, Diagnostic>(
                    Value::Str(old(self).strings@.len() as usize),
                ) && final(self).strings@.len() == old(self).strings@.len() + 1 && final(self).strings@.last()@ == old(self).strings@[i as int]@ + bool_text(c),
                Value::Nil => r == Ok::<Value, Diagnostic>(
                    Value::Str(old(self).strings@.len() as usize),
                ) && final(self).strings@.len() == old(self).strings@.len() + 1 && final(self).strings@.last()@ == old(self).strings@[i as int]@ + nil_text(),
                Value::Float(_) => (r matches Ok(v) && v is Str),
                _ => r == Ok::<Value, Diagnostic>(Value::Str(old(self).strings@.len() as usize))
                    && final(self).strings@.len() == old(self).strings@.len() + 1,
            }),
            ((is_numeric_op(op.kind) && !(a is Int || a is Float) && !(op.kind == TokenKind::Plus
                && a is Str)) ==> r == Err::<Value, Diagnostic>(
                Diagnostic { kind: ErrorKind::TypeError, line: op.line },
            )),
            ((is_numeric_op(op.kind) && (a is Int || a is Float) && !(b is Int || b is Float)) ==> r
                == Err::<Value, Diagnostic>(
                Diagnostic { kind: ErrorKind::TypeError, line: op.line },
            )),
    {
        let kind = op.kind;
        let line = op.line;
        if kind == TokenKind::EqualEqual {
            let e = self.value_eq(a, b);
            return Ok(Value::Bool(e));
        }
        if kind == TokenKind::BangEqual {
            let e = self.value_eq(a, b);
            return Ok(Value::Bool(!e));
        }
        if !(kind == TokenKind::Plus || kind == TokenKind::Minus || kind == TokenKind::Star || kind
            == TokenKind::Slash || kind == TokenKind::Percent || kind == TokenKind::Greater || kind
            == TokenKind::GreaterEqual || kind == TokenKind::Less || kind == TokenKind::LessEqual) {
            return Ok(Value::Nil);
        }
        match (a, b) {
            (Value::Int(m), Value::Int(n)) => match int_binary(kind, m, n, line) {
                Ok(v) => Ok(v),
                Err(d) => Err(d),
            },
            (Value::Float(x), Value::Float(y)) => self.float_binary(kind, x, y, line),
            (Value::Int(m), Value::Float(y)) => {
                if kind == TokenKind::Greater || kind == TokenKind::GreaterEqual || kind
                    == TokenKind::Less || kind == TokenKind::LessEqual {
                    return Err(Diagnostic { kind: ErrorKind::TypeError, line });
                }
                if kind == TokenKind::Slash && f_is_zero(y) {
                    return Err(Diagnostic { kind: ErrorKind::DivisionByZero, line });
                }
                let x = self.host.f_from_int(m);
                self.float_arith(kind, x, y, line)
            },
            (Value::Float(x), Value::Int(n)) => {
                if kind == TokenKind::Greater || kind == TokenKind::GreaterEqual || kind
                    == TokenKind::Less || kind == TokenKind::LessEqual {
                    return Err(Diagnostic { kind: ErrorKind::TypeError, line });
                }
                if kind == TokenKind::Slash && n == 0 {
                    return Err(Diagnostic { kind: ErrorKind::DivisionByZero, line });
                }
                let y = self.host.f_from_int(n);
                self.float_arith(kind, x, y, line)
            },
            (Value::Str(i), _) => {
                if kind != TokenKind::Plus {
                    return Err(Diagnostic { kind: ErrorKind::TypeError, line });
                }
                let mut bytes = copy_vec(&self.strings[i]);
                match b {
                    Value::Str(j) => {
                        let piece = copy_vec(&self.strings[j]);
                        append_bytes(&mut bytes, &piece);
                    },
                    Value::Int(n) => {
                        let piece = int_to_bytes(n);
                        append_bytes(&mut bytes, &piece);
                    },
                    Value::Bool(c) => {
                        let piece = self.render_value(Value::Bool(c), 0);
                        append_bytes(&mut bytes, &piece);
                    },
                    Value::Nil => {
                        let piece = self.render_value(Value::Nil, 0);
                        append_bytes(&mut bytes, &piece);
                    },
                    Value::Float(y) => {
                        let piece = self.host.f_render(y);
                        append_bytes(&mut bytes, &piece);
                    },
                    _ => {
                        let piece = self.render_value(b, RENDER_DEPTH);
                        append_bytes(&mut bytes, &piece);
                    },
                }
                let idx = self.intern(bytes);
                Ok(Value::Str(idx))
            },
            _ => Err(Diagnostic { kind: ErrorKind::TypeError, line }),
        }
    }

    /// Arithmetic and ordering on two doubles.
    fn float_binary(&mut self, kind: TokenKind, x: u64, y: u64, line: i32) -> (r: Result<
        Value,
        Diagnostic,
    >)
        requires
            old(self).wf(),
        ensures
            *final(self) == *old(self),
            (kind == TokenKind::Less ==> r == Ok::<Value, Diagnostic>(Value::Bool(lt_bits(x, y)))),
            (kind == TokenKind::Greater ==> r == Ok::<Value, Diagnostic>(
                Value::Bool(lt_bits(y, x)),
            )),
            (kind == TokenKind::LessEqual ==> r == Ok::<Value, Diagnostic>(
                Value::Bool(le_bits(x, y)),
            )),
            (kind == TokenKind::GreaterEqual ==> r == Ok::<Value, Diagnostic>(
                Value::Bool(le_bits(y, x)),
            )),
            (kind == TokenKind::Slash && is_zero_bits(y) ==> r == Err::<Value, Diagnostic>(
                Diagnostic { kind: ErrorKind::DivisionByZero, line },
            )),
            ((kind == TokenKind::Slash && !is_zero_bits(y)) || kind == TokenKind::Plus || kind
                == TokenKind::Minus || kind == TokenKind::Star || kind == TokenKind::Percent ==> (r
                matches Ok(v) && v is Float)),
    {
        match kind {
            TokenKind::Less => Ok(Value::Bool(f_lt(x, y))),
            TokenKind::Greater => Ok(Value::Bool(f_lt(y, x))),
            TokenKind::LessEqual => Ok(Value::Bool(f_le(x, y))),
            TokenKind::GreaterEqual => Ok(Value::Bool(f_le(y, x))),
            TokenKind::Slash => {
                if f_is_zero(y) {
                    Err(Diagnostic { kind: ErrorKind::DivisionByZero, line })
                } else {
                    Ok(Value::Float(self.host.f_div(x, y)))
                }
            },
            TokenKind::Plus => Ok(Value::Float(self.host.f_add(x, y))),
            TokenKind::Minus => Ok(Value::Float(self.host.f_sub(x, y))),
            TokenKind::Star => Ok(Value::Float(self.host.f_mul(x, y))),
            TokenKind::Percent => Ok(Value::Float(self.host.f_rem(x, y))),
            _ => Ok(Value::Nil),
        }
    }

    /// Arithmetic on two doubles after promotion; the zero-divisor test has
    /// already happened on the unpromoted operands.
    fn float_arith(&mut self, kind: TokenKind, x: u64, y: u64, line: i32) -> (r: Result<
        Value,
        Diagnostic,
    >)
        requires
            old(self).wf(),
            kind == TokenKind::Plus || kind == TokenKind::Minus || kind == TokenKind::Star || kind
                == TokenKind::Slash || kind == TokenKind::Percent,
        ensures
            *final(self) == *old(self),
            (r matches Ok(v) && v is Float),
    {
        match kind {
            TokenKind::Plus => Ok(Value::Float(self.host.f_add(x, y))),
            TokenKind::Minus => Ok(Value::Float(self.host.f_sub(x, y))),
            TokenKind::Star => Ok(Value::Float(self.host.f_mul(x, y))),
            TokenKind::Slash => Ok(Value::Float(self.host.f_div(x, y))),
            _ => Ok(Value::Float(self.host.f_rem(x, y))),
        }
    }

    /// Apply a unary operator: `-` negates a number (exactly, at the bit level
    /// for doubles), `!` complements a boolean; anything else is a type error.
    pub fn apply_unary(&mut self, op: &Token, v: Value) -> (r: Result<Value, Diagnostic>)
        requires
            old(self).wf(),
            old(self).val_ok(v),
        ensures
            *final(self) == *old(self),
            (op.kind == TokenKind::Minus ==> match v {
                Value::Int(n) => if n == i128::MIN {
                    r == Err::<Value, Diagnostic>(
                        Diagnostic { kind: ErrorKind::IntegerOverflow, line: op.line },
                    )
                } else {
                    r == Ok::<Value, Diagnostic>(Value::Int((-n) as i128))
                },
                Value::Float(x) => r == Ok::<Value, Diagnostic>(Value::Float(neg_bits(x))),
                _ => r == Err::<Value, Diagnostic>(
                    Diagnostic { kind: ErrorKind::TypeError, line: op.line },
                ),
            }),
            (op.kind == TokenKind::Bang ==> match v {
                Value::Bool(b) => r == Ok::<Value, Diagnostic>(Value::Bool(!b)),
                _ => r == Err::<Value, Diagnostic>(
                    Diagnostic { kind: ErrorKind::TypeError, line: op.line },
                ),
            }),
            (r matches Ok(rv) ==> old(self).val_ok(rv)),
    {
        match op.kind {
            TokenKind::Minus => match v {
                Value::Int(n) => {
                    if n == i128::MIN {
                        Err(Diagnostic { kind: ErrorKind::IntegerOverflow, line: op.line })
                    } else {
                        Ok(Value::Int(-n))
                    }
                },
                Value::Float(x) => Ok(Value::Float(f_neg(x))),
                _ => Err(Diagnostic { kind: ErrorKind::TypeError, line: op.line }),
            },
            TokenKind::Bang => match v {
                Value::Bool(b) => Ok(Value::Bool(!b)),
                _ => Err(Diagnostic { kind: ErrorKind::TypeError, line: op.line }),
            },
            _ => Ok(Value::Nil),
        }
    }

    /// Read `list[key]`: the receiver must be a list, the key an integer, and
    /// the key must lie in `[0, len)` — out of range is an error, never a
    /// clamp or an absent value.
    pub fn index_value(&self, lv: Value, kv: Value, line: i32) -> (r: Result<Value, Diagnostic>)
        requires
            self.wf(),
            self.val_ok(lv),
            self.val_ok(kv),
        ensures
            lv matches Value::List(li) ==> (kv matches Value::Int(n) ==> (if 0 <= n
                < self.lists_model()[li as int].len() {
                r == Ok::<Value, Diagnostic>(self.lists_model()[li as int][n as int])
            } else {
                r == Err::<Value, Diagnostic>(
                    Diagnostic { kind: ErrorKind::IndexOutOfBounds, line },
                )
            })),
            (lv is List && !(kv is Int) ==> r == Err::<Value, Diagnostic>(
                Diagnostic { kind: ErrorKind::TypeError, line },
            )),
            (!(lv is List) ==> r == Err::<Value, Diagnostic>(
                Diagnostic { kind: ErrorKind::TypeError, line },
            )),
            (r matches Ok(v) ==> self.val_ok(v)),
    {
        match lv {
            Value::List(li) => match kv {
                Value::Int(n) => {
                    if n >= 0 && n < self.lists[li].len() as i128 {
                        Ok(self.lists[li][n as usize])
                    } else {
                        Err(Diagnostic { kind: ErrorKind::IndexOutOfBounds, line })
                    }
                },
                _ => Err(Diagnostic { kind: ErrorKind::TypeError, line }),
            },
            _ => Err(Diagnostic { kind: ErrorKind::TypeError, line }),
        }
    }

    /// What a variable reference denotes: a hop count recorded for this very
    /// token sends the lookup exactly that many scopes out (and any miss there
    /// is a resolver/runtime disagreement); an absent entry means a dynamic
    /// search outward from the current scope, as for globals.
    pub open spec fn variable_outcome(self, t: Token) -> Result<Value, Diagnostic> {
        match hops_of(self.locals@, t.id) {
            Some(h) => if h >= 0 {
                match self.env.ancestor(self.current as int, h as int) {
                    Some(k) => if self.env.scopes@[k]@.contains_key(t.lexeme@) {
                        Ok(self.env.scopes@[k]@[t.lexeme@])
                    } else {
                        Err(Diagnostic { kind: ErrorKind::ResolverInconsistency, line: t.line })
                    },
                    None => Err(Diagnostic { kind: ErrorKind::ResolverInconsistency, line: t.line }),
                }
            } else {
                match self.env.lookup(self.current as int, t.lexeme@) {
                    Some(v) => Ok(v),
                    None => Err(Diagnostic { kind: ErrorKind::UndefinedVariable, line: t.line }),
                }
            },
            None => match self.env.lookup(self.current as int, t.lexeme@) {
                Some(v) => Ok(v),
                None => Err(Diagnostic { kind: ErrorKind::UndefinedVariable, line: t.line }),
            },
        }
    }

    /// Evaluate an expression to a value or an error signal. `fuel` bounds the
    /// depth of object-language calls, nothing else.
    #[verifier::loop_isolation(false)]
    pub fn evaluate(&mut self, exp: &Expression, fuel: u32) -> (r: Result<Value, BreakResult>)
        requires
            old(self).wf(),
        ensures
            final(self).wf(),
            old(self).evolves_to(*final(self)),
            final(self).current == old(self).current,
            (r matches Ok(v) ==> final(self).val_ok(v)),
            (r matches Err(s) ==> s is Error),
            ((*exp) matches Expression::Literal(l) ==> (l matches Lit::Int(n) ==> r == Ok::<
                Value,
                BreakResult,
            >(Value::Int(n)) && *final(self) == *old(self))),
            ((*exp) matches Expression::Literal(l) ==> (l matches Lit::Str(bytes) ==> r == Ok::<
                Value,
                BreakResult,
            >(Value::Str(old(self).strings@.len() as usize)) && final(self).strings@.len() == old(self).strings@.len() + 1 && final(self).strings@.last()@ == bytes@)),
            ((*exp) matches Expression::Variable(t) ==> *final(self) == *old(self) && (match old(self).variable_outcome(t) {
                Ok(v) => r == Ok::<Value, BreakResult>(v),
                Err(d) => r == Err::<Value, BreakResult>(BreakResult::Error(d)),
            })),
            ((*exp) matches Expression::Assign(t, o, _) ==> (!((*t) matches Expression::Variable(
                _,
            )) && !((*t) matches Expression::Index(_, _, _)) ==> r == Err::<Value, BreakResult>(
                BreakResult::Error(
                    Diagnostic { kind: ErrorKind::InvalidAssignmentTarget, line: o.line },
                ),
            ) && *final(self) == *old(self))),
            ((*exp) matches Expression::Lambda(_, _) ==> r == Ok::<Value, BreakResult>(
                Value::Call(old(self).funcs@.len() as usize),
            ) && final(self).funcs@.len() == old(self).funcs@.len() + 1 && (final(self).funcs@.last() matches Callable::Lambda(l) && l.env == old(self).current)),
            ((*exp) matches Expression::Logical(l, o, _) ==> ((*l) matches Expression::Literal(li)
                ==> (li matches Lit::Int(n) ==> {
                &&& (o.kind == TokenKind::Or && n != 0 ==> r == Ok::<Value, BreakResult>(
                    Value::Int(n),
                ) && *final(self) == *old(self))
                &&& (o.kind == TokenKind::And && n == 0 ==> r == Ok::<Value, BreakResult>(
                    Value::Int(0),
                ) && *final(self) == *old(self))
            }))),
            ((*exp) matches Expression::Call(c, paren, args) ==> ((*c) matches Expression::Literal(
                li,
            ) ==> (li matches Lit::Int(_) ==> (args@.len() == 0 ==> r == Err::<Value, BreakResult>(
                BreakResult::Error(Diagnostic { kind: ErrorKind::TypeError, line: paren.line }),
            ))))),
            ((*exp) matches Expression::Assign(t, _, v) ==> ((*t) matches Expression::Variable(
                name,
            ) ==> ((*v) matches Expression::Literal(lv) ==> (lv matches Lit::Int(n) ==> match old(self).env.resolve_scope(old(self).current as int, name.lexeme@) {
                Some(k) => r == Ok::<Value, BreakResult>(Value::Int(n)) && final(self).env.scopes@[k]@ == old(self).env.scopes@[k]@.insert(name.lexeme@, Value::Int(n)),
                None => r == Err::<Value, BreakResult>(
                    BreakResult::Error(
                        Diagnostic { kind: ErrorKind::UndefinedVariable, line: name.line },
                    ),
                ) && final(self).env == old(self).env,
            })))),
        decreases fuel, exp,
    {
        match exp {
            Expression::Literal(l) => match l {
                Lit::Int(n) => Ok(Value::Int(*n)),
                Lit::Bool(b) => Ok(Value::Bool(*b)),
                Lit::Nil => Ok(Value::Nil),
                Lit::Str(bytes) => {
                    let idx = self.intern(copy_vec(bytes));
                    Ok(Value::Str(idx))
                },
                Lit::FloatDigits(digits) => match self.host.f_parse(digits) {
                    Some(bits) => Ok(Value::Float(bits)),
                    None => Err(
                        BreakResult::Error(Diagnostic { kind: ErrorKind::ParseError, line: 0 }),
                    ),
                },
            },
            Expression::Grouping(g) => self.evaluate(g, fuel),
            Expression::Variable(t) => {
                proof {
                    self.env.lemma_resolve_scope_props(self.current as int, t.lexeme@);
                }
                let hops = find_hops(&self.locals, t.id);
                let looked = match hops {
                    Some(h) => {
                        if h >= 0 {
                            proof {
                                self.env.lemma_ancestor_props(self.current as int, h as int);
                            }
                            self.env.get_at(self.current, t, h)
                        } else {
                            self.env.get(self.current, t)
                        }
                    },
                    None => self.env.get(self.current, t),
                };
                match looked {
                    Ok(v) => Ok(v),
                    Err(d) => Err(BreakResult::Error(d)),
                }
            },
            Expression::Assign(target, o, vexp) => {
                match &**target {
                    Expression::Variable(t) => {
                        let v = match self.evaluate(vexp, fuel) {
                            Ok(v) => v,
                            Err(s) => {
                                return Err(s);
                            },
                        };
                        proof {
                            self.env.lemma_resolve_scope_props(self.current as int, t.lexeme@);
                        }
                        match self.assign_checked(t, v) {
                            Ok(()) => Ok(v),
                            Err(d) => Err(BreakResult::Error(d)),
                        }
                    },
                    Expression::Index(lexp, btok, kexp) => {
                        let lv = match self.evaluate(lexp, fuel) {
                            Ok(v) => v,
                            Err(s) => {
                                return Err(s);
                            },
                        };
                        let kv = match self.evaluate(kexp, fuel) {
                            Ok(v) => v,
                            Err(s) => {
                                return Err(s);
                            },
                        };
                        let v = match self.evaluate(vexp, fuel) {
                            Ok(v) => v,
                            Err(s) => {
                                return Err(s);
                            },
                        };
                        match (lv, kv) {
                            (Value::List(li), Value::Int(n)) => {
                                if n >= 0 && n < self.lists[li].len() as i128 {
                                    let ghost pre = *self;
                                    let lst = &mut self.lists[li];
                                    lst[n as usize] = v;
                                    proof {
                                        assert forall|i: int, j: int|
                                            0 <= i < self.lists@.len() && 0 <= j
                                                < self.lists@[i]@.len() implies self.val_ok(
                                            #[trigger] self.lists@[i]@[j],
                                        ) by {
                                            if i == li as int {
                                                if j != n as int {
                                                    assert(self.lists@[i]@[j] == pre.lists@[i]@[j]);
                                                }
                                            } else {
                                                assert(self.lists@[i] == pre.lists@[i]);
                                            }
                                        }
                                    }
                                    Ok(v)
                                } else {
                                    Err(
                                        BreakResult::Error(
                                            Diagnostic {
                                                kind: ErrorKind::IndexOutOfBounds,
                                                line: btok.line,
                                            },
                                        ),
                                    )
                                }
                            },
                            _ => Err(
                                BreakResult::Error(
                                    Diagnostic { kind: ErrorKind::TypeError, line: btok.line },
                                ),
                            ),
                        }
                    },
                    _ => Err(
                        BreakResult::Error(
                            Diagnostic { kind: ErrorKind::InvalidAssignmentTarget, line: o.line },
                        ),
                    ),
                }
            },
            Expression::Binary(l, o, rexp) => {
                let a = match self.evaluate(l, fuel) {
                    Ok(v) => v,
                    Err(s) => {
                        return Err(s);
                    },
                };
                let b = match self.evaluate(rexp, fuel) {
                    Ok(v) => v,
                    Err(s) => {
                        return Err(s);
                    },
                };
                match self.apply_binary(o, a, b) {
                    Ok(v) => Ok(v),
                    Err(d) => Err(BreakResult::Error(d)),
                }
            },
            Expression::Unary(o, rexp) => {
                let v = match self.evaluate(rexp, fuel) {
                    Ok(v) => v,
                    Err(s) => {
                        return Err(s);
                    },
                };
                match self.apply_unary(o, v) {
                    Ok(v) => Ok(v),
                    Err(d) => Err(BreakResult::Error(d)),
                }
            },
            Expression::Logical(l, o, rexp) => {
                let lv = match self.evaluate(l, fuel) {
                    Ok(v) => v,
                    Err(s) => {
                        return Err(s);
                    },
                };
                let keep_left = if o.kind == TokenKind::Or {
                    self.to_bool(&lv)
                } else {
                    !self.to_bool(&lv)
                };
                if keep_left {
                    Ok(lv)
                } else {
                    self.evaluate(rexp, fuel)
                }
            },
            Expression::Call(callee, paren, argexps) => {
                let cv = match self.evaluate(callee, fuel) {
                    Ok(v) => v,
                    Err(s) => {
                        return Err(s);
                    },
                };
                let mut args: Vec<Value> = Vec::new();
                let n = argexps.len();
                let mut i: usize = 0;
                while i < n
                    invariant
                        self.wf(),
                        old(self).evolves_to(*self),
                        self.current == old(self).current,
                        n == argexps@.len(),
                        i <= n,
                        self.val_ok(cv),
                        forall|j: int| 0 <= j < args@.len() ==> self.val_ok(#[trigger] args@[j]),
                    decreases n - i,
                {
                    let av = match self.evaluate(&argexps[i], fuel) {
                        Ok(v) => v,
                        Err(s) => {
                            return Err(s);
                        },
                    };
                    args.push(av);
                    i += 1;
                }
                match cv {
                    Value::Call(fidx) => {
                        if fuel == 0 {
                            return Err(
                                BreakResult::Error(
                                    Diagnostic { kind: ErrorKind::ResourceLimit, line: paren.line },
                                ),
                            );
                        }
                        self.invoke(fidx, args, paren.line, fuel - 1)
                    },
                    _ => Err(
                        BreakResult::Error(
                            Diagnostic { kind: ErrorKind::TypeError, line: paren.line },
                        ),
                    ),
                }
            },
            Expression::List(items, _tok) => {
                let mut vals: Vec<Value> = Vec::new();
                let n = items.len();
                let mut i: usize = 0;
                while i < n
                    invariant
                        self.wf(),
                        old(self).evolves_to(*self),
                        self.current == old(self).current,
                        n == items@.len(),
                        i <= n,
                        forall|j: int| 0 <= j < vals@.len() ==> self.val_ok(#[trigger] vals@[j]),
                    decreases n - i,
                {
                    let av = match self.evaluate(&items[i], fuel) {
                        Ok(v) => v,
                        Err(s) => {
                            return Err(s);
                        },
                    };
                    vals.push(av);
                    i += 1;
                }
                let idx = self.new_list(vals);
                Ok(Value::List(idx))
            },
            Expression::Lambda(params, body) => {
                let l = Lambda {
                    args_list: clone_tokens(params),
                    statement_list: clone_statements(body),
                    env: self.current,
                };
                let idx = self.push_callable(Callable::Lambda(l));
                Ok(Value::Call(idx))
            },
            Expression::Index(lexp, btok, kexp) => {
                let lv = match self.evaluate(lexp, fuel) {
                    Ok(v) => v,
                    Err(s) => {
                        return Err(s);
                    },
                };
                let kv = match self.evaluate(kexp, fuel) {
                    Ok(v) => v,
                    Err(s) => {
                        return Err(s);
                    },
                };
                match self.index_value(lv, kv, btok.line) {
                    Ok(v) => Ok(v),
                    Err(d) => Err(BreakResult::Error(d)),
                }
            },
        }
    }

    /// Call a built-in on evaluated arguments. Arity is checked first, then
    /// argument tags; `append` mutates its list in place and hands the same
    /// list back, `copy` and `concat` allocate fresh lists.
    pub fn call_builtin(&mut self, b: Builtin, args: Vec<Value>, line: i32) -> (r: Result<
        Value,
        BreakResult,
    >)
        requires
            old(self).wf(),
            forall|j: int| 0 <= j < args@.len() ==> old(self).val_ok(#[trigger] args@[j]),
        ensures
            final(self).wf(),
            old(self).evolves_to(*final(self)),
            final(self).current == old(self).current,
            final(self).env == old(self).env,
            final(self).strings == old(self).strings,
            final(self).funcs == old(self).funcs,
            final(self).output == old(self).output,
            (r matches Ok(v) ==> final(self).val_ok(v)),
            (r matches Err(s) ==> s is Error),
            (args@.len() != builtin_arity(b) ==> r == Err::<Value, BreakResult>(
                BreakResult::Error(Diagnostic { kind: ErrorKind::ArityError, line }),
            ) && *final(self) == *old(self)),
            (args@.len() == builtin_arity(b) ==> match b {
                Builtin::Timeit => (r matches Ok(v) && v is Float) && *final(self) == *old(self),
                Builtin::Abs => match args@[0] {
                    Value::Int(_) => (r matches Ok(v) && v is Float) && *final(self) == *old(self),
                    Value::Float(x) => r == Ok::<Value, BreakResult>(Value::Float(abs_bits(x)))
                        && *final(self) == *old(self),
                    _ => r == Err::<Value, BreakResult>(
                        BreakResult::Error(Diagnostic { kind: ErrorKind::TypeError, line }),
                    ) && *final(self) == *old(self),
                },
                Builtin::Len => match args@[0] {
                    Value::List(li) => r == Ok::<Value, BreakResult>(
                        Value::Int(old(self).lists@[li as int]@.len() as i128),
                    ) && *final(self) == *old(self),
                    _ => r == Err::<Value, BreakResult>(
                        BreakResult::Error(Diagnostic { kind: ErrorKind::TypeError, line }),
                    ) && *final(self) == *old(self),
                },
                Builtin::CopyList => match args@[0] {
                    Value::List(li) => r == Ok::<Value, BreakResult>(
                        Value::List(old(self).lists@.len() as usize),
                    ) && final(self).lists_model() == old(self).lists_model().push(
                        old(self).lists_model()[li as int],
                    ),
                    _ => r == Err::<Value, BreakResult>(
                        BreakResult::Error(Diagnostic { kind: ErrorKind::TypeError, line }),
                    ) && *final(self) == *old(self),
                },
                Builtin::Append => match args@[0] {
                    Value::List(li) => r == Ok::<Value, BreakResult>(Value::List(li)) && final(self).lists_model() == old(self).lists_model().update(
                        li as int,
                        old(self).lists_model()[li as int].push(args@[1]),
                    ),
                    _ => r == Err::<Value, BreakResult>(
                        BreakResult::Error(Diagnostic { kind: ErrorKind::TypeError, line }),
                    ) && *final(self) == *old(self),
                },
                Builtin::Concat => match (args@[0], args@[1]) {
                    (Value::List(li), Value::List(lj)) => r == Ok::<Value, BreakResult>(
                        Value::List(old(self).lists@.len() as usize),
                    ) && final(self).lists_model() == old(self).lists_model().push(
                        old(self).lists_model()[li as int] + old(self).lists_model()[lj as int],
                    ),
                    _ => r == Err::<Value, BreakResult>(
                        BreakResult::Error(Diagnostic { kind: ErrorKind::TypeError, line }),
                    ) && *final(self) == *old(self),
                },
            }),
    {
        let arity = builtin_arity_of(b);
        if args.len() != arity {
            return Err(BreakResult::Error(Diagnostic { kind: ErrorKind::ArityError, line }));
        }
        match b {
            Builtin::Timeit => {
                let bits = self.host.now_seconds();
                Ok(Value::Float(bits))
            },
            Builtin::Abs => match args[0] {
                Value::Int(n) => {
                    let x = self.host.f_from_int(n);
                    Ok(Value::Float(f_abs(x)))
                },
                Value::Float(x) => Ok(Value::Float(f_abs(x))),
                _ => Err(BreakResult::Error(Diagnostic { kind: ErrorKind::TypeError, line })),
            },
            Builtin::Len => match args[0] {
                Value::List(li) => Ok(Value::Int(self.lists[li].len() as i128)),
                _ => Err(BreakResult::Error(Diagnostic { kind: ErrorKind::TypeError, line })),
            },
            Builtin::CopyList => match args[0] {
                Value::List(li) => {
                    let items = copy_vec(&self.lists[li]);
                    let idx = self.new_list(items);
                    Ok(Value::List(idx))
                },
                _ => Err(BreakResult::Error(Diagnostic { kind: ErrorKind::TypeError, line })),
            },
            Builtin::Append => match args[0] {
                Value::List(li) => {
                    let v = args[1];
                    let lst = &mut self.lists[li];
                    lst.push(v);
                    proof {
                        assert(final(self).lists_model() =~= old(self).lists_model().update(
                            li as int,
                            old(self).lists_model()[li as int].push(args@[1]),
                        ));
                        assert forall|i: int, j: int|
                            0 <= i < self.lists@.len() && 0 <= j
                                < self.lists@[i]@.len() implies self.val_ok(
                            #[trigger] self.lists@[i]@[j],
                        ) by {
                            if i == li as int && j == self.lists@[i]@.len() - 1 {
                            } else {
                                assert(self.lists@[i]@[j] == old(self).lists@[i]@[j]);
                            }
                        }
                    }
                    Ok(Value::List(li))
                },
                _ => Err(BreakResult::Error(Diagnostic { kind: ErrorKind::TypeError, line })),
            },
            Builtin::Concat => match (args[0], args[1]) {
                (Value::List(li), Value::List(lj)) => {
                    let mut items = copy_vec(&self.lists[li]);
                    let second = copy_vec(&self.lists[lj]);
                    append_vals(&mut items, &second);
                    let idx = self.new_list(items);
                    proof {
                        assert(final(self).lists_model() =~= old(self).lists_model().push(
                            old(self).lists_model()[li as int] + old(self).lists_model()[lj as int],
                        ));
                    }
                    Ok(Value::List(idx))
                },
                _ => Err(BreakResult::Error(Diagnostic { kind: ErrorKind::TypeError, line })),
            },
        }
    }

    /// Invoke a callable on evaluated arguments. For a declared function or
    /// lambda the argument count must equal the parameter count exactly — an
    /// `ArityError` otherwise, before anything runs. On a match, a fresh scope
    /// is chained to the scope the callable captured at its definition site —
    /// never to the caller's scope — the parameters are bound there, and the
    /// body runs as a block inside it: a `return` escaping the body is the
    /// call's value, completion without one yields `none`, and a `break`
    /// escaping the body is reported as misplaced control flow.
    #[verifier::loop_isolation(false)]
    pub fn invoke(&mut self, fidx: usize, args: Vec<Value>, line: i32, fuel: u32) -> (r: Result<
        Value,
        BreakResult,
    >)
        requires
            old(self).wf(),
            fidx < old(self).funcs@.len(),
            forall|j: int| 0 <= j < args@.len() ==> old(self).val_ok(#[trigger] args@[j]),
        ensures
            final(self).wf(),
            old(self).evolves_to(*final(self)),
            final(self).current == old(self).current,
            (r matches Ok(v) ==> final(self).val_ok(v)),
            (r matches Err(s) ==> s is Error),
            (old(self).funcs@[fidx as int] matches Callable::Function(f) ==> {
                &&& (args@.len() != f.args_list@.len() ==> r == Err::<Value, BreakResult>(
                    BreakResult::Error(Diagnostic { kind: ErrorKind::ArityError, line }),
                ) && *final(self) == *old(self))
                &&& (args@.len() == f.args_list@.len() && fuel == 0 ==> r == Err::<
                    Value,
                    BreakResult,
                >(BreakResult::Error(Diagnostic { kind: ErrorKind::ResourceLimit, line })))
                &&& (args@.len() == f.args_list@.len() && fuel > 0 ==> final(self).env.depth()
                    > old(self).env.depth() && final(self).env.scopes@[old(self).env.depth() as int].parent == Some(f.env))
                &&& (args@.len() == f.args_list@.len() && fuel > 0 && distinct_names(
                    f.args_list@,
                ) ==> forall|j: int|
                    0 <= j < f.args_list@.len() ==> final(self).env.scopes@[old(self).env.depth() as int]@.contains_key(#[trigger] f.args_list@[j].lexeme@))
                &&& (args@.len() == f.args_list@.len() && fuel > 0 && distinct_names(f.args_list@)
                    && f.statement_list@.len() == 0 ==> r == Ok::<Value, BreakResult>(Value::Nil))
                &&& (args@.len() == f.args_list@.len() && fuel > 0 && distinct_names(f.args_list@)
                    && f.statement_list@.len() > 0 ==> (f.statement_list@[0] matches
                    Statement::Return(t, e) ==> (e matches Expression::Literal(l) ==> (l matches
                    Lit::Int(n) ==> r == Ok::<Value, BreakResult>(Value::Int(n))))))
                &&& (args@.len() == f.args_list@.len() && fuel > 0 && distinct_names(f.args_list@)
                    && f.statement_list@.len() > 0 ==> (f.statement_list@[0] matches
                    Statement::Break(t) ==> r == Err::<Value, BreakResult>(
                    BreakResult::Error(
                        Diagnostic { kind: ErrorKind::MisplacedControlFlow, line: t.line },
                    ),
                )))
            }),
            (old(self).funcs@[fidx as int] matches Callable::Lambda(l) ==> {
                &&& (args@.len() != l.args_list@.len() ==> r == Err::<Value, BreakResult>(
                    BreakResult::Error(Diagnostic { kind: ErrorKind::ArityError, line }),
                ) && *final(self) == *old(self))
                &&& (args@.len() == l.args_list@.len() && fuel == 0 ==> r == Err::<
                    Value,
                    BreakResult,
                >(BreakResult::Error(Diagnostic { kind: ErrorKind::ResourceLimit, line })))
                &&& (args@.len() == l.args_list@.len() && fuel > 0 ==> final(self).env.depth()
                    > old(self).env.depth() && final(self).env.scopes@[old(self).env.depth() as int].parent == Some(l.env))
                &&& (args@.len() == l.args_list@.len() && fuel > 0 && distinct_names(
                    l.args_list@,
                ) ==> forall|j: int|
                    0 <= j < l.args_list@.len() ==> final(self).env.scopes@[old(self).env.depth() as int]@.contains_key(#[trigger] l.args_list@[j].lexeme@))
                &&& (args@.len() == l.args_list@.len() && fuel > 0 && distinct_names(l.args_list@)
                    && l.statement_list@.len() == 0 ==> r == Ok::<Value, BreakResult>(Value::Nil))
                &&& (args@.len() == l.args_list@.len() && fuel > 0 && distinct_names(l.args_list@)
                    && l.statement_list@.len() > 0 ==> (l.statement_list@[0] matches
                    Statement::Return(t, e) ==> (e matches Expression::Literal(li) ==> (li matches
                    Lit::Int(n) ==> r == Ok::<Value, BreakResult>(Value::Int(n))))))
                &&& (args@.len() == l.args_list@.len() && fuel > 0 && distinct_names(l.args_list@)
                    && l.statement_list@.len() > 0 ==> (l.statement_list@[0] matches
                    Statement::Break(t) ==> r == Err::<Value, BreakResult>(
                    BreakResult::Error(
                        Diagnostic { kind: ErrorKind::MisplacedControlFlow, line: t.line },
                    ),
                )))
            }),
            (old(self).funcs@[fidx as int] matches Callable::Builtin(b) ==> (args@.len()
                != builtin_arity(b) ==> r == Err::<Value, BreakResult>(
                BreakResult::Error(Diagnostic { kind: ErrorKind::ArityError, line }),
            ) && *final(self) == *old(self))),
        decreases fuel,
    {
        let (params, body, cenv) = match &self.funcs[fidx] {
            Callable::Builtin(b) => {
                let b = *b;
                return self.call_builtin(b, args, line);
            },
            Callable::Function(f) => (
                clone_tokens(&f.args_list),
                clone_statements(&f.statement_list),
                f.env,
            ),
            Callable::Lambda(l) => (
                clone_tokens(&l.args_list),
                clone_statements(&l.statement_list),
                l.env,
            ),
        };
        proof {
            match old(self).funcs@[fidx as int] {
                Callable::Function(ff) => {
                    assert(params@.len() == ff.args_list@.len());
                },
                Callable::Lambda(ll) => {
                    assert(params@.len() == ll.args_list@.len());
                },
                Callable::Builtin(_) => {
                    assert(false);
                },
            }
        }
        if args.len() != params.len() {
            return Err(BreakResult::Error(Diagnostic { kind: ErrorKind::ArityError, line }));
        }
        if fuel == 0 {
            return Err(BreakResult::Error(Diagnostic { kind: ErrorKind::ResourceLimit, line }));
        }
        let saved = self.current;
        let scope = self.env.push_scope(cenv);
        proof {
            assert forall|i: int, n: Seq<u8>|
                0 <= i < self.env.scopes@.len() && (
                #[trigger] self.env.scopes@[i]@.contains_key(n)) implies self.val_ok(
                self.env.scopes@[i]@[n],
            ) by {
                if i < old(self).env.scopes@.len() {
                    assert(old(self).env.scopes@[i]@.contains_key(n));
                }
            }
        }
        self.current = scope;
        let n = params.len();
        let mut i: usize = 0;
        while i < n
            invariant
                self.wf(),
                old(self).evolves_to(*self),
                n == params@.len(),
                i <= n,
                n == args@.len(),
                self.current == scope,
                saved == old(self).current,
                saved < self.env.depth(),
                scope == old(self).env.depth(),
                scope < self.env.depth(),
                self.env.depth() > old(self).env.depth(),
                self.env.scopes@[scope as int].parent == Some(cenv),
                forall|j: int| 0 <= j < args@.len() ==> self.val_ok(#[trigger] args@[j]),
                forall|j: int|
                    0 <= j < i ==> self.env.scopes@[scope as int]@.contains_key(
                        #[trigger] params@[j].lexeme@,
                    ),
                forall|nm: Seq<u8>|
                    (#[trigger] self.env.scopes@[scope as int]@.contains_key(nm)) ==> exists|j: int|
                        0 <= j < i && params@[j].lexeme@ == nm,
            decreases n - i,
        {
            match self.define_checked(&params[i], args[i]) {
                Ok(()) => {
                    i += 1;
                },
                Err(d) => {
                    self.current = saved;
                    return Err(BreakResult::Error(d));
                },
            }
        }
        let ghost bound_state = *self;
        let blk = Statement::Block(body);
        let res = self.execute(&blk, fuel - 1);
        self.current = saved;
        proof {
            // The executed body is a structural copy of the stored one, so the
            // stored body's leading statement fixes the copy's leading
            // statement, and the parameter bindings survive the body run:
            // nothing ever removes a binding from a scope.
            let ghost gblk = blk;
            match gblk {
                Statement::Block(bb) => {
                    if bb@.len() > 0 {
                        let orig = match old(self).funcs@[fidx as int] {
                            Callable::Function(ff) => ff.statement_list,
                            Callable::Lambda(ll) => ll.statement_list,
                            Callable::Builtin(_) => bb,  // a built-in returned long ago
                        };
                        assert(stmt_like(bb@[0], orig@[0]));
                        match orig@[0] {
                            Statement::Return(t, e) => {
                                assert(bb@[0] matches Statement::Return(t2, e2) && token_like(
                                    t2,
                                    t,
                                ) && expr_like(e2, e));
                                match e {
                                    Expression::Literal(li) => {
                                        assert(bb@[0] matches Statement::Return(t2, e2) && (e2
                                            matches Expression::Literal(l2) && lit_like(l2, li)));
                                    },
                                    _ => {},
                                }
                            },
                            Statement::Break(t) => {
                                assert(bb@[0] matches Statement::Break(t2) && token_like(t2, t));
                            },
                            _ => {},
                        }
                    }
                },
                _ => {},
            }
            match old(self).funcs@[fidx as int] {
                Callable::Function(ff) => {
                    assert forall|j: int| 0 <= j < ff.args_list@.len() implies
                        self.env.scopes@[scope as int]@.contains_key(
                        #[trigger] ff.args_list@[j].lexeme@,
                    ) by {
                        assert(ff.args_list@[j].lexeme@ == params@[j].lexeme@);
                        assert(bound_state.env.scopes@[scope as int]@.contains_key(
                            params@[j].lexeme@,
                        ));
                    }
                },
                Callable::Lambda(ll) => {
                    assert forall|j: int| 0 <= j < ll.args_list@.len() implies
                        self.env.scopes@[scope as int]@.contains_key(
                        #[trigger] ll.args_list@[j].lexeme@,
                    ) by {
                        assert(ll.args_list@[j].lexeme@ == params@[j].lexeme@);
                        assert(bound_state.env.scopes@[scope as int]@.contains_key(
                            params@[j].lexeme@,
                        ));
                    }
                },
                Callable::Builtin(_) => {},
            }
        }
        match res {
            Ok(()) => Ok(Value::Nil),
            Err(BreakResult::Return(_, v)) => Ok(v),
            Err(BreakResult::Break(bl)) => Err(
                BreakResult::Error(
                    Diagnostic { kind: ErrorKind::MisplacedControlFlow, line: bl },
                ),
            ),
            Err(BreakResult::Error(d)) => Err(BreakResult::Error(d)),
        }
    }

    /// Execute one statement against the current scope.
    #[verifier::loop_isolation(false)]
    pub fn execute(&mut self, stmt: &Statement, fuel: u32) -> (r: Result<(), BreakResult>)
        requires
            old(self).wf(),
        ensures
            final(self).wf(),
            old(self).evolves_to(*final(self)),
            final(self).current == old(self).current,
            ((*stmt) matches Statement::Break(t) ==> r == Err::<(), BreakResult>(
                BreakResult::Break(t.line),
            ) && *final(self) == *old(self)),
            ((*stmt) matches Statement::While(_, _) ==> !(r matches Err(s) && s is Break)),
            ((*stmt) matches Statement::Return(t, e) ==> (r matches Err(s) && (s is Return || s
                is Error))),
            ((*stmt) matches Statement::Return(t, e) ==> (e matches Expression::Literal(l) ==> (l
                matches Lit::Int(n) ==> r == Err::<(), BreakResult>(
                BreakResult::Return(t.line, Value::Int(n)),
            )))),
            (r matches Err(s) ==> (s matches BreakResult::Return(_, v) ==> final(self).val_ok(v))),
            ((*stmt) matches Statement::Function(_, _, _) ==> final(self).funcs@.len() == old(self).funcs@.len() + 1 && (final(self).funcs@.last() matches Callable::Function(f)
                && f.env == old(self).current)),
            ((*stmt) matches Statement::Function(name, _, _) ==> {
                &&& (r == Ok::<(), BreakResult>(()) <==> !old(self).env.scopes@[old(self).current as int]@.contains_key(name.lexeme@))
                &&& (r matches Ok(_) ==> final(self).env.scopes@[old(self).current as int]@ == old(self).env.scopes@[old(self).current as int]@.insert(
                    name.lexeme@,
                    Value::Call(old(self).funcs@.len() as usize),
                ))
                &&& (!(r matches Ok(_)) ==> r == Err::<(), BreakResult>(
                    BreakResult::Error(
                        Diagnostic { kind: ErrorKind::DuplicateDeclaration, line: name.line },
                    ),
                ))
            }),
            ((*stmt) matches Statement::Print(_) ==> (r matches Ok(_) ==> final(self).output@.len() >= old(self).output@.len() + 1)),
            ((*stmt) matches Statement::Print(e) ==> (e matches Expression::Literal(l) ==> (l
                matches Lit::Int(n) ==> r == Ok::<(), BreakResult>(()) && final(self).output@.len()
                == old(self).output@.len() + 1 && final(self).output@.last()@ == dec_rep(
                n as int,
            )))),
            ((*stmt) matches Statement::Var(var, _) ==> (r matches Ok(_) ==> final(self).env.scopes@[old(self).current as int]@.contains_key(var.lexeme@))),
            ((*stmt) matches Statement::Var(var, e) ==> (e matches Expression::Literal(l) ==> (l
                matches Lit::Int(n) ==> {
                &&& (r == Ok::<(), BreakResult>(()) <==> !old(self).env.scopes@[old(self).current as int]@.contains_key(var.lexeme@))
                &&& (r matches Ok(_) ==> final(self).env.scopes@[old(self).current as int]@ == old(self).env.scopes@[old(self).current as int]@.insert(var.lexeme@, Value::Int(n)))
                &&& (!(r matches Ok(_)) ==> r == Err::<(), BreakResult>(
                    BreakResult::Error(
                        Diagnostic { kind: ErrorKind::DuplicateDeclaration, line: var.line },
                    ),
                ))
            }))),
            ((*stmt) matches Statement::Block(_) ==> final(self).env.depth() >= old(self).env.depth() + 1 && final(self).env.scopes@[old(self).env.depth() as int].parent
                == Some(old(self).current)),
            ((*stmt) matches Statement::Block(ss) ==> (ss@.len() == 0 ==> r == Ok::<
                (),
                BreakResult,
            >(()))),
            ((*stmt) matches Statement::Block(ss) ==> (ss@.len() > 0 ==> (ss@[0] matches
                Statement::Break(t) ==> r == Err::<(), BreakResult>(BreakResult::Break(t.line))))),
            ((*stmt) matches Statement::Block(ss) ==> (ss@.len() > 0 ==> (ss@[0] matches
                Statement::Return(t, e) ==> (e matches Expression::Literal(l) ==> (l matches
                Lit::Int(n) ==> r == Err::<(), BreakResult>(
                BreakResult::Return(t.line, Value::Int(n)),
            )))))),
            ((*stmt) matches Statement::While(c, _) ==> (c matches Expression::Literal(l) ==> (l
                matches Lit::Int(z) ==> (z == 0 ==> r == Ok::<(), BreakResult>(()) && *final(self)
                == *old(self))))),
            ((*stmt) matches Statement::While(c, b) ==> (c matches Expression::Literal(l) ==> (l
                matches Lit::Int(z) ==> ((*b) matches Statement::Break(_) ==> (z != 0 ==> r
                == Ok::<(), BreakResult>(())))))),
        decreases fuel, stmt,
    {
        match stmt {
            Statement::Expression(e) => match self.evaluate(e, fuel) {
                Ok(_) => Ok(()),
                Err(s) => Err(s),
            },
            Statement::If(c, then_s, else_s) => {
                let cv = match self.evaluate(c, fuel) {
                    Ok(v) => v,
                    Err(s) => {
                        return Err(s);
                    },
                };
                if self.to_bool(&cv) {
                    self.execute(then_s, fuel)
                } else {
                    self.execute(else_s, fuel)
                }
            },
            Statement::Function(name, params, body) => {
                let f = Function {
                    name: name.clone(),
                    args_list: clone_tokens(params),
                    statement_list: clone_statements(body),
                    env: self.current,
                };
                let idx = self.push_callable(Callable::Function(f));
                match self.define_checked(name, Value::Call(idx)) {
                    Ok(()) => Ok(()),
                    Err(d) => Err(BreakResult::Error(d)),
                }
            },
            Statement::Print(e) => {
                let v = match self.evaluate(e, fuel) {
                    Ok(v) => v,
                    Err(s) => {
                        return Err(s);
                    },
                };
                let lineout = self.render_value(v, RENDER_DEPTH);
                self.output.push(lineout);
                Ok(())
            },
            Statement::Return(t, e) => {
                let v = match self.evaluate(e, fuel) {
                    Ok(v) => v,
                    Err(s) => {
                        return Err(s);
                    },
                };
                Err(BreakResult::Return(t.line, v))
            },
            Statement::Var(var, init) => {
                let v = match self.evaluate(init, fuel) {
                    Ok(v) => v,
                    Err(s) => {
                        return Err(s);
                    },
                };
                match self.define_checked(var, v) {
                    Ok(()) => Ok(()),
                    Err(d) => Err(BreakResult::Error(d)),
                }
            },
            Statement::Block(stmts) => {
                let saved = self.current;
                let scope = self.env.push_scope(saved);
                proof {
                    assert forall|i: int, n: Seq<u8>|
                        0 <= i < self.env.scopes@.len() && (
                        #[trigger] self.env.scopes@[i]@.contains_key(n)) implies self.val_ok(
                        self.env.scopes@[i]@[n],
                    ) by {
                        if i < old(self).env.scopes@.len() {
                            assert(old(self).env.scopes@[i]@.contains_key(n));
                        }
                    }
                }
                self.current = scope;
                let r = self.execute_all(stmts, fuel);
                self.current = saved;
                r
            },
            Statement::While(c, body) => {
                let mut steps: u64 = u64::MAX;
                loop
                    invariant
                        self.wf(),
                        old(self).evolves_to(*self),
                        self.current == old(self).current,
                        (match *c {
                            Expression::Literal(l) => (l matches Lit::Int(z) ==> (z == 0 ==> *self
                                == *old(self))),
                            _ => true,
                        }),
                    decreases steps,
                {
                    let cv = match self.evaluate(c, fuel) {
                        Ok(v) => v,
                        Err(s) => {
                            return Err(s);
                        },
                    };
                    if !self.to_bool(&cv) {
                        return Ok(());
                    }
                    match self.execute(body, fuel) {
                        Ok(()) => {},
                        Err(BreakResult::Break(_)) => {
                            return Ok(());
                        },
                        Err(s) => {
                            return Err(s);
                        },
                    }
                    if steps == 0 {
                        return Err(
                            BreakResult::Error(
                                Diagnostic { kind: ErrorKind::ResourceLimit, line: 0 },
                            ),
                        );
                    }
                    steps = steps - 1;
                }
            },
            Statement::Break(t) => Err(BreakResult::Break(t.line)),
        }
    }

    /// Execute statements in order, stopping at the first control-flow signal.
    #[verifier::loop_isolation(false)]
    pub fn execute_all(&mut self, stmts: &Vec<Statement>, fuel: u32) -> (r: Result<(), BreakResult>)
        requires
            old(self).wf(),
        ensures
            final(self).wf(),
            old(self).evolves_to(*final(self)),
            final(self).current == old(self).current,
            (r matches Err(s) ==> (s matches BreakResult::Return(_, v) ==> final(self).val_ok(v))),
            (stmts@.len() > 0 ==> (stmts@[0] matches Statement::Break(t) ==> r == Err::<
                (),
                BreakResult,
            >(BreakResult::Break(t.line)))),
            (stmts@.len() > 0 ==> (stmts@[0] matches Statement::Return(t, e) ==> (e matches
                Expression::Literal(l) ==> (l matches Lit::Int(n) ==> r == Err::<(), BreakResult>(
                BreakResult::Return(t.line, Value::Int(n)),
            ))))),
            (stmts@.len() == 0 ==> r == Ok::<(), BreakResult>(()) && *final(self) == *old(self)),
            (stmts@.len() == 1 ==> (stmts@[0] matches Statement::Print(e) ==> (e matches
                Expression::Literal(l) ==> (l matches Lit::Int(n) ==> r == Ok::<(), BreakResult>(
                (),
            ) && final(self).output@.len() == old(self).output@.len() + 1 && final(self).output@.last()@ == dec_rep(n as int))))),
            (stmts@.len() == 1 ==> (stmts@[0] matches Statement::Var(var, e) ==> (e matches
                Expression::Literal(l) ==> (l matches Lit::Int(n) ==> {
                &&& (r == Ok::<(), BreakResult>(()) <==> !old(self).env.scopes@[old(self).current as int]@.contains_key(var.lexeme@))
                &&& (r matches Ok(_) ==> final(self).env.scopes@[old(self).current as int]@ == old(self).env.scopes@[old(self).current as int]@.insert(var.lexeme@, Value::Int(n)))
                &&& (!(r matches Ok(_)) ==> r == Err::<(), BreakResult>(
                    BreakResult::Error(
                        Diagnostic { kind: ErrorKind::DuplicateDeclaration, line: var.line },
                    ),
                ))
            })))),
        decreases fuel, stmts,
    {
        let n = stmts.len();
        let mut i: usize = 0;
        while i < n
            invariant
                self.wf(),
                old(self).evolves_to(*self),
                self.current == old(self).current,
                n == stmts@.len(),
                i <= n,
                i > 0 ==> !(stmts@[0] matches Statement::Break(_)),
                i > 0 ==> !(stmts@[0] matches Statement::Return(t, e) && e matches
                    Expression::Literal(l) && l matches Lit::Int(_)),
                i == 0 ==> *self == *old(self),
                i == 1 ==> (stmts@[0] matches Statement::Print(e) ==> (e matches
                    Expression::Literal(l) ==> (l matches Lit::Int(m) ==> self.output@.len() == old(self).output@.len() + 1 && self.output@.last()@ == dec_rep(m as int)))),
                i == 1 ==> (stmts@[0] matches Statement::Var(var, e) ==> (e matches
                    Expression::Literal(l) ==> (l matches Lit::Int(m) ==> !old(self).env.scopes@[old(self).current as int]@.contains_key(var.lexeme@)
                    && self.env.scopes@[old(self).current as int]@ == old(self).env.scopes@[old(self).current as int]@.insert(var.lexeme@, Value::Int(m))))),
            decreases n - i,
        {
            let res = self.execute(&stmts[i], fuel);
            match res {
                Ok(()) => {
                    proof {
                        // `Ok(())` as a value, so the exact postconditions of
                        // `execute` (stated with `r == Ok(())`) apply.
                        assert(res->Ok_0 == ());
                        assert(res == Ok::<(), BreakResult>(()));
                    }
                    i += 1;
                },
                Err(s) => {
                    return Err(s);
                },
            }
        }
        Ok(())
    }

    /// Run a program against the current state. A `return` or `break` that
    /// escapes to the top level is reported as misplaced control flow, never
    /// executed.
    pub fn interpret(&mut self, statements: &Vec<Statement>) -> (r: Result<(), Diagnostic>)
        requires
            old(self).wf(),
        ensures
            final(self).wf(),
            old(self).evolves_to(*final(self)),
            final(self).current == old(self).current,
            (statements@.len() > 0 ==> (statements@[0] matches Statement::Break(t) ==> r == Err::<
                (),
                Diagnostic,
            >(Diagnostic { kind: ErrorKind::MisplacedControlFlow, line: t.line }))),
            (statements@.len() > 0 ==> (statements@[0] matches Statement::Return(t, e) ==> (e
                matches Expression::Literal(l) ==> (l matches Lit::Int(_) ==> r == Err::<
                (),
                Diagnostic,
            >(Diagnostic { kind: ErrorKind::MisplacedControlFlow, line: t.line }))))),
            (statements@.len() == 0 ==> r == Ok::<(), Diagnostic>(()) && *final(self) == *old(self)),
            (statements@.len() == 1 ==> (statements@[0] matches Statement::Print(e) ==> (e matches
                Expression::Literal(l) ==> (l matches Lit::Int(n) ==> r == Ok::<(), Diagnostic>(())
                && final(self).output@.len() == old(self).output@.len() + 1 && final(self).output@.last()@ == dec_rep(n as int))))),
            (statements@.len() == 1 ==> (statements@[0] matches Statement::Var(var, e) ==> (e
                matches Expression::Literal(l) ==> (l matches Lit::Int(n) ==> {
                &&& (r == Ok::<(), Diagnostic>(()) <==> !old(self).env.scopes@[old(self).current as int]@.contains_key(var.lexeme@))
                &&& (r matches Ok(_) ==> final(self).env.scopes@[old(self).current as int]@ == old(self).env.scopes@[old(self).current as int]@.insert(var.lexeme@, Value::Int(n)))
                &&& (!(r matches Ok(_)) ==> r == Err::<(), Diagnostic>(
                    Diagnostic { kind: ErrorKind::DuplicateDeclaration, line: var.line },
                ))
            })))),
    {
        let res = self.execute_all(statements, CALL_DEPTH);
        match res {
            Ok(()) => {
                proof {
                    // `Ok(())` as a value, so the exact postconditions of
                    // `execute_all` (stated with `r == Ok(())`) apply.
                    assert(res->Ok_0 == ());
                    assert(res == Ok::<(), BreakResult>(()));
                }
                Ok(())
            },
            Err(BreakResult::Error(d)) => Err(d),
            Err(BreakResult::Break(l)) => Err(
                Diagnostic { kind: ErrorKind::MisplacedControlFlow, line: l },
            ),
            Err(BreakResult::Return(l, _)) => Err(
                Diagnostic { kind: ErrorKind::MisplacedControlFlow, line: l },
            ),
        }
    }
}

/// How deep object-language calls may nest before the evaluator reports a
/// resource error instead of overrunning the host stack.
pub const CALL_DEPTH: u32 = 512;

/// How deep `print` descends into nested lists before it elides.
pub const RENDER_DEPTH: u32 = 8;

/// Resolver/runtime agreement, at the evaluator: a variable reference whose
/// recorded hop count is faithful to the live scope chain — no scope strictly
/// nearer than `h` hops binds the name, the scope exactly `h` hops out does —
/// evaluates to precisely the binding a dynamic name search would find. It
/// cannot fall through to `ResolverInconsistency`, and resolved and dynamic
/// lookup agree on the value.
pub proof fn lemma_variable_agreement<H: FloatHost>(it: Interpreter<H>, t: Token, h: i32)
    requires
        it.wf(),
        hops_of(it.locals@, t.id) == Some(h),
        h >= 0,
        it.env.ancestor(it.current as int, h as int) matches Some(k)
            && it.env.scopes@[k]@.contains_key(t.lexeme@),
        forall|j: int|
            0 <= j < h ==> ((#[trigger] it.env.ancestor(it.current as int, j)) matches Some(m)
                && !it.env.scopes@[m]@.contains_key(t.lexeme@)),
    ensures
        it.variable_outcome(t) is Ok,
        it.env.lookup(it.current as int, t.lexeme@) == Some(
            it.env.scopes@[it.env.ancestor(it.current as int, h as int)->Some_0]@[t.lexeme@],
        ),
        it.variable_outcome(t) == Ok::<Value, Diagnostic>(
            it.env.lookup(it.current as int, t.lexeme@)->Some_0,
        ),
{
    it.env.lemma_resolver_agreement(it.current as int, h as int, t.lexeme@);
}

/// List aliasing, first half: a list value denotes an arena cell, and binding
/// it to another name (`let b = a;`) copies the cell index, so both names
/// denote one list. After `append` through either alias — `append`'s contract
/// is this lemma's premise — the cell both aliases denote has grown by exactly
/// the appended element, with everything it already held intact, so `len`
/// through the other alias counts the new element too.
pub proof fn lemma_alias_sees_append<H: FloatHost>(
    pre: Interpreter<H>,
    post: Interpreter<H>,
    li: usize,
    v: Value,
)
    requires
        li < pre.lists@.len(),
        post.lists_model() == pre.lists_model().update(
            li as int,
            pre.lists_model()[li as int].push(v),
        ),
    ensures
        post.lists_model()[li as int].len() == pre.lists_model()[li as int].len() + 1,
        post.lists_model()[li as int].last() == v,
        forall|j: int|
            0 <= j < pre.lists_model()[li as int].len() ==> post.lists_model()[li as int][j]
                == pre.lists_model()[li as int][j],
{
}

/// List aliasing, second half: `copy` breaks the sharing. Its contract — this
/// lemma's premise — puts the elements into a fresh cell at the end of the
/// arena, so the copy and the original are different cells holding equal
/// elements, and later mutation through one cannot be seen through the other.
pub proof fn lemma_copy_breaks_alias<H: FloatHost>(
    pre: Interpreter<H>,
    post: Interpreter<H>,
    li: usize,
)
    requires
        li < pre.lists@.len(),
        post.lists_model() == pre.lists_model().push(pre.lists_model()[li as int]),
    ensures
        post.lists_model().len() - 1 != li as int,
        post.lists_model()[post.lists_model().len() - 1] == pre.lists_model()[li as int],
        post.lists_model()[li as int] == pre.lists_model()[li as int],
{
}

/// Append `src`'s values to `dst`.
pub fn append_vals(dst: &mut Vec<Value>, src: &Vec<Value>)
    ensures
        final(dst)@ == old(dst)@ + src@,
{
    let n = src.len();
    let mut i: usize = 0;
    while i < n
        invariant
            n == src@.len(),
            i <= n,
            dst@ =~= old(dst)@ + src@.subrange(0, i as int),
        decreases n - i,
    {
        dst.push(src[i]);
        i += 1;
    }
    assert(dst@ =~= old(dst)@ + src@);
}

/// Append `src`'s bytes to `dst`.
pub fn append_bytes(dst: &mut Vec<u8>, src: &Vec<u8>)
    ensures
        final(dst)@ == old(dst)@ + src@,
{
    let n = src.len();
    let mut i: usize = 0;
    while i < n
        invariant
            n == src@.len(),
            i <= n,
            dst@ =~= old(dst)@ + src@.subrange(0, i as int),
        decreases n - i,
    {
        dst.push(src[i]);
        i += 1;
    }
    assert(dst@ =~= old(dst)@ + src@);
}

/// Is one numeric tag an `Int` and the other a `Float`?
pub open spec fn mixed_numeric(a: Value, b: Value) -> bool {
    (a is Int && b is Float) || (a is Float && b is Int)
}

} // verus!
